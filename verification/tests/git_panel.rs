use file_command::git_panel::{DockPosition, Event, GitPanel, IconName};
use file_command::git_panel_settings::{
    GitPanelDockPosition, GitPanelSettings, GitPanelSettingsContent, SettingsError,
    SettingsSources,
};

fn full_default() -> GitPanelSettingsContent {
    GitPanelSettingsContent::default()
}

#[test]
fn bundled_defaults_are_the_documented_ones() {
    let d = GitPanelSettingsContent::default();
    assert_eq!(d.button, Some(true));
    assert_eq!(d.default_width, Some(240));
    assert_eq!(d.dock, Some(GitPanelDockPosition::Left));
}

fn empty_content() -> GitPanelSettingsContent {
    GitPanelSettingsContent { button: None, default_width: None, dock: None }
}

#[test]
fn defaults_load_unchanged() {
    let sources = SettingsSources { default_content: full_default(), user: vec![] };
    let settings = GitPanelSettings::load(&sources).unwrap();
    assert_eq!(
        settings,
        GitPanelSettings {
            button: true,
            default_width: 240,
            dock: GitPanelDockPosition::Left,
        }
    );
}

#[test]
fn user_source_overrides_fields_it_sets() {
    let mut user = empty_content();
    user.dock = Some(GitPanelDockPosition::Right);
    let sources = SettingsSources { default_content: full_default(), user: vec![user] };
    let settings = GitPanelSettings::load(&sources).unwrap();
    assert_eq!(settings.dock, GitPanelDockPosition::Right);
    assert_eq!(settings.button, true);
    assert_eq!(settings.default_width, 240);
}

#[test]
fn later_source_wins() {
    let mut first = empty_content();
    first.default_width = Some(300);
    let mut second = empty_content();
    second.default_width = Some(360);
    let sources = SettingsSources { default_content: full_default(), user: vec![first, second] };
    let settings = GitPanelSettings::load(&sources).unwrap();
    assert_eq!(settings.default_width, 360);
}

#[test]
fn incomplete_merge_is_an_error() {
    let mut base = full_default();
    base.button = None;
    let sources = SettingsSources { default_content: base, user: vec![empty_content()] };
    assert_eq!(GitPanelSettings::load(&sources).unwrap_err(), SettingsError::MissingField);
}

#[test]
fn panel_size_prefers_user_width() {
    let settings = GitPanelSettings {
        button: true,
        default_width: 240,
        dock: GitPanelDockPosition::Left,
    };
    let mut panel = GitPanel::new();
    assert_eq!(panel.size(&settings), 240);
    panel.set_size(Some(300));
    assert_eq!(panel.size(&settings), 300);
    panel.set_size(None);
    assert_eq!(panel.size(&settings), 240);
}

#[test]
fn panel_activity_toggles() {
    let mut panel = GitPanel::new();
    assert!(!panel.active);
    panel.set_active(true);
    assert!(panel.active);
}

#[test]
fn panel_positions() {
    let settings = GitPanelSettings {
        button: true,
        default_width: 240,
        dock: GitPanelDockPosition::Right,
    };
    assert_eq!(GitPanel::position(&settings), DockPosition::Right);
    assert!(GitPanel::position_is_valid(DockPosition::Left));
    assert!(GitPanel::position_is_valid(DockPosition::Right));
    assert!(!GitPanel::position_is_valid(DockPosition::Bottom));
}

#[test]
fn set_position_touches_only_the_dock() {
    let mut content = full_default();
    GitPanel::set_position(&mut content, GitPanelDockPosition::Right);
    assert_eq!(content.dock, Some(GitPanelDockPosition::Right));
    assert_eq!(content.button, Some(true));
    assert_eq!(content.default_width, Some(240));
    assert_eq!(GitPanel::dock_changed_event(), Event::DockPositionChanged);
}

#[test]
fn icon_follows_button_setting() {
    let mut settings = GitPanelSettings {
        button: true,
        default_width: 240,
        dock: GitPanelDockPosition::Left,
    };
    assert_eq!(GitPanel::icon(&settings), Some(IconName::BellDot));
    settings.button = false;
    assert_eq!(GitPanel::icon(&settings), None);
}

#[test]
fn icon_label_counts_in_decimal() {
    assert_eq!(GitPanel::icon_label(0), None);
    assert_eq!(GitPanel::icon_label(1), Some("1".to_string()));
    assert_eq!(GitPanel::icon_label(42), Some("42".to_string()));
    assert_eq!(GitPanel::icon_label(1234567890), Some("1234567890".to_string()));
}

#[test]
fn names_and_tooltips() {
    assert_eq!(GitPanel::persistent_name(), "GitPanel");
    assert_eq!(GitPanel::icon_tooltip(), "Notification Panel");
}
