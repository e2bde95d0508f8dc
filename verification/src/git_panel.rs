//! The git panel's dockable state: the events it emits, its position and
//! size rules, and its status-bar icon. Rendering and focus handling belong
//! to the UI layer around the library.

use crate::git_panel_settings::{GitPanelDockPosition, GitPanelSettings, GitPanelSettingsContent};
use crate::text::dec_chars;
use vstd::prelude::*;

verus! {

/// The events the panel emits towards the workspace.
#[derive(Clone, Copy, Debug, PartialEq, Eq, Structural)]
pub enum Event {
    DockPositionChanged,
    Focus,
    Dismissed,
}

/// A dock position the workspace offers to panels.
#[derive(Clone, Copy, Debug, PartialEq, Eq, Structural)]
pub enum DockPosition {
    Left,
    Bottom,
    Right,
}

/// The icons the panel may show.
#[derive(Clone, Copy, Debug, PartialEq, Eq, Structural)]
pub enum IconName {
    File,
    BellDot,
}

/// The dock position a settings value asks for.
pub open spec fn dock_of(d: GitPanelDockPosition) -> DockPosition {
    match d {
        GitPanelDockPosition::Left => DockPosition::Left,
        GitPanelDockPosition::Right => DockPosition::Right,
    }
}

/// The panel's model state: the width the user resized it to, if any, and
/// whether it is the active panel.
pub struct GitPanel {
    pub width: Option<u32>,
    pub active: bool,
}

impl GitPanel {
    /// A fresh panel: default width, not active.
    pub fn new() -> (r: GitPanel)
        ensures
            r.width is None,
            !r.active,
    {
        GitPanel { width: None, active: false }
    }

    /// The name under which the panel's state persists.
    pub fn persistent_name() -> (r: &'static str)
        ensures
            r@ == "GitPanel"@,
    {
        "GitPanel"
    }

    /// Where the panel docks, per the settings.
    pub fn position(settings: &GitPanelSettings) -> (r: DockPosition)
        ensures
            r == dock_of(settings.dock),
    {
        match settings.dock {
            GitPanelDockPosition::Left => DockPosition::Left,
            GitPanelDockPosition::Right => DockPosition::Right,
        }
    }

    /// The panel accepts the left and right docks, never the bottom one.
    pub fn position_is_valid(position: DockPosition) -> (r: bool)
        ensures
            r == (position is Left || position is Right),
    {
        match position {
            DockPosition::Left | DockPosition::Right => true,
            DockPosition::Bottom => false,
        }
    }

    /// Record a dock choice in a settings content, leaving the other fields
    /// as they were.
    pub fn set_position(content: &mut GitPanelSettingsContent, position: GitPanelDockPosition)
        ensures
            final(content).dock == Some(position),
            final(content).button == old(content).button,
            final(content).default_width == old(content).default_width,
    {
        content.dock = Some(position);
    }

    /// The panel's width: the user's override, or the settings default.
    pub fn size(&self, settings: &GitPanelSettings) -> (r: u32)
        ensures
            self.width matches Some(w) ==> r == w,
            self.width is None ==> r == settings.default_width,
    {
        match self.width {
            Some(w) => w,
            None => settings.default_width,
        }
    }

    /// Resize the panel, or clear the override.
    pub fn set_size(&mut self, size: Option<u32>)
        ensures
            final(self).width == size,
            final(self).active == old(self).active,
    {
        self.width = size;
    }

    /// Mark the panel active or inactive.
    pub fn set_active(&mut self, active: bool)
        ensures
            final(self).active == active,
            final(self).width == old(self).width,
    {
        self.active = active;
    }

    /// The status-bar icon: shown only while the settings ask for a button.
    pub fn icon(settings: &GitPanelSettings) -> (r: Option<IconName>)
        ensures
            settings.button ==> r == Some(IconName::BellDot),
            !settings.button ==> r is None,
    {
        if !settings.button {
            return None;
        }
        Some(IconName::BellDot)
    }

    /// The icon's tooltip.
    pub fn icon_tooltip() -> (r: &'static str)
        ensures
            r@ == "Notification Panel"@,
    {
        "Notification Panel"
    }

    /// The label beside the icon: nothing at zero, the decimal count
    /// otherwise.
    pub fn icon_label(count: u64) -> (r: Option<String>)
        ensures
            count == 0 ==> r is None,
            count > 0 ==> (r matches Some(s) && s@ == dec_chars(count as nat)),
    {
        if count == 0 {
            None
        } else {
            Some(crate::text::u64_to_string(count))
        }
    }

    /// The event a dock change emits.
    pub fn dock_changed_event() -> (r: Event)
        ensures
            r is DockPositionChanged,
    {
        Event::DockPositionChanged
    }
}

} // verus!
