//! The git panel's settings: a resolved value, the partial content a
//! settings file may carry, and the field-wise merge that resolves a stack
//! of sources.

use vstd::prelude::*;

verus! {

/// The side of the workspace the git panel docks to.
#[derive(Clone, Copy, Debug, PartialEq, Eq, Structural)]
pub enum GitPanelDockPosition {
    Left,
    Right,
}

/// The git panel's resolved settings: whether its status-bar button shows,
/// its default width in whole pixels, and where it docks.
#[derive(Clone, Copy, Debug, PartialEq, Eq, Structural)]
pub struct GitPanelSettings {
    pub button: bool,
    pub default_width: u32,
    pub dock: GitPanelDockPosition,
}

/// One settings source's content: each field may be left out to inherit the
/// value of the sources beneath it.
#[derive(Clone, Copy, Debug)]
pub struct GitPanelSettingsContent {
    pub button: Option<bool>,
    pub default_width: Option<u32>,
    pub dock: Option<GitPanelDockPosition>,
}

impl Default for GitPanelSettingsContent {
    /// The bundled default content: the status-bar button shown, 240 pixels
    /// wide, docked on the left.
    fn default() -> (r: GitPanelSettingsContent)
        ensures
            r.button == Some(true),
            r.default_width == Some(240u32),
            r.dock == Some(GitPanelDockPosition::Left),
    {
        GitPanelSettingsContent {
            button: Some(true),
            default_width: Some(240),
            dock: Some(GitPanelDockPosition::Left),
        }
    }
}

/// A present field overrides the one beneath it.
pub open spec fn merged_opt<T>(base: Option<T>, over: Option<T>) -> Option<T> {
    if over is Some {
        over
    } else {
        base
    }
}

/// The field-wise merge of the default content with the user's sources, in
/// ascending precedence.
pub open spec fn merged_content(
    base: GitPanelSettingsContent,
    user: Seq<GitPanelSettingsContent>,
) -> GitPanelSettingsContent
    decreases user.len(),
{
    if user.len() == 0 {
        base
    } else {
        let prev = merged_content(base, user.drop_last());
        GitPanelSettingsContent {
            button: merged_opt(prev.button, user.last().button),
            default_width: merged_opt(prev.default_width, user.last().default_width),
            dock: merged_opt(prev.dock, user.last().dock),
        }
    }
}

/// The settings a complete content resolves to; an incomplete one resolves
/// to nothing.
pub open spec fn settings_of(c: GitPanelSettingsContent) -> Option<GitPanelSettings> {
    if c.button is Some && c.default_width is Some && c.dock is Some {
        Some(
            GitPanelSettings {
                button: c.button.unwrap(),
                default_width: c.default_width.unwrap(),
                dock: c.dock.unwrap(),
            },
        )
    } else {
        None
    }
}

/// What a settings load sees: the bundled default content and the user's
/// overriding sources, in ascending precedence.
pub struct SettingsSources {
    pub default_content: GitPanelSettingsContent,
    pub user: Vec<GitPanelSettingsContent>,
}

/// A settings load fails only when the merged content still misses a field.
#[derive(Clone, Copy, Debug, PartialEq, Eq, Structural)]
pub enum SettingsError {
    MissingField,
}

/// Merge two contents, the second overriding the first field by field.
pub fn merge_content(
    base: &GitPanelSettingsContent,
    over: &GitPanelSettingsContent,
) -> (r: GitPanelSettingsContent)
    ensures
        r.button == merged_opt(base.button, over.button),
        r.default_width == merged_opt(base.default_width, over.default_width),
        r.dock == merged_opt(base.dock, over.dock),
{
    GitPanelSettingsContent {
        button: if over.button.is_some() {
            over.button
        } else {
            base.button
        },
        default_width: if over.default_width.is_some() {
            over.default_width
        } else {
            base.default_width
        },
        dock: if over.dock.is_some() {
            over.dock
        } else {
            base.dock
        },
    }
}

impl GitPanelSettings {
    /// Resolve the sources: merge them field-wise, later sources winning,
    /// and demand that the result leaves no field open.
    pub fn load(sources: &SettingsSources) -> (r: Result<GitPanelSettings, SettingsError>)
        ensures
            ({
                let m = merged_content(sources.default_content, sources.user@);
                match settings_of(m) {
                    Some(s) => r matches Ok(got) && got == s,
                    None => r matches Err(e) && e is MissingField,
                }
            }),
    {
        let n: usize = sources.user.len();
        let mut cur: GitPanelSettingsContent = sources.default_content;
        let mut i: usize = 0;
        proof {
            assert(sources.user@.take(0) =~= Seq::<GitPanelSettingsContent>::empty());
            assert(cur.button == merged_content(sources.default_content, sources.user@.take(0)).button);
        }
        while i < n
            invariant
                n == sources.user@.len(),
                0 <= i <= n,
                cur.button == merged_content(sources.default_content, sources.user@.take(i as int)).button,
                cur.default_width == merged_content(
                    sources.default_content,
                    sources.user@.take(i as int),
                ).default_width,
                cur.dock == merged_content(sources.default_content, sources.user@.take(i as int)).dock,
            decreases n - i,
        {
            proof {
                assert(sources.user@.take(i as int + 1).drop_last() =~= sources.user@.take(
                    i as int,
                ));
                assert(sources.user@.take(i as int + 1).last() == sources.user@[i as int]);
            }
            cur = merge_content(&cur, &sources.user[i]);
            i += 1;
        }
        proof {
            assert(sources.user@.take(n as int) =~= sources.user@);
        }
        match (cur.button, cur.default_width, cur.dock) {
            (Some(button), Some(default_width), Some(dock)) => Ok(
                GitPanelSettings { button, default_width, dock },
            ),
            _ => Err(SettingsError::MissingField),
        }
    }
}

} // verus!
