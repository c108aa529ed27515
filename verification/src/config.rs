//! The user configuration: per-theme styles, the schedule, and the paths the
//! tool works with.

use vstd::prelude::*;

use crate::schedule::{spec_default_windows, Schedule};
use crate::theme::Style;

verus! {

/// Everything a run of the tool is configured with.
#[derive(Clone, Debug)]
pub struct Config {
    /// Where the configuration file itself lives.
    pub path: String,
    /// Style applied for the Light theme.
    pub light: Style,
    /// Style applied for the Dark theme.
    pub dark: Style,
    /// The time-of-day schedule.
    pub schedule: Schedule,
    /// The terminal RC file whose default profile is rewritten.
    pub konsolerc: String,
}

/// Relies on dirs::config_dir: the per-user configuration directory derived
/// from the environment, or nothing when none can be determined.
#[verifier::external_body]
pub fn config_dir() -> (r: Option<String>) {
    dirs::config_dir().map(|p| p.to_string_lossy().into_owned())
}

/// The built-in Light style.
pub open spec fn spec_default_light_style(s: Style) -> bool {
    &&& s.wallpaper@ == "/usr/share/wallpapers/Bamboo/contents/images/5120x2880.png"@
    &&& s.color_scheme@ == "BreathLight"@
    &&& s.desktop_theme@ == "breath"@
    &&& s.terminal_profile@ == "light"@
}

/// The built-in Dark style.
pub open spec fn spec_default_dark_style(s: Style) -> bool {
    &&& s.wallpaper@ == "/usr/share/wallpapers/Bamboo at Night/contents/images/5120x2880.png"@
    &&& s.color_scheme@ == "BreathDark"@
    &&& s.desktop_theme@ == "breath-dark"@
    &&& s.terminal_profile@ == "dark"@
}

impl Config {
    /// The built-in configuration, rooted at the given per-user
    /// configuration directory.
    pub fn default_with_dir(dir: &str) -> (c: Config)
        ensures
            c.path@ == dir@ + "/kswitch/config.toml"@,
            spec_default_light_style(c.light),
            spec_default_dark_style(c.dark),
            c.schedule@ == spec_default_windows(),
            c.konsolerc@ == dir@ + "/konsolerc"@,
    {
        let mut path = dir.to_owned();
        path.append("/kswitch/config.toml");
        let mut konsolerc = dir.to_owned();
        konsolerc.append("/konsolerc");
        Config {
            path,
            light: Style {
                wallpaper: "/usr/share/wallpapers/Bamboo/contents/images/5120x2880.png".to_owned(),
                color_scheme: "BreathLight".to_owned(),
                desktop_theme: "breath".to_owned(),
                terminal_profile: "light".to_owned(),
            },
            dark: Style {
                wallpaper: "/usr/share/wallpapers/Bamboo at Night/contents/images/5120x2880.png".to_owned(),
                color_scheme: "BreathDark".to_owned(),
                desktop_theme: "breath-dark".to_owned(),
                terminal_profile: "dark".to_owned(),
            },
            schedule: Schedule::default(),
            konsolerc,
        }
    }
}

/// The editor a config edit spawns: the one the environment names, or
/// `nano` when it names none.
pub fn editor_or_default(editor: Option<String>) -> (r: String)
    ensures
        editor matches Some(e) ==> r@ == e@,
        editor is None ==> r@ == "nano"@,
{
    match editor {
        Some(e) => e,
        None => "nano".to_owned(),
    }
}

impl Default for Config {
    /// The built-in configuration, rooted at the per-user configuration
    /// directory, or at `~/.config` when none can be determined.
    fn default() -> (c: Config)
        ensures
            spec_default_light_style(c.light),
            spec_default_dark_style(c.dark),
            c.schedule@ == spec_default_windows(),
    {
        match config_dir() {
            Some(dir) => Config::default_with_dir(dir.as_str()),
            None => Config::default_with_dir("~/.config"),
        }
    }
}

} // verus!
