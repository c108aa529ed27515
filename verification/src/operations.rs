//! Applying a theme: the decisions behind the orchestrator. The outside
//! effects (spawned tools, the session bus, files) are carried out by the
//! surrounding program; this module fixes, and proves, exactly what each
//! phase is given to do.

use vstd::prelude::*;

use crate::config::Config;
use crate::state::{spec_state_file, render_state};
use crate::theme::{theme_chars, Style, Theme};

verus! {

/// The style a theme selects from the configuration.
pub open spec fn spec_style_for(c: Config, t: Theme) -> Style {
    match t {
        Theme::Light => c.light,
        Theme::Dark => c.dark,
    }
}

/// Everything one application of a theme does, phase by phase: the three
/// visual setters started together, then the terminal profile, then the
/// state write, then the hook directory.
#[derive(Clone, Debug)]
pub struct ApplyPlan {
    /// Desktop theme name handed to the desktop-theme setter.
    pub desktop_theme: String,
    /// Wallpaper path handed to the wallpaper setter.
    pub wallpaper: String,
    /// Color scheme name handed to the color-scheme setter.
    pub color_scheme: String,
    /// Theme name the terminal sessions are switched to; the terminal RC
    /// file's default profile becomes this name with `.profile` appended.
    pub profile: String,
    /// Exact contents the state file is rewritten with.
    pub state_contents: String,
    /// Name of the per-theme hook directory under the tool's configuration
    /// directory.
    pub hook_subdir: String,
}

/// The style a theme selects from the configuration.
pub fn style_for<'a>(theme: &Theme, config: &'a Config) -> (s: &'a Style)
    ensures
        *s == spec_style_for(*config, *theme),
{
    match theme {
        Theme::Light => &config.light,
        Theme::Dark => &config.dark,
    }
}

/// Lays out one application of `theme`: each phase of the orchestrator gets
/// exactly the values of the selected style, the theme's name, and the state
/// file contents that persist it.
pub fn plan(theme: &Theme, config: &Config) -> (p: ApplyPlan)
    ensures
        p.desktop_theme@ == spec_style_for(*config, *theme).desktop_theme@,
        p.wallpaper@ == spec_style_for(*config, *theme).wallpaper@,
        p.color_scheme@ == spec_style_for(*config, *theme).color_scheme@,
        p.profile@ == theme_chars(*theme),
        p.state_contents@ == spec_state_file(*theme),
        p.hook_subdir@ == theme_chars(*theme),
{
    let style = style_for(theme, config);
    ApplyPlan {
        desktop_theme: style.desktop_theme.clone(),
        wallpaper: style.wallpaper.clone(),
        color_scheme: style.color_scheme.clone(),
        profile: theme.to_string(),
        state_contents: render_state(theme),
        hook_subdir: theme.to_string(),
    }
}

} // verus!
