//! Application-level preferences: login item, menu bar icon, theme and accent.
use vstd::prelude::*;

verus! {

/// The colour theme the user prefers.
#[derive(Debug, Clone, Copy, PartialEq, Eq, Structural)]
pub enum ThemePreference {
    System,
    Light,
    Dark,
}

impl ThemePreference {
    /// The name the settings show.
    pub fn label(self) -> (r: &'static str)
        ensures
            r@ == match self {
                ThemePreference::System => "System"@,
                ThemePreference::Light => "Light"@,
                ThemePreference::Dark => "Dark"@,
            },
    {
        match self {
            ThemePreference::System => "System",
            ThemePreference::Light => "Light",
            ThemePreference::Dark => "Dark",
        }
    }
}

/// How the menu bar icon is drawn.
#[derive(Debug, Clone, Copy, PartialEq, Eq, Structural)]
pub enum MenuBarIcon {
    Default,
    Monochrome,
}

/// The accent colour of the interface and the overlay.
#[derive(Debug, Clone, Copy, PartialEq, Eq, Structural)]
pub enum ColorAccent {
    Purple,
    Blue,
    Orange,
    Slate,
}

impl ColorAccent {
    /// The name the settings show.
    pub fn label(self) -> (r: &'static str)
        ensures
            r@ == match self {
                ColorAccent::Purple => "Purple"@,
                ColorAccent::Blue => "Blue"@,
                ColorAccent::Orange => "Orange"@,
                ColorAccent::Slate => "Slate"@,
            },
    {
        match self {
            ColorAccent::Purple => "Purple",
            ColorAccent::Blue => "Blue",
            ColorAccent::Orange => "Orange",
            ColorAccent::Slate => "Slate",
        }
    }

    /// Path of the app icon preview for this accent.
    pub fn icon_asset(self) -> (r: &'static str)
        ensures
            r@ == match self {
                ColorAccent::Purple => "assets/icons/AppIcon-Purple.png"@,
                ColorAccent::Blue => "assets/icons/AppIcon-Blue.png"@,
                ColorAccent::Orange => "assets/icons/AppIcon-Orange.png"@,
                ColorAccent::Slate => "assets/icons/AppIcon-Slate.png"@,
            },
    {
        match self {
            ColorAccent::Purple => "assets/icons/AppIcon-Purple.png",
            ColorAccent::Blue => "assets/icons/AppIcon-Blue.png",
            ColorAccent::Orange => "assets/icons/AppIcon-Orange.png",
            ColorAccent::Slate => "assets/icons/AppIcon-Slate.png",
        }
    }
}

impl Default for ColorAccent {
    /// Slate.
    fn default() -> (r: ColorAccent)
        ensures
            r == ColorAccent::Slate,
    {
        ColorAccent::Slate
    }
}

/// Application-level preferences.
#[derive(Debug, Clone, Copy, PartialEq, Eq, Structural)]
pub struct AppConfig {
    pub launch_at_login: bool,
    pub menu_bar_icon: MenuBarIcon,
    pub theme: ThemePreference,
    pub accent: ColorAccent,
    pub onboarding_completed: bool,
}

impl AppConfig {
    /// The preferences of a fresh configuration.
    pub open spec fn default_spec() -> AppConfig {
        AppConfig {
            launch_at_login: false,
            menu_bar_icon: MenuBarIcon::Default,
            theme: ThemePreference::System,
            accent: ColorAccent::Slate,
            onboarding_completed: false,
        }
    }
}

impl Default for AppConfig {
    /// Not launched at login, the default icon, the system theme, the slate
    /// accent, onboarding not completed.
    fn default() -> (r: AppConfig)
        ensures
            r == AppConfig::default_spec(),
    {
        AppConfig {
            launch_at_login: false,
            menu_bar_icon: MenuBarIcon::Default,
            theme: ThemePreference::System,
            accent: ColorAccent::Slate,
            onboarding_completed: false,
        }
    }
}

} // verus!
