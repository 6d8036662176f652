//! Appearance of a menu: the dark and light palettes and the numeric layout
//! configuration.
use vstd::prelude::*;

verus! {

/// Which of the two palettes a menu is drawn with.
#[derive(Clone, Copy, Debug, PartialEq, Eq, Structural)]
pub enum Theme {
    Dark,
    Light,
}

/// One palette. Colours are `0x00BBGGRR` values.
#[derive(Clone, Copy, Debug, PartialEq, Eq, Structural)]
pub struct ColorScheme {
    /// Text of an enabled item.
    pub color: u32,
    /// Window frame, separator rule and the highlight under the pointer.
    pub border: u32,
    /// Text of a disabled item, and every accelerator hint.
    pub disabled: u32,
    pub background_color: u32,
}

impl ColorScheme {
    /// The palette a dark menu starts with.
    pub open spec fn default_dark() -> ColorScheme {
        ColorScheme {
            color: 0x00e7e0e0,
            border: 0x00454545,
            disabled: 0x00565659,
            background_color: 0x00252526,
        }
    }

    /// The palette a light menu starts with.
    pub open spec fn default_light() -> ColorScheme {
        ColorScheme {
            color: 0x000e0e0e,
            border: 0x00e9e2e2,
            disabled: 0x00565659,
            background_color: 0x00f5f5f5,
        }
    }

    /// The palette a dark menu starts with.
    pub fn dark() -> (scheme: ColorScheme)
        ensures
            scheme == ColorScheme::default_dark(),
    {
        ColorScheme {
            color: 0x00e7e0e0,
            border: 0x00454545,
            disabled: 0x00565659,
            background_color: 0x00252526,
        }
    }

    /// The palette a light menu starts with.
    pub fn light() -> (scheme: ColorScheme)
        ensures
            scheme == ColorScheme::default_light(),
    {
        ColorScheme {
            color: 0x000e0e0e,
            border: 0x00e9e2e2,
            disabled: 0x00565659,
            background_color: 0x00f5f5f5,
        }
    }
}

/// The two palettes a menu can switch between.
#[derive(Clone, Copy, Debug, PartialEq, Eq, Structural)]
pub struct ThemeColor {
    pub dark: ColorScheme,
    pub light: ColorScheme,
}

impl ThemeColor {
    /// The palettes a menu starts with.
    pub open spec fn initial() -> ThemeColor {
        ThemeColor { dark: ColorScheme::default_dark(), light: ColorScheme::default_light() }
    }
}

impl Default for ThemeColor {
    fn default() -> (colors: Self)
        ensures
            colors == ThemeColor::initial(),
    {
        ThemeColor { dark: ColorScheme::dark(), light: ColorScheme::light() }
    }
}

/// The palettes together with the flag that picks one of them.
#[derive(Clone, Copy, Debug, PartialEq, Eq, Structural)]
pub struct MenuTheme {
    pub is_dark: bool,
    pub color: ThemeColor,
}

impl Default for MenuTheme {
    fn default() -> (theme: Self)
        ensures
            theme == MenuTheme::initial(),
    {
        MenuTheme { is_dark: false, color: ThemeColor::default() }
    }
}

impl MenuTheme {
    /// The theme a menu starts with: light, with the initial palettes.
    pub open spec fn initial() -> MenuTheme {
        MenuTheme { is_dark: false, color: ThemeColor::initial() }
    }

    /// The palette in force: the dark one exactly when `is_dark` is set.
    pub open spec fn scheme(self) -> ColorScheme {
        if self.is_dark {
            self.color.dark
        } else {
            self.color.light
        }
    }

    /// The dark/light flag as a `Theme`.
    pub open spec fn kind(self) -> Theme {
        if self.is_dark {
            Theme::Dark
        } else {
            Theme::Light
        }
    }
}

/// Resolves the palette a theme paints with.
pub fn get_color_scheme(theme: &MenuTheme) -> (scheme: &ColorScheme)
    ensures
        *scheme == theme.scheme(),
{
    if theme.is_dark {
        &theme.color.dark
    } else {
        &theme.color.light
    }
}

/// Frame, margins and padding of a menu, in pixels.
#[derive(Clone, Copy, Debug, PartialEq, Eq, Structural)]
pub struct MenuSize {
    /// Thickness of the frame drawn around the menu.
    pub border_width: i32,
    /// Blank band above the first and below the last item.
    pub vertical_margin: i32,
    /// Added to the font's line height to give an item's height.
    pub item_vertical_padding: i32,
    /// Blank space on either side of an item's text.
    pub item_horizontal_padding: i32,
}

impl MenuSize {
    /// The sizes a menu starts with.
    pub open spec fn initial() -> MenuSize {
        MenuSize {
            border_width: 1,
            vertical_margin: 2,
            item_vertical_padding: 12,
            item_horizontal_padding: 5,
        }
    }
}

impl Default for MenuSize {
    fn default() -> (size: Self)
        ensures
            size == MenuSize::initial(),
    {
        MenuSize {
            border_width: 1,
            vertical_margin: 2,
            item_vertical_padding: 12,
            item_horizontal_padding: 5,
        }
    }
}

/// Everything a new menu can be configured with.
#[derive(Clone, Copy, Debug, PartialEq, Eq, Structural)]
pub struct Config {
    pub size: MenuSize,
    pub theme: MenuTheme,
}

impl Default for Config {
    fn default() -> (config: Self)
        ensures
            config == (Config { size: MenuSize::initial(), theme: MenuTheme::initial() }),
    {
        Config { size: MenuSize::default(), theme: MenuTheme::default() }
    }
}

} // verus!
