//! Which colours the screen is drawn in.

use crate::app::{App, AppView};
use crate::ui::Ui;
use vstd::prelude::*;

verus! {

/// A colour, or the terminal's own.
#[derive(Debug, Clone, Copy, PartialEq, Eq, Structural)]
pub enum Shade {
    Reset,
    Rgb { red: u8, green: u8, blue: u8 },
}

/// What each part of the screen is drawn in.
#[derive(Debug, Clone, Copy, PartialEq, Eq, Structural)]
pub struct ThemeColors {
    pub primary: Shade,
    pub secondary: Shade,
    pub accent: Shade,
    pub interactive: Shade,
    pub background: Shade,
    pub dialog_background: Shade,
    pub background_element: Shade,
    pub text: Shade,
    pub text_weak: Shade,
    pub text_strong: Shade,
    pub border: Shade,
    pub border_weak_focus: Shade,
    pub border_focus: Shade,
    pub border_strong_focus: Shade,
    pub success: Shade,
    pub warning: Shade,
    pub error: Shade,
    pub info: Shade,
    pub markdown_text: Shade,
    pub markdown_heading: Shade,
    pub markdown_link: Shade,
    pub markdown_link_text: Shade,
    pub markdown_code: Shade,
    pub markdown_block_quote: Shade,
    pub markdown_emph: Shade,
    pub markdown_strong: Shade,
    pub markdown_horizontal_rule: Shade,
    pub markdown_list_item: Shade,
    pub markdown_list_enumeration: Shade,
    pub markdown_image: Shade,
    pub markdown_image_text: Shade,
    pub markdown_code_block: Shade,
    pub diff_add: Shade,
    pub diff_add_bg: Shade,
    pub diff_remove: Shade,
    pub diff_remove_bg: Shade,
    pub diff_gutter: Shade,
}

/// The colours in use: those of a listed theme, in its dark or light form, or else the built-in
/// ones.
#[derive(Debug, Clone, Copy, PartialEq, Eq, Structural)]
pub enum Palette {
    BuiltIn { colors: ThemeColors },
    Listed { index: usize, dark: bool, transparent: bool },
}

pub open spec fn rgb(red: u8, green: u8, blue: u8) -> Shade {
    Shade::Rgb { red, green, blue }
}

/// The built-in colours, over the terminal's own background.
pub open spec fn built_in() -> ThemeColors {
    ThemeColors {
        primary: rgb(255, 140, 0),
        secondary: rgb(255, 140, 0),
        accent: rgb(255, 140, 0),
        interactive: rgb(255, 140, 0),
        background: Shade::Reset,
        dialog_background: Shade::Reset,
        background_element: Shade::Reset,
        text: Shade::Reset,
        text_weak: Shade::Reset,
        text_strong: Shade::Reset,
        border: Shade::Reset,
        border_weak_focus: rgb(255, 200, 100),
        border_focus: rgb(255, 140, 0),
        border_strong_focus: rgb(255, 100, 0),
        success: rgb(0, 255, 0),
        warning: rgb(255, 255, 0),
        error: rgb(255, 0, 0),
        info: rgb(0, 255, 255),
        markdown_text: Shade::Reset,
        markdown_heading: rgb(255, 140, 0),
        markdown_link: rgb(0, 255, 255),
        markdown_link_text: rgb(0, 255, 255),
        markdown_code: rgb(0, 255, 0),
        markdown_block_quote: rgb(255, 255, 0),
        markdown_emph: rgb(255, 255, 0),
        markdown_strong: rgb(255, 140, 0),
        markdown_horizontal_rule: Shade::Reset,
        markdown_list_item: rgb(255, 140, 0),
        markdown_list_enumeration: rgb(0, 255, 255),
        markdown_image: rgb(255, 140, 0),
        markdown_image_text: rgb(0, 255, 255),
        markdown_code_block: Shade::Reset,
        diff_add: rgb(0, 255, 0),
        diff_add_bg: rgb(0, 60, 0),
        diff_remove: rgb(255, 0, 0),
        diff_remove_bg: rgb(60, 0, 0),
        diff_gutter: rgb(140, 140, 140),
    }
}

/// The colours that the screen is drawn in.
pub open spec fn palette(a: AppView) -> Palette {
    if a.ui.themes.themes.len() == 0 {
        Palette::BuiltIn { colors: built_in() }
    } else {
        Palette::Listed {
            index: a.ui.themes.index,
            dark: a.ui.themes.dark_mode,
            transparent: a.ui.themes.transparent,
        }
    }
}

fn shade(red: u8, green: u8, blue: u8) -> (r: Shade)
    ensures
        r == rgb(red, green, blue),
{
    Shade::Rgb { red, green, blue }
}

pub fn built_in_colors() -> (r: ThemeColors)
    ensures
        r == built_in(),
{
    ThemeColors {
        primary: shade(255, 140, 0),
        secondary: shade(255, 140, 0),
        accent: shade(255, 140, 0),
        interactive: shade(255, 140, 0),
        background: Shade::Reset,
        dialog_background: Shade::Reset,
        background_element: Shade::Reset,
        text: Shade::Reset,
        text_weak: Shade::Reset,
        text_strong: Shade::Reset,
        border: Shade::Reset,
        border_weak_focus: shade(255, 200, 100),
        border_focus: shade(255, 140, 0),
        border_strong_focus: shade(255, 100, 0),
        success: shade(0, 255, 0),
        warning: shade(255, 255, 0),
        error: shade(255, 0, 0),
        info: shade(0, 255, 255),
        markdown_text: Shade::Reset,
        markdown_heading: shade(255, 140, 0),
        markdown_link: shade(0, 255, 255),
        markdown_link_text: shade(0, 255, 255),
        markdown_code: shade(0, 255, 0),
        markdown_block_quote: shade(255, 255, 0),
        markdown_emph: shade(255, 255, 0),
        markdown_strong: shade(255, 140, 0),
        markdown_horizontal_rule: Shade::Reset,
        markdown_list_item: shade(255, 140, 0),
        markdown_list_enumeration: shade(0, 255, 255),
        markdown_image: shade(255, 140, 0),
        markdown_image_text: shade(0, 255, 255),
        markdown_code_block: Shade::Reset,
        diff_add: shade(0, 255, 0),
        diff_add_bg: shade(0, 60, 0),
        diff_remove: shade(255, 0, 0),
        diff_remove_bg: shade(60, 0, 0),
        diff_gutter: shade(140, 140, 140),
    }
}

impl App {
    /// The colours in use, by the theme that has them.
    pub fn get_current_theme_colors(&self) -> (r: Palette)
        ensures
            r == palette(self@),
    {
        reveal(<Ui as View>::view);
        if self.ui.themes.themes.len() == 0 {
            Palette::BuiltIn { colors: built_in_colors() }
        } else {
            Palette::Listed {
                index: self.ui.themes.index,
                dark: self.ui.themes.dark_mode,
                transparent: self.ui.themes.transparent,
            }
        }
    }
}

} // verus!
