//! Colour themes: their names and the list offered to the user.
use vstd::prelude::*;

use crate::i18n::Language;

verus! {

/// A colour theme of the interface.
#[derive(Clone, Copy, Debug, PartialEq, Eq, Structural)]
pub enum Theme {
    ClassicDark,
    DeepSpace,
    CyberPurple,
    AuroraGreen,
    MinimalGray,
}

/// The English name of a theme.
pub open spec fn theme_label(theme: Theme) -> &'static str {
    match theme {
        Theme::ClassicDark => "Black",
        Theme::DeepSpace => "Blue",
        Theme::CyberPurple => "Purple",
        Theme::AuroraGreen => "Green",
        Theme::MinimalGray => "Gray",
    }
}

/// The name of a theme in a language.
pub open spec fn theme_label_in(theme: Theme, lang: Language) -> &'static str {
    match lang {
        Language::Chinese => match theme {
            Theme::ClassicDark => "黑",
            Theme::DeepSpace => "蓝",
            Theme::CyberPurple => "紫",
            Theme::AuroraGreen => "绿",
            Theme::MinimalGray => "灰",
        },
        Language::English => theme_label(theme),
    }
}

impl Theme {
    /// The English name of the theme.
    pub fn label(&self) -> (r: &'static str)
        ensures
            r == theme_label(*self),
    {
        match self {
            Theme::ClassicDark => "Black",
            Theme::DeepSpace => "Blue",
            Theme::CyberPurple => "Purple",
            Theme::AuroraGreen => "Green",
            Theme::MinimalGray => "Gray",
        }
    }

    /// The name of the theme in `lang`.
    pub fn label_localized(&self, lang: Language) -> (r: &'static str)
        ensures
            r == theme_label_in(*self, lang),
    {
        match lang {
            Language::Chinese => match self {
                Theme::ClassicDark => "黑",
                Theme::DeepSpace => "蓝",
                Theme::CyberPurple => "紫",
                Theme::AuroraGreen => "绿",
                Theme::MinimalGray => "灰",
            },
            Language::English => self.label(),
        }
    }

    /// Every theme, in the order offered to the user.
    pub fn all() -> (r: Vec<Theme>)
        ensures
            r@ == seq![
                Theme::ClassicDark,
                Theme::DeepSpace,
                Theme::CyberPurple,
                Theme::AuroraGreen,
                Theme::MinimalGray,
            ],
    {
        let mut r = Vec::new();
        r.push(Theme::ClassicDark);
        r.push(Theme::DeepSpace);
        r.push(Theme::CyberPurple);
        r.push(Theme::AuroraGreen);
        r.push(Theme::MinimalGray);
        assert(r@ =~= seq![
            Theme::ClassicDark,
            Theme::DeepSpace,
            Theme::CyberPurple,
            Theme::AuroraGreen,
            Theme::MinimalGray,
        ]);
        r
    }
}

} // verus!
