//! Tray icon styles. Drawing the icon is left to the caller.

use vstd::prelude::*;
use crate::paths::Platform;
use crate::text::{ascii_lowercase, chars_eq_str, chars_of, to_lower, trim, trimmed};

verus! {

/// How the tray icon is drawn.
#[derive(Debug, Clone, Copy, PartialEq, Eq, Structural)]
pub enum TrayIconStyle {
    /// The brand tile in colour.
    Color,
    /// A dark glyph on a transparent background.
    Dark,
    /// A light glyph on a transparent background.
    Light,
}

/// The style used for `auto`: the colour tile on Windows, the dark glyph elsewhere.
pub open spec fn auto_style(platform: Platform) -> TrayIconStyle {
    if platform == Platform::Windows {
        TrayIconStyle::Color
    } else {
        TrayIconStyle::Dark
    }
}

/// The style a normalized (trimmed, lowercased) name designates.
pub open spec fn style_named(n: Seq<char>) -> Option<TrayIconStyle> {
    if n == "color"@ || n == "brand"@ || n == "blue"@ {
        Some(TrayIconStyle::Color)
    } else if n == "light"@ || n == "white"@ {
        Some(TrayIconStyle::Light)
    } else if n == "dark"@ || n == "black"@ || n == "mono"@ || n == "monochrome"@ {
        Some(TrayIconStyle::Dark)
    } else {
        None
    }
}

/// The style a configured name selects on `platform`; names other than the
/// known ones, `auto` among them, select the platform's automatic style.
pub open spec fn style_for(style: Seq<char>, platform: Platform) -> TrayIconStyle {
    match style_named(to_lower(trim(style))) {
        Some(s) => s,
        None => auto_style(platform),
    }
}

pub fn default_auto_style(platform: Platform) -> (res: TrayIconStyle)
    ensures
        res == auto_style(platform),
{
    match platform {
        Platform::Windows => TrayIconStyle::Color,
        _ => TrayIconStyle::Dark,
    }
}

impl TrayIconStyle {
    /// Reads a configured style name, ignoring surrounding whitespace and
    /// ASCII case.
    pub fn parse(style: &str, platform: Platform) -> (res: Self)
        ensures
            res == style_for(style@, platform),
    {
        let chars = chars_of(style);
        let t = trimmed(chars.as_slice());
        let n = ascii_lowercase(t.as_slice());
        let n = n.as_slice();
        if chars_eq_str(n, "color") || chars_eq_str(n, "brand") || chars_eq_str(n, "blue") {
            Self::Color
        } else if chars_eq_str(n, "light") || chars_eq_str(n, "white") {
            Self::Light
        } else if chars_eq_str(n, "dark") || chars_eq_str(n, "black") || chars_eq_str(n, "mono")
            || chars_eq_str(n, "monochrome") {
            Self::Dark
        } else {
            default_auto_style(platform)
        }
    }
}


/// Each documented style name selects the style it names, whatever the
/// platform, ignoring surrounding whitespace and ASCII case: `color`,
/// `brand` and `blue` the colour tile, `light` and `white` the light glyph,
/// `dark`, `black`, `mono` and `monochrome` the dark glyph. Any other name,
/// `auto` among them, selects the platform's automatic style.
pub proof fn lemma_style_names(style: Seq<char>, platform: Platform)
    ensures
        ({
            let n = to_lower(trim(style));
            &&& (n == "color"@ || n == "brand"@ || n == "blue"@) ==> style_for(style, platform) == TrayIconStyle::Color
            &&& (n == "light"@ || n == "white"@) ==> style_for(style, platform) == TrayIconStyle::Light
            &&& (n == "dark"@ || n == "black"@ || n == "mono"@ || n == "monochrome"@) ==> style_for(style, platform) == TrayIconStyle::Dark
            &&& !(n == "color"@ || n == "brand"@ || n == "blue"@ || n == "light"@ || n == "white"@ || n == "dark"@ || n == "black"@ || n == "mono"@ || n == "monochrome"@) ==> style_for(style, platform) == auto_style(platform)
        }),
{
    reveal_strlit("color");
    reveal_strlit("brand");
    reveal_strlit("blue");
    reveal_strlit("light");
    reveal_strlit("white");
    reveal_strlit("dark");
    reveal_strlit("black");
    reveal_strlit("mono");
    reveal_strlit("monochrome");
    let n = to_lower(trim(style));
    if n == "color"@ {
        assert(n.len() == 5 && n[0] == 'c' && n[1] == 'o');
        assert(style_named(n) == Some(TrayIconStyle::Color));
    } else if n == "brand"@ {
        assert(n.len() == 5 && n[0] == 'b' && n[1] == 'r');
        assert(style_named(n) == Some(TrayIconStyle::Color));
    } else if n == "blue"@ {
        assert(n.len() == 4 && n[0] == 'b' && n[1] == 'l');
        assert(style_named(n) == Some(TrayIconStyle::Color));
    } else if n == "light"@ {
        assert(n.len() == 5 && n[0] == 'l' && n[1] == 'i');
        assert(style_named(n) == Some(TrayIconStyle::Light));
    } else if n == "white"@ {
        assert(n.len() == 5 && n[0] == 'w' && n[1] == 'h');
        assert(style_named(n) == Some(TrayIconStyle::Light));
    } else if n == "dark"@ {
        assert(n.len() == 4 && n[0] == 'd' && n[1] == 'a');
        assert(style_named(n) == Some(TrayIconStyle::Dark));
    } else if n == "black"@ {
        assert(n.len() == 5 && n[0] == 'b' && n[1] == 'l');
        assert(style_named(n) == Some(TrayIconStyle::Dark));
    } else if n == "mono"@ {
        assert(n.len() == 4 && n[0] == 'm' && n[1] == 'o');
        assert(style_named(n) == Some(TrayIconStyle::Dark));
    } else if n == "monochrome"@ {
        assert(n.len() == 10 && n[0] == 'm' && n[1] == 'o');
        assert(style_named(n) == Some(TrayIconStyle::Dark));
    }
}

} // verus!
