//! The banner color enumeration and its name lookup: sixteen named terminal
//! colors, matched insensitively to ASCII case, with an undelimited alias
//! (`lightred` for `light_red`) for each light variant.

use crate::keys::{eq_ignore_ascii_case, lower_seq};
use vstd::prelude::*;

verus! {

/// The sixteen named terminal colors a banner may use.
#[derive(Clone, Copy, Debug, PartialEq, Eq, Structural)]
pub enum BannerColor {
    Black,
    Red,
    Green,
    Yellow,
    Blue,
    Magenta,
    Cyan,
    White,
    LightBlack,
    LightRed,
    LightGreen,
    LightYellow,
    LightBlue,
    LightMagenta,
    LightCyan,
    LightWhite,
}

/// The color named by `s`, if any: each color's snake-case name matches up to
/// ASCII case, and each light variant also matches its undelimited alias.
pub open spec fn spec_color_of(s: Seq<char>) -> Option<BannerColor> {
    let l = lower_seq(s);
    if l == lower_seq("black"@) {
        Some(BannerColor::Black)
    } else if l == lower_seq("red"@) {
        Some(BannerColor::Red)
    } else if l == lower_seq("green"@) {
        Some(BannerColor::Green)
    } else if l == lower_seq("yellow"@) {
        Some(BannerColor::Yellow)
    } else if l == lower_seq("blue"@) {
        Some(BannerColor::Blue)
    } else if l == lower_seq("magenta"@) {
        Some(BannerColor::Magenta)
    } else if l == lower_seq("cyan"@) {
        Some(BannerColor::Cyan)
    } else if l == lower_seq("white"@) {
        Some(BannerColor::White)
    } else if l == lower_seq("light_black"@) || l == lower_seq("lightblack"@) {
        Some(BannerColor::LightBlack)
    } else if l == lower_seq("light_red"@) || l == lower_seq("lightred"@) {
        Some(BannerColor::LightRed)
    } else if l == lower_seq("light_green"@) || l == lower_seq("lightgreen"@) {
        Some(BannerColor::LightGreen)
    } else if l == lower_seq("light_yellow"@) || l == lower_seq("lightyellow"@) {
        Some(BannerColor::LightYellow)
    } else if l == lower_seq("light_blue"@) || l == lower_seq("lightblue"@) {
        Some(BannerColor::LightBlue)
    } else if l == lower_seq("light_magenta"@) || l == lower_seq("lightmagenta"@) {
        Some(BannerColor::LightMagenta)
    } else if l == lower_seq("light_cyan"@) || l == lower_seq("lightcyan"@) {
        Some(BannerColor::LightCyan)
    } else if l == lower_seq("light_white"@) || l == lower_seq("lightwhite"@) {
        Some(BannerColor::LightWhite)
    } else {
        None
    }
}

/// Looks a color name up; `None` exactly when `s` names no color.
pub fn color_of_name(s: &str) -> (r: Option<BannerColor>)
    ensures
        r == spec_color_of(s@),
{
    if eq_ignore_ascii_case(s, "black") {
        Some(BannerColor::Black)
    } else if eq_ignore_ascii_case(s, "red") {
        Some(BannerColor::Red)
    } else if eq_ignore_ascii_case(s, "green") {
        Some(BannerColor::Green)
    } else if eq_ignore_ascii_case(s, "yellow") {
        Some(BannerColor::Yellow)
    } else if eq_ignore_ascii_case(s, "blue") {
        Some(BannerColor::Blue)
    } else if eq_ignore_ascii_case(s, "magenta") {
        Some(BannerColor::Magenta)
    } else if eq_ignore_ascii_case(s, "cyan") {
        Some(BannerColor::Cyan)
    } else if eq_ignore_ascii_case(s, "white") {
        Some(BannerColor::White)
    } else if eq_ignore_ascii_case(s, "light_black") || eq_ignore_ascii_case(s, "lightblack") {
        Some(BannerColor::LightBlack)
    } else if eq_ignore_ascii_case(s, "light_red") || eq_ignore_ascii_case(s, "lightred") {
        Some(BannerColor::LightRed)
    } else if eq_ignore_ascii_case(s, "light_green") || eq_ignore_ascii_case(s, "lightgreen") {
        Some(BannerColor::LightGreen)
    } else if eq_ignore_ascii_case(s, "light_yellow") || eq_ignore_ascii_case(s, "lightyellow") {
        Some(BannerColor::LightYellow)
    } else if eq_ignore_ascii_case(s, "light_blue") || eq_ignore_ascii_case(s, "lightblue") {
        Some(BannerColor::LightBlue)
    } else if eq_ignore_ascii_case(s, "light_magenta") || eq_ignore_ascii_case(s, "lightmagenta") {
        Some(BannerColor::LightMagenta)
    } else if eq_ignore_ascii_case(s, "light_cyan") || eq_ignore_ascii_case(s, "lightcyan") {
        Some(BannerColor::LightCyan)
    } else if eq_ignore_ascii_case(s, "light_white") || eq_ignore_ascii_case(s, "lightwhite") {
        Some(BannerColor::LightWhite)
    } else {
        None
    }
}

/// Color matching is insensitive to ASCII case: folding the name first does
/// not change which color, if any, it names.
pub proof fn lemma_color_case_insensitive(s: Seq<char>)
    ensures
        spec_color_of(lower_seq(s)) == spec_color_of(s),
{
    crate::keys::lemma_lower_seq_idempotent(s);
}

} // verus!
