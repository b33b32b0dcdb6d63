//! The Feather glyphs the window draws, looked up once at startup.

use vstd::prelude::*;

use crate::model::{Action, ActionView};
use crate::settings::ThemeChoice;

verus! {

/// The codepoint the Feather pack gives `name` in its regular style and
/// size, or `None` when the pack has no such icon. It depends on the name
/// alone: the pack's tables are compiled into the crate.
pub uninterp spec fn feather_codepoint(name: Seq<char>) -> Option<u32>;

/// Looks a Feather icon up by name.
///
/// Trusted: calls `iconflow::try_icon` with the Feather pack, regular style
/// and regular size, and keeps the codepoint of the icon it returns. The
/// contract says only that the result is the pack's answer for this name;
/// which names the pack holds is not stated.
#[verifier::external_body]
fn feather_lookup(name: &str) -> (result: Option<u32>)
    ensures
        result == feather_codepoint(name@),
{
    iconflow::try_icon(
        iconflow::Pack::Feather,
        name,
        iconflow::Style::Regular,
        iconflow::Size::Regular,
    ).ok().map(|icon| icon.codepoint)
}

/// Is `n` a Unicode scalar value, the numbers a `char` can hold?
pub open spec fn scalar(n: u32) -> bool {
    n <= 0x10FFFF && !(0xD800 <= n <= 0xDFFF)
}

/// `core::char::from_u32`: the character with that number, when the number
/// is a Unicode scalar value, as the standard library documents it.
pub assume_specification[ core::char::from_u32 ](i: u32) -> (result: Option<char>)
    ensures
        match result {
            Some(c) => scalar(i) && c as u32 == i,
            None => !scalar(i),
        },
;

/// The character a looked-up code point makes, or a space when there was
/// none or it is no character: a missing icon is a gap in front of a label,
/// not a reason to refuse to start.
pub open spec fn glyph_of(found: Option<u32>) -> u32 {
    match found {
        Some(n) => if scalar(n) {
            n
        } else {
            0x20
        },
        None => 0x20,
    }
}

/// The number of the glyph a name stands for, or of a space when the pack
/// has none.
pub open spec fn glyph(name: Seq<char>) -> u32 {
    glyph_of(feather_codepoint(name))
}

/// The character for a code point the pack gave, or a space.
pub fn glyph_char(found: Option<u32>) -> (result: char)
    ensures
        result as u32 == glyph_of(found),
{
    match found {
        Some(n) => match core::char::from_u32(n) {
            Some(c) => c,
            None => ' ',
        },
        None => ' ',
    }
}

/// One Feather glyph by name, or a space.
pub fn feather(name: &str) -> (result: char)
    ensures
        result as u32 == glyph(name@),
{
    glyph_char(feather_lookup(name))
}

/// The glyphs of the window, one per button face.
#[derive(Debug, Clone, Copy)]
pub struct Glyphs {
    pub select_all: char,
    pub select_none: char,
    pub visible: char,
    pub hidden: char,
    pub always: char,
    pub shift_only: char,
    pub free: char,
    pub blocked: char,
    pub top: char,
    pub bottom: char,
    pub no_position: char,
    pub delete: char,
    pub rescan: char,
    pub new: char,
    pub backup: char,
    pub inspect: char,
    pub copy: char,
    pub restore: char,
    pub explorer: char,
    pub link: char,
    /// The three faces of the theme button: a screen, a sun, a moon.
    pub theme_system: char,
    pub theme_light: char,
    pub theme_dark: char,
}

impl Glyphs {
    /// The Feather names of the glyphs, in the order of the fields.
    pub const NAMES: [&'static str; 23] = [
        "check-circle",
        "circle",
        "eye",
        "eye-off",
        "menu",
        "chevrons-up",
        "shield",
        "shield-off",
        "arrow-up-circle",
        "arrow-down-circle",
        "code",
        "trash-2",
        "refresh-cw",
        "plus",
        "save",
        "info",
        "copy",
        "rotate-ccw",
        "folder",
        "external-link",
        "monitor",
        "sun",
        "moon",
    ];

    /// Every glyph looked up once, field by field in the order of `NAMES`.
    pub fn load() -> (result: Glyphs)
        ensures
            result.select_all as u32 == glyph("check-circle"@),
            result.select_none as u32 == glyph("circle"@),
            result.visible as u32 == glyph("eye"@),
            result.hidden as u32 == glyph("eye-off"@),
            result.always as u32 == glyph("menu"@),
            result.shift_only as u32 == glyph("chevrons-up"@),
            result.free as u32 == glyph("shield"@),
            result.blocked as u32 == glyph("shield-off"@),
            result.top as u32 == glyph("arrow-up-circle"@),
            result.bottom as u32 == glyph("arrow-down-circle"@),
            result.no_position as u32 == glyph("code"@),
            result.delete as u32 == glyph("trash-2"@),
            result.rescan as u32 == glyph("refresh-cw"@),
            result.new as u32 == glyph("plus"@),
            result.backup as u32 == glyph("save"@),
            result.inspect as u32 == glyph("info"@),
            result.copy as u32 == glyph("copy"@),
            result.restore as u32 == glyph("rotate-ccw"@),
            result.explorer as u32 == glyph("folder"@),
            result.link as u32 == glyph("external-link"@),
            result.theme_system as u32 == glyph("monitor"@),
            result.theme_light as u32 == glyph("sun"@),
            result.theme_dark as u32 == glyph("moon"@),
    {
        Glyphs {
            select_all: feather("check-circle"),
            select_none: feather("circle"),
            visible: feather("eye"),
            hidden: feather("eye-off"),
            always: feather("menu"),
            shift_only: feather("chevrons-up"),
            free: feather("shield"),
            blocked: feather("shield-off"),
            top: feather("arrow-up-circle"),
            bottom: feather("arrow-down-circle"),
            no_position: feather("code"),
            delete: feather("trash-2"),
            rescan: feather("refresh-cw"),
            new: feather("plus"),
            backup: feather("save"),
            inspect: feather("info"),
            copy: feather("copy"),
            restore: feather("rotate-ccw"),
            explorer: feather("folder"),
            link: feather("external-link"),
            theme_system: feather("monitor"),
            theme_light: feather("sun"),
            theme_dark: feather("moon"),
        }
    }
}

/// The icon a menu line carries, the same as the switch doing the same
/// thing.
pub open spec fn menu_face(action: ActionView, glyphs: Glyphs) -> char {
    match action {
        ActionView::Hide => glyphs.hidden,
        ActionView::Show => glyphs.visible,
        ActionView::ShiftOnly => glyphs.shift_only,
        ActionView::AlwaysShow => glyphs.always,
        ActionView::Block => glyphs.blocked,
        ActionView::Unblock => glyphs.free,
        ActionView::SetPosition(value) => if value == Some("Top"@) {
            glyphs.top
        } else if value == Some("Bottom"@) {
            glyphs.bottom
        } else {
            glyphs.no_position
        },
        ActionView::Delete => glyphs.delete,
    }
}

/// The icon a menu line carries.
pub fn menu_glyph(action: &Action, glyphs: &Glyphs) -> (result: char)
    ensures
        result == menu_face(action@, *glyphs),
{
    match action {
        Action::Hide => glyphs.hidden,
        Action::Show => glyphs.visible,
        Action::ShiftOnly => glyphs.shift_only,
        Action::AlwaysShow => glyphs.always,
        Action::Block => glyphs.blocked,
        Action::Unblock => glyphs.free,
        Action::SetPosition(value) => match value {
            Some(p) => if crate::chars::text_eq(p.as_str(), "Top") {
                glyphs.top
            } else if crate::chars::text_eq(p.as_str(), "Bottom") {
                glyphs.bottom
            } else {
                glyphs.no_position
            },
            None => glyphs.no_position,
        },
        Action::Delete => glyphs.delete,
    }
}

/// The face the theme button wears: a screen, a sun, a moon.
pub fn theme_glyph(choice: ThemeChoice, glyphs: &Glyphs) -> (result: char)
    ensures
        result == match choice {
            ThemeChoice::System => glyphs.theme_system,
            ThemeChoice::Light => glyphs.theme_light,
            ThemeChoice::Dark => glyphs.theme_dark,
        },
{
    match choice {
        ThemeChoice::System => glyphs.theme_system,
        ThemeChoice::Light => glyphs.theme_light,
        ThemeChoice::Dark => glyphs.theme_dark,
    }
}

} // verus!
