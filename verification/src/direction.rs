//! Text-direction classifier.
//!
//! Decides whether a piece of text should be rendered left-to-right or
//! right-to-left.  The language code is authoritative when it names a known
//! right-to-left language; otherwise the text itself is scanned for characters
//! of the Hebrew and Arabic blocks (including the Arabic presentation forms
//! and the directional control characters).

use vstd::prelude::*;
use vstd::string::StrSliceExecFns;

verus! {

/// A character that forces right-to-left rendering: the Hebrew and Arabic
/// blocks (U+0591 through U+07FF), the right-to-left mark and embedding
/// controls, and the Hebrew/Arabic presentation forms.
pub open spec fn is_rtl_char(c: char) -> bool {
    ||| 0x0591 <= c as u32 <= 0x07FF
    ||| c as u32 == 0x200F
    ||| c as u32 == 0x202B
    ||| c as u32 == 0x202E
    ||| 0xFB1D <= c as u32 <= 0xFDFD
    ||| 0xFE70 <= c as u32 <= 0xFEFC
}

/// Exec mirror of [`is_rtl_char`].
pub fn char_is_rtl(c: char) -> (r: bool)
    ensures
        r == is_rtl_char(c),
{
    let u: u32 = c as u32;
    (0x0591 <= u && u <= 0x07FF) || u == 0x200F || u == 0x202B || u == 0x202E
        || (0xFB1D <= u && u <= 0xFDFD) || (0xFE70 <= u && u <= 0xFEFC)
}

/// The text holds at least one right-to-left character.
pub open spec fn has_rtl_char(s: Seq<char>) -> bool {
    exists|i: int| 0 <= i < s.len() && is_rtl_char(s[i])
}

/// Scans the text for a right-to-left character.
pub fn text_has_rtl_char(text: &str) -> (r: bool)
    ensures
        r == has_rtl_char(text@),
{
    let n: usize = text.unicode_len();
    let mut i: usize = 0;
    while i < n
        invariant
            n == text@.len(),
            0 <= i <= n,
            forall|j: int| 0 <= j < i ==> !is_rtl_char(text@[j]),
        decreases n - i,
    {
        if char_is_rtl(text.get_char(i)) {
            assert(has_rtl_char(text@));
            return true;
        }
        i = i + 1;
    }
    false
}

/// Character-by-character string equality, meaningful at the view level.
pub fn str_eq(a: &str, b: &str) -> (r: bool)
    ensures
        r == (a@ == b@),
{
    let na: usize = a.unicode_len();
    let nb: usize = b.unicode_len();
    if na != nb {
        return false;
    }
    let mut i: usize = 0;
    while i < na
        invariant
            na == a@.len(),
            na == b@.len(),
            0 <= i <= na,
            forall|j: int| 0 <= j < i ==> a@[j] == b@[j],
        decreases na - i,
    {
        if a.get_char(i) != b.get_char(i) {
            return false;
        }
        i = i + 1;
    }
    proof {
        assert(a@ =~= b@);
    }
    true
}

/// The fixed set of right-to-left language codes: Arabic, Hebrew, Persian,
/// Urdu, Yiddish, Pashto and Sindhi.
pub open spec fn spec_is_rtl_language(code: Seq<char>) -> bool {
    ||| code == "ar"@
    ||| code == "he"@
    ||| code == "fa"@
    ||| code == "ur"@
    ||| code == "yi"@
    ||| code == "ps"@
    ||| code == "sd"@
}

/// Whether the language code names a right-to-left language.
pub fn is_rtl_language(language_code: &str) -> (r: bool)
    ensures
        r == spec_is_rtl_language(language_code@),
{
    str_eq(language_code, "ar") || str_eq(language_code, "he") || str_eq(language_code, "fa")
        || str_eq(language_code, "ur") || str_eq(language_code, "yi")
        || str_eq(language_code, "ps") || str_eq(language_code, "sd")
}

/// The direction string for a right-to-left flag.
pub open spec fn spec_direction_of(rtl: bool) -> Seq<char> {
    if rtl {
        "rtl"@
    } else {
        "ltr"@
    }
}

/// What [`detect_text_direction`] returns: "rtl" when the language code is a
/// known right-to-left language (authoritative even for Latin text) or when
/// the text holds a right-to-left character; "ltr" otherwise, the empty text
/// included.
pub open spec fn spec_text_direction(text: Seq<char>, code: Seq<char>) -> Seq<char> {
    spec_direction_of(spec_is_rtl_language(code) || has_rtl_char(text))
}

/// Classifies text as "ltr" or "rtl" for the given language code.
pub fn detect_text_direction(text: &str, language_code: &str) -> (r: String)
    ensures
        r@ == spec_text_direction(text@, language_code@),
{
    if is_rtl_language(language_code) {
        return "rtl".to_owned();
    }
    if text_has_rtl_char(text) {
        return "rtl".to_owned();
    }
    "ltr".to_owned()
}

/// The direction string for a language's right-to-left flag.
pub fn direction_of_flag(is_rtl: bool) -> (r: String)
    ensures
        r@ == spec_direction_of(is_rtl),
{
    if is_rtl {
        "rtl".to_owned()
    } else {
        "ltr".to_owned()
    }
}

} // verus!
