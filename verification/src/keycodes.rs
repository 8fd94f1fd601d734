//! Key codes, modifier flags and hotkey ids, as the keyboard and hotkey
//! crates define them, together with the few character and number tests
//! of std that shortcut handling relies on.
use vstd::prelude::*;

use crate::text::chars_of;

verus! {

/// Whether `keyboard_types::Code::from_str` recognizes `name` as a key code.
pub uninterp spec fn recognized_code_name(name: Seq<char>) -> bool;

/// The id that `global_hotkey` gives the hotkey made of the modifier flags
/// `modifiers` and the key code named `code`.
pub uninterp spec fn hotkey_id(modifiers: u32, code: Seq<char>) -> u32;

/// `char::is_alphabetic`.
pub uninterp spec fn char_is_alphabetic(c: char) -> bool;

/// `char::is_alphanumeric`.
pub uninterp spec fn char_is_alphanumeric(c: char) -> bool;

/// The flag bits of the `keyboard_types::Modifiers` flag with this name.
pub open spec fn modifier_flag(name: Seq<char>) -> Option<u32> {
    if name == "ALT"@ {
        Some(0x1u32)
    } else if name == "ALT_GRAPH"@ {
        Some(0x2u32)
    } else if name == "CAPS_LOCK"@ {
        Some(0x4u32)
    } else if name == "CONTROL"@ {
        Some(0x8u32)
    } else if name == "FN"@ {
        Some(0x10u32)
    } else if name == "FN_LOCK"@ {
        Some(0x20u32)
    } else if name == "META"@ {
        Some(0x40u32)
    } else if name == "NUM_LOCK"@ {
        Some(0x80u32)
    } else if name == "SCROLL_LOCK"@ {
        Some(0x100u32)
    } else if name == "SHIFT"@ {
        Some(0x200u32)
    } else if name == "SYMBOL"@ {
        Some(0x400u32)
    } else if name == "SYMBOL_LOCK"@ {
        Some(0x800u32)
    } else if name == "HYPER"@ {
        Some(0x1000u32)
    } else if name == "SUPER"@ {
        Some(0x2000u32)
    } else {
        None
    }
}

pub open spec fn is_ascii_digit(c: char) -> bool {
    '0' <= c && c <= '9'
}

pub open spec fn is_ascii_uppercase(c: char) -> bool {
    'A' <= c && c <= 'Z'
}

/// `KeyA` .. `KeyZ`.
pub open spec fn is_letter_key_name(s: Seq<char>) -> bool {
    s.len() == 4 && s.take(3) == "Key"@ && is_ascii_uppercase(s[3])
}

/// `Digit0` .. `Digit9`.
pub open spec fn is_digit_key_name(s: Seq<char>) -> bool {
    s.len() == 6 && s.take(5) == "Digit"@ && is_ascii_digit(s[5])
}

/// The number written by a sequence of decimal digits.
pub open spec fn decimal_value(s: Seq<char>) -> int
    decreases s.len(),
{
    if s.len() == 0 {
        0
    } else {
        decimal_value(s.drop_last()) * 10 + (s.last() as int - '0' as int)
    }
}

/// The digits of an unsigned decimal literal, after an optional `+`.
pub open spec fn unsigned_digits(s: Seq<char>) -> Seq<char> {
    if s.len() > 0 && s[0] == '+' {
        s.drop_first()
    } else {
        s
    }
}

/// Whether `str::parse::<u32>` accepts `s`: an optional `+` followed by
/// at least one ASCII digit, with a value that fits in a `u32`.
pub open spec fn parses_as_u32(s: Seq<char>) -> bool {
    let d = unsigned_digits(s);
    &&& d.len() > 0
    &&& forall|i: int| 0 <= i < d.len() ==> #[trigger] is_ascii_digit(d[i])
    &&& decimal_value(d) <= u32::MAX
}

/// Calls `keyboard_types::Code::from_str` and reports whether it succeeded.
/// Besides naming the outcome, this states what the match arms of that
/// function show: `KeyA`..`KeyZ`, `Digit0`..`Digit9`, `Escape` and `Abort`
/// are codes.
#[verifier::external_body]
pub(crate) fn code_name_recognized(name: &str) -> (r: bool)
    ensures
        r == recognized_code_name(name@),
        is_letter_key_name(name@) || is_digit_key_name(name@) || name@ == "Escape"@ || name@
            == "Abort"@ ==> r,
{
    <keyboard_types::Code as std::str::FromStr>::from_str(name).is_ok()
}

/// Calls `keyboard_types::Modifiers::from_name` and returns the bits of the
/// flag it finds; per the bitflags source this is the named flag, or `None`
/// for any other name.
#[verifier::external_body]
pub(crate) fn modifiers_from_name(name: &str) -> (r: Option<u32>)
    ensures
        r == modifier_flag(name@),
{
    match keyboard_types::Modifiers::from_name(name) {
        Some(m) => Some(m.bits()),
        None => None,
    }
}

/// Builds `global_hotkey::hotkey::HotKey::new` from the flags and the code
/// named `code`, and returns its `id()`. The id is a hash of the modifiers
/// and the key; what it is, is left to the name `hotkey_id`.
#[verifier::external_body]
pub(crate) fn hotkey_id_of(modifiers: u32, code: &str) -> (r: u32)
    requires
        recognized_code_name(code@),
    ensures
        r == hotkey_id(modifiers, code@),
{
    global_hotkey::hotkey::HotKey::new(
        Some(keyboard_types::Modifiers::from_bits_retain(modifiers)),
        <keyboard_types::Code as std::str::FromStr>::from_str(code).unwrap(),
    ).id()
}

/// `char::is_alphabetic`; its documentation counts the ASCII letters as
/// alphabetic.
#[verifier::external_body]
pub(crate) fn is_alphabetic(c: char) -> (r: bool)
    ensures
        r == char_is_alphabetic(c),
        ('A' <= c && c <= 'Z') || ('a' <= c && c <= 'z') ==> r,
{
    c.is_alphabetic()
}

/// `char::is_alphanumeric`; its documentation says that every alphabetic
/// character is alphanumeric.
#[verifier::external_body]
pub(crate) fn is_alphanumeric(c: char) -> (r: bool)
    ensures
        r == char_is_alphanumeric(c),
        char_is_alphabetic(c) ==> r,
{
    c.is_alphanumeric()
}

/// The digits of `s` form a number no smaller than those of any of its
/// prefixes, and none is negative.
proof fn lemma_decimal_prefix(s: Seq<char>, j: int)
    requires
        0 <= j <= s.len(),
        forall|i: int| 0 <= i < s.len() ==> #[trigger] is_ascii_digit(s[i]),
    ensures
        0 <= decimal_value(s.take(j)) <= decimal_value(s),
    decreases s.len(),
{
    if s.len() > 0 {
        let p = s.drop_last();
        assert forall|i: int| 0 <= i < p.len() implies #[trigger] is_ascii_digit(p[i]) by {
            assert(p[i] == s[i]);
        }
        assert(is_ascii_digit(s[s.len() - 1]));
        if j < s.len() {
            lemma_decimal_prefix(p, j);
            assert(p.take(j) =~= s.take(j));
        } else {
            lemma_decimal_prefix(p, j - 1);
            assert(s.take(j) =~= s);
        }
    } else {
        assert(s.take(j) =~= s);
    }
}

/// Whether `str::parse::<u32>` accepts `s`: an optional `+` sign followed by
/// digits whose value fits the type, as its documentation describes.
pub(crate) fn parses_u32(s: &str) -> (r: bool)
    ensures
        r == parses_as_u32(s@),
{
    let chars = chars_of(s);
    let n = chars.len();
    let start: usize = if n > 0 && chars[0] == '+' {
        1
    } else {
        0
    };
    let ghost d = unsigned_digits(s@);
    proof {
        assert(d =~= s@.skip(start as int));
    }
    if start == n {
        return false;
    }
    let mut value: u64 = 0;
    let mut i: usize = start;
    while i < n
        invariant
            chars@ == s@,
            n == s@.len(),
            d == unsigned_digits(s@),
            d =~= s@.skip(start as int),
            start <= i <= n,
            forall|k: int| 0 <= k < i - start ==> #[trigger] is_ascii_digit(d[k]),
            value == decimal_value(d.take(i - start)),
            value <= u32::MAX,
        decreases n - i,
    {
        let c = chars[i];
        if !('0' <= c && c <= '9') {
            assert(!is_ascii_digit(d[i - start]));
            return false;
        }
        let digit: u64 = (c as u32 - '0' as u32) as u64;
        proof {
            assert(d.take(i - start + 1).drop_last() =~= d.take(i - start));
            assert(d.take(i - start + 1).last() == c);
        }
        value = value * 10 + digit;
        if value > 0xffff_ffffu64 {
            proof {
                assert forall|k: int| 0 <= k < i - start + 1 implies #[trigger] is_ascii_digit(
                    d.take(i - start + 1)[k],
                ) by {
                    if k < i - start {
                        assert(is_ascii_digit(d[k]));
                    }
                }
                if forall|k: int| 0 <= k < d.len() ==> #[trigger] is_ascii_digit(d[k]) {
                    lemma_decimal_prefix(d, i - start + 1);
                }
            }
            return false;
        }
        i = i + 1;
    }
    proof {
        assert(d.take(n - start) =~= d);
    }
    true
}

/// Whether two strings hold the same characters.
pub fn same_text(a: &str, b: &str) -> (r: bool)
    ensures
        r == (a@ == b@),
{
    a.to_owned() == b.to_owned()
}

} // verus!
