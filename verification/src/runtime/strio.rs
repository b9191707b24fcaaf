//! Strings of running programs.

use vstd::prelude::*;

verus! {

/// A string.
#[derive(Debug)]
pub struct StrBox {
    pub text: String,
}

/// Whether a number is a Unicode scalar value.
pub open spec fn is_scalar(c: int) -> bool {
    0 <= c <= 0xD7FF || 0xE000 <= c <= 0x10FFFF
}

/// `char::from_u32`: the character with a number, for numbers that are
/// Unicode scalar values.
pub assume_specification[ char::from_u32 ](i: u32) -> (r: Option<char>)
    ensures
        r == (if is_scalar(i as int) {
            Some(i as char)
        } else {
            None
        }),
;

/// `String::from` on a character: the string that consists of it.
#[verifier::external_body]
fn char_text(c: char) -> (r: String)
    ensures
        r@ == seq![c],
{
    String::from(c)
}

/// The text of one character, given by number; the replacement character where
/// the number is no Unicode scalar value.
pub open spec fn of_char(c: i64) -> Seq<char> {
    seq![
        (if is_scalar(c as int) {
            (c as u32) as char
        } else {
            '\u{FFFD}'
        }),
    ]
}

/// The number of the character at a position; minus one outside the text.
pub open spec fn char_number(text: Seq<char>, idx: i64) -> int {
    if 0 <= idx < text.len() {
        text[idx as int] as int
    } else {
        -1
    }
}

impl StrBox {
    pub fn malus_str_box(text: String) -> (r: Self)
        ensures
            r.text@ == text@,
    {
        StrBox { text }
    }

    /// Length in bytes.
    pub fn malus_str_len(&self) -> (r: usize)
        ensures
            r == vstd::utf8::encode_utf8(self.text@).len() as usize,
    {
        self.text.as_str().len()
    }

    /// The character at a position, as a number; minus one outside the
    /// string.
    pub fn malus_str_char_at(&self, idx: i64) -> (r: i64)
        ensures
            r == char_number(self.text@, idx),
    {
        let s: &str = self.text.as_str();
        if idx < 0 {
            return -1;
        }
        let n: usize = s.unicode_len();
        if (idx as u64) < n as u64 {
            let c: char = s.get_char(idx as usize);
            let v: u32 = c as u32;
            v as i64
        } else {
            -1
        }
    }

    /// The string of one character, given by number; the replacement
    /// character where the number is none.
    pub fn malus_str_from_char(c: i64) -> (r: Self)
        ensures
            r.text@ == of_char(c),
    {
        let ch: char = if 0 <= c && c <= 0x10FFFF {
            match char::from_u32(c as u32) {
                Some(x) => x,
                None => '\u{FFFD}',
            }
        } else {
            '\u{FFFD}'
        };
        StrBox { text: char_text(ch) }
    }
}

/// The string made of a number gives the number back where that is a Unicode
/// scalar value, and else the number of the replacement character; nothing
/// stands behind it.
pub proof fn char_round_trip(c: i64)
    ensures
        char_number(of_char(c), 0) == (if is_scalar(c as int) {
            c as int
        } else {
            0xFFFD
        }),
        char_number(of_char(c), 1) == -1,
{
}

} // verus!
