//! Parsing of a user-supplied palette string.
//!
//! The string is treated as alternating glyph/separator tokens: the
//! characters at even positions (0-indexed) are selected, each of which must
//! encode to exactly one byte in UTF-8 (that is, be an ASCII character).
//! Characters at odd positions are ignored entirely.

use vstd::prelude::*;
use vstd::string::StrSliceExecFns;

verus! {

/// Failure of palette-string parsing.
#[derive(Clone, Copy, Debug, PartialEq, Eq, Structural)]
pub enum ParseCustomCharMapError {
    /// A selected (even-position) character does not encode to exactly one byte.
    ParseError,
}

/// Holds when every character at an even position of `s` encodes to exactly
/// one UTF-8 byte, i.e. has a code point below 128.
pub open spec fn spec_selectable(s: Seq<char>) -> bool {
    forall|i: int| #![trigger s[i]] 0 <= i < s.len() && i % 2 == 0 ==> (s[i] as u32) < 128
}

/// The palette drawn from `s`: the characters at even positions, in order,
/// each as its single UTF-8 byte.
pub open spec fn spec_palette_of(s: Seq<char>) -> Seq<u8> {
    Seq::new(((s.len() + 1) / 2) as nat, |i: int| s[2 * i] as u8)
}

/// Parses a palette string into an ordered sequence of glyph bytes.
///
/// Selects every character at an even position; succeeds with those
/// characters as bytes exactly when each of them encodes to one byte, and
/// fails with `ParseError` otherwise. Empty input yields an empty palette.
pub fn parse_custom_char_map(input: &str) -> (r: Result<Vec<u8>, ParseCustomCharMapError>)
    ensures
        r matches Ok(p) ==> spec_selectable(input@) && p@ == spec_palette_of(input@),
        r matches Err(e) ==> !spec_selectable(input@) && e
            == ParseCustomCharMapError::ParseError,
{
    let n = input.unicode_len();
    let mut chars: Vec<u8> = Vec::new();
    let mut i: usize = 0;
    while i < n
        invariant
            n == input@.len(),
            0 <= i <= n,
            forall|j: int| #![trigger input@[j]] 0 <= j < i && j % 2 == 0 ==> (input@[j] as u32)
                < 128,
            chars@ =~= spec_palette_of(input@.take(i as int)),
        decreases n - i,
    {
        if i % 2 == 0 {
            let c = input.get_char(i);
            let code = c as u32;
            if code >= 128 {
                assert(!spec_selectable(input@));
                return Err(ParseCustomCharMapError::ParseError);
            }
            chars.push(code as u8);
        }
        i = i + 1;
        proof {
            assert(chars@ =~= spec_palette_of(input@.take(i as int)));
        }
    }
    proof {
        assert(input@.take(n as int) =~= input@);
    }
    Ok(chars)
}

} // verus!
