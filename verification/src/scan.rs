//! Pure helpers for the annotation scan around the matcher set: shortening
//! a note's text, and classifying file contents and permission modes.

use vstd::prelude::*;

use crate::text::chars_to_string;
use crate::text::str_to_chars;

verus! {

/// Shorten `s` to at most `max_chars` characters; when something was cut,
/// an ellipsis of three dots is appended.
pub fn truncate(s: &str, max_chars: usize) -> (r: String)
    ensures
        s@.len() <= max_chars ==> r@ == s@,
        s@.len() > max_chars ==> r@ == s@.take(max_chars as int) + seq!['.', '.', '.'],
{
    let chars = str_to_chars(s);
    if chars.len() <= max_chars {
        s.to_owned()
    } else {
        let mut out: Vec<char> = Vec::new();
        let mut k: usize = 0;
        proof {
            assert(out@ =~= s@.take(0));
        }
        while k < max_chars
            invariant
                k <= max_chars,
                max_chars < chars@.len(),
                chars@ == s@,
                out@ == s@.take(k as int),
            decreases max_chars - k,
        {
            out.push(chars[k]);
            proof {
                assert(s@.take(k as int) + seq![s@[k as int]] =~= s@.take(k + 1));
            }
            k += 1;
        }
        out.push('.');
        out.push('.');
        out.push('.');
        proof {
            assert(out@ =~= s@.take(max_chars as int) + seq!['.', '.', '.']);
        }
        chars_to_string(&out)
    }
}

/// A byte that marks a buffer as binary: a NUL or any control byte other
/// than tab, line feed and carriage return.
pub open spec fn is_binary_byte(b: u8) -> bool {
    (b < 32 || b == 127) && b != 9 && b != 10 && b != 13
}

/// Does the sampled prefix of a file look binary? True when any byte of
/// it is a control byte other than tab, line feed or carriage return.
pub fn is_binary_buffer(buf: &[u8]) -> (r: bool)
    ensures
        r == exists|i: int| 0 <= i < buf@.len() && is_binary_byte(buf@[i]),
{
    let mut i: usize = 0;
    while i < buf.len()
        invariant
            i <= buf@.len(),
            forall|k: int| 0 <= k < i ==> !is_binary_byte(buf@[k]),
        decreases buf.len() - i,
    {
        let b = buf[i];
        if (b < 32 || b == 127) && b != 9 && b != 10 && b != 13 {
            return true;
        }
        i += 1;
    }
    false
}

/// Is any execute bit of a Unix permission mode set?
pub fn is_executable(mode: u32) -> (r: bool)
    ensures
        r == (mode & 0o111 != 0),
{
    mode & 0o111 != 0
}

} // verus!
