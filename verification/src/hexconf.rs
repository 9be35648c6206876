//! Decoding of hex-token configuration strings.
//!
//! The `key` and `device_id` configuration fields are strings of comma-space
//! separated tokens, each token contributing exactly one byte taken from its
//! 3rd and 4th characters (tokens shaped like `0x1A`). This exact
//! tokenization is part of the configuration format and must be preserved.

use vstd::prelude::*;
use vstd::string::StrSliceExecFns;

use crate::error::{Error, ErrorKind};

verus! {

/// A token separator (the two characters `", "`) starts at position `j`.
pub open spec fn sep_at(s: Seq<char>, j: int) -> bool {
    0 <= j && j + 2 <= s.len() && s[j] == ',' && s[j + 1] == ' '
}

/// The position of the leftmost separator at or after `i`, if any.
pub open spec fn first_sep_from(s: Seq<char>, i: int) -> Option<int>
    decreases s.len() - i,
{
    if i < 0 || i + 2 > s.len() {
        None
    } else if sep_at(s, i) {
        Some(i)
    } else {
        first_sep_from(s, i + 1)
    }
}

/// The value of one hex digit, upper or lower case.
pub open spec fn hex_digit_value(c: char) -> Option<u8> {
    let v = c as int;
    if 48 <= v && v <= 57 {
        Some((v - 48) as u8)
    } else if 97 <= v && v <= 102 {
        Some((v - 97 + 10) as u8)
    } else if 65 <= v && v <= 70 {
        Some((v - 65 + 10) as u8)
    } else {
        None
    }
}

/// The byte contributed by one token: its 3rd and 4th characters read as two
/// hex digits. A token shorter than four characters contributes nothing.
pub open spec fn token_byte(t: Seq<char>) -> Option<u8> {
    if t.len() < 4 {
        None
    } else {
        match (hex_digit_value(t[2]), hex_digit_value(t[3])) {
            (Some(h), Some(l)) => Some(((h as int) * 16 + (l as int)) as u8),
            _ => None,
        }
    }
}

/// The bytes contributed by the tokens of `s` from position `pos` on, or
/// `None` if any token is malformed.
pub open spec fn hex_tokens_bytes_from(s: Seq<char>, pos: int) -> Option<Seq<u8>>
    decreases s.len() - pos,
{
    match first_sep_from(s, pos) {
        None => match token_byte(s.subrange(pos, s.len() as int)) {
            Some(b) => Some(seq![b]),
            None => None,
        },
        Some(j) => if pos <= j && j + 2 <= s.len() {
            match (token_byte(s.subrange(pos, j)), hex_tokens_bytes_from(s, j + 2)) {
                (Some(b), Some(bs)) => Some(seq![b] + bs),
                _ => None,
            }
        } else {
            None
        },
    }
}

/// The bytes encoded by a whole hex-token string, or `None` if malformed.
pub open spec fn hex_tokens_bytes(s: Seq<char>) -> Option<Seq<u8>> {
    hex_tokens_bytes_from(s, 0)
}

fn hex_digit(c: char) -> (r: Option<u8>)
    ensures
        r == hex_digit_value(c),
{
    let v = c as u32;
    if 48 <= v && v <= 57 {
        Some((v - 48) as u8)
    } else if 97 <= v && v <= 102 {
        Some((v - 97 + 10) as u8)
    } else if 65 <= v && v <= 70 {
        Some((v - 65 + 10) as u8)
    } else {
        None
    }
}

fn malformed_hex_error() -> (e: Error)
    ensures
        e.kind == ErrorKind::Config,
{
    Error::categorized(ErrorKind::Config, "could not convert from hex".to_owned())
}

/// Decodes a comma-space separated hex-token string into its bytes.
pub fn get_from_hex_array(s: &str) -> (r: Result<Vec<u8>, Error>)
    ensures
        hex_tokens_bytes(s@) matches Some(bs) ==> (r matches Ok(v) && v@ == bs),
        hex_tokens_bytes(s@) is None ==> (r matches Err(e) && e.kind == ErrorKind::Config),
{
    let len = s.unicode_len();
    let mut out: Vec<u8> = Vec::new();
    let mut pos: usize = 0;
    proof {
        match hex_tokens_bytes(s@) {
            Some(bs) => {
                assert(Seq::<u8>::empty() + bs =~= bs);
            },
            None => {},
        }
    }
    loop
        invariant
            len == s@.len(),
            pos <= len,
            match hex_tokens_bytes_from(s@, pos as int) {
                Some(bs) => hex_tokens_bytes(s@) == Some(out@ + bs),
                None => hex_tokens_bytes(s@) is None,
            },
        decreases len - pos,
    {
        // Scan for the next token separator at or after `pos`.
        let mut k: usize = pos;
        loop
            invariant
                len == s@.len(),
                pos <= k <= len,
                first_sep_from(s@, pos as int) == first_sep_from(s@, k as int),
            ensures
                pos <= k <= len,
                len - k >= 2 ==> first_sep_from(s@, pos as int) == Some(k as int),
                len - k < 2 ==> first_sep_from(s@, pos as int) is None,
            decreases len - k,
        {
            if len - k < 2 {
                proof {
                    assert(first_sep_from(s@, k as int) is None);
                }
                break;
            }
            if s.get_char(k) == ',' && s.get_char(k + 1) == ' ' {
                proof {
                    assert(sep_at(s@, k as int));
                    assert(first_sep_from(s@, k as int) == Some(k as int));
                }
                break;
            }
            proof {
                assert(!sep_at(s@, k as int));
                assert(first_sep_from(s@, k as int) == first_sep_from(s@, k + 1));
            }
            k += 1;
        }
        let has_sep = len - k >= 2;
        let token_end = if has_sep { k } else { len };
        if token_end - pos < 4 {
            return Err(malformed_hex_error());
        }
        let h = hex_digit(s.get_char(pos + 2));
        let l = hex_digit(s.get_char(pos + 3));
        let b: u8 = match (h, l) {
            (Some(hv), Some(lv)) => hv * 16 + lv,
            _ => {
                return Err(malformed_hex_error());
            },
        };
        proof {
            let token = s@.subrange(pos as int, token_end as int);
            assert(token[2] == s@[pos + 2]);
            assert(token[3] == s@[pos + 3]);
            assert(token_byte(token) == Some(b));
        }
        let ghost out_before = out@;
        out.push(b);
        if has_sep {
            proof {
                match hex_tokens_bytes_from(s@, k + 2) {
                    Some(tail) => {
                        assert(hex_tokens_bytes_from(s@, pos as int) == Some(seq![b] + tail));
                        assert(out_before + (seq![b] + tail) =~= out@ + tail);
                    },
                    None => {},
                }
            }
            pos = k + 2;
        } else {
            proof {
                assert(hex_tokens_bytes_from(s@, pos as int) == Some(seq![b]));
                assert(out_before + seq![b] =~= out@);
            }
            return Ok(out);
        }
    }
}

} // verus!
