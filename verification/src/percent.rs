//! Percent-encoding and form-style percent-decoding of byte sequences.
//!
//! Encoding is done by the `urlencoding` crate behind a trusted wrapper whose
//! contract restates the crate's documented behaviour; decoding is the
//! library's own verified logic.

use vstd::prelude::*;

verus! {

/// Bytes that percent-encoding leaves unchanged: ASCII alphanumerics and
/// `-`, `.`, `_`, `~`.
pub open spec fn is_unreserved(b: u8) -> bool {
    (65 <= b && b <= 90) || (97 <= b && b <= 122) || (48 <= b && b <= 57) || b == 45 || b == 46
        || b == 95 || b == 126
}

/// Uppercase hexadecimal digit for a value below 16.
pub open spec fn hex_upper(v: u8) -> char
    recommends
        v < 16,
{
    if v < 10 {
        (48 + v) as char
    } else {
        (55 + v) as char
    }
}

/// Percent-encoding of a byte sequence: every byte except the unreserved
/// ones becomes `%` followed by two uppercase hexadecimal digits.
pub open spec fn urlenc_of(bs: Seq<u8>) -> Seq<char>
    decreases bs.len(),
{
    if bs.len() == 0 {
        Seq::empty()
    } else {
        let b = bs[0];
        let head: Seq<char> = if is_unreserved(b) {
            seq![b as char]
        } else {
            seq!['%', hex_upper(b / 16), hex_upper(b % 16)]
        };
        head + urlenc_of(bs.drop_first())
    }
}

/// Relies on `urlencoding::encode_binary`: it percent-encodes every byte
/// except ASCII alphanumerics and `-`, `.`, `_`, `~`, writing `%` and two
/// uppercase hexadecimal digits for each encoded byte.
#[verifier::external_body]
pub(crate) fn url_encode(bs: &[u8]) -> (r: String)
    ensures
        r@ == urlenc_of(bs@),
{
    urlencoding::encode_binary(bs).into_owned()
}

/// Value of an ASCII hexadecimal digit, upper or lower case.
pub open spec fn hex_val(b: u8) -> Option<u8> {
    if 48 <= b && b <= 57 {
        Some((b - 48) as u8)
    } else if 65 <= b && b <= 70 {
        Some((b - 55) as u8)
    } else if 97 <= b && b <= 102 {
        Some((b - 87) as u8)
    } else {
        None
    }
}

/// Decoding of a form-style query value: `+` becomes a space and `%hh`
/// becomes the byte `hh`; a `%` not followed by two hexadecimal digits makes
/// the whole value undecodable.
pub open spec fn pct_decode(bs: Seq<u8>) -> Option<Seq<u8>>
    decreases bs.len(),
{
    if bs.len() == 0 {
        Some(Seq::empty())
    } else if bs[0] == 37 {
        if bs.len() >= 3 && hex_val(bs[1]) is Some && hex_val(bs[2]) is Some {
            match pct_decode(bs.subrange(3, bs.len() as int)) {
                Some(rest) => Some(
                    seq![((16 * hex_val(bs[1])->Some_0 + hex_val(bs[2])->Some_0) as u8)] + rest,
                ),
                None => None,
            }
        } else {
            None
        }
    } else if bs[0] == 43 {
        match pct_decode(bs.drop_first()) {
            Some(rest) => Some(seq![32u8] + rest),
            None => None,
        }
    } else {
        match pct_decode(bs.drop_first()) {
            Some(rest) => Some(seq![bs[0]] + rest),
            None => None,
        }
    }
}

fn hex_val_exec(b: u8) -> (r: Option<u8>)
    ensures
        r == hex_val(b),
{
    if 48 <= b && b <= 57 {
        Some(b - 48)
    } else if 65 <= b && b <= 70 {
        Some(b - 55)
    } else if 97 <= b && b <= 102 {
        Some(b - 87)
    } else {
        None
    }
}

/// Decodes a form-style percent-encoded value, or reports that it is
/// undecodable.
pub fn percent_decode(bs: &[u8]) -> (r: Option<Vec<u8>>)
    ensures
        match r {
            Some(v) => pct_decode(bs@) == Some(v@),
            None => pct_decode(bs@) is None,
        },
{
    let mut out: Vec<u8> = Vec::new();
    let mut i: usize = 0;
    proof {
        assert(bs@.subrange(0, bs@.len() as int) =~= bs@);
        if pct_decode(bs@) is Some {
            assert(Seq::<u8>::empty() + pct_decode(bs@)->Some_0 =~= pct_decode(bs@)->Some_0);
        }
    }
    while i < bs.len()
        invariant
            i <= bs@.len(),
            pct_decode(bs@) == (match pct_decode(bs@.subrange(i as int, bs@.len() as int)) {
                Some(t) => Some(out@ + t),
                None => None::<Seq<u8>>,
            }),
        decreases bs@.len() - i,
    {
        let ghost pre = bs@.subrange(i as int, bs@.len() as int);
        let b = bs[i];
        if b == 37 {
            if bs.len() - i >= 3 {
                let h = hex_val_exec(bs[i + 1]);
                let l = hex_val_exec(bs[i + 2]);
                match (h, l) {
                    (Some(hv), Some(lv)) => {
                        proof {
                            assert(pre.subrange(3, pre.len() as int) =~= bs@.subrange(
                                i + 3,
                                bs@.len() as int,
                            ));
                        }
                        let decoded: u8 = 16 * hv + lv;
                        let ghost out_old = out@;
                        out.push(decoded);
                        proof {
                            let post = bs@.subrange(i + 3, bs@.len() as int);
                            if pct_decode(post) is Some {
                                let t = pct_decode(post)->Some_0;
                                assert(out_old + (seq![decoded] + t) =~= out_old.push(decoded)
                                    + t);
                            }
                        }
                        i = i + 3;
                    },
                    _ => {
                        return None;
                    },
                }
            } else {
                return None;
            }
        } else {
            proof {
                assert(pre.drop_first() =~= bs@.subrange(i + 1, bs@.len() as int));
            }
            let decoded: u8 = if b == 43 {
                32
            } else {
                b
            };
            let ghost out_old = out@;
            out.push(decoded);
            proof {
                let post = bs@.subrange(i + 1, bs@.len() as int);
                if pct_decode(post) is Some {
                    let t = pct_decode(post)->Some_0;
                    assert(out_old + (seq![decoded] + t) =~= out_old.push(decoded) + t);
                }
            }
            i = i + 1;
        }
    }
    proof {
        assert(bs@.subrange(i as int, bs@.len() as int) =~= Seq::<u8>::empty());
        assert(out@ + Seq::<u8>::empty() =~= out@);
    }
    Some(out)
}

} // verus!
