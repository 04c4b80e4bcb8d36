//! UTF-16 decoding of the encoding units the platform writes into a
//! scratch buffer, in a strict form that rejects unpaired surrogates and a
//! lossy form that replaces them with U+FFFD.

use vstd::prelude::*;

verus! {

/// The first unit of a surrogate pair.
pub open spec fn is_high_surrogate(u: u16) -> bool {
    0xd800 <= u && u <= 0xdbff
}

/// The second unit of a surrogate pair.
pub open spec fn is_low_surrogate(u: u16) -> bool {
    0xdc00 <= u && u <= 0xdfff
}

pub open spec fn is_surrogate(u: u16) -> bool {
    0xd800 <= u && u <= 0xdfff
}

/// The scalar value a surrogate pair encodes; it lies in
/// `[0x10000, 0x10ffff]` whenever `hi` and `lo` are a high and a low
/// surrogate.
pub open spec fn combined_scalar(hi: u16, lo: u16) -> int {
    0x10000 + (hi - 0xd800) * 0x400 + (lo - 0xdc00)
}

/// Strict UTF-16 decoding: `None` exactly when the units hold an unpaired
/// surrogate.
pub open spec fn utf16_decode(s: Seq<u16>) -> Option<Seq<char>>
    decreases s.len(),
{
    if s.len() == 0 {
        Some(Seq::empty())
    } else if is_high_surrogate(s[0]) {
        if s.len() >= 2 && is_low_surrogate(s[1]) {
            match utf16_decode(s.skip(2)) {
                Some(rest) => Some(seq![combined_scalar(s[0], s[1]) as char] + rest),
                None => None,
            }
        } else {
            None
        }
    } else if is_low_surrogate(s[0]) {
        None
    } else {
        match utf16_decode(s.skip(1)) {
            Some(rest) => Some(seq![s[0] as char] + rest),
            None => None,
        }
    }
}

/// Lossy UTF-16 decoding: each unpaired surrogate becomes the replacement
/// character U+FFFD; everything else decodes as in the strict form.
pub open spec fn utf16_decode_lossy(s: Seq<u16>) -> Seq<char>
    decreases s.len(),
{
    if s.len() == 0 {
        Seq::empty()
    } else if is_high_surrogate(s[0]) && s.len() >= 2 && is_low_surrogate(s[1]) {
        seq![combined_scalar(s[0], s[1]) as char] + utf16_decode_lossy(s.skip(2))
    } else if is_surrogate(s[0]) {
        seq!['\u{fffd}'] + utf16_decode_lossy(s.skip(1))
    } else {
        seq![s[0] as char] + utf16_decode_lossy(s.skip(1))
    }
}

/// Decoding yields at most one character per unit, and strict decoding of a
/// non-empty sequence yields at least one.
pub proof fn lemma_decode_lossy_len(s: Seq<u16>)
    ensures
        utf16_decode_lossy(s).len() <= s.len(),
        s.len() > 0 ==> utf16_decode_lossy(s).len() > 0,
    decreases s.len(),
{
    if s.len() > 0 {
        if is_high_surrogate(s[0]) && s.len() >= 2 && is_low_surrogate(s[1]) {
            lemma_decode_lossy_len(s.skip(2));
        } else {
            lemma_decode_lossy_len(s.skip(1));
        }
    }
}

/// Strict decoding yields at most one character per unit, and at least one
/// character when it succeeds on a non-empty sequence.
pub proof fn lemma_decode_len(s: Seq<u16>)
    ensures
        utf16_decode(s) is Some ==> utf16_decode(s)->Some_0.len() <= s.len(),
        utf16_decode(s) is Some && s.len() > 0 ==> utf16_decode(s)->Some_0.len() > 0,
    decreases s.len(),
{
    if s.len() > 0 {
        if is_high_surrogate(s[0]) {
            if s.len() >= 2 && is_low_surrogate(s[1]) {
                lemma_decode_len(s.skip(2));
            }
        } else if !is_low_surrogate(s[0]) {
            lemma_decode_len(s.skip(1));
        }
    }
}

/// Relies on `char::from_u32`: returns `Some` exactly on the Unicode scalar
/// values (code points outside the surrogate range and at most 0x10ffff),
/// and the returned character is that code point.
pub assume_specification[ char::from_u32 ](v: u32) -> (r: Option<char>)
    ensures
        (v < 0xd800 || (0xe000 <= v && v <= 0x10ffff)) ==> r == Some(v as char),
        (0xd800 <= v && v < 0xe000) || v > 0x10ffff ==> r is None,
;

/// Strict UTF-16 decoding; `None` exactly when the units hold an unpaired
/// surrogate.
pub fn utf16_to_chars(units: &Vec<u16>) -> (r: Option<Vec<char>>)
    ensures
        r is Some ==> utf16_decode(units@) == Some(r->Some_0@),
        r is None ==> utf16_decode(units@) is None,
{
    let n: usize = units.len();
    let mut out: Vec<char> = Vec::new();
    let mut i: usize = 0;
    proof {
        assert(units@.skip(0) =~= units@);
    }
    while i < n
        invariant
            i <= n,
            n == units@.len(),
            utf16_decode(units@) == (match utf16_decode(units@.skip(i as int)) {
                Some(rest) => Some(out@ + rest),
                None => None::<Seq<char>>,
            }),
        decreases n - i,
    {
        let ghost tail = units@.skip(i as int);
        let u: u16 = units[i];
        proof {
            assert(tail[0] == units@[i as int]);
        }
        if 0xd800 <= u && u <= 0xdbff {
            if i + 1 < n {
                let lo: u16 = units[i + 1];
                proof {
                    assert(tail[1] == units@[i as int + 1]);
                }
                if 0xdc00 <= lo && lo <= 0xdfff {
                    let scalar: u32 = 0x10000 + (((u - 0xd800) as u32) * 0x400) + ((lo
                        - 0xdc00) as u32);
                    let c: char = match char::from_u32(scalar) {
                        Some(c) => c,
                        None => ' ',
                    };
                    proof {
                        assert(c as u32 == scalar);
                        assert(c == combined_scalar(tail[0], tail[1]) as char);
                        assert(tail.skip(2) =~= units@.skip(i as int + 2));
                        assert(out@.push(c) =~= out@ + seq![c]);
                        assert(utf16_decode(units@) == (match utf16_decode(
                            units@.skip(i as int + 2),
                        ) {
                            Some(rest) => Some(out@.push(c) + rest),
                            None => None::<Seq<char>>,
                        })) by {
                            if utf16_decode(units@.skip(i as int + 2)) is Some {
                                let rest = utf16_decode(units@.skip(i as int + 2))->Some_0;
                                assert(out@ + (seq![c] + rest) =~= out@.push(c) + rest);
                            }
                        }
                    }
                    out.push(c);
                    i = i + 2;
                } else {
                    return None;
                }
            } else {
                proof {
                    assert(tail.len() == 1);
                }
                return None;
            }
        } else if 0xdc00 <= u && u <= 0xdfff {
            return None;
        } else {
            let c: char = match char::from_u32(u as u32) {
                Some(c) => c,
                None => ' ',
            };
            proof {
                assert(c == tail[0] as char);
                assert(tail.skip(1) =~= units@.skip(i as int + 1));
                assert(utf16_decode(units@) == (match utf16_decode(units@.skip(i as int + 1)) {
                    Some(rest) => Some(out@.push(c) + rest),
                    None => None::<Seq<char>>,
                })) by {
                    if utf16_decode(units@.skip(i as int + 1)) is Some {
                        let rest = utf16_decode(units@.skip(i as int + 1))->Some_0;
                        assert(out@ + (seq![c] + rest) =~= out@.push(c) + rest);
                    }
                }
            }
            out.push(c);
            i = i + 1;
        }
    }
    proof {
        assert(units@.skip(n as int).len() == 0);
        assert(out@ + Seq::<char>::empty() =~= out@);
    }
    Some(out)
}

/// Lossy UTF-16 decoding: unpaired surrogates become U+FFFD.
pub fn utf16_to_chars_lossy(units: &Vec<u16>) -> (r: Vec<char>)
    ensures
        r@ == utf16_decode_lossy(units@),
{
    let n: usize = units.len();
    let mut out: Vec<char> = Vec::new();
    let mut i: usize = 0;
    proof {
        assert(units@.skip(0) =~= units@);
    }
    while i < n
        invariant
            i <= n,
            n == units@.len(),
            utf16_decode_lossy(units@) == out@ + utf16_decode_lossy(units@.skip(i as int)),
        decreases n - i,
    {
        let ghost tail = units@.skip(i as int);
        let u: u16 = units[i];
        proof {
            assert(tail[0] == units@[i as int]);
        }
        let mut paired: bool = false;
        let mut c: char = '\u{fffd}';
        let mut step: usize = 1;
        if 0xd800 <= u && u <= 0xdbff && i + 1 < n {
            let lo: u16 = units[i + 1];
            proof {
                assert(tail[1] == units@[i as int + 1]);
            }
            if 0xdc00 <= lo && lo <= 0xdfff {
                let scalar: u32 = 0x10000 + (((u - 0xd800) as u32) * 0x400) + ((lo
                    - 0xdc00) as u32);
                c = match char::from_u32(scalar) {
                    Some(c) => c,
                    None => ' ',
                };
                proof {
                    assert(c as u32 == scalar);
                    assert(c == combined_scalar(tail[0], tail[1]) as char);
                }
                paired = true;
                step = 2;
            }
        }
        if !paired && !(0xd800 <= u && u <= 0xdfff) {
            c = match char::from_u32(u as u32) {
                Some(c) => c,
                None => ' ',
            };
            proof {
                assert(c == tail[0] as char);
            }
        }
        proof {
            assert(tail.skip(step as int) =~= units@.skip(i as int + step as int));
            assert(utf16_decode_lossy(tail) == seq![c] + utf16_decode_lossy(tail.skip(step as int)));
            assert(out@ + (seq![c] + utf16_decode_lossy(tail.skip(step as int))) =~= out@.push(c)
                + utf16_decode_lossy(tail.skip(step as int)));
        }
        out.push(c);
        i = i + step;
    }
    proof {
        assert(units@.skip(n as int).len() == 0);
        assert(out@ + Seq::<char>::empty() =~= out@);
    }
    out
}

} // verus!
