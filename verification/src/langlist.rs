//! Splitting a buffer of null-terminated UTF-16 segments into the
//! platform-ordered list of UI language names.
//!
//! The buffer holds segments separated by a zero unit and ends with an
//! empty segment (the final terminator). Empty segments are discarded,
//! every other segment is decoded strictly, and a segment that is not
//! valid UTF-16 is skipped rather than failing the whole list. The order
//! of the surviving segments is exactly the order they stand in the
//! buffer.

use vstd::prelude::*;

use crate::text::chars_to_string;
use crate::utf16::utf16_decode;
use crate::utf16::lemma_decode_len;
use crate::utf16::utf16_to_chars;

verus! {

/// The segments of `s` between zero units, in order: every zero ends a
/// segment, and the tail after the last zero is the final segment (so a
/// trailing zero yields a final empty segment).
pub open spec fn split_at_zeros(s: Seq<u16>) -> Seq<Seq<u16>>
    decreases s.len(),
{
    if s.len() == 0 {
        seq![Seq::<u16>::empty()]
    } else if s[0] == 0 {
        seq![Seq::<u16>::empty()] + split_at_zeros(s.drop_first())
    } else {
        let rest = split_at_zeros(s.drop_first());
        seq![seq![s[0]] + rest[0]] + rest.drop_first()
    }
}

/// What one segment contributes to the decoded list: nothing when it is
/// empty or not valid UTF-16, its strict decoding otherwise.
pub open spec fn decode_one(seg: Seq<u16>) -> Seq<Seq<char>> {
    if seg.len() == 0 {
        Seq::empty()
    } else {
        match utf16_decode(seg) {
            Some(cs) => seq![cs],
            None => Seq::empty(),
        }
    }
}

/// Decodes a list of segments: empty segments are discarded, valid ones
/// decode strictly, invalid ones are skipped. Order is preserved.
pub open spec fn decode_segments(segs: Seq<Seq<u16>>) -> Seq<Seq<char>>
    decreases segs.len(),
{
    if segs.len() == 0 {
        Seq::empty()
    } else {
        decode_one(segs[0]) + decode_segments(segs.drop_first())
    }
}

/// The decoded language list a filled buffer stands for.
pub open spec fn language_list_spec(s: Seq<u16>) -> Seq<Seq<char>> {
    decode_segments(split_at_zeros(s))
}

proof fn lemma_split_at_zeros_len(s: Seq<u16>)
    ensures
        split_at_zeros(s).len() >= 1,
    decreases s.len(),
{
    if s.len() > 0 {
        lemma_split_at_zeros_len(s.drop_first());
    }
}

proof fn lemma_decode_segments_one(seg: Seq<u16>, rest: Seq<Seq<u16>>)
    ensures
        decode_segments(seq![seg] + rest) == decode_one(seg) + decode_segments(rest),
{
    let segs = seq![seg] + rest;
    assert(segs.len() > 0);
    assert(segs[0] == seg);
    assert(segs.drop_first() =~= rest);
}

proof fn lemma_decode_segments_empty()
    ensures
        decode_segments(Seq::<Seq<u16>>::empty()) == Seq::<Seq<char>>::empty(),
{
}

/// Where the first `k` units are non-zero and unit `k` (if any) is zero,
/// the split starts with exactly those `k` units as its first segment.
proof fn lemma_split_prefix(s: Seq<u16>, k: int)
    requires
        0 <= k <= s.len(),
        forall|j: int| 0 <= j < k ==> s[j] != 0,
        k < s.len() ==> s[k] == 0,
    ensures
        k == s.len() ==> split_at_zeros(s) == seq![s],
        k < s.len() ==> split_at_zeros(s) == seq![s.take(k)] + split_at_zeros(s.skip(k + 1)),
    decreases k,
{
    if k == 0 {
        if s.len() == 0 {
            assert(split_at_zeros(s) =~~= seq![s]);
        } else {
            assert(s[0] == 0);
            assert(s.drop_first() =~= s.skip(1));
            assert(split_at_zeros(s) =~~= seq![s.take(0)] + split_at_zeros(s.skip(1)));
        }
    } else {
        assert(s[0] != 0);
        let d = s.drop_first();
        assert(d =~= s.skip(1));
        assert(forall|j: int| 0 <= j < k - 1 ==> d[j] == s[j + 1] && d[j] != 0);
        lemma_split_prefix(d, k - 1);
        let rest = split_at_zeros(d);
        lemma_split_at_zeros_len(d);
        if k == s.len() {
            assert(rest == seq![d]);
            assert(rest[0] == d);
            assert(seq![s[0]] + d =~= s);
            assert(rest.drop_first() =~= Seq::<Seq<u16>>::empty());
            assert(split_at_zeros(s) =~~= seq![s]);
        } else {
            assert(rest == seq![d.take(k - 1)] + split_at_zeros(d.skip(k)));
            assert(rest[0] == d.take(k - 1));
            assert(seq![s[0]] + d.take(k - 1) =~= s.take(k));
            assert(rest.drop_first() =~= split_at_zeros(d.skip(k)));
            assert(d.skip(k) =~= s.skip(k + 1));
            assert(split_at_zeros(s) =~~= seq![s.take(k)] + split_at_zeros(s.skip(k + 1)));
        }
    }
}

/// Every entry of a decoded segment list is non-empty, and each is the
/// strict decoding of some non-empty segment: a failed decoding never
/// contributes an entry.
pub proof fn lemma_decode_segments_entries(segs: Seq<Seq<u16>>)
    ensures
        forall|i: int|
            0 <= i < decode_segments(segs).len() ==> #[trigger] decode_segments(segs)[i].len() > 0,
        forall|i: int|
            0 <= i < decode_segments(segs).len() ==> exists|g: Seq<u16>|
                g.len() > 0 && utf16_decode(g) == Some(#[trigger] decode_segments(segs)[i]),
    decreases segs.len(),
{
    if segs.len() > 0 {
        lemma_decode_segments_entries(segs.drop_first());
        let rest = decode_segments(segs.drop_first());
        let g0 = segs[0];
        if g0.len() > 0 && utf16_decode(g0) is Some {
            lemma_decode_len(g0);
            let cs = utf16_decode(g0)->Some_0;
            assert(decode_segments(segs) == seq![cs] + rest);
            assert(forall|i: int|
                1 <= i < decode_segments(segs).len() ==> decode_segments(segs)[i] == rest[i - 1]);
            assert(decode_segments(segs)[0] == cs);
            assert(g0.len() > 0 && utf16_decode(g0) == Some(decode_segments(segs)[0]));
        } else {
            assert(decode_one(g0) =~= Seq::<Seq<char>>::empty());
            assert(decode_segments(segs) =~= rest);
        }
    }
}

/// The entries lemma stated of a whole buffer.
pub proof fn lemma_language_list_entries(s: Seq<u16>)
    ensures
        forall|i: int|
            0 <= i < language_list_spec(s).len() ==> #[trigger] language_list_spec(s)[i].len() > 0,
        forall|i: int|
            0 <= i < language_list_spec(s).len() ==> exists|g: Seq<u16>|
                g.len() > 0 && utf16_decode(g) == Some(#[trigger] language_list_spec(s)[i]),
{
    lemma_decode_segments_entries(split_at_zeros(s));
}

/// Appends to `out` what the finished segment `cur` contributes to the
/// decoded list.
fn flush_segment(out: &mut Vec<String>, cur: &Vec<u16>)
    ensures
        final(out)@.map_values(|t: String| t@) == old(out)@.map_values(|t: String| t@)
            + decode_one(cur@),
        old(out)@.len() <= final(out)@.len(),
        forall|p: int|
            0 <= p < old(out)@.len() ==> final(out)@[p] == old(out)@[p],
{
    if cur.len() > 0 {
        match utf16_to_chars(cur) {
            Some(cs) => {
                let t = chars_to_string(&cs);
                out.push(t);
                proof {
                    assert(out@.map_values(|t: String| t@) =~= out@.drop_last().map_values(
                        |t: String| t@,
                    ) + decode_one(cur@));
                }
            },
            None => {
                proof {
                    assert(out@.map_values(|t: String| t@) + decode_one(cur@) =~= out@.map_values(
                        |t: String| t@,
                    ));
                }
            },
        }
    } else {
        proof {
            assert(out@.map_values(|t: String| t@) + decode_one(cur@) =~= out@.map_values(
                |t: String| t@,
            ));
        }
    }
}

/// Splits the filled buffer at zero units, discards empty segments, and
/// strictly decodes the rest, skipping invalid ones; the result keeps the
/// order the buffer reported.
pub fn split_ui_languages(units: &Vec<u16>) -> (r: Vec<String>)
    ensures
        r@.map_values(|t: String| t@) == language_list_spec(units@),
        forall|i: int| 0 <= i < r@.len() ==> (#[trigger] r@[i])@.len() > 0,
{
    let n: usize = units.len();
    let mut out: Vec<String> = Vec::new();
    let mut cur: Vec<u16> = Vec::new();
    let mut start: usize = 0;
    let mut i: usize = 0;
    proof {
        assert(units@.skip(0) =~= units@);
        assert(cur@ =~= units@.subrange(0, 0));
        assert(out@.map_values(|t: String| t@) =~= Seq::<Seq<char>>::empty());
    }
    while i < n
        invariant
            start <= i <= n,
            n == units@.len(),
            cur@ == units@.subrange(start as int, i as int),
            forall|j: int| start <= j < i ==> units@[j] != 0,
            language_list_spec(units@) == out@.map_values(|t: String| t@) + decode_segments(
                split_at_zeros(units@.skip(start as int)),
            ),
        decreases n - i,
    {
        let u: u16 = units[i];
        if u == 0 {
            let ghost tail = units@.skip(start as int);
            proof {
                assert(forall|j: int|
                    0 <= j < i - start ==> tail[j] == units@[j + start] && tail[j] != 0);
                assert(tail[i - start] == units@[i as int]);
                lemma_split_prefix(tail, i - start);
                assert(tail.take(i - start) =~= cur@);
                assert(tail.skip(i - start + 1) =~= units@.skip(i as int + 1));
                lemma_decode_segments_one(cur@, split_at_zeros(units@.skip(i as int + 1)));
                assert(decode_segments(split_at_zeros(tail)) == decode_one(cur@) + decode_segments(
                    split_at_zeros(units@.skip(i as int + 1)),
                ));
            }
            flush_segment(&mut out, &cur);
            proof {
                assert(out@.map_values(|t: String| t@) + decode_segments(
                    split_at_zeros(units@.skip(i as int + 1)),
                ) =~= language_list_spec(units@));
            }
            cur = Vec::new();
            i = i + 1;
            start = i;
            proof {
                assert(cur@ =~= units@.subrange(start as int, i as int));
            }
        } else {
            cur.push(u);
            i = i + 1;
            proof {
                assert(units@.subrange(start as int, i - 1).push(units@[i - 1]) =~= units@.subrange(
                    start as int,
                    i as int,
                ));
            }
        }
    }
    let ghost tail = units@.skip(start as int);
    proof {
        assert(forall|j: int| 0 <= j < n - start ==> tail[j] == units@[j + start] && tail[j] != 0);
        lemma_split_prefix(tail, n - start as int);
        assert(tail =~= cur@);
        lemma_decode_segments_one(cur@, Seq::<Seq<u16>>::empty());
        lemma_decode_segments_empty();
        assert(seq![cur@] =~= seq![cur@] + Seq::<Seq<u16>>::empty());
        assert(decode_segments(split_at_zeros(tail)) == decode_one(cur@));
    }
    flush_segment(&mut out, &cur);
    proof {
        assert(out@.map_values(|t: String| t@) =~= language_list_spec(units@));
        lemma_language_list_entries(units@);
        assert(forall|p: int|
            0 <= p < out@.len() ==> (#[trigger] out@[p])@ == out@.map_values(|t: String| t@)[p]);
    }
    out
}

} // verus!
