//! The page-table base (DTB) listing: candidate directory-table bases for a
//! process, one per line, to be tried in order until one works.
//!
//! A line lists whitespace-separated words; a line whose second word is `0`
//! names a candidate in its third word, written in hexadecimal with an
//! optional `+`. Lines end at a newline; whitespace is ASCII whitespace.
use vstd::prelude::*;

verus! {

pub const NEWLINE: u8 = 0x0a;

pub open spec fn is_space(b: u8) -> bool {
    b == 0x20 || b == 0x09 || b == 0x0a || b == 0x0b || b == 0x0c || b == 0x0d
}

fn space(b: u8) -> (r: bool)
    ensures
        r == is_space(b),
{
    b == 0x20 || b == 0x09 || b == 0x0a || b == 0x0b || b == 0x0c || b == 0x0d
}

/// Length of the word at the start of `s` (zero when `s` starts with
/// whitespace or is empty).
pub open spec fn word_len(s: Seq<u8>) -> nat
    decreases s.len(),
{
    if s.len() == 0 || is_space(s[0]) {
        0
    } else {
        1 + word_len(s.drop_first())
    }
}

/// Length of the first line of `s`, without its newline.
pub open spec fn line_len(s: Seq<u8>) -> nat
    decreases s.len(),
{
    if s.len() == 0 || s[0] == NEWLINE {
        0
    } else {
        1 + line_len(s.drop_first())
    }
}

proof fn lemma_word_len_at(s: Seq<u8>, k: int)
    requires
        0 <= k <= s.len(),
        forall|j: int| 0 <= j < k ==> !is_space(s[j]),
        k == s.len() || is_space(s[k]),
    ensures
        word_len(s) == k,
    decreases k,
{
    if k > 0 {
        lemma_word_len_at(s.drop_first(), k - 1);
    }
}

proof fn lemma_line_len_at(s: Seq<u8>, k: int)
    requires
        0 <= k <= s.len(),
        forall|j: int| 0 <= j < k ==> s[j] != NEWLINE,
        k == s.len() || s[k] == NEWLINE,
    ensures
        line_len(s) == k,
    decreases k,
{
    if k > 0 {
        lemma_line_len_at(s.drop_first(), k - 1);
    }
}

proof fn lemma_word_len_bound(s: Seq<u8>)
    ensures
        word_len(s) <= s.len(),
    decreases s.len(),
{
    if s.len() > 0 {
        lemma_word_len_bound(s.drop_first());
    }
}

/// The whitespace-separated words of `s`, in order.
pub open spec fn words(s: Seq<u8>) -> Seq<Seq<u8>>
    decreases s.len(),
    via words_decreases
{
    if s.len() == 0 {
        Seq::empty()
    } else if is_space(s[0]) {
        words(s.drop_first())
    } else {
        seq![s.take(word_len(s) as int)] + words(s.skip(word_len(s) as int))
    }
}

#[via_fn]
proof fn words_decreases(s: Seq<u8>) {
    lemma_word_len_bound(s);
    if s.len() > 0 && !is_space(s[0]) {
        assert(word_len(s) >= 1);
    }
}

/// The lines of `s`: split at each newline; a final newline ends the last
/// line rather than starting an empty one.
pub open spec fn lines(s: Seq<u8>) -> Seq<Seq<u8>>
    decreases s.len(),
{
    if s.len() == 0 {
        Seq::empty()
    } else if line_len(s) >= s.len() {
        seq![s]
    } else {
        seq![s.take(line_len(s) as int)] + lines(s.skip(line_len(s) as int + 1))
    }
}

/// The value of a hexadecimal digit.
pub open spec fn hex_digit_value(b: u8) -> Option<nat> {
    if 0x30 <= b <= 0x39 {
        Some((b - 0x30) as nat)
    } else if 0x61 <= b <= 0x66 {
        Some((b - 0x61 + 10) as nat)
    } else if 0x41 <= b <= 0x46 {
        Some((b - 0x41 + 10) as nat)
    } else {
        None
    }
}

/// The value of a run of hexadecimal digits, or `None` when one is not a
/// digit.
pub open spec fn digits_value(s: Seq<u8>) -> Option<nat>
    decreases s.len(),
{
    if s.len() == 0 {
        Some(0)
    } else {
        match (digits_value(s.drop_last()), hex_digit_value(s.last())) {
            (Some(v), Some(d)) => Some(v * 16 + d),
            _ => None,
        }
    }
}

/// A hexadecimal number with an optional leading `+`: at least one digit,
/// only digits, and a value that fits in 64 bits.
pub open spec fn hex_u64(s: Seq<u8>) -> Option<u64> {
    let d = if s.len() > 0 && s[0] == 0x2b {
        s.drop_first()
    } else {
        s
    };
    if d.len() == 0 {
        None
    } else {
        match digits_value(d) {
            Some(v) => if v <= u64::MAX {
                Some(v as u64)
            } else {
                None
            },
            None => None,
        }
    }
}

/// The candidate a line names, if any.
pub open spec fn line_dtb(line: Seq<u8>) -> Option<u64> {
    let w = words(line);
    if w.len() >= 3 && w[1] == seq![0x30u8] {
        hex_u64(w[2])
    } else {
        None
    }
}

/// The candidates named by a list of lines, in order.
pub open spec fn candidates_of(ls: Seq<Seq<u8>>) -> Seq<u64>
    decreases ls.len(),
{
    if ls.len() == 0 {
        Seq::empty()
    } else {
        let rest = candidates_of(ls.drop_first());
        match line_dtb(ls[0]) {
            Some(v) => seq![v] + rest,
            None => rest,
        }
    }
}

/// The candidates named by a listing, in order.
pub open spec fn dtb_candidates_of(listing: Seq<u8>) -> Seq<u64> {
    candidates_of(lines(listing))
}

fn hex_digit(b: u8) -> (r: Option<u64>)
    ensures
        match hex_digit_value(b) {
            Some(d) => r == Some(d as u64),
            None => r is None,
        },
{
    if 0x30 <= b && b <= 0x39 {
        Some((b - 0x30) as u64)
    } else if 0x61 <= b && b <= 0x66 {
        Some((b - 0x61 + 10) as u64)
    } else if 0x41 <= b && b <= 0x46 {
        Some((b - 0x41 + 10) as u64)
    } else {
        None
    }
}

proof fn lemma_bad_digit(d: Seq<u8>, k: int)
    requires
        0 <= k < d.len(),
        hex_digit_value(d[k]) is None,
    ensures
        digits_value(d) is None,
    decreases d.len(),
{
    if k < d.len() - 1 {
        lemma_bad_digit(d.drop_last(), k);
    }
}

/// Parses `s[lo..hi]` as a hexadecimal number.
fn parse_hex(s: &Vec<u8>, lo: usize, hi: usize) -> (r: Option<u64>)
    requires
        lo <= hi <= s@.len(),
    ensures
        r == hex_u64(s@.subrange(lo as int, hi as int)),
{
    let ghost t = s@.subrange(lo as int, hi as int);
    let mut start = lo;
    if lo < hi && s[lo] == 0x2b {
        start = lo + 1;
        assert(t.drop_first() =~= s@.subrange(start as int, hi as int));
    } else {
        assert(t =~= s@.subrange(start as int, hi as int));
    }
    if start == hi {
        return None;
    }
    let ghost d = s@.subrange(start as int, hi as int);
    let ghost outcome = match digits_value(d) {
        Some(v) => if v <= u64::MAX {
            Some(v as u64)
        } else {
            None
        },
        None => None,
    };
    assert(hex_u64(t) == outcome);
    let mut v: u64 = 0;
    let mut over = false;
    let ghost mut gv: nat = 0;
    let mut i = start;
    assert(s@.subrange(start as int, start as int) =~= Seq::<u8>::empty());
    while i < hi
        invariant
            start <= i <= hi,
            hi <= s@.len(),
            d == s@.subrange(start as int, hi as int),
            hex_u64(s@.subrange(lo as int, hi as int)) == outcome,
            outcome == match digits_value(d) {
                Some(v) => if v <= u64::MAX {
                    Some(v as u64)
                } else {
                    None
                },
                None => None,
            },
            digits_value(s@.subrange(start as int, i as int)) == Some(gv),
            over <==> gv > u64::MAX,
            !over ==> v == gv,
        decreases hi - i,
    {
        match hex_digit(s[i]) {
            None => {
                proof {
                    lemma_bad_digit(d, i - start);
                }
                return None;
            },
            Some(dd) => {
                assert(s@.subrange(start as int, i + 1).drop_last() =~= s@.subrange(
                    start as int,
                    i as int,
                ));
                let ghost old_gv = gv;
                proof {
                    gv = gv * 16 + dd as nat;
                }
                if !over {
                    if v > 0x0fff_ffff_ffff_ffff {
                        over = true;
                        assert(gv > u64::MAX) by (nonlinear_arith)
                            requires
                                gv == old_gv * 16 + dd as nat,
                                old_gv == v,
                                v > 0x0fff_ffff_ffff_ffff,
                        ;
                    } else {
                        assert(v * 16 + dd <= u64::MAX) by (nonlinear_arith)
                            requires
                                v <= 0x0fff_ffff_ffff_ffff,
                                dd < 16,
                        ;
                        v = v * 16 + dd;
                    }
                } else {
                    assert(gv > u64::MAX) by (nonlinear_arith)
                        requires
                            gv == old_gv * 16 + dd as nat,
                            old_gv > u64::MAX,
                    ;
                }
            },
        }
        i = i + 1;
    }
    assert(s@.subrange(start as int, i as int) =~= d);
    if over {
        None
    } else {
        Some(v)
    }
}

/// The candidate named by the line `s[lo..hi]`, if any.
fn line_dtb_at(s: &Vec<u8>, lo: usize, hi: usize) -> (r: Option<u64>)
    requires
        lo <= hi <= s@.len(),
    ensures
        r == line_dtb(s@.subrange(lo as int, hi as int)),
{
    let ghost line = s@.subrange(lo as int, hi as int);
    let ghost mut acc: Seq<Seq<u8>> = Seq::empty();
    let mut starts: Vec<usize> = Vec::new();
    let mut ends: Vec<usize> = Vec::new();
    let mut q = lo;
    assert(s@.subrange(q as int, hi as int) =~= line);
    while q < hi && starts.len() < 3
        invariant
            lo <= q <= hi,
            hi <= s@.len(),
            line == s@.subrange(lo as int, hi as int),
            words(line) == acc + words(s@.subrange(q as int, hi as int)),
            acc.len() == starts@.len(),
            acc.len() == ends@.len(),
            acc.len() <= 3,
            forall|t: int| 0 <= t < acc.len() ==> #[trigger] starts@[t] <= ends@[t] <= hi,
            forall|t: int|
                0 <= t < acc.len() ==> #[trigger] acc[t] == s@.subrange(
                    starts@[t] as int,
                    ends@[t] as int,
                ),
        decreases hi - q, 3 - starts@.len(),
    {
        let ghost rest = s@.subrange(q as int, hi as int);
        if space(s[q]) {
            assert(rest.drop_first() =~= s@.subrange(q + 1, hi as int));
            q = q + 1;
        } else {
            let mut e = q;
            while e < hi && !space(s[e])
                invariant
                    q <= e <= hi,
                    hi <= s@.len(),
                    forall|j: int| q <= j < e ==> !is_space(s@[j]),
                    acc.len() == starts@.len(),
                    acc.len() == ends@.len(),
                    forall|t: int| 0 <= t < acc.len() ==> #[trigger] starts@[t] <= ends@[t] <= hi,
                    forall|t: int|
                        0 <= t < acc.len() ==> #[trigger] acc[t] == s@.subrange(
                            starts@[t] as int,
                            ends@[t] as int,
                        ),
                decreases hi - e,
            {
                e = e + 1;
            }
            let ghost old_acc = acc;
            proof {
                lemma_word_len_at(rest, e - q);
                assert(rest.take(e - q) =~= s@.subrange(q as int, e as int));
                assert(rest.skip(e - q) =~= s@.subrange(e as int, hi as int));
                assert(acc + words(rest) =~= acc.push(s@.subrange(q as int, e as int)) + words(
                    s@.subrange(e as int, hi as int),
                ));
                acc = acc.push(s@.subrange(q as int, e as int));
            }
            let ghost old_starts = starts@;
            let ghost old_ends = ends@;
            starts.push(q);
            ends.push(e);
            assert forall|t: int| 0 <= t < acc.len() implies #[trigger] starts@[t] <= ends@[t]
                <= hi && acc[t] == s@.subrange(starts@[t] as int, ends@[t] as int) by {
                if t < old_starts.len() {
                    assert(starts@[t] == old_starts[t]);
                    assert(ends@[t] == old_ends[t]);
                    assert(acc[t] == old_acc[t]);
                } else {
                    assert(t == old_acc.len());
                    assert(acc[t] == s@.subrange(q as int, e as int));
                    assert(starts@[t] == q);
                    assert(ends@[t] == e);
                }
            }
            q = e;
        }
    }
    if starts.len() < 3 {
        assert(s@.subrange(q as int, hi as int) =~= Seq::<u8>::empty());
        assert(words(line) =~= acc);
        return None;
    }
    let ghost w = words(line);
    assert(w[1] == acc[1] && w[2] == acc[2]);
    let a = starts[1];
    let b = ends[1];
    if b - a == 1 && s[a] == 0x30 {
        assert(acc[1] =~= seq![0x30u8]);
        parse_hex(s, starts[2], ends[2])
    } else {
        assert(acc[1] != seq![0x30u8]) by {
            if b - a != 1 {
                assert(acc[1].len() != 1);
            } else {
                assert(acc[1][0] != 0x30u8);
            }
        }
        None
    }
}

/// The candidate page-table bases named by a listing, in order.
pub fn dtb_candidates(listing: &Vec<u8>) -> (r: Vec<u64>)
    ensures
        r@ == dtb_candidates_of(listing@),
{
    let n = listing.len();
    let mut r: Vec<u64> = Vec::new();
    let mut p: usize = 0;
    assert(listing@.skip(0) =~= listing@);
    while p < n
        invariant
            p <= n,
            n == listing@.len(),
            candidates_of(lines(listing@)) == r@ + candidates_of(lines(listing@.skip(p as int))),
        decreases n - p,
    {
        let ghost rest = listing@.skip(p as int);
        let mut k = p;
        while k < n && listing[k] != NEWLINE
            invariant
                p <= k <= n,
                n == listing@.len(),
                forall|j: int| p <= j < k ==> listing@[j] != NEWLINE,
            decreases n - k,
        {
            k = k + 1;
        }
        proof {
            lemma_line_len_at(rest, k - p);
        }
        let c = line_dtb_at(listing, p, k);
        let ghost line = listing@.subrange(p as int, k as int);
        let ghost before = r@;
        match c {
            Some(v) => r.push(v),
            None => {},
        }
        if k == n {
            proof {
                assert(rest =~= line);
                assert(lines(rest) =~= seq![line]);
                assert(seq![line].drop_first() =~= Seq::<Seq<u8>>::empty());
                assert(listing@.skip(n as int) =~= Seq::<u8>::empty());
                assert(r@ + candidates_of(lines(listing@.skip(n as int))) =~= before
                    + candidates_of(lines(rest)));
            }
            p = n;
        } else {
            proof {
                assert(rest.take(k - p) =~= line);
                assert(rest.skip(k - p + 1) =~= listing@.skip(k + 1));
                let tail = lines(listing@.skip(k + 1));
                assert(lines(rest) == seq![line] + tail);
                assert((seq![line] + tail).drop_first() =~= tail);
                assert(r@ + candidates_of(tail) =~= before + candidates_of(lines(rest)));
            }
            p = k + 1;
        }
    }
    assert(listing@.skip(n as int) =~= Seq::<u8>::empty());
    assert(r@ + Seq::<u64>::empty() =~= r@);
    r
}

/// The scan that produces the listing is complete once its progress file
/// reads three characters (`100`).
pub fn scan_complete(progress: &Vec<u8>) -> (r: bool)
    ensures
        r == (progress@.len() == 3),
{
    progress.len() == 3
}

} // verus!
