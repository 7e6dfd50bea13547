//! Classification summary: picking the top-scoring outputs and naming
//! them.
//!
//! Scores are ranked through order-preserving integer keys supplied by the
//! caller, so the selection itself — which indices win, in which order —
//! is pinned down for every input. Labels come one per line from a label
//! file; an index beyond the label list falls back to a fixed name.

use vstd::prelude::*;


verus! {

/// Indices of the `k` largest keys, in descending key order.
///
/// The result holds `min(k, n)` distinct valid indices, its keys are
/// descending, and every key left out is no larger than any key selected.
pub fn top_k_desc(keys: &Vec<u64>, k: usize) -> (r: Vec<usize>)
    ensures
        r@.len() == if k <= keys@.len() {
            k as int
        } else {
            keys@.len() as int
        },
        forall|a: int| 0 <= a < r@.len() ==> (#[trigger] r@[a]) < keys@.len(),
        forall|a: int, b: int| 0 <= a < b < r@.len() ==> r@[a] != r@[b],
        forall|a: int, b: int|
            0 <= a < b < r@.len() ==> keys@[#[trigger] r@[a] as int] >= keys@[#[trigger] r@[b] as int],
        forall|a: int, j: int|
            #![trigger r@[a], keys@[j]]
            0 <= a < r@.len() && 0 <= j < keys@.len() && !r@.contains(j as usize)
                ==> keys@[r@[a] as int] >= keys@[j],
{
    let n = keys.len();
    let mut remaining: Vec<usize> = Vec::new();
    let mut i: usize = 0;
    while i < n
        invariant
            i <= n,
            remaining@.len() == i,
            forall|j: int| 0 <= j < i ==> (#[trigger] remaining@[j]) == j as usize,
        decreases n - i,
    {
        remaining.push(i);
        i = i + 1;
    }
    proof {
        assert forall|j: int| 0 <= j < n implies remaining@.contains(#[trigger] (j as usize)) by {
            assert(remaining@[j] == j as usize);
        }
    }
    let take = if k <= n {
        k
    } else {
        n
    };
    let mut result: Vec<usize> = Vec::new();
    let mut t: usize = 0;
    while t < take
        invariant
            t <= take,
            take <= n,
            n == keys@.len(),
            result@.len() == t,
            remaining@.len() == n - t,
            forall|j: int| 0 <= j < remaining@.len() ==> (#[trigger] remaining@[j]) < n,
            forall|j: int| 0 <= j < result@.len() ==> (#[trigger] result@[j]) < n,
            forall|a: int, b: int|
                0 <= a < b < remaining@.len() ==> remaining@[a] != remaining@[b],
            forall|a: int, b: int| 0 <= a < b < result@.len() ==> result@[a] != result@[b],
            forall|a: int, b: int|
                0 <= a < result@.len() && 0 <= b < remaining@.len() ==> result@[a]
                    != remaining@[b],
            forall|j: int|
                0 <= j < n ==> result@.contains(#[trigger] (j as usize)) || remaining@.contains(
                    j as usize,
                ),
            forall|a: int, b: int|
                0 <= a < b < result@.len() ==> keys@[#[trigger] result@[a] as int] >= keys@[
                    #[trigger] result@[b] as int
                ],
            forall|a: int, b: int|
                0 <= a < result@.len() && 0 <= b < remaining@.len() ==> keys@[
                    #[trigger] result@[a] as int
                ] >= keys@[#[trigger] remaining@[b] as int],
        decreases take - t,
    {
        let mut best: usize = 0;
        let mut j: usize = 1;
        while j < remaining.len()
            invariant
                best < j <= remaining@.len(),
                remaining@.len() > 0,
                n == keys@.len(),
                forall|q: int| 0 <= q < remaining@.len() ==> (#[trigger] remaining@[q]) < n,
                forall|q: int|
                    0 <= q < j ==> keys@[remaining@[best as int] as int] >= keys@[
                        #[trigger] remaining@[q] as int
                    ],
            decreases remaining@.len() - j,
        {
            if keys[remaining[j]] > keys[remaining[best]] {
                best = j;
            }
            j = j + 1;
        }
        let chosen = remaining[best];
        let ghost rem0 = remaining@;
        let ghost res0 = result@;
        result.push(chosen);
        remaining.remove(best);
        proof {
            assert(remaining@ =~= rem0.remove(best as int));
            assert forall|q: int|
                0 <= q < n && !(result@.contains(#[trigger] (q as usize)))
                    implies remaining@.contains(q as usize) by {
                assert(res0.contains(q as usize) || rem0.contains(q as usize));
                if res0.contains(q as usize) {
                    let w = choose|w: int| 0 <= w < res0.len() && res0[w] == q as usize;
                    assert(result@[w] == q as usize);
                    assert(false);
                } else {
                    let w = choose|w: int| 0 <= w < rem0.len() && rem0[w] == q as usize;
                    if w == best {
                        assert(result@[res0.len() as int] == q as usize);
                        assert(false);
                    } else if w < best {
                        assert(remaining@[w] == rem0[w]);
                    } else {
                        assert(remaining@[w - 1] == rem0[w]);
                    }
                }
            }
            assert forall|a: int, b: int|
                0 <= a < result@.len() && 0 <= b < remaining@.len() implies keys@[
                #[trigger] result@[a] as int
            ] >= keys@[#[trigger] remaining@[b] as int] by {
                let ob = if b < best {
                    b
                } else {
                    b + 1
                };
                assert(remaining@[b] == rem0[ob]);
                if a < res0.len() {
                    assert(result@[a] == res0[a]);
                } else {
                    assert(result@[a] == rem0[best as int]);
                    assert(keys@[rem0[best as int] as int] >= keys@[rem0[ob] as int]);
                }
            }
            assert forall|a: int, b: int|
                0 <= a < result@.len() && 0 <= b < remaining@.len() implies result@[a]
                != remaining@[b] by {
                let ob = if b < best {
                    b
                } else {
                    b + 1
                };
                assert(remaining@[b] == rem0[ob]);
                if a < res0.len() {
                    assert(result@[a] == res0[a]);
                } else {
                    assert(result@[a] == rem0[best as int]);
                }
            }
        }
        t = t + 1;
    }
    proof {
        assert forall|a: int, j: int|
            #![trigger result@[a], keys@[j]]
            0 <= a < result@.len() && 0 <= j < keys@.len() && !result@.contains(j as usize)
                implies keys@[result@[a] as int] >= keys@[j] by {
            assert(remaining@.contains(j as usize));
            let w = choose|w: int| 0 <= w < remaining@.len() && remaining@[w] == j as usize;
            assert(keys@[result@[a] as int] >= keys@[remaining@[w] as int]);
        }
    }
    result
}

/// The label at `idx`, or `"Unknown"` when the list is shorter.
pub fn label_for(labels: &Vec<String>, idx: usize) -> (r: String)
    ensures
        idx < labels@.len() ==> r@ == labels@[idx as int]@,
        idx >= labels@.len() ==> r@ == "Unknown"@,
{
    if idx < labels.len() {
        let s = labels[idx].clone();
        proof {
            assert(s@ == labels@[idx as int]@);
        }
        s
    } else {
        String::from_str("Unknown")
    }
}

/// The leading line of `s`: everything before the first `\n`.
pub open spec fn spec_take_line(s: Seq<char>) -> Seq<char>
    decreases s.len(),
{
    if s.len() == 0 || s.first() == '\n' {
        Seq::empty()
    } else {
        seq![s.first()] + spec_take_line(s.drop_first())
    }
}

/// What follows the leading line of `s`, the line break consumed.
pub open spec fn spec_after_line(s: Seq<char>) -> Seq<char>
    decreases s.len(),
{
    if s.len() == 0 {
        s
    } else if s.first() == '\n' {
        s.drop_first()
    } else {
        spec_after_line(s.drop_first())
    }
}

/// Consuming a line shortens a non-empty text.
proof fn lemma_after_line_decreases(s: Seq<char>)
    requires
        s.len() > 0,
    ensures
        spec_after_line(s).len() < s.len(),
    decreases s.len(),
{
    if s.first() != '\n' {
        if s.len() > 1 {
            lemma_after_line_decreases(s.drop_first());
        } else {
            assert(s.drop_first().len() == 0);
            assert(spec_after_line(s.drop_first()) == s.drop_first());
        }
    }
}

/// The line without a trailing carriage return.
pub open spec fn spec_strip_cr(line: Seq<char>) -> Seq<char> {
    if line.len() > 0 && line[line.len() - 1] == '\r' {
        line.take(line.len() - 1)
    } else {
        line
    }
}

/// The lines of a text: split at `\n`, a trailing `\r` dropped from each
/// line, a final line terminator opening no further line.
pub open spec fn spec_lines(s: Seq<char>) -> Seq<Seq<char>>
    decreases s.len(),
    via spec_lines_dec
{
    if s.len() == 0 {
        Seq::empty()
    } else {
        seq![spec_strip_cr(spec_take_line(s))] + spec_lines(spec_after_line(s))
    }
}

#[via_fn]
proof fn spec_lines_dec(s: Seq<char>) {
    if s.len() > 0 {
        lemma_after_line_decreases(s);
    }
}

/// Scanning to the first `\n` yields the leading line and its rest.
proof fn lemma_line_split(s: Seq<char>, i: int, k: int)
    requires
        0 <= i <= k <= s.len(),
        forall|q: int| i <= q < k ==> s[q] != '\n',
        k == s.len() || s[k] == '\n',
    ensures
        spec_take_line(s.skip(i)) == s.subrange(i, k),
        spec_after_line(s.skip(i)) == if k == s.len() {
            s.skip(s.len() as int)
        } else {
            s.skip(k + 1)
        },
    decreases k - i,
{
    if i == k {
        if k == s.len() {
            assert(s.skip(i) =~= Seq::<char>::empty());
            assert(spec_take_line(s.skip(i)) =~= s.subrange(i, k));
            assert(s.skip(s.len() as int) =~= Seq::<char>::empty());
            assert(spec_after_line(s.skip(i)) =~= s.skip(s.len() as int));
        } else {
            assert(s.skip(i).first() == s[k]);
            assert(spec_take_line(s.skip(i)) =~= s.subrange(i, k));
            assert(s.skip(i).drop_first() =~= s.skip(k + 1));
        }
    } else {
        lemma_line_split(s, i + 1, k);
        assert(s.skip(i).first() == s[i]);
        assert(s.skip(i).drop_first() =~= s.skip(i + 1));
        assert(seq![s[i]] + s.subrange(i + 1, k) =~= s.subrange(i, k));
    }
}

/// The views of a string list.
pub open spec fn spec_views(v: Seq<String>) -> Seq<Seq<char>> {
    v.map_values(|s: String| s@)
}

/// Split a label file into its lines: split at `\n`, dropping a trailing
/// `\r` of each line; a final line terminator opens no further line.
pub fn split_lines(text: &str) -> (r: Vec<String>)
    ensures
        spec_views(r@) == spec_lines(text@),
{
    let n = text.unicode_len();
    let mut out: Vec<String> = Vec::new();
    let mut start: usize = 0;
    proof {
        assert(text@.skip(0) =~= text@);
        assert(spec_views(out@) + spec_lines(text@.skip(0)) =~= spec_lines(text@));
    }
    while start < n
        invariant
            start <= n,
            n == text@.len(),
            spec_views(out@) + spec_lines(text@.skip(start as int)) == spec_lines(text@),
        decreases n - start,
    {
        let mut e: usize = start;
        while e < n && text.get_char(e) != '\n'
            invariant
                start <= e <= n,
                n == text@.len(),
                forall|q: int| start <= q < e ==> text@[q] != '\n',
            decreases n - e,
        {
            e = e + 1;
        }
        proof {
            lemma_line_split(text@, start as int, e as int);
        }
        let line_end = if e > start && text.get_char(e - 1) == '\r' {
            e - 1
        } else {
            e
        };
        let line = String::from_str(text.substring_char(start, line_end));
        let ghost out0 = out@;
        out.push(line);
        proof {
            assert(spec_strip_cr(text@.subrange(start as int, e as int)) =~= text@.subrange(
                start as int,
                line_end as int,
            ));
            assert(spec_views(out@) =~= spec_views(out0) + seq![
                spec_strip_cr(spec_take_line(text@.skip(start as int))),
            ]);
        }
        start = if e < n {
            e + 1
        } else {
            n
        };
        proof {
            if start == n {
                assert(text@.skip(n as int) =~= Seq::<char>::empty());
            }
            assert(spec_views(out@) + spec_lines(text@.skip(start as int)) =~= spec_lines(
                text@,
            ));
        }
    }
    proof {
        assert(text@.skip(n as int) =~= Seq::<char>::empty());
        assert(spec_views(out@) =~= spec_lines(text@));
    }
    out
}

} // verus!
