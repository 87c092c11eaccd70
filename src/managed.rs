//! Sentinel-bounded managed blocks: the part of a shared configuration file
//! that lies outside the block this daemon owns.
use vstd::prelude::*;

use crate::text::{
    ends_with_cr, is_plain_line, lemma_lines_cons, lemma_lines_from_no_newline, lemma_lines_join,
    chars_of, find_char, join_lines, lemma_next_char_bounds, line_at, lines, lines_from,
    range_eq, ranges_view, trim, trim_range,
};

verus! {

/// The lines that lie outside every sentinel block. A line whose trimmed
/// text equals `start` opens a block, one equal to `end` closes it; the
/// sentinel lines themselves are never kept. An unterminated block drops
/// every line after it.
pub open spec fn outside_lines(
    ls: Seq<Seq<char>>,
    start: Seq<char>,
    end: Seq<char>,
    in_block: bool,
) -> Seq<Seq<char>>
    decreases ls.len(),
{
    if ls.len() == 0 {
        seq![]
    } else {
        let l = ls[0];
        let rest = ls.drop_first();
        if trim(l) == start {
            outside_lines(rest, start, end, true)
        } else if trim(l) == end {
            outside_lines(rest, start, end, false)
        } else if in_block {
            outside_lines(rest, start, end, true)
        } else {
            seq![l] + outside_lines(rest, start, end, false)
        }
    }
}

/// The lines without the empty lines at their end.
pub open spec fn drop_trailing_empty(ls: Seq<Seq<char>>) -> Seq<Seq<char>>
    decreases ls.len(),
{
    if ls.len() > 0 && ls.last().len() == 0 {
        drop_trailing_empty(ls.drop_last())
    } else {
        ls
    }
}

/// The text of `s` outside its managed blocks, trailing blank lines removed,
/// lines joined by `'\n'` with no final line ending.
pub open spec fn outside_text(s: Seq<char>, start: Seq<char>, end: Seq<char>) -> Seq<char> {
    join_lines(drop_trailing_empty(outside_lines(lines(s), start, end, false)))
}

/// No line that survives is a sentinel line.
pub proof fn lemma_outside_lines_hold_no_sentinel(
    ls: Seq<Seq<char>>,
    start: Seq<char>,
    end: Seq<char>,
    in_block: bool,
)
    ensures
        forall|k: int|
            0 <= k < outside_lines(ls, start, end, in_block).len() ==> trim(
                #[trigger] outside_lines(ls, start, end, in_block)[k],
            ) != start && trim(outside_lines(ls, start, end, in_block)[k]) != end,
    decreases ls.len(),
{
    if ls.len() > 0 {
        let rest = ls.drop_first();
        lemma_outside_lines_hold_no_sentinel(rest, start, end, true);
        lemma_outside_lines_hold_no_sentinel(rest, start, end, false);
        let o = outside_lines(ls, start, end, in_block);
        if trim(ls[0]) == start {
            assert(o == outside_lines(rest, start, end, true));
        } else if trim(ls[0]) == end {
            assert(o == outside_lines(rest, start, end, false));
        } else if in_block {
            assert(o == outside_lines(rest, start, end, true));
        } else {
            let r = outside_lines(rest, start, end, false);
            assert forall|k: int| 0 <= k < o.len() implies trim(#[trigger] o[k]) != start && trim(
                o[k],
            ) != end by {
                if k > 0 {
                    assert(o[k] == r[k - 1]);
                }
            }
        }
    }
}

/// A line whose trimmed text is the opening sentinel opens a block, whatever
/// whitespace surrounds it; likewise for the closing sentinel.
pub proof fn lemma_trimmed_sentinel_is_marker(
    l: Seq<char>,
    rest: Seq<Seq<char>>,
    start: Seq<char>,
    end: Seq<char>,
    in_block: bool,
)
    ensures
        trim(l) == start ==> outside_lines(seq![l] + rest, start, end, in_block) == outside_lines(
            rest,
            start,
            end,
            true,
        ),
        trim(l) == end && trim(l) != start ==> outside_lines(seq![l] + rest, start, end, in_block)
            == outside_lines(rest, start, end, false),
{
    assert((seq![l] + rest)[0] == l);
    assert((seq![l] + rest).drop_first() =~= rest);
}

/// Removes every sentinel-bounded block from `current`, and the blank lines
/// at its end; the remaining lines are joined by `'\n'`.
pub fn strip_managed_block(current: &str, start: &str, end: &str) -> (r: String)
    ensures
        r@ == outside_text(current@, start@, end@),
{
    let v = chars_of(current);
    let sv = chars_of(start);
    let ev = chars_of(end);
    let ghost s = v@;
    let mut kept: Vec<(usize, usize)> = Vec::new();
    let mut in_block = false;
    let mut i: usize = 0;
    while i < v.len()
        invariant
            i <= v.len(),
            s == v@,
            s == current@,
            sv@ == start@,
            ev@ == end@,
            forall|k: int| 0 <= k < kept.len() ==> #[trigger] kept@[k].0 <= kept@[k].1 <= v.len(),
            outside_lines(lines(s), start@, end@, false) == ranges_view(s, kept@) + outside_lines(
                lines_from(s, i as int),
                start@,
                end@,
                in_block,
            ),
        decreases v.len() - i,
    {
        let e = find_char(&v, i, '\n');
        proof {
            lemma_next_char_bounds(s, i as int, '\n');
        }
        let le = if e > i && e < v.len() && v[e - 1] == '\r' {
            e - 1
        } else {
            e
        };
        assert(s.subrange(i as int, le as int) == line_at(s, i as int, e as int));
        let ghost line = line_at(s, i as int, e as int);
        let ghost rest = if e >= v.len() {
            Seq::<Seq<char>>::empty()
        } else {
            lines_from(s, e + 1)
        };
        assert(lines_from(s, i as int) == seq![line] + rest);
        assert((seq![line] + rest)[0] == line);
        assert((seq![line] + rest).drop_first() =~= rest);
        let ghost before = ranges_view(s, kept@);
        let (ta, tb) = trim_range(&v, i, le);
        if range_eq(&v, ta, tb, &sv) {
            in_block = true;
        } else if range_eq(&v, ta, tb, &ev) {
            in_block = false;
        } else if !in_block {
            kept.push((i, le));
            assert(ranges_view(s, kept@) =~= before.push(line));
            assert(before + (seq![line] + outside_lines(rest, start@, end@, false)) =~= before.push(
                line,
            ) + outside_lines(rest, start@, end@, false));
        }
        i = if e < v.len() {
            e + 1
        } else {
            v.len()
        };
        assert(lines_from(s, i as int) == rest);
    }
    assert(ranges_view(s, kept@) + Seq::<Seq<char>>::empty() =~= ranges_view(s, kept@));
    let ghost all = ranges_view(s, kept@);
    while kept.len() > 0 && kept[kept.len() - 1].0 == kept[kept.len() - 1].1
        invariant
            s == v@,
            forall|k: int| 0 <= k < kept.len() ==> #[trigger] kept@[k].0 <= kept@[k].1 <= v.len(),
            drop_trailing_empty(all) == drop_trailing_empty(ranges_view(s, kept@)),
        decreases kept.len(),
    {
        let ghost rv = ranges_view(s, kept@);
        let last = kept.len() - 1;
        assert(kept@[last as int].0 <= kept@[last as int].1 <= v.len());
        assert(rv.len() > 0 && rv.last().len() == 0);
        let ghost before = kept@;
        kept.pop();
        assert(kept@ =~= before.drop_last());
        assert forall|k: int| 0 <= k < kept.len() implies #[trigger] kept@[k].0 <= kept@[k].1
            <= v.len() by {
            assert(kept@[k] == before[k]);
        }
        assert(ranges_view(s, kept@) =~= rv.drop_last());
    }
    let ghost ls = ranges_view(s, kept@);
    assert(drop_trailing_empty(ls) == ls);
    let mut out = String::new();
    let mut k: usize = 0;
    while k < kept.len()
        invariant
            k <= kept.len(),
            s == current@,
            ls == ranges_view(s, kept@),
            forall|m: int| 0 <= m < kept.len() ==> #[trigger] kept@[m].0 <= kept@[m].1 <= v.len(),
            v@.len() == current@.len(),
            out@ == join_lines(ls.take(k as int)),
        decreases kept.len() - k,
    {
        let (a, b) = kept[k];
        let piece = current.substring_char(a, b);
        if k > 0 {
            out.append("\n");
            proof {
                reveal_strlit("\n");
            }
        }
        out.append(piece);
        assert(ls.take(k + 1).drop_last() =~= ls.take(k as int));
        assert(ls.take(k + 1).last() == ls[k as int]);
        k = k + 1;
    }
    assert(ls.take(k as int) =~= ls);
    out
}


/// Lines that are not sentinels, outside a block, are all kept.
pub proof fn lemma_outside_keeps_plain_prefix(
    ks: Seq<Seq<char>>,
    rest: Seq<Seq<char>>,
    start: Seq<char>,
    end: Seq<char>,
)
    requires
        forall|k: int| 0 <= k < ks.len() ==> trim(#[trigger] ks[k]) != start && trim(ks[k]) != end,
    ensures
        outside_lines(ks + rest, start, end, false) == ks + outside_lines(rest, start, end, false),
    decreases ks.len(),
{
    if ks.len() > 0 {
        let t = ks.drop_first();
        assert((ks + rest)[0] == ks[0]);
        assert((ks + rest).drop_first() =~= t + rest);
        assert forall|k: int| 0 <= k < t.len() implies trim(#[trigger] t[k]) != start && trim(t[k])
            != end by {
            assert(t[k] == ks[k + 1]);
        }
        lemma_outside_keeps_plain_prefix(t, rest, start, end);
        assert(seq![ks[0]] + (t + outside_lines(rest, start, end, false)) =~= ks + outside_lines(
            rest,
            start,
            end,
            false,
        ));
    } else {
        assert(ks + rest =~= rest);
        assert(ks + outside_lines(rest, start, end, false) =~= outside_lines(rest, start, end, false));
    }
}

/// Inside a block, lines that are not sentinels are all dropped.
pub proof fn lemma_outside_skips_block_body(
    ks: Seq<Seq<char>>,
    rest: Seq<Seq<char>>,
    start: Seq<char>,
    end: Seq<char>,
)
    requires
        forall|k: int| 0 <= k < ks.len() ==> trim(#[trigger] ks[k]) != start && trim(ks[k]) != end,
    ensures
        outside_lines(ks + rest, start, end, true) == outside_lines(rest, start, end, true),
    decreases ks.len(),
{
    if ks.len() > 0 {
        let t = ks.drop_first();
        assert((ks + rest)[0] == ks[0]);
        assert((ks + rest).drop_first() =~= t + rest);
        assert forall|k: int| 0 <= k < t.len() implies trim(#[trigger] t[k]) != start && trim(t[k])
            != end by {
            assert(t[k] == ks[k + 1]);
        }
        lemma_outside_skips_block_body(t, rest, start, end);
    } else {
        assert(ks + rest =~= rest);
    }
}

/// Every kept line is one of the input lines.
pub proof fn lemma_outside_lines_from_input(
    ls: Seq<Seq<char>>,
    start: Seq<char>,
    end: Seq<char>,
    in_block: bool,
)
    ensures
        forall|k: int|
            0 <= k < outside_lines(ls, start, end, in_block).len() ==> ls.contains(
                #[trigger] outside_lines(ls, start, end, in_block)[k],
            ),
    decreases ls.len(),
{
    if ls.len() > 0 {
        let rest = ls.drop_first();
        lemma_outside_lines_from_input(rest, start, end, true);
        lemma_outside_lines_from_input(rest, start, end, false);
        let o = outside_lines(ls, start, end, in_block);
        assert forall|k: int| 0 <= k < o.len() implies ls.contains(#[trigger] o[k]) by {
            let nb = if trim(ls[0]) == start {
                true
            } else if trim(ls[0]) == end {
                false
            } else {
                in_block
            };
            let r = outside_lines(rest, start, end, nb);
            if trim(ls[0]) != start && trim(ls[0]) != end && !in_block {
                if k == 0 {
                    assert(o[0] == ls[0]);
                } else {
                    assert(o[k] == r[k - 1]);
                    let j = choose|j: int| 0 <= j < rest.len() && rest[j] == r[k - 1];
                    assert(ls[j + 1] == rest[j]);
                }
            } else {
                assert(o == r);
                let j = choose|j: int| 0 <= j < rest.len() && rest[j] == o[k];
                assert(ls[j + 1] == rest[j]);
            }
        }
    }
}

/// Dropping trailing empty lines keeps a prefix that ends with a non-empty line.
pub proof fn lemma_drop_trailing_empty_shape(ls: Seq<Seq<char>>)
    ensures
        drop_trailing_empty(ls).len() <= ls.len(),
        drop_trailing_empty(ls) == ls.take(drop_trailing_empty(ls).len() as int),
        drop_trailing_empty(ls).len() == 0 || drop_trailing_empty(ls).last().len() > 0,
    decreases ls.len(),
{
    if ls.len() > 0 && ls.last().len() == 0 {
        lemma_drop_trailing_empty_shape(ls.drop_last());
        let d = drop_trailing_empty(ls.drop_last());
        assert(ls.drop_last().take(d.len() as int) =~= ls.take(d.len() as int));
    } else {
        assert(ls.take(ls.len() as int) =~= ls);
    }
}


/// The lines of a text whose lines none ends with a carriage return.
pub open spec fn no_cr_line_ends(s: Seq<char>) -> bool {
    forall|k: int| 0 <= k < lines(s).len() ==> !ends_with_cr(#[trigger] lines(s)[k])
}

/// Sentinels that survive trimming, differ, and are not empty.
pub open spec fn sentinels_ok(start: Seq<char>, end: Seq<char>) -> bool {
    trim(start) == start && trim(end) == end && start != end && start.len() > 0 && end.len() > 0
}

/// A fresh managed block: a blank line, the opening sentinel, lines none of
/// which is a sentinel, the closing sentinel; or nothing at all.
pub open spec fn is_fresh_block(b: Seq<char>, body: Seq<Seq<char>>, start: Seq<char>, end: Seq<char>) -> bool {
    &&& (b.len() == 0 || lines(b) == seq![Seq::<char>::empty(), start] + body + seq![end])
    &&& forall|k: int| 0 <= k < body.len() ==> trim(#[trigger] body[k]) != start && trim(body[k]) != end
}

/// The lines that survive of a fresh block: one blank line, or none.
proof fn lemma_fresh_block_outside(b: Seq<char>, body: Seq<Seq<char>>, start: Seq<char>, end: Seq<char>)
    requires
        sentinels_ok(start, end),
        is_fresh_block(b, body, start, end),
    ensures
        outside_lines(lines(b), start, end, false) == (if b.len() == 0 {
            Seq::<Seq<char>>::empty()
        } else {
            seq![Seq::<char>::empty()]
        }),
{
    let empty = Seq::<char>::empty();
    assert(trim(empty) == empty);
    if b.len() == 0 {
        assert(lines(b) =~= Seq::<Seq<char>>::empty());
    } else {
        let r = seq![start] + (body + seq![end]);
        assert(lines(b) =~= seq![empty] + r);
        lemma_outside_keeps_plain_prefix(seq![empty], r, start, end);
        assert(r[0] == start);
        assert(r.drop_first() =~= body + seq![end]);
        assert(outside_lines(r, start, end, false) == outside_lines(body + seq![end], start, end, true));
        lemma_outside_skips_block_body(body, seq![end], start, end);
        assert(seq![end][0] == end);
        assert(seq![end].drop_first() =~= Seq::<Seq<char>>::empty());
        assert(outside_lines(seq![end], start, end, true) == outside_lines(
            Seq::<Seq<char>>::empty(),
            start,
            end,
            false,
        ));
        assert(outside_lines(r, start, end, false) =~= Seq::<Seq<char>>::empty());
        assert(seq![empty] + Seq::<Seq<char>>::empty() =~= seq![empty]);
    }
}

proof fn lemma_drop_blank_lines(n: nat)
    requires
        n <= 2,
    ensures
        drop_trailing_empty(Seq::new(n, |k: int| Seq::<char>::empty())) == Seq::<Seq<char>>::empty(),
    decreases n,
{
    let ls = Seq::new(n, |k: int| Seq::<char>::empty());
    if n > 0 {
        assert(ls.last().len() == 0);
        assert(ls.drop_last() =~= Seq::new((n - 1) as nat, |k: int| Seq::<char>::empty()));
        lemma_drop_blank_lines((n - 1) as nat);
    } else {
        assert(ls =~= Seq::<Seq<char>>::empty());
    }
}

/// Rewriting a file as its outside text, a line ending and a fresh block
/// leaves its outside text unchanged; with no outside text, the block alone
/// has none either.
pub proof fn lemma_outside_after_block(
    c: Seq<char>,
    b: Seq<char>,
    body: Seq<Seq<char>>,
    start: Seq<char>,
    end: Seq<char>,
)
    requires
        no_cr_line_ends(c),
        sentinels_ok(start, end),
        is_fresh_block(b, body, start, end),
    ensures
        outside_text(outside_text(c, start, end) + seq!['\n'] + b, start, end) == outside_text(
            c,
            start,
            end,
        ),
        outside_text(c, start, end).len() == 0 ==> outside_text(b, start, end) == outside_text(
            c,
            start,
            end,
        ),
{
    let empty = Seq::<char>::empty();
    assert(trim(empty) == empty);
    let all = outside_lines(lines(c), start, end, false);
    let ks = drop_trailing_empty(all);
    let o = join_lines(ks);
    let x = o + seq!['\n'] + b;
    lemma_drop_trailing_empty_shape(all);
    lemma_outside_lines_from_input(lines(c), start, end, false);
    lemma_outside_lines_hold_no_sentinel(lines(c), start, end, false);
    lemma_lines_from_no_newline(c, 0);
    assert forall|k: int| 0 <= k < ks.len() implies is_plain_line(#[trigger] ks[k]) && trim(ks[k])
        != start && trim(ks[k]) != end by {
        assert(ks[k] == all[k]);
        let j = choose|j: int| 0 <= j < lines(c).len() && lines(c)[j] == all[k];
        assert(!lines(c)[j].contains('\n'));
        assert(!ends_with_cr(lines(c)[j]));
    }
    lemma_fresh_block_outside(b, body, start, end);
    let kept_tail = outside_lines(lines(b), start, end, false);
    let blanks: nat = if b.len() == 0 {
        0
    } else {
        1
    };
    assert(kept_tail =~= Seq::new(blanks, |k: int| empty));
    if ks.len() > 0 {
        lemma_lines_join(ks, b);
        lemma_outside_keeps_plain_prefix(ks, lines(b), start, end);
        let new_all = outside_lines(lines(x), start, end, false);
        assert(new_all == ks + kept_tail);
        if b.len() > 0 {
            assert((ks + kept_tail).last().len() == 0);
            assert((ks + kept_tail).drop_last() =~= ks);
        } else {
            assert(ks + kept_tail =~= ks);
        }
        assert(drop_trailing_empty(ks) == ks);
        assert(drop_trailing_empty(new_all) == ks);
    } else {
        assert(o =~= empty);
        lemma_lines_cons(empty, b);
        assert(x =~= empty + seq!['\n'] + b);
        lemma_outside_keeps_plain_prefix(seq![empty], lines(b), start, end);
        let new_all = outside_lines(lines(x), start, end, false);
        assert(new_all == seq![empty] + kept_tail);
        assert(new_all =~= Seq::new(blanks + 1, |k: int| empty));
        lemma_drop_blank_lines(blanks + 1);
        lemma_drop_blank_lines(blanks);
        assert(ks =~= Seq::<Seq<char>>::empty());
    }
}

} // verus!
