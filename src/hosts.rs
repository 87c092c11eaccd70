//! The managed block of the operating system's hosts file.
use vstd::prelude::*;

use crate::domain::HostsEntry;
use crate::managed::{
    is_fresh_block, lemma_outside_after_block, no_cr_line_ends, outside_text, strip_managed_block,
};
use crate::text::{ends_with_cr, is_plain_line, lemma_lines_cons, lines, trim, trim_end, trim_start};

verus! {

pub const HOSTS_SENTINEL_START: &'static str = "# LocalDomain Start";

pub const HOSTS_SENTINEL_END: &'static str = "# LocalDomain End";

/// `ip<TAB>domain` and a line ending.
pub open spec fn hosts_entry_line(e: HostsEntry) -> Seq<char> {
    e.ip@ + "\t"@ + e.domain@ + "\n"@
}

/// The entry lines, in the order given.
pub open spec fn hosts_entries_text(es: Seq<HostsEntry>) -> Seq<char>
    decreases es.len(),
{
    if es.len() == 0 {
        seq![]
    } else {
        hosts_entries_text(es.drop_last()) + hosts_entry_line(es.last())
    }
}

/// The managed block with its leading blank line; nothing when there are no entries.
pub open spec fn hosts_block(es: Seq<HostsEntry>) -> Seq<char> {
    if es.len() == 0 {
        seq![]
    } else {
        "\n"@ + HOSTS_SENTINEL_START@ + "\n"@ + hosts_entries_text(es) + HOSTS_SENTINEL_END@
            + "\n"@
    }
}

/// The new hosts file: the old one outside its managed block, blank lines at
/// its end removed, a line ending, then the fresh managed block.
pub open spec fn hosts_content(current: Seq<char>, es: Seq<HostsEntry>) -> Seq<char> {
    outside_text(current, HOSTS_SENTINEL_START@, HOSTS_SENTINEL_END@) + "\n"@ + hosts_block(es)
}

pub fn build_hosts_content(current: &str, entries: &[HostsEntry]) -> (r: String)
    ensures
        r@ == hosts_content(current@, entries@),
{
    let mut result = strip_managed_block(current, HOSTS_SENTINEL_START, HOSTS_SENTINEL_END);
    result.append("\n");
    if entries.len() > 0 {
        let ghost head = result@;
        result.append("\n");
        result.append(HOSTS_SENTINEL_START);
        result.append("\n");
        let ghost lead = result@;
        let mut i: usize = 0;
        while i < entries.len()
            invariant
                i <= entries.len(),
                result@ == lead + hosts_entries_text(entries@.take(i as int)),
            decreases entries.len() - i,
        {
            let e = &entries[i];
            result.append(e.ip.as_str());
            result.append("\t");
            result.append(e.domain.as_str());
            result.append("\n");
            assert(entries@.take(i + 1).drop_last() =~= entries@.take(i as int));
            i = i + 1;
        }
        assert(entries@.take(i as int) =~= entries@);
        result.append(HOSTS_SENTINEL_END);
        result.append("\n");
        assert(result@ =~= head + hosts_block(entries@));
    }
    result
}


/// The text of an entry's line, without its line ending.
pub open spec fn entry_text(e: HostsEntry) -> Seq<char> {
    e.ip@ + "\t"@ + e.domain@
}

/// An entry whose line stays one line and is not taken for a sentinel.
pub open spec fn entry_ok(e: HostsEntry) -> bool {
    &&& !e.ip@.contains('\n')
    &&& !e.domain@.contains('\n')
    &&& !ends_with_cr(entry_text(e))
    &&& trim(entry_text(e)) != HOSTS_SENTINEL_START@
    &&& trim(entry_text(e)) != HOSTS_SENTINEL_END@
}

proof fn lemma_entry_plain(e: HostsEntry)
    requires
        entry_ok(e),
    ensures
        is_plain_line(entry_text(e)),
{
    reveal_strlit("\t");
    let t = entry_text(e);
    if t.contains('\n') {
        let m = choose|m: int| 0 <= m < t.len() && t[m] == '\n';
        if m < e.ip@.len() {
            assert(e.ip@[m] == '\n');
        } else if m == e.ip@.len() {
            assert(t[m] == '\t');
        } else {
            assert(e.domain@[m - e.ip@.len() - 1] == '\n');
        }
    }
}

proof fn lemma_entries_lines(es: Seq<HostsEntry>, t: Seq<char>)
    requires
        forall|k: int| 0 <= k < es.len() ==> entry_ok(#[trigger] es[k]),
    ensures
        lines(hosts_entries_text(es) + t) == Seq::new(es.len(), |k: int| entry_text(es[k])) + lines(t),
    decreases es.len(),
{
    reveal_strlit("\n");
    let el = Seq::new(es.len(), |k: int| entry_text(es[k]));
    if es.len() == 0 {
        assert(hosts_entries_text(es) + t =~= t);
        assert(el + lines(t) =~= lines(t));
    } else {
        let init = es.drop_last();
        let last = es.last();
        assert(entry_ok(es[es.len() - 1]));
        let t2 = entry_text(last) + seq!['\n'] + t;
        assert(hosts_entry_line(last) =~= entry_text(last) + seq!['\n']);
        assert(hosts_entries_text(es) + t =~= hosts_entries_text(init) + t2);
        assert forall|k: int| 0 <= k < init.len() implies entry_ok(#[trigger] init[k]) by {
            assert(init[k] == es[k]);
        }
        lemma_entries_lines(init, t2);
        lemma_entry_plain(last);
        lemma_lines_cons(entry_text(last), t);
        let il = Seq::new(init.len(), |k: int| entry_text(init[k]));
        assert(il + (seq![entry_text(last)] + lines(t)) =~= el + lines(t));
    }
}

proof fn lemma_sentinels()
    ensures
        trim(HOSTS_SENTINEL_START@) == HOSTS_SENTINEL_START@,
        trim(HOSTS_SENTINEL_END@) == HOSTS_SENTINEL_END@,
        HOSTS_SENTINEL_START@ != HOSTS_SENTINEL_END@,
        HOSTS_SENTINEL_START@.len() > 0,
        HOSTS_SENTINEL_END@.len() > 0,
        is_plain_line(HOSTS_SENTINEL_START@),
        is_plain_line(HOSTS_SENTINEL_END@),
        trim(Seq::<char>::empty()) == Seq::<char>::empty(),
{
    reveal_strlit("# LocalDomain Start");
    reveal_strlit("# LocalDomain End");
    let s = HOSTS_SENTINEL_START@;
    let e = HOSTS_SENTINEL_END@;
    assert(trim_start(s) == s);
    assert(trim_end(s) == s);
    assert(trim_start(e) == e);
    assert(trim_end(e) == e);
    assert(s.len() != e.len());
    assert(!s.contains('\n')) by {
        if s.contains('\n') {
            let m = choose|m: int| 0 <= m < s.len() && s[m] == '\n';
        }
    }
    assert(!e.contains('\n')) by {
        if e.contains('\n') {
            let m = choose|m: int| 0 <= m < e.len() && e[m] == '\n';
        }
    }
}

/// The lines of a non-empty managed block.
proof fn lemma_block_lines(es: Seq<HostsEntry>)
    requires
        es.len() > 0,
        forall|k: int| 0 <= k < es.len() ==> entry_ok(#[trigger] es[k]),
    ensures
        lines(hosts_block(es)) == seq![Seq::<char>::empty(), HOSTS_SENTINEL_START@] + Seq::new(
            es.len(),
            |k: int| entry_text(es[k]),
        ) + seq![HOSTS_SENTINEL_END@],
{
    reveal_strlit("\n");
    lemma_sentinels();
    let s = HOSTS_SENTINEL_START@;
    let e = HOSTS_SENTINEL_END@;
    let el = Seq::new(es.len(), |k: int| entry_text(es[k]));
    let empty = Seq::<char>::empty();
    let tail = e + seq!['\n'] + empty;
    let mid = hosts_entries_text(es) + tail;
    let after_start = s + seq!['\n'] + mid;
    assert(hosts_block(es) =~= empty + seq!['\n'] + after_start);
    lemma_lines_cons(empty, after_start);
    lemma_lines_cons(s, mid);
    lemma_entries_lines(es, tail);
    lemma_lines_cons(e, empty);
    assert(lines(empty) =~= Seq::<Seq<char>>::empty());
    assert(seq![empty] + (seq![s] + (el + (seq![e] + Seq::<Seq<char>>::empty()))) =~= seq![
        empty,
        s,
    ] + el + seq![e]);
}

/// Syncing leaves the text outside the managed block as it was (up to the
/// blank lines at its end): stripping the block from the new file gives
/// what stripping it from the old file gave.
pub proof fn lemma_sync_preserves_outside(current: Seq<char>, es: Seq<HostsEntry>)
    requires
        no_cr_line_ends(current),
        forall|k: int| 0 <= k < es.len() ==> entry_ok(#[trigger] es[k]),
    ensures
        outside_text(hosts_content(current, es), HOSTS_SENTINEL_START@, HOSTS_SENTINEL_END@)
            == outside_text(current, HOSTS_SENTINEL_START@, HOSTS_SENTINEL_END@),
{
    reveal_strlit("\n");
    lemma_sentinels();
    let s = HOSTS_SENTINEL_START@;
    let e = HOSTS_SENTINEL_END@;
    let el = Seq::new(es.len(), |k: int| entry_text(es[k]));
    if es.len() > 0 {
        lemma_block_lines(es);
    }
    assert forall|k: int| 0 <= k < el.len() implies trim(#[trigger] el[k]) != s && trim(el[k]) != e by {
        assert(entry_ok(es[k]));
    }
    assert(is_fresh_block(hosts_block(es), el, s, e));
    lemma_outside_after_block(current, hosts_block(es), el, s, e);
    assert(hosts_content(current, es) =~= outside_text(current, s, e) + seq!['\n'] + hosts_block(es));
}

/// Syncing the same entries twice gives the same file as syncing once.
pub proof fn lemma_sync_idempotent(current: Seq<char>, es: Seq<HostsEntry>)
    requires
        no_cr_line_ends(current),
        forall|k: int| 0 <= k < es.len() ==> entry_ok(#[trigger] es[k]),
    ensures
        hosts_content(hosts_content(current, es), es) == hosts_content(current, es),
{
    lemma_sync_preserves_outside(current, es);
}

} // verus!
