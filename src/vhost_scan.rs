//! Discovery of user-written virtual hosts outside the managed block, so
//! that they can be imported as domains.
use vstd::prelude::*;

use crate::httpd_conf::{extract_port, vhost_line_port};
use crate::text::{
    chars_of, line_ranges, lines, range_eq, range_starts_with, ranges_view, ranges_within,
    starts_with, trim, trim_range,
};
use crate::vhosts::{VHOSTS_SENTINEL_END, VHOSTS_SENTINEL_START};

verus! {

/// A virtual host found outside the managed block.
#[derive(Debug, Clone)]
pub struct ScannedVhost {
    pub server_name: String,
    pub document_root: String,
    pub port: u16,
    pub already_exists: bool,
}

/// A virtual host to import as a domain.
#[derive(Debug, Clone)]
pub struct ImportVhost {
    pub server_name: String,
    pub document_root: String,
}

/// Scanner state: inside the managed block, inside a `<VirtualHost>`, and
/// the port, server name and document root of the current one.
pub type ScanState = (bool, bool, u16, Seq<char>, Seq<char>);

/// A finished virtual host: server name, document root, port.
pub type Found = (Seq<char>, Seq<char>, u16);

pub open spec fn strip_quotes_start(s: Seq<char>) -> Seq<char>
    decreases s.len(),
{
    if s.len() > 0 && s[0] == '"' {
        strip_quotes_start(s.drop_first())
    } else {
        s
    }
}

pub open spec fn strip_quotes_end(s: Seq<char>) -> Seq<char>
    decreases s.len(),
{
    if s.len() > 0 && s.last() == '"' {
        strip_quotes_end(s.drop_last())
    } else {
        s
    }
}

/// `str::trim_matches('"')`.
pub open spec fn strip_quotes(s: Seq<char>) -> Seq<char> {
    strip_quotes_end(strip_quotes_start(s))
}

/// The state after one line.
pub open spec fn scan_next(st: ScanState, l: Seq<char>) -> ScanState {
    let t = trim(l);
    let (managed, in_vhost, port, name, root) = st;
    if t == VHOSTS_SENTINEL_START@ {
        (true, in_vhost, port, name, root)
    } else if t == VHOSTS_SENTINEL_END@ {
        (false, in_vhost, port, name, root)
    } else if managed {
        st
    } else if starts_with(t, "<VirtualHost"@) {
        (managed, true, vhost_line_port(t), seq![], seq![])
    } else if t == "</VirtualHost>"@ {
        (managed, false, port, name, root)
    } else if in_vhost && starts_with(t, "ServerName"@) {
        (managed, in_vhost, port, trim(t.skip(10)), root)
    } else if in_vhost && starts_with(t, "DocumentRoot"@) {
        (managed, in_vhost, port, name, strip_quotes(trim(t.skip(12))))
    } else {
        st
    }
}

/// Whether one line closes a virtual host worth reporting: one with a
/// server name other than `localhost`.
pub open spec fn scan_emits(st: ScanState, l: Seq<char>) -> bool {
    let t = trim(l);
    let (managed, in_vhost, port, name, root) = st;
    t != VHOSTS_SENTINEL_START@ && t != VHOSTS_SENTINEL_END@ && !managed && !starts_with(
        t,
        "<VirtualHost"@,
    ) && t == "</VirtualHost>"@ && in_vhost && name.len() > 0 && name != "localhost"@
}

/// The virtual hosts closed by the lines, in order, starting from state `st`.
pub open spec fn scan_lines(ls: Seq<Seq<char>>, st: ScanState) -> Seq<Found>
    decreases ls.len(),
{
    if ls.len() == 0 {
        seq![]
    } else {
        let l = ls[0];
        let (_, _, port, name, root) = st;
        let head: Seq<Found> = if scan_emits(st, l) {
            seq![(name, root, port)]
        } else {
            seq![]
        };
        head + scan_lines(ls.drop_first(), scan_next(st, l))
    }
}

/// The first virtual host of each server name, in order.
pub open spec fn first_of_each_name(fs: Seq<Found>) -> Seq<Found>
    decreases fs.len(),
{
    if fs.len() == 0 {
        seq![]
    } else {
        let d = first_of_each_name(fs.drop_last());
        if exists|j: int| 0 <= j < fs.len() - 1 && (#[trigger] fs[j]).0 == fs.last().0 {
            d
        } else {
            d.push(fs.last())
        }
    }
}

pub open spec fn ascii_lower(c: char) -> char {
    if 'A' <= c && c <= 'Z' {
        ((c as u8) + 32) as char
    } else {
        c
    }
}

/// `str::eq_ignore_ascii_case`.
pub open spec fn eq_ignore_ascii_case(a: Seq<char>, b: Seq<char>) -> bool {
    a.len() == b.len() && forall|k: int| 0 <= k < a.len() ==> ascii_lower(#[trigger] a[k]) == ascii_lower(b[k])
}

pub open spec fn scan_start() -> ScanState {
    (false, false, 80, seq![], seq![])
}

/// The virtual hosts of a configuration text outside the managed block.
pub open spec fn scanned(content: Seq<char>) -> Seq<Found> {
    first_of_each_name(scan_lines(lines(content), scan_start()))
}


fn strip_quotes_range(v: &Vec<char>, a: usize, b: usize) -> (r: (usize, usize))
    requires
        a <= b <= v.len(),
    ensures
        a <= r.0 <= r.1 <= b,
        v@.subrange(r.0 as int, r.1 as int) == strip_quotes(v@.subrange(a as int, b as int)),
{
    let mut i = a;
    while i < b && v[i] == '"'
        invariant
            a <= i <= b <= v.len(),
            strip_quotes_start(v@.subrange(a as int, b as int)) == strip_quotes_start(
                v@.subrange(i as int, b as int),
            ),
        decreases b - i,
    {
        assert(v@.subrange(i as int, b as int).drop_first() =~= v@.subrange(i + 1, b as int));
        i = i + 1;
    }
    let mut j = b;
    while j > i && v[j - 1] == '"'
        invariant
            a <= i <= j <= b <= v.len(),
            strip_quotes(v@.subrange(a as int, b as int)) == strip_quotes_end(
                v@.subrange(i as int, j as int),
            ),
        decreases j - i,
    {
        assert(v@.subrange(i as int, j as int).drop_last() =~= v@.subrange(i as int, j - 1));
        j = j - 1;
    }
    (i, j)
}

/// Exec form of a scanner state: text ranges stand for the name and root.
struct ScanCursor {
    managed: bool,
    in_vhost: bool,
    port: u16,
    name: (usize, usize),
    root: (usize, usize),
}

spec fn cursor_ok(c: ScanCursor, n: nat) -> bool {
    c.name.0 <= c.name.1 <= n && c.root.0 <= c.root.1 <= n
}

spec fn cursor_view(s: Seq<char>, c: ScanCursor) -> ScanState {
    (
        c.managed,
        c.in_vhost,
        c.port,
        s.subrange(c.name.0 as int, c.name.1 as int),
        s.subrange(c.root.0 as int, c.root.1 as int),
    )
}

/// One line `v[x..y]` of `content` through the scanner.
fn scan_step(content: &str, v: &Vec<char>, x: usize, y: usize, c: ScanCursor) -> (r: (
    ScanCursor,
    bool,
))
    requires
        v@ == content@,
        x <= y <= v.len(),
        cursor_ok(c, v@.len()),
    ensures
        cursor_ok(r.0, v@.len()),
        cursor_view(v@, r.0) == scan_next(cursor_view(v@, c), v@.subrange(x as int, y as int)),
        r.1 == scan_emits(cursor_view(v@, c), v@.subrange(x as int, y as int)),
{
    let ghost st = cursor_view(v@, c);
    let ghost t = trim(v@.subrange(x as int, y as int));
    let (ta, tb) = trim_range(v, x, y);
    let start = chars_of(VHOSTS_SENTINEL_START);
    let end = chars_of(VHOSTS_SENTINEL_END);
    let open_tag = chars_of("<VirtualHost");
    let close_tag = chars_of("</VirtualHost>");
    let server_name = chars_of("ServerName");
    let document_root = chars_of("DocumentRoot");
    let localhost = chars_of("localhost");
    proof {
        reveal_strlit("ServerName");
        reveal_strlit("DocumentRoot");
    }
    if range_eq(v, ta, tb, &start) {
        return (ScanCursor { managed: true, ..c }, false);
    }
    if range_eq(v, ta, tb, &end) {
        return (ScanCursor { managed: false, ..c }, false);
    }
    if c.managed {
        return (c, false);
    }
    if range_starts_with(v, ta, tb, &open_tag) {
        let line = content.substring_char(ta, tb);
        let port = extract_port(line);
        let ghost e = v@.subrange(0, 0);
        assert(e =~= Seq::<char>::empty());
        return (ScanCursor { managed: c.managed, in_vhost: true, port, name: (0, 0), root: (0, 0) }, false);
    }
    if range_eq(v, ta, tb, &close_tag) {
        let named = c.name.0 < c.name.1 && !range_eq(v, c.name.0, c.name.1, &localhost);
        return (ScanCursor { in_vhost: false, ..c }, c.in_vhost && named);
    }
    if c.in_vhost && range_starts_with(v, ta, tb, &server_name) {
        let (na, nb) = trim_range(v, ta + 10, tb);
        assert(v@.subrange(ta as int, tb as int).skip(10) =~= v@.subrange(ta + 10, tb as int));
        return (ScanCursor { name: (na, nb), ..c }, false);
    }
    if c.in_vhost && range_starts_with(v, ta, tb, &document_root) {
        let (ra, rb) = trim_range(v, ta + 12, tb);
        assert(v@.subrange(ta as int, tb as int).skip(12) =~= v@.subrange(ta + 12, tb as int));
        let (qa, qb) = strip_quotes_range(v, ra, rb);
        return (ScanCursor { root: (qa, qb), ..c }, false);
    }
    (c, false)
}


pub open spec fn found_view(s: Seq<char>, cs: Seq<(usize, usize, usize, usize, u16)>) -> Seq<Found> {
    Seq::new(
        cs.len(),
        |k: int|
            (
                s.subrange(cs[k].0 as int, cs[k].1 as int),
                s.subrange(cs[k].2 as int, cs[k].3 as int),
                cs[k].4,
            ),
    )
}

pub open spec fn found_within(cs: Seq<(usize, usize, usize, usize, u16)>, n: nat) -> bool {
    forall|k: int|
        0 <= k < cs.len() ==> #[trigger] cs[k].0 <= cs[k].1 <= n && cs[k].2 <= cs[k].3 <= n
}

/// The virtual hosts that the lines of `v` close, as text ranges.
fn scan_candidates(content: &str, v: &Vec<char>) -> (r: Vec<(usize, usize, usize, usize, u16)>)
    requires
        v@ == content@,
    ensures
        found_within(r@, v@.len()),
        found_view(v@, r@) == scan_lines(lines(v@), scan_start()),
{
    let rs = line_ranges(v);
    let ghost ls = lines(v@);
    let mut cands: Vec<(usize, usize, usize, usize, u16)> = Vec::new();
    let mut c = ScanCursor { managed: false, in_vhost: false, port: 80, name: (0, 0), root: (0, 0) };
    assert(v@.subrange(0, 0) =~= Seq::<char>::empty());
    assert(ls.skip(0) =~= ls);
    let mut k: usize = 0;
    while k < rs.len()
        invariant
            k <= rs.len(),
            v@ == content@,
            ls == lines(v@),
            ranges_within(rs@, v@.len()),
            ranges_view(v@, rs@) == ls,
            cursor_ok(c, v@.len()),
            found_within(cands@, v@.len()),
            scan_lines(ls, scan_start()) == found_view(v@, cands@) + scan_lines(
                ls.skip(k as int),
                cursor_view(v@, c),
            ),
        decreases rs.len() - k,
    {
        let (x, y) = rs[k];
        assert(rs@[k as int].0 <= rs@[k as int].1 <= v@.len());
        let ghost l = ls[k as int];
        assert(l == v@.subrange(x as int, y as int));
        let ghost st = cursor_view(v@, c);
        let ghost before = found_view(v@, cands@);
        assert(ls.skip(k as int)[0] == l);
        assert(ls.skip(k as int).drop_first() =~= ls.skip(k + 1));
        let name = c.name;
        let root = c.root;
        let port = c.port;
        let (next, emits) = scan_step(content, v, x, y, c);
        if emits {
            cands.push((name.0, name.1, root.0, root.1, port));
            assert(found_view(v@, cands@) =~= before + seq![(st.3, st.4, st.2)]);
        } else {
            assert(found_view(v@, cands@) =~= before + Seq::<Found>::empty());
        }
        c = next;
        k = k + 1;
    }
    assert(ls.skip(k as int) =~= Seq::<Seq<char>>::empty());
    assert(found_view(v@, cands@) + Seq::<Found>::empty() =~= found_view(v@, cands@));
    cands
}

/// Whether `v[a..b]` and `v[c..d]` hold the same text.
fn ranges_equal(v: &Vec<char>, a: usize, b: usize, c: usize, d: usize) -> (r: bool)
    requires
        a <= b <= v.len(),
        c <= d <= v.len(),
    ensures
        r == (v@.subrange(a as int, b as int) == v@.subrange(c as int, d as int)),
{
    if b - a != d - c {
        assert(v@.subrange(a as int, b as int).len() != v@.subrange(c as int, d as int).len());
        return false;
    }
    let mut k: usize = 0;
    while k < b - a
        invariant
            a <= b <= v.len(),
            c <= d <= v.len(),
            b - a == d - c,
            k <= b - a,
            forall|m: int| 0 <= m < k ==> #[trigger] v@[a + m] == v@[c + m],
        decreases b - a - k,
    {
        if v[a + k] != v[c + k] {
            assert(v@.subrange(a as int, b as int)[k as int] != v@.subrange(c as int, d as int)[k as int]);
            return false;
        }
        k = k + 1;
    }
    assert forall|m: int| 0 <= m < b - a implies v@.subrange(a as int, b as int)[m]
        == v@.subrange(c as int, d as int)[m] by {
        assert(v@[a + m] == v@[c + m]);
    }
    assert(v@.subrange(a as int, b as int) =~= v@.subrange(c as int, d as int));
    true
}

fn ascii_lower_char(c: char) -> (r: char)
    ensures
        r == ascii_lower(c),
{
    if 'A' <= c && c <= 'Z' {
        ((c as u8) + 32) as char
    } else {
        c
    }
}

fn eq_ignore_case(a: &Vec<char>, v: &Vec<char>, x: usize, y: usize) -> (r: bool)
    requires
        x <= y <= v.len(),
    ensures
        r == eq_ignore_ascii_case(a@, v@.subrange(x as int, y as int)),
{
    let ghost b = v@.subrange(x as int, y as int);
    if a.len() != y - x {
        return false;
    }
    let mut k: usize = 0;
    while k < a.len()
        invariant
            x <= y <= v.len(),
            a.len() == y - x,
            b == v@.subrange(x as int, y as int),
            k <= a.len(),
            forall|m: int| 0 <= m < k ==> ascii_lower(#[trigger] a@[m]) == ascii_lower(b[m]),
        decreases a.len() - k,
    {
        if ascii_lower_char(a[k]) != ascii_lower_char(v[x + k]) {
            assert(b[k as int] == v@[x + k]);
            return false;
        }
        assert(b[k as int] == v@[x + k]);
        k = k + 1;
    }
    true
}

/// Whether some existing name equals `v[x..y]`, ignoring ASCII case.
fn name_exists(existing: &[String], v: &Vec<char>, x: usize, y: usize) -> (r: bool)
    requires
        x <= y <= v.len(),
    ensures
        r == exists|j: int|
            0 <= j < existing@.len() && eq_ignore_ascii_case(
                (#[trigger] existing@[j])@,
                v@.subrange(x as int, y as int),
            ),
{
    let mut j: usize = 0;
    while j < existing.len()
        invariant
            x <= y <= v.len(),
            j <= existing.len(),
            forall|m: int|
                0 <= m < j ==> !eq_ignore_ascii_case(
                    (#[trigger] existing@[m])@,
                    v@.subrange(x as int, y as int),
                ),
        decreases existing.len() - j,
    {
        let n = chars_of(existing[j].as_str());
        if eq_ignore_case(&n, v, x, y) {
            return true;
        }
        j = j + 1;
    }
    false
}

/// The virtual hosts of `content` outside the managed block, in order, the
/// first of each server name only; `localhost` and hosts without a name are
/// left out. A host is marked as existing when its name equals one of
/// `existing_names`, ignoring ASCII case.
pub fn parse_vhosts_outside_managed(content: &str, existing_names: &[String]) -> (r: Vec<
    ScannedVhost,
>)
    ensures
        r@.len() == scanned(content@).len(),
        forall|k: int|
            0 <= k < r@.len() ==> {
                let f = scanned(content@)[k];
                &&& (#[trigger] r@[k]).server_name@ == f.0
                &&& r@[k].document_root@ == f.1
                &&& r@[k].port == f.2
                &&& r@[k].already_exists == exists|j: int|
                    0 <= j < existing_names@.len() && eq_ignore_ascii_case(
                        (#[trigger] existing_names@[j])@,
                        f.0,
                    )
            },
{
    let v = chars_of(content);
    let cands = scan_candidates(content, &v);
    let ghost fs = found_view(v@, cands@);
    let mut out: Vec<ScannedVhost> = Vec::new();
    let ghost mut kept: Seq<Found> = seq![];
    let mut i: usize = 0;
    while i < cands.len()
        invariant
            i <= cands.len(),
            v@ == content@,
            found_within(cands@, v@.len()),
            fs == found_view(v@, cands@),
            fs == scan_lines(lines(content@), scan_start()),
            kept == first_of_each_name(fs.take(i as int)),
            out@.len() == kept.len(),
            forall|k: int|
                0 <= k < out@.len() ==> {
                    &&& (#[trigger] out@[k]).server_name@ == kept[k].0
                    &&& out@[k].document_root@ == kept[k].1
                    &&& out@[k].port == kept[k].2
                    &&& out@[k].already_exists == exists|j: int|
                        0 <= j < existing_names@.len() && eq_ignore_ascii_case(
                            (#[trigger] existing_names@[j])@,
                            kept[k].0,
                        )
                },
        decreases cands.len() - i,
    {
        let (na, nb, ra, rb, port) = cands[i];
        assert(cands@[i as int].0 <= cands@[i as int].1 <= v@.len() && cands@[i as int].2
            <= cands@[i as int].3 <= v@.len());
        let mut seen = false;
        let mut j: usize = 0;
        while j < i
            invariant
                j <= i < cands.len(),
                na == cands@[i as int].0,
                nb == cands@[i as int].1,
                na <= nb <= v@.len(),
                found_within(cands@, v@.len()),
                fs == found_view(v@, cands@),
                seen == exists|m: int| 0 <= m < j && (#[trigger] fs[m]).0 == fs[i as int].0,
            decreases i - j,
        {
            let (pa, pb, _, _, _) = cands[j];
            assert(cands@[j as int].0 <= cands@[j as int].1 <= v@.len());
            assert(fs[j as int].0 == v@.subrange(pa as int, pb as int));
            assert(fs[i as int].0 == v@.subrange(na as int, nb as int));
            if ranges_equal(&v, pa, pb, na, nb) {
                seen = true;
            }
            j = j + 1;
        }
        let ghost prefix = fs.take(i + 1);
        assert(prefix.drop_last() =~= fs.take(i as int));
        assert(prefix.last() == fs[i as int]);
        assert((exists|m: int| 0 <= m < prefix.len() - 1 && (#[trigger] prefix[m]).0 == prefix.last().0)
            == (exists|m: int| 0 <= m < i && (#[trigger] fs[m]).0 == fs[i as int].0)) by {
            if exists|m: int| 0 <= m < i && (#[trigger] fs[m]).0 == fs[i as int].0 {
                let m = choose|m: int| 0 <= m < i && (#[trigger] fs[m]).0 == fs[i as int].0;
                assert(prefix[m] == fs[m]);
            }
            if exists|m: int| 0 <= m < prefix.len() - 1 && (#[trigger] prefix[m]).0 == prefix.last().0 {
                let m = choose|m: int| 0 <= m < prefix.len() - 1 && (#[trigger] prefix[m]).0 == prefix.last().0;
                assert(prefix[m] == fs[m]);
            }
        }
        if !seen {
            let exists_already = name_exists(existing_names, &v, na, nb);
            let item = ScannedVhost {
                server_name: String::from_str(content.substring_char(na, nb)),
                document_root: String::from_str(content.substring_char(ra, rb)),
                port,
                already_exists: exists_already,
            };
            proof {
                kept = kept.push(fs[i as int]);
            }
            out.push(item);
        }
        i = i + 1;
    }
    assert(fs.take(i as int) =~= fs);
    out
}

} // verus!
