//! Reading and switching directives of `httpd.conf` and `httpd-ssl.conf`.
use vstd::prelude::*;

use crate::text::{
    all_digits, chars_of, contains, digits_value, is_digit, is_ws_char, join_lines, line_ranges,
    lines, parse_u16_digits, range_contains, range_starts_with, ranges_view,
    ranges_within, starts_with, str_eq, trim, trim_range, trim_start,
};

verus! {

/// `s` without its leading `'#'` characters.
pub open spec fn strip_hashes(s: Seq<char>) -> Seq<char>
    decreases s.len(),
{
    if s.len() > 0 && s[0] == '#' {
        strip_hashes(s.drop_first())
    } else {
        s
    }
}

/// The trimmed line mentions both `a` and `b`, and is (or is not) a comment.
pub open spec fn is_directive(l: Seq<char>, a: Seq<char>, b: Seq<char>, commented: bool) -> bool {
    &&& starts_with(trim(l), "#"@) == commented
    &&& contains(trim(l), a)
    &&& contains(trim(l), b)
}

/// A commented directive line with its comment marks and indentation removed.
pub open spec fn uncommented(l: Seq<char>) -> Seq<char> {
    trim_start(strip_hashes(trim(l)))
}

pub open spec fn switch_line(l: Seq<char>, a: Seq<char>, b: Seq<char>) -> Seq<char> {
    if is_directive(l, a, b, true) {
        uncommented(l)
    } else {
        l
    }
}

/// Some line is an active directive naming `a` and `b`.
pub open spec fn has_active(ls: Seq<Seq<char>>, a: Seq<char>, b: Seq<char>) -> bool {
    exists|k: int| 0 <= k < ls.len() && is_directive(#[trigger] ls[k], a, b, false)
}

/// The new text of a configuration file in which the directive naming `a`
/// and `b` is to be active: `None` when an active one exists already or when
/// uncommenting changes nothing; otherwise every commented line naming both
/// is uncommented and the lines are joined by `'\n'`.
pub open spec fn enabled_text(content: Seq<char>, a: Seq<char>, b: Seq<char>) -> Option<
    Seq<char>,
> {
    let ls = lines(content);
    if has_active(ls, a, b) {
        None
    } else {
        let n = join_lines(Seq::new(ls.len(), |k: int| switch_line(ls[k], a, b)));
        if n == content {
            None
        } else {
            Some(n)
        }
    }
}

/// The start of `v[a..b]` once leading `'#'` characters and then whitespace are skipped.
fn uncomment_start(v: &Vec<char>, a: usize, b: usize) -> (r: usize)
    requires
        a <= b <= v.len(),
    ensures
        a <= r <= b,
        v@.subrange(r as int, b as int) == trim_start(strip_hashes(v@.subrange(a as int, b as int))),
{
    let mut i = a;
    while i < b && v[i] == '#'
        invariant
            a <= i <= b <= v.len(),
            strip_hashes(v@.subrange(a as int, b as int)) == strip_hashes(
                v@.subrange(i as int, b as int),
            ),
        decreases b - i,
    {
        assert(v@.subrange(i as int, b as int).drop_first() =~= v@.subrange(i + 1, b as int));
        i = i + 1;
    }
    let mut j = i;
    while j < b && is_ws_char(v[j])
        invariant
            i <= j <= b <= v.len(),
            trim_start(strip_hashes(v@.subrange(a as int, b as int))) == trim_start(
                v@.subrange(j as int, b as int),
            ),
        decreases b - j,
    {
        assert(v@.subrange(j as int, b as int).drop_first() =~= v@.subrange(j + 1, b as int));
        j = j + 1;
    }
    j
}

/// What `is_directive` says of the line `v[x..y]`, with its trimmed bounds.
fn classify_line(v: &Vec<char>, x: usize, y: usize, hash: &Vec<char>, a: &Vec<char>, b: &Vec<char>) -> (r: (bool, bool, usize, usize))
    requires
        x <= y <= v.len(),
        hash@ == "#"@,
    ensures
        r.0 == is_directive(v@.subrange(x as int, y as int), a@, b@, false),
        r.1 == is_directive(v@.subrange(x as int, y as int), a@, b@, true),
        x <= r.2 <= r.3 <= y,
        v@.subrange(r.2 as int, r.3 as int) == trim(v@.subrange(x as int, y as int)),
{
    let (ta, tb) = trim_range(v, x, y);
    let commented = range_starts_with(v, ta, tb, hash);
    let names = range_contains(v, ta, tb, a) && range_contains(v, ta, tb, b);
    (!commented && names, commented && names, ta, tb)
}

/// See `enabled_text`.
pub fn enable_directive(content: &str, a: &str, b: &str) -> (r: Option<String>)
    ensures
        r matches Some(n) ==> enabled_text(content@, a@, b@) == Some(n@),
        r is None ==> enabled_text(content@, a@, b@) is None,
{
    let v = chars_of(content);
    let av = chars_of(a);
    let bv = chars_of(b);
    let hash = chars_of("#");
    let rs = line_ranges(&v);
    let ghost ls = lines(content@);
    let mut k: usize = 0;
    while k < rs.len()
        invariant
            k <= rs.len(),
            v@ == content@,
            hash@ == "#"@,
            av@ == a@,
            bv@ == b@,
            ranges_within(rs@, v@.len()),
            ranges_view(v@, rs@) == ls,
            ls == lines(content@),
            forall|m: int| 0 <= m < k ==> !is_directive(#[trigger] ls[m], a@, b@, false),
        decreases rs.len() - k,
    {
        let (x, y) = rs[k];
        assert(rs@[k as int].0 <= rs@[k as int].1 <= v@.len());
        assert(ls[k as int] == v@.subrange(x as int, y as int));
        let c = classify_line(&v, x, y, &hash, &av, &bv);
        if c.0 {
            assert(is_directive(ls[k as int], a@, b@, false));
            return None;
        }
        assert(!is_directive(ls[k as int], a@, b@, false));
        k = k + 1;
    }
    let ghost switched = Seq::new(ls.len(), |m: int| switch_line(ls[m], a@, b@));
    let mut out = String::new();
    let mut k: usize = 0;
    while k < rs.len()
        invariant
            k <= rs.len(),
            v@ == content@,
            hash@ == "#"@,
            av@ == a@,
            bv@ == b@,
            ranges_within(rs@, v@.len()),
            ranges_view(v@, rs@) == ls,
            switched.len() == ls.len(),
            switched == Seq::new(ls.len(), |m: int| switch_line(ls[m], a@, b@)),
            out@ == join_lines(switched.take(k as int)),
        decreases rs.len() - k,
    {
        let (x, y) = rs[k];
        assert(rs@[k as int].0 <= rs@[k as int].1 <= v@.len());
        assert(ls[k as int] == v@.subrange(x as int, y as int));
        let c = classify_line(&v, x, y, &hash, &av, &bv);
        let commented = c.1;
        let ta = c.2;
        let tb = c.3;
        if k > 0 {
            out.append("\n");
            proof {
                reveal_strlit("\n");
            }
        }
        assert(switched[k as int] == switch_line(ls[k as int], a@, b@));
        if commented {
            let w = uncomment_start(&v, ta, tb);
            let piece = content.substring_char(w, tb);
            assert(piece@ == uncommented(ls[k as int]));
            out.append(piece);
        } else {
            let piece = content.substring_char(x, y);
            assert(piece@ == switched[k as int]);
            out.append(piece);
        }
        assert(switched.take(k + 1).drop_last() =~= switched.take(k as int));
        assert(switched.take(k + 1).last() == switched[k as int]);
        k = k + 1;
    }
    assert(switched.take(k as int) =~= switched);
    if str_eq(out.as_str(), content) {
        None
    } else {
        Some(out)
    }
}

/// The new `httpd.conf` with `Include conf/extra/httpd-vhosts.conf` active,
/// or `None` when nothing is to be written.
pub fn ensure_vhosts_include(content: &str) -> (r: Option<String>)
    ensures
        r matches Some(n) ==> enabled_text(content@, "Include"@, "httpd-vhosts.conf"@) == Some(
            n@,
        ),
        r is None ==> enabled_text(content@, "Include"@, "httpd-vhosts.conf"@) is None,
{
    enable_directive(content, "Include", "httpd-vhosts.conf")
}

/// The new `httpd.conf` with the SSL module's `LoadModule` line active, or
/// `None` when nothing is to be written.
pub fn ensure_ssl_module(content: &str) -> (r: Option<String>)
    ensures
        r matches Some(n) ==> enabled_text(content@, "LoadModule"@, "ssl_module"@) == Some(n@),
        r is None ==> enabled_text(content@, "LoadModule"@, "ssl_module"@) is None,
{
    enable_directive(content, "LoadModule", "ssl_module")
}


/// Number of leading decimal digits of `s`.
pub open spec fn digit_run(s: Seq<char>) -> nat
    decreases s.len(),
{
    if s.len() > 0 && is_digit(s[0]) {
        1 + digit_run(s.drop_first())
    } else {
        0
    }
}

/// `str::parse::<u16>` applied to the leading digits of `s`.
pub open spec fn leading_port(s: Seq<char>) -> Option<u16> {
    let n = digit_run(s);
    if n > 0 && digits_value(s.take(n as int)) <= 65535 {
        Some(digits_value(s.take(n as int)) as u16)
    } else {
        None
    }
}

/// Index of the last `':'` of `s`, or -1.
pub open spec fn last_colon(s: Seq<char>) -> int
    decreases s.len(),
{
    if s.len() == 0 {
        -1
    } else if s.last() == ':' {
        s.len() - 1
    } else {
        last_colon(s.drop_last())
    }
}

/// The port of an address `host:port`, `[v6]:port` or `port`: the digits after
/// the last colon when they form a port, else the leading digits.
pub open spec fn address_port(v: Seq<char>) -> Option<u16> {
    let c = last_colon(v);
    if c >= 0 && leading_port(v.skip(c + 1)) is Some {
        leading_port(v.skip(c + 1))
    } else {
        leading_port(v)
    }
}

/// The port that one configuration line declares with `Listen`, if any.
/// Comments and blank lines declare none.
pub open spec fn listen_port_of_line(l: Seq<char>) -> Option<u16> {
    let t = trim(l);
    if t.len() == 0 || starts_with(t, "#"@) || !starts_with(t, "Listen"@) {
        None
    } else {
        let v = trim(t.skip(6));
        if v.len() == 0 {
            None
        } else {
            address_port(v)
        }
    }
}

/// The port of the first line that declares one.
pub open spec fn listen_port_of_lines(ls: Seq<Seq<char>>) -> Option<u16>
    decreases ls.len(),
{
    if ls.len() == 0 {
        None
    } else if listen_port_of_line(ls[0]) is Some {
        listen_port_of_line(ls[0])
    } else {
        listen_port_of_lines(ls.drop_first())
    }
}

/// Index of the last `':'` of `v[a..b]` (absolute), or `b` when there is none.
fn find_last_colon(v: &Vec<char>, a: usize, b: usize) -> (r: usize)
    requires
        a <= b <= v.len(),
    ensures
        r <= b,
        r == b ==> last_colon(v@.subrange(a as int, b as int)) == -1,
        r < b ==> a <= r && last_colon(v@.subrange(a as int, b as int)) == r - a,
{
    let mut j = b;
    while j > a
        invariant
            a <= j <= b <= v.len(),
            last_colon(v@.subrange(a as int, b as int)) == last_colon(v@.subrange(a as int, j as int)),
        decreases j - a,
    {
        if v[j - 1] == ':' {
            return j - 1;
        }
        assert(v@.subrange(a as int, j as int).drop_last() =~= v@.subrange(a as int, j - 1));
        j = j - 1;
    }
    b
}

/// `leading_port` of `v[a..b]`.
fn leading_port_of(v: &Vec<char>, a: usize, b: usize) -> (r: Option<u16>)
    requires
        a <= b <= v.len(),
    ensures
        r == leading_port(v@.subrange(a as int, b as int)),
{
    let ghost s = v@.subrange(a as int, b as int);
    let mut e = a;
    while e < b && '0' <= v[e] && v[e] <= '9'
        invariant
            a <= e <= b <= v.len(),
            s == v@.subrange(a as int, b as int),
            digit_run(s) == (e - a) + digit_run(v@.subrange(e as int, b as int)),
            all_digits(v@.subrange(a as int, e as int)),
        decreases b - e,
    {
        assert(v@.subrange(e as int, b as int).drop_first() =~= v@.subrange(e + 1, b as int));
        assert forall|k: int| 0 <= k < e + 1 - a implies is_digit(
            #[trigger] v@.subrange(a as int, e + 1)[k],
        ) by {
            if k < e - a {
                assert(v@.subrange(a as int, e + 1)[k] == v@.subrange(a as int, e as int)[k]);
            }
        }
        e = e + 1;
    }
    assert(digit_run(v@.subrange(e as int, b as int)) == 0);
    assert(s.take((e - a) as int) =~= v@.subrange(a as int, e as int));
    parse_u16_digits(v, a, e)
}

fn address_port_of(v: &Vec<char>, a: usize, b: usize) -> (r: Option<u16>)
    requires
        a <= b <= v.len(),
    ensures
        r == address_port(v@.subrange(a as int, b as int)),
{
    let ghost s = v@.subrange(a as int, b as int);
    let c = find_last_colon(v, a, b);
    if c < b {
        let p = leading_port_of(v, c + 1, b);
        assert(s.skip(c + 1 - a) =~= v@.subrange(c + 1, b as int));
        assert(last_colon(s) == c - a);
        assert(leading_port(s.skip(last_colon(s) + 1)) == p);
        if p.is_some() {
            return p;
        }
    }
    let r = leading_port_of(v, a, b);
    assert(r == leading_port(s));
    if c >= b {
        assert(last_colon(s) == -1);
    } else {
        assert(leading_port(s.skip(last_colon(s) + 1)) is None);
    }
    assert(address_port(s) == leading_port(s));
    r
}

/// The port of the first uncommented `Listen` directive of a configuration
/// text: `Listen 80`, `Listen 0.0.0.0:80` and `Listen [::]:80` all give 80.
pub fn parse_listen_port(content: &str) -> (r: Option<u16>)
    ensures
        r == listen_port_of_lines(lines(content@)),
{
    let v = chars_of(content);
    let hash = chars_of("#");
    let listen = chars_of("Listen");
    proof {
        reveal_strlit("Listen");
    }
    let rs = line_ranges(&v);
    let ghost ls = lines(content@);
    assert(ls.skip(0) =~= ls);
    let mut k: usize = 0;
    while k < rs.len()
        invariant
            k <= rs.len(),
            v@ == content@,
            hash@ == "#"@,
            listen@ == "Listen"@,
            listen@.len() == 6,
            ranges_within(rs@, v@.len()),
            ranges_view(v@, rs@) == ls,
            ls == lines(content@),
            listen_port_of_lines(ls) == listen_port_of_lines(ls.skip(k as int)),
        decreases rs.len() - k,
    {
        let (x, y) = rs[k];
        assert(rs@[k as int].0 <= rs@[k as int].1 <= v@.len());
        let ghost l = ls[k as int];
        assert(l == v@.subrange(x as int, y as int));
        let (ta, tb) = trim_range(&v, x, y);
        let mut found: Option<u16> = None;
        if ta < tb && !range_starts_with(&v, ta, tb, &hash) && range_starts_with(&v, ta, tb, &listen) {
            let (va, vb) = trim_range(&v, ta + 6, tb);
            assert(v@.subrange(ta as int, tb as int).skip(6) =~= v@.subrange(ta + 6, tb as int));
            if va < vb {
                found = address_port_of(&v, va, vb);
            }
        }
        assert(found == listen_port_of_line(l));
        assert(ls.skip(k as int)[0] == l);
        assert(ls.skip(k as int).drop_first() =~= ls.skip(k + 1));
        if found.is_some() {
            return found;
        }
        k = k + 1;
    }
    assert(ls.skip(k as int) =~= Seq::<Seq<char>>::empty());
    None
}

/// The port of a `<VirtualHost addr:port>` line: the leading digits after
/// the last colon; 80 when there is no colon or no such port.
pub open spec fn vhost_line_port(l: Seq<char>) -> u16 {
    let c = last_colon(l);
    if c >= 0 && leading_port(l.skip(c + 1)) is Some {
        leading_port(l.skip(c + 1))->0
    } else {
        80
    }
}

pub fn extract_port(line: &str) -> (r: u16)
    ensures
        r == vhost_line_port(line@),
{
    let v = chars_of(line);
    let c = find_last_colon(&v, 0, v.len());
    assert(v@.subrange(0, v@.len() as int) =~= v@);
    if c < v.len() {
        let p = leading_port_of(&v, c + 1, v.len());
        assert(v@.skip(c + 1) =~= v@.subrange(c + 1, v@.len() as int));
        assert(last_colon(line@) == c);
        assert(leading_port(line@.skip(c + 1)) == p);
        match p {
            Some(port) => port,
            None => 80,
        }
    } else {
        80
    }
}

} // verus!
