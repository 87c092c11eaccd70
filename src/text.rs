//! Character-level text model shared by the configuration generators:
//! whitespace trimming, line splitting and joining, and substring search.
use vstd::prelude::*;

verus! {

/// The characters that `char::is_whitespace` accepts (Unicode `White_Space`).
pub open spec fn is_ws(c: char) -> bool {
    let u = c as u32;
    (0x09 <= u && u <= 0x0D) || u == 0x20 || u == 0x85 || u == 0xA0 || u == 0x1680 || (0x2000
        <= u && u <= 0x200A) || u == 0x2028 || u == 0x2029 || u == 0x202F || u == 0x205F || u
        == 0x3000
}

pub fn is_ws_char(c: char) -> (r: bool)
    ensures
        r == is_ws(c),
{
    let u = c as u32;
    (0x09 <= u && u <= 0x0D) || u == 0x20 || u == 0x85 || u == 0xA0 || u == 0x1680 || (0x2000
        <= u && u <= 0x200A) || u == 0x2028 || u == 0x2029 || u == 0x202F || u == 0x205F || u
        == 0x3000
}

pub open spec fn is_digit(c: char) -> bool {
    '0' <= c && c <= '9'
}

pub open spec fn trim_start(s: Seq<char>) -> Seq<char>
    decreases s.len(),
{
    if s.len() > 0 && is_ws(s[0]) {
        trim_start(s.drop_first())
    } else {
        s
    }
}

pub open spec fn trim_end(s: Seq<char>) -> Seq<char>
    decreases s.len(),
{
    if s.len() > 0 && is_ws(s.last()) {
        trim_end(s.drop_last())
    } else {
        s
    }
}

/// `str::trim`: leading and trailing whitespace removed.
pub open spec fn trim(s: Seq<char>) -> Seq<char> {
    trim_end(trim_start(s))
}

/// Index of the first `c` at or after `i`, or `s.len()` when there is none.
pub open spec fn next_char(s: Seq<char>, i: int, c: char) -> int
    decreases s.len() - i,
{
    if i < 0 || i >= s.len() {
        s.len() as int
    } else if s[i] == c {
        i
    } else {
        next_char(s, i + 1, c)
    }
}

pub open spec fn next_nl(s: Seq<char>, i: int) -> int {
    next_char(s, i, '\n')
}

/// The line that starts at `i` and whose terminating `'\n'` (if any) is at `e`;
/// a `'\r'` just before that `'\n'` is not part of the line.
pub open spec fn line_at(s: Seq<char>, i: int, e: int) -> Seq<char> {
    if i < e && e < s.len() && s[e - 1] == '\r' {
        s.subrange(i, e - 1)
    } else {
        s.subrange(i, e)
    }
}

/// `str::lines` applied to the text from position `i` on.
pub open spec fn lines_from(s: Seq<char>, i: int) -> Seq<Seq<char>>
    decreases s.len() - i,
{
    if i < 0 || i >= s.len() {
        seq![]
    } else {
        let e = next_nl(s, i);
        if e < i || e >= s.len() {
            seq![line_at(s, i, e)]
        } else {
            seq![line_at(s, i, e)] + lines_from(s, e + 1)
        }
    }
}

/// `str::lines`: the text split at `"\n"` and `"\r\n"`, with no empty line
/// after a final line ending.
pub open spec fn lines(s: Seq<char>) -> Seq<Seq<char>> {
    lines_from(s, 0)
}

/// The lines joined with `'\n'` between them (`[&str]::join("\n")`).
pub open spec fn join_lines(ls: Seq<Seq<char>>) -> Seq<char>
    decreases ls.len(),
{
    if ls.len() == 0 {
        seq![]
    } else if ls.len() == 1 {
        ls[0]
    } else {
        join_lines(ls.drop_last()) + seq!['\n'] + ls.last()
    }
}

/// `t` occurs in `s` at position `i`.
pub open spec fn occurs_at(s: Seq<char>, t: Seq<char>, i: int) -> bool {
    0 <= i && i + t.len() <= s.len() && s.subrange(i, i + t.len()) == t
}

/// `str::contains`.
pub open spec fn contains(s: Seq<char>, t: Seq<char>) -> bool {
    exists|i: int| occurs_at(s, t, i)
}

pub open spec fn starts_with(s: Seq<char>, t: Seq<char>) -> bool {
    t.len() <= s.len() && s.take(t.len() as int) == t
}

/// The pieces of `s` that the index ranges `rs` select.
pub open spec fn ranges_view(s: Seq<char>, rs: Seq<(usize, usize)>) -> Seq<Seq<char>> {
    Seq::new(rs.len(), |k: int| s.subrange(rs[k].0 as int, rs[k].1 as int))
}

/// The index ranges lie within a text of length `n`.
pub open spec fn ranges_within(rs: Seq<(usize, usize)>, n: nat) -> bool {
    forall|k: int| 0 <= k < rs.len() ==> #[trigger] rs[k].0 <= rs[k].1 <= n
}

/// The characters of `s`, in order.
pub fn chars_of(s: &str) -> (r: Vec<char>)
    ensures
        r@ == s@,
{
    let mut v: Vec<char> = Vec::new();
    for c in it: s.chars()
        invariant
            v@ == it.seq().take(it.index() as int),
    {
        v.push(c);
    }
    v
}

pub proof fn lemma_next_char_bounds(s: Seq<char>, i: int, c: char)
    requires
        0 <= i <= s.len(),
    ensures
        i <= next_char(s, i, c) <= s.len(),
        next_char(s, i, c) < s.len() ==> s[next_char(s, i, c)] == c,
        forall|k: int| i <= k < next_char(s, i, c) ==> s[k] != c,
    decreases s.len() - i,
{
    if i < s.len() && s[i] != c {
        lemma_next_char_bounds(s, i + 1, c);
    }
}

/// Position of the first `c` of `v` at or after `i`, or `v.len()`.
pub fn find_char(v: &Vec<char>, i: usize, c: char) -> (e: usize)
    requires
        i <= v.len(),
    ensures
        e as int == next_char(v@, i as int, c),
        i <= e <= v.len(),
{
    let mut e = i;
    while e < v.len() && v[e] != c
        invariant
            i <= e <= v.len(),
            next_char(v@, i as int, c) == next_char(v@, e as int, c),
        decreases v.len() - e,
    {
        e = e + 1;
    }
    e
}

/// The decimal digit for `d`.
pub open spec fn digit_char(d: nat) -> char {
    ((d % 10) + ('0' as nat)) as char
}

/// The decimal notation of `n`, without leading zeros.
pub open spec fn decimal(n: nat) -> Seq<char>
    decreases n,
{
    if n < 10 {
        seq![digit_char(n)]
    } else {
        decimal(n / 10) + seq![digit_char(n % 10)]
    }
}

/// The value of a run of decimal digits.
pub open spec fn digits_value(s: Seq<char>) -> nat
    decreases s.len(),
{
    if s.len() == 0 {
        0
    } else {
        digits_value(s.drop_last()) * 10 + ((s.last() as nat) - ('0' as nat)) as nat
    }
}

pub open spec fn all_digits(s: Seq<char>) -> bool {
    forall|k: int| 0 <= k < s.len() ==> is_digit(#[trigger] s[k])
}

fn digit_str(d: u64) -> (r: &'static str)
    requires
        d < 10,
    ensures
        r@ == seq![digit_char(d as nat)],
{
    proof {
        reveal_strlit("0");
        reveal_strlit("1");
        reveal_strlit("2");
        reveal_strlit("3");
        reveal_strlit("4");
        reveal_strlit("5");
        reveal_strlit("6");
        reveal_strlit("7");
        reveal_strlit("8");
        reveal_strlit("9");
    }
    let r = match d {
        0 => "0",
        1 => "1",
        2 => "2",
        3 => "3",
        4 => "4",
        5 => "5",
        6 => "6",
        7 => "7",
        8 => "8",
        _ => "9",
    };
    assert(r@ =~= seq![digit_char(d as nat)]);
    r
}

/// Appends the decimal notation of `n` to `out`.
pub fn push_decimal(out: &mut String, n: u64)
    ensures
        final(out)@ == old(out)@ + decimal(n as nat),
    decreases n,
{
    if n >= 10 {
        push_decimal(out, n / 10);
        out.append(digit_str(n % 10));
        assert(old(out)@ + decimal((n / 10) as nat) + seq![digit_char((n % 10) as nat)]
            =~= old(out)@ + decimal(n as nat));
    } else {
        out.append(digit_str(n % 10));
    }
}

/// The value of the digit run `v[a..b]`, when it is not empty and at most `max`.
pub fn parse_digits_upto(v: &Vec<char>, a: usize, b: usize, max: u64) -> (r: Option<u64>)
    requires
        a <= b <= v.len(),
        all_digits(v@.subrange(a as int, b as int)),
        max <= 0xFFFF_FFFF,
    ensures
        r == (if a < b && digits_value(v@.subrange(a as int, b as int)) <= max {
            Some(digits_value(v@.subrange(a as int, b as int)) as u64)
        } else {
            None::<u64>
        }),
{
    if a == b {
        return None;
    }
    let mut acc: u64 = 0;
    let mut k = a;
    while k < b
        invariant
            a <= k <= b <= v.len(),
            max <= 0xFFFF_FFFF,
            all_digits(v@.subrange(a as int, b as int)),
            acc as nat == digits_value(v@.subrange(a as int, k as int)),
            acc <= max,
        decreases b - k,
    {
        assert(v@.subrange(a as int, k + 1).drop_last() =~= v@.subrange(a as int, k as int));
        assert(is_digit(v@.subrange(a as int, b as int)[k - a]));
        let d = (v[k] as u32 - '0' as u32) as u64;
        let next = acc * 10 + d;
        proof {
            lemma_digits_value_grows(v@.subrange(a as int, b as int), (k + 1 - a) as int);
            assert(v@.subrange(a as int, b as int).take((k + 1 - a) as int) =~= v@.subrange(
                a as int,
                k + 1,
            ));
        }
        if next > max {
            return None;
        }
        acc = next;
        k = k + 1;
    }
    Some(acc)
}

/// The value of the digit run `v[a..b]`, when it is not empty and fits in a `u16`.
pub fn parse_u16_digits(v: &Vec<char>, a: usize, b: usize) -> (r: Option<u16>)
    requires
        a <= b <= v.len(),
        all_digits(v@.subrange(a as int, b as int)),
    ensures
        r == (if a < b && digits_value(v@.subrange(a as int, b as int)) <= 65535 {
            Some(digits_value(v@.subrange(a as int, b as int)) as u16)
        } else {
            None::<u16>
        }),
{
    match parse_digits_upto(v, a, b, 65535) {
        Some(n) => Some(n as u16),
        None => None,
    }
}

/// Whether `v[a..b]` is made of decimal digits only.
pub fn range_all_digits(v: &Vec<char>, a: usize, b: usize) -> (r: bool)
    requires
        a <= b <= v.len(),
    ensures
        r == all_digits(v@.subrange(a as int, b as int)),
{
    let ghost s = v@.subrange(a as int, b as int);
    let mut k = a;
    while k < b
        invariant
            a <= k <= b <= v.len(),
            s == v@.subrange(a as int, b as int),
            forall|m: int| 0 <= m < k - a ==> is_digit(#[trigger] s[m]),
        decreases b - k,
    {
        if !('0' <= v[k] && v[k] <= '9') {
            assert(s[k - a] == v@[k as int]);
            return false;
        }
        k = k + 1;
    }
    true
}

/// Adding digits never lowers the value of a digit run.
pub proof fn lemma_digits_value_grows(s: Seq<char>, k: int)
    requires
        0 <= k <= s.len(),
        all_digits(s),
    ensures
        digits_value(s.take(k)) <= digits_value(s),
    decreases s.len() - k,
{
    if k < s.len() {
        lemma_digits_value_grows(s, k + 1);
        let t = s.take(k + 1);
        assert(t.drop_last() =~= s.take(k));
        assert(is_digit(s[k]));
        assert(digits_value(t) == digits_value(s.take(k)) * 10 + ((t.last() as nat) - ('0' as nat)) as nat);
    } else {
        assert(s.take(k) =~= s);
    }
}

/// Whether `a` and `b` hold the same text.
pub fn str_eq(a: &str, b: &str) -> (r: bool)
    ensures
        r == (a@ == b@),
{
    let av = chars_of(a);
    let bv = chars_of(b);
    let r = range_eq(&av, 0, av.len(), &bv);
    assert(av@.subrange(0, av@.len() as int) =~= av@);
    r
}

/// The bounds of `v[a..b]` with leading and trailing whitespace removed.
pub fn trim_range(v: &Vec<char>, a: usize, b: usize) -> (r: (usize, usize))
    requires
        a <= b <= v.len(),
    ensures
        a <= r.0 <= r.1 <= b,
        v@.subrange(r.0 as int, r.1 as int) == trim(v@.subrange(a as int, b as int)),
{
    let mut i = a;
    while i < b && is_ws_char(v[i])
        invariant
            a <= i <= b <= v.len(),
            trim_start(v@.subrange(a as int, b as int)) == trim_start(
                v@.subrange(i as int, b as int),
            ),
        decreases b - i,
    {
        assert(v@.subrange(i as int, b as int).drop_first() =~= v@.subrange(
            i + 1,
            b as int,
        ));
        i = i + 1;
    }
    let mut j = b;
    while j > i && is_ws_char(v[j - 1])
        invariant
            a <= i <= j <= b <= v.len(),
            trim(v@.subrange(a as int, b as int)) == trim_end(v@.subrange(i as int, j as int)),
        decreases j - i,
    {
        assert(v@.subrange(i as int, j as int).drop_last() =~= v@.subrange(
            i as int,
            j - 1,
        ));
        j = j - 1;
    }
    (i, j)
}

/// Whether `v[a..b]` equals `t`.
pub fn range_eq(v: &Vec<char>, a: usize, b: usize, t: &Vec<char>) -> (r: bool)
    requires
        a <= b <= v.len(),
    ensures
        r == (v@.subrange(a as int, b as int) == t@),
{
    if b - a != t.len() {
        assert(v@.subrange(a as int, b as int).len() != t@.len());
        return false;
    }
    let mut k: usize = 0;
    while k < t.len()
        invariant
            b - a == t.len(),
            a <= b <= v.len(),
            0 <= k <= t.len(),
            forall|m: int| 0 <= m < k ==> v@[a + m] == t@[m],
        decreases t.len() - k,
    {
        if v[a + k] != t[k] {
            assert(v@.subrange(a as int, b as int)[k as int] != t@[k as int]);
            return false;
        }
        k = k + 1;
    }
    assert(v@.subrange(a as int, b as int) =~= t@);
    true
}

/// Whether `t` occurs in `v[a..b]`.
pub fn range_contains(v: &Vec<char>, a: usize, b: usize, t: &Vec<char>) -> (r: bool)
    requires
        a <= b <= v.len(),
    ensures
        r == contains(v@.subrange(a as int, b as int), t@),
{
    let ghost s = v@.subrange(a as int, b as int);
    if t.len() > b - a {
        assert forall|i: int| !occurs_at(s, t@, i) by {}
        return false;
    }
    if t.len() == 0 {
        assert(s.subrange(0, 0) =~= t@);
        assert(occurs_at(s, t@, 0));
        return true;
    }
    let mut i = a;
    while i <= b - t.len()
        invariant
            a <= i <= b <= v.len(),
            1 <= t.len() <= b - a,
            s == v@.subrange(a as int, b as int),
            forall|k: int| 0 <= k < i - a ==> !occurs_at(s, t@, k),
        decreases b - i,
    {
        if range_eq(v, i, i + t.len(), t) {
            assert(s.subrange(i - a, i - a + t.len()) =~= v@.subrange(
                i as int,
                i + t.len(),
            ));
            assert(occurs_at(s, t@, i - a));
            return true;
        }
        assert(s.subrange(i - a, i - a + t.len()) =~= v@.subrange(i as int, i + t.len()));
        i = i + 1;
    }
    assert forall|k: int| !occurs_at(s, t@, k) by {
        if 0 <= k < i - a {
        } else if k >= i - a {
            assert(!(k + t@.len() <= s.len()));
        }
    }
    false
}

/// Whether `v[a..b]` starts with `t`.
pub fn range_starts_with(v: &Vec<char>, a: usize, b: usize, t: &Vec<char>) -> (r: bool)
    requires
        a <= b <= v.len(),
    ensures
        r == starts_with(v@.subrange(a as int, b as int), t@),
{
    if t.len() > b - a {
        return false;
    }
    let r = range_eq(v, a, a + t.len(), t);
    assert(v@.subrange(a as int, b as int).take(t@.len() as int) =~= v@.subrange(
        a as int,
        a + t.len(),
    ));
    r
}


/// The index ranges of the lines of `v` (see `lines`).
pub fn line_ranges(v: &Vec<char>) -> (r: Vec<(usize, usize)>)
    ensures
        ranges_within(r@, v@.len()),
        ranges_view(v@, r@) == lines(v@),
{
    let ghost s = v@;
    let mut r: Vec<(usize, usize)> = Vec::new();
    let mut i: usize = 0;
    while i < v.len()
        invariant
            i <= v.len(),
            s == v@,
            ranges_within(r@, v@.len()),
            lines(s) == ranges_view(s, r@) + lines_from(s, i as int),
        decreases v.len() - i,
    {
        let e = find_char(v, i, '\n');
        proof {
            lemma_next_char_bounds(s, i as int, '\n');
        }
        let le = if e > i && e < v.len() && v[e - 1] == '\r' {
            e - 1
        } else {
            e
        };
        let ghost line = line_at(s, i as int, e as int);
        assert(s.subrange(i as int, le as int) == line);
        let ghost rest = if e >= v.len() {
            Seq::<Seq<char>>::empty()
        } else {
            lines_from(s, e + 1)
        };
        assert(lines_from(s, i as int) == seq![line] + rest);
        let ghost before = ranges_view(s, r@);
        r.push((i, le));
        assert(ranges_view(s, r@) =~= before.push(line));
        assert(before + (seq![line] + rest) =~= before.push(line) + rest);
        i = if e < v.len() {
            e + 1
        } else {
            v.len()
        };
        assert(lines_from(s, i as int) == rest);
    }
    assert(ranges_view(s, r@) + Seq::<Seq<char>>::empty() =~= ranges_view(s, r@));
    r
}


/// A line that ends with a carriage return.
pub open spec fn ends_with_cr(l: Seq<char>) -> bool {
    l.len() > 0 && l.last() == '\r'
}

/// A piece of text that can stand as one line: no line feed, and no
/// carriage return at its end.
pub open spec fn is_plain_line(l: Seq<char>) -> bool {
    !l.contains('\n') && !ends_with_cr(l)
}

pub proof fn lemma_next_char_shift(p: Seq<char>, r: Seq<char>, i: int, c: char)
    requires
        0 <= i <= r.len(),
    ensures
        next_char(p + r, p.len() + i, c) == p.len() + next_char(r, i, c),
    decreases r.len() - i,
{
    if i < r.len() {
        assert((p + r)[p.len() + i] == r[i]);
        if r[i] != c {
            lemma_next_char_shift(p, r, i + 1, c);
        }
    }
}

pub proof fn lemma_lines_from_shift(p: Seq<char>, r: Seq<char>, i: int)
    requires
        0 <= i <= r.len(),
    ensures
        lines_from(p + r, p.len() + i) == lines_from(r, i),
    decreases r.len() - i,
{
    let s = p + r;
    if i < r.len() {
        lemma_next_char_shift(p, r, i, '\n');
        lemma_next_char_bounds(r, i, '\n');
        let e = next_nl(r, i);
        let pe = p.len() + e;
        assert(next_nl(s, p.len() + i) == pe);
        if i < e && e < r.len() {
            assert(s[pe - 1] == r[e - 1]);
        }
        assert(line_at(s, p.len() + i, pe) =~= line_at(r, i, e));
        if e < r.len() {
            lemma_lines_from_shift(p, r, e + 1);
        }
    }
}

/// A line followed by a line feed splits off as the first line.
pub proof fn lemma_lines_cons(l: Seq<char>, r: Seq<char>)
    requires
        is_plain_line(l),
    ensures
        lines(l + seq!['\n'] + r) == seq![l] + lines(r),
{
    let p = l + seq!['\n'];
    let s = p + r;
    assert forall|k: int| 0 <= k < l.len() implies s[k] != '\n' by {
        assert(s[k] == l[k]);
        if s[k] == '\n' {
            assert(l.contains('\n'));
        }
    }
    lemma_next_char_to(s, 0, l.len() as int, '\n');
    assert(s[l.len() as int] == '\n');
    assert(next_nl(s, 0) == l.len());
    if 0 < l.len() {
        assert(s[l.len() - 1] == l.last());
    }
    assert(line_at(s, 0, l.len() as int) =~= l);
    lemma_lines_from_shift(p, r, 0);
    assert(lines_from(s, l.len() + 1 as int) == lines(r));
}

/// `next_char` stops at the first `c`.
pub proof fn lemma_next_char_to(s: Seq<char>, i: int, j: int, c: char)
    requires
        0 <= i <= j < s.len(),
        s[j] == c,
        forall|k: int| i <= k < j ==> s[k] != c,
    ensures
        next_char(s, i, c) == j,
    decreases j - i,
{
    if i < j {
        lemma_next_char_to(s, i + 1, j, c);
    }
}

/// Joined lines followed by a line feed split back into those lines.
pub proof fn lemma_lines_join(ks: Seq<Seq<char>>, r: Seq<char>)
    requires
        ks.len() > 0,
        forall|k: int| 0 <= k < ks.len() ==> is_plain_line(#[trigger] ks[k]),
    ensures
        lines(join_lines(ks) + seq!['\n'] + r) == ks + lines(r),
    decreases ks.len(),
{
    if ks.len() == 1 {
        assert(join_lines(ks) == ks[0]);
        lemma_lines_cons(ks[0], r);
        assert(ks =~= seq![ks[0]]);
    } else {
        let init = ks.drop_last();
        let last = ks.last();
        assert(is_plain_line(ks[ks.len() - 1]));
        let r2 = last + seq!['\n'] + r;
        assert(join_lines(ks) + seq!['\n'] + r =~= join_lines(init) + seq!['\n'] + r2);
        assert forall|k: int| 0 <= k < init.len() implies is_plain_line(#[trigger] init[k]) by {
            assert(init[k] == ks[k]);
        }
        lemma_lines_join(init, r2);
        lemma_lines_cons(last, r);
        assert(init + (seq![last] + lines(r)) =~= ks + lines(r));
    }
}

/// No line of a text holds a line feed.
pub proof fn lemma_lines_from_no_newline(s: Seq<char>, i: int)
    requires
        0 <= i,
    ensures
        forall|k: int| 0 <= k < lines_from(s, i).len() ==> !(#[trigger] lines_from(s, i)[k]).contains('\n'),
    decreases s.len() - i,
{
    if i < s.len() {
        lemma_next_char_bounds(s, i, '\n');
        let e = next_nl(s, i);
        let l = line_at(s, i, e);
        assert(!l.contains('\n')) by {
            if l.contains('\n') {
                let m = choose|m: int| 0 <= m < l.len() && l[m] == '\n';
                assert(l[m] == s[i + m]);
            }
        }
        if e < s.len() {
            lemma_lines_from_no_newline(s, e + 1);
            let ls = lines_from(s, i);
            assert forall|k: int| 0 <= k < ls.len() implies !(#[trigger] ls[k]).contains('\n') by {
                if k > 0 {
                    assert(ls[k] == lines_from(s, e + 1)[k - 1]);
                }
            }
        }
    }
}


/// A `c` found within `t` is found at the same place in `t + r`.
pub proof fn lemma_next_char_prefix(t: Seq<char>, r: Seq<char>, i: int, c: char)
    requires
        0 <= i <= t.len(),
        next_char(t, i, c) < t.len(),
    ensures
        next_char(t + r, i, c) == next_char(t, i, c),
    decreases t.len() - i,
{
    if i < t.len() {
        assert((t + r)[i] == t[i]);
        if t[i] != c {
            lemma_next_char_prefix(t, r, i + 1, c);
        }
    }
}

/// The lines of a text that is empty or ends with a line feed, followed by
/// more text, are its lines followed by those of the rest.
pub proof fn lemma_lines_append(t: Seq<char>, r: Seq<char>)
    requires
        t.len() == 0 || t.last() == '\n',
    ensures
        lines(t + r) == lines(t) + lines(r),
{
    lemma_lines_from_append(t, r, 0);
}

proof fn lemma_lines_from_append(t: Seq<char>, r: Seq<char>, i: int)
    requires
        t.len() == 0 || t.last() == '\n',
        0 <= i <= t.len(),
    ensures
        lines_from(t + r, i) == lines_from(t, i) + lines(r),
    decreases t.len() - i,
{
    let s = t + r;
    if i == t.len() {
        lemma_lines_from_shift(t, r, 0);
        assert(lines_from(t, i) =~= Seq::<Seq<char>>::empty());
        assert(lines_from(t, i) + lines(r) =~= lines(r));
    } else {
        lemma_next_char_bounds(t, i, '\n');
        assert(t[t.len() - 1] == '\n');
        if next_char(t, i, '\n') == t.len() {
            assert(t[t.len() - 1] != '\n');
        }
        let e = next_nl(t, i);
        lemma_next_char_prefix(t, r, i, '\n');
        assert(next_nl(s, i) == e);
        if i < e {
            assert(s[e - 1] == t[e - 1]);
        }
        assert(line_at(s, i, e) =~= line_at(t, i, e));
        lemma_lines_from_append(t, r, e + 1);
        if e + 1 < t.len() {
            assert(lines_from(s, i) == seq![line_at(t, i, e)] + lines_from(s, e + 1));
        } else {
            assert(lines_from(t, e + 1) =~= Seq::<Seq<char>>::empty());
        }
        assert(seq![line_at(t, i, e)] + (lines_from(t, e + 1) + lines(r)) =~= (seq![
            line_at(t, i, e),
        ] + lines_from(t, e + 1)) + lines(r));
    }
}

} // verus!
