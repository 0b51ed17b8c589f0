//! Line-oriented `key<sep>value` text: whitespace trimming, line scanning and
//! lookup of the first line carrying a given key.
use vstd::prelude::*;

verus! {

/// The characters that Unicode classifies as White_Space.
pub open spec fn is_space(c: char) -> bool {
    ('\u{9}' <= c && c <= '\u{d}') || c == ' ' || c == '\u{85}' || c == '\u{a0}'
        || c == '\u{1680}' || ('\u{2000}' <= c && c <= '\u{200a}') || c == '\u{2028}'
        || c == '\u{2029}' || c == '\u{202f}' || c == '\u{205f}' || c == '\u{3000}'
}

/// `s` without its leading whitespace.
pub open spec fn trim_start(s: Seq<char>) -> Seq<char>
    decreases s.len(),
{
    if s.len() > 0 && is_space(s[0]) {
        trim_start(s.drop_first())
    } else {
        s
    }
}

/// `s` without its trailing whitespace.
pub open spec fn trim_end(s: Seq<char>) -> Seq<char>
    decreases s.len(),
{
    if s.len() > 0 && is_space(s.last()) {
        trim_end(s.drop_last())
    } else {
        s
    }
}

/// `s` without leading and trailing whitespace.
pub open spec fn trimmed(s: Seq<char>) -> Seq<char> {
    trim_end(trim_start(s))
}

/// Index of the first `c` in `s`, or the length of `s` when there is none.
pub open spec fn first_index(s: Seq<char>, c: char) -> int
    decreases s.len(),
{
    if s.len() == 0 {
        0
    } else if s[0] == c {
        0
    } else {
        1 + first_index(s.drop_first(), c)
    }
}

/// The line that starts at index `i` of `s`, without its newline.
pub open spec fn line_at(s: Seq<char>, i: int) -> Seq<char> {
    let rest = s.subrange(i, s.len() as int);
    rest.subrange(0, first_index(rest, '\n'))
}

/// The value of `line` when the text left of its first `sep` trims to `key`:
/// the text right of that `sep`, trimmed.
pub open spec fn line_value(line: Seq<char>, key: Seq<char>, sep: char) -> Option<Seq<char>> {
    let p = first_index(line, sep);
    if p < line.len() && trimmed(line.subrange(0, p)) == key {
        Some(trimmed(line.subrange(p + 1, line.len() as int)))
    } else {
        None
    }
}

/// The value of the first line at or after the line that starts at `i` whose
/// key is `key`.
pub open spec fn value_from(s: Seq<char>, i: int, key: Seq<char>, sep: char) -> Option<Seq<char>>
    decreases s.len() - i,
{
    if i < 0 || i >= s.len() {
        None
    } else {
        match line_value(line_at(s, i), key, sep) {
            Some(v) => Some(v),
            None => {
                let next = i + line_at(s, i).len() + 1;
                if next > s.len() {
                    None
                } else {
                    value_from(s, next, key, sep)
                }
            },
        }
    }
}

/// The value of the first line of `s` whose key is `key`, if any.
pub open spec fn keyed_value(s: Seq<char>, key: Seq<char>, sep: char) -> Option<Seq<char>> {
    value_from(s, 0, key, sep)
}

proof fn lemma_first_index(s: Seq<char>, c: char, j: int)
    requires
        0 <= j <= s.len(),
        forall|k: int| 0 <= k < j ==> s[k] != c,
        j == s.len() || s[j] == c,
    ensures
        first_index(s, c) == j,
    decreases s.len(),
{
    if s.len() > 0 && s[0] != c {
        lemma_first_index(s.drop_first(), c, j - 1);
    }
}

proof fn lemma_trim_start(s: Seq<char>, a: int)
    requires
        0 <= a <= s.len(),
        forall|k: int| 0 <= k < a ==> is_space(#[trigger] s[k]),
        a == s.len() || !is_space(s[a]),
    ensures
        trim_start(s) == s.subrange(a, s.len() as int),
    decreases s.len(),
{
    if a > 0 {
        lemma_trim_start(s.drop_first(), a - 1);
        assert(s.drop_first().subrange(a - 1, s.len() - 1) =~= s.subrange(a, s.len() as int));
    } else {
        assert(s.subrange(0, s.len() as int) =~= s);
    }
}

proof fn lemma_trim_end(s: Seq<char>, b: int)
    requires
        0 <= b <= s.len(),
        forall|k: int| b <= k < s.len() ==> is_space(#[trigger] s[k]),
        b == 0 || !is_space(s[b - 1]),
    ensures
        trim_end(s) == s.subrange(0, b),
    decreases s.len(),
{
    if b < s.len() {
        lemma_trim_end(s.drop_last(), b);
        assert(s.drop_last().subrange(0, b) =~= s.subrange(0, b));
    } else {
        assert(s.subrange(0, s.len() as int) =~= s);
    }
}

/// Whether `c` is whitespace.
pub fn is_space_char(c: char) -> (r: bool)
    ensures
        r == is_space(c),
{
    ('\u{9}' <= c && c <= '\u{d}') || c == ' ' || c == '\u{85}' || c == '\u{a0}'
        || c == '\u{1680}' || ('\u{2000}' <= c && c <= '\u{200a}') || c == '\u{2028}'
        || c == '\u{2029}' || c == '\u{202f}' || c == '\u{205f}' || c == '\u{3000}'
}

/// The characters of `s`, in order.
pub fn chars_of(s: &str) -> (r: Vec<char>)
    ensures
        r@ == s@,
{
    let mut r: Vec<char> = Vec::new();
    for c in it: s.chars()
        invariant
            it.seq() == s@,
            r@ == it.seq().subrange(0, it.index() as int),
    {
        r.push(c);
    }
    r
}

/// The first index at or after `from` and before `to` that holds `c`, or
/// `to` when there is none.
pub(crate) fn scan_to(cs: &Vec<char>, from: usize, to: usize, c: char) -> (r: usize)
    requires
        from <= to <= cs.len(),
    ensures
        from <= r <= to,
        forall|k: int| from <= k < r ==> cs@[k] != c,
        r == to || cs@[r as int] == c,
{
    let mut j = from;
    while j < to && cs[j] != c
        invariant
            from <= j <= to <= cs.len(),
            forall|k: int| from <= k < j ==> cs@[k] != c,
        decreases to - j,
    {
        j = j + 1;
    }
    j
}

/// The bounds of `cs[from..to]` once leading and trailing whitespace is taken off.
fn trim_range(cs: &Vec<char>, from: usize, to: usize) -> (r: (usize, usize))
    requires
        from <= to <= cs.len(),
    ensures
        from <= r.0 <= r.1 <= to,
        cs@.subrange(r.0 as int, r.1 as int) == trimmed(cs@.subrange(from as int, to as int)),
{
    let mut a = from;
    while a < to && is_space_char(cs[a])
        invariant
            from <= a <= to <= cs.len(),
            forall|k: int| from <= k < a ==> is_space(#[trigger] cs@[k]),
        decreases to - a,
    {
        a = a + 1;
    }
    let mut b = to;
    while b > a && is_space_char(cs[b - 1])
        invariant
            from <= a <= b <= to <= cs.len(),
            forall|k: int| b <= k < to ==> is_space(#[trigger] cs@[k]),
        decreases b - a,
    {
        b = b - 1;
    }
    proof {
        let t = cs@.subrange(from as int, to as int);
        assert forall|k: int| 0 <= k < a - from implies is_space(#[trigger] t[k]) by {
            assert(t[k] == cs@[from + k]);
        }
        lemma_trim_start(t, a - from);
        let u = cs@.subrange(a as int, to as int);
        assert(t.subrange(a - from, t.len() as int) =~= u);
        assert forall|k: int| b - a <= k < u.len() implies is_space(#[trigger] u[k]) by {
            assert(u[k] == cs@[a + k]);
        }
        lemma_trim_end(u, b - a);
        assert(u.subrange(0, b - a) =~= cs@.subrange(a as int, b as int));
    }
    (a, b)
}

/// Whether `cs[from..to]` holds exactly the characters of `t`.
pub(crate) fn range_equals(cs: &Vec<char>, from: usize, to: usize, t: &Vec<char>) -> (r: bool)
    requires
        from <= to <= cs.len(),
    ensures
        r == (cs@.subrange(from as int, to as int) == t@),
{
    if to - from != t.len() {
        return false;
    }
    let mut k: usize = 0;
    while k < t.len()
        invariant
            from <= to <= cs.len(),
            to - from == t.len(),
            k <= t.len(),
            forall|m: int| 0 <= m < k ==> cs@[from + m] == t@[m],
        decreases t.len() - k,
    {
        if cs[from + k] != t[k] {
            assert(cs@.subrange(from as int, to as int)[k as int] != t@[k as int]);
            return false;
        }
        k = k + 1;
    }
    assert(cs@.subrange(from as int, to as int) =~= t@);
    true
}

/// The index of the first `c` in `cs`, or its length when there is none.
pub(crate) fn index_of(cs: &Vec<char>, c: char) -> (r: usize)
    ensures
        r == first_index(cs@, c),
        r <= cs.len(),
{
    let r = scan_to(cs, 0, cs.len(), c);
    proof {
        lemma_first_index(cs@, c, r as int);
    }
    r
}

/// The characters `cs[from..to]`.
pub(crate) fn sub_chars(cs: &Vec<char>, from: usize, to: usize) -> (r: Vec<char>)
    requires
        from <= to <= cs.len(),
    ensures
        r@ == cs@.subrange(from as int, to as int),
{
    let mut r: Vec<char> = Vec::new();
    let mut k = from;
    while k < to
        invariant
            from <= k <= to <= cs.len(),
            r@ == cs@.subrange(from as int, k as int),
        decreases to - k,
    {
        r.push(cs[k]);
        k = k + 1;
        assert(r@ =~= cs@.subrange(from as int, k as int));
    }
    r
}

proof fn lemma_value_from_shift(s: Seq<char>, i: int, j: int, key: Seq<char>, sep: char)
    requires
        0 <= i <= s.len(),
        0 <= j,
    ensures
        value_from(s, i + j, key, sep) == value_from(s.subrange(i, s.len() as int), j, key, sep),
    decreases s.len() - (i + j),
{
    let t = s.subrange(i, s.len() as int);
    if i + j < s.len() {
        assert(s.subrange(i + j, s.len() as int) =~= t.subrange(j, t.len() as int));
        assert(line_at(s, i + j) == line_at(t, j));
        let next = j + line_at(t, j).len() + 1;
        if i + next <= s.len() {
            lemma_value_from_shift(s, i, next, key, sep);
        }
    }
}

/// A line that carries `key` answers the lookup, whatever follows it.
pub proof fn law_first_keyed_line_wins(line: Seq<char>, rest: Seq<char>, key: Seq<char>, sep: char)
    requires
        !line.contains('\n'),
        line_value(line, key, sep) is Some,
    ensures
        keyed_value(line + seq!['\n'] + rest, key, sep) == line_value(line, key, sep),
{
    let s = line + seq!['\n'] + rest;
    assert(s.subrange(0, s.len() as int) =~= s);
    assert forall|k: int| 0 <= k < line.len() implies s[k] != '\n' by {
        assert(s[k] == line[k]);
    }
    lemma_first_index(s, '\n', line.len() as int);
    assert(line_at(s, 0) =~= line);
}

/// A line that does not carry `key` is passed over: the lookup goes on with
/// the lines after it.
pub proof fn law_other_line_skipped(line: Seq<char>, rest: Seq<char>, key: Seq<char>, sep: char)
    requires
        !line.contains('\n'),
        line_value(line, key, sep) is None,
    ensures
        keyed_value(line + seq!['\n'] + rest, key, sep) == keyed_value(rest, key, sep),
{
    let s = line + seq!['\n'] + rest;
    assert(s.subrange(0, s.len() as int) =~= s);
    assert forall|k: int| 0 <= k < line.len() implies s[k] != '\n' by {
        assert(s[k] == line[k]);
    }
    lemma_first_index(s, '\n', line.len() as int);
    assert(line_at(s, 0) =~= line);
    lemma_value_from_shift(s, line.len() + 1 as int, 0, key, sep);
    assert(s.subrange(line.len() + 1 as int, s.len() as int) =~= rest);
}

/// The value of the first line of `data` whose key, the text left of the
/// line's first `sep` with whitespace trimmed, is `key`: the text right of
/// that `sep`, trimmed. Lines end at `\n`.
pub fn find_value(data: &str, key: &str, sep: char) -> (r: Option<String>)
    ensures
        match r {
            Some(v) => keyed_value(data@, key@, sep) == Some(v@),
            None => keyed_value(data@, key@, sep) is None,
        },
{
    let cs = chars_of(data);
    let kc = chars_of(key);
    let n = cs.len();
    let mut i: usize = 0;
    while i < n
        invariant
            cs@ == data@,
            kc@ == key@,
            n == cs.len(),
            i <= n,
            keyed_value(data@, key@, sep) == value_from(data@, i as int, key@, sep),
        decreases n - i,
    {
        let e = scan_to(&cs, i, n, '\n');
        let p = scan_to(&cs, i, e, sep);
        let ghost s = data@;
        let ghost line = line_at(s, i as int);
        proof {
            let rest = s.subrange(i as int, s.len() as int);
            lemma_first_index(rest, '\n', e - i);
            assert(line =~= s.subrange(i as int, e as int));
            lemma_first_index(line, sep, p - i);
            assert(line.subrange(0, p - i) =~= s.subrange(i as int, p as int));
        }
        if p < e {
            let (ka, kb) = trim_range(&cs, i, p);
            if range_equals(&cs, ka, kb, &kc) {
                let (va, vb) = trim_range(&cs, p + 1, e);
                proof {
                    assert(line.subrange(p - i + 1, line.len() as int) =~= s.subrange(p + 1, e as int));
                }
                let v = data.substring_char(va, vb).to_owned();
                return Some(v);
            }
        }
        if e >= n {
            return None;
        }
        i = e + 1;
    }
    None
}

} // verus!
