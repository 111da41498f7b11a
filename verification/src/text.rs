//! Character-level string helpers shared by the whole library.
use vstd::prelude::*;

verus! {

broadcast use vstd::string::group_string_axioms;

/// Appends one character to a string: std's `String::push`, which the
/// documentation describes as appending the given char to the end.
#[verifier::external_body]
pub(crate) fn push_char(s: &mut String, c: char)
    ensures
        final(s)@ == old(s)@.push(c),
{
    s.push(c)
}

/// The length of `s` in bytes: std's `str::len`, whose result, a `usize`,
/// is the length of the string's UTF-8 encoding.
#[verifier::external_body]
pub(crate) fn utf8_len(s: &str) -> (r: usize)
    ensures
        r as nat == vstd::utf8::encode_utf8(s@).len(),
{
    s.len()
}

/// The characters of `s`, in order.
pub fn chars_of(s: &str) -> (r: Vec<char>)
    ensures
        r@ == s@,
{
    let mut r: Vec<char> = Vec::new();
    for c in it: s.chars()
        invariant
            r@ == it.seq().take(it.index()),
    {
        r.push(c);
    }
    r
}

/// The string made of the characters of `cs`, in order.
pub fn string_of(cs: &[char]) -> (r: String)
    ensures
        r@ == cs@,
{
    let mut r = String::new();
    let mut i: usize = 0;
    while i < cs.len()
        invariant
            i <= cs@.len(),
            r@ == cs@.take(i as int),
        decreases cs@.len() - i,
    {
        push_char(&mut r, cs[i]);
        i = i + 1;
        assert(r@ =~= cs@.take(i as int));
    }
    assert(cs@.take(cs@.len() as int) =~= cs@);
    r
}

/// The string made of the characters of `cs` from `start` up to `end`.
pub fn string_of_sub(cs: &[char], start: usize, end: usize) -> (r: String)
    requires
        start <= end <= cs@.len(),
    ensures
        r@ == cs@.subrange(start as int, end as int),
{
    let mut r = String::new();
    let mut i: usize = start;
    while i < end
        invariant
            start <= i <= end,
            end <= cs@.len(),
            r@ == cs@.subrange(start as int, i as int),
        decreases end - i,
    {
        push_char(&mut r, cs[i]);
        i = i + 1;
        assert(r@ =~= cs@.subrange(start as int, i as int));
    }
    r
}

/// Whether `c` is white space in the sense of `char::is_whitespace`: the
/// characters with the Unicode `White_Space` property.
pub open spec fn is_ws(c: char) -> bool {
    let u = c as u32;
    ||| 0x9 <= u <= 0xD
    ||| u == 0x20
    ||| u == 0x85
    ||| u == 0xA0
    ||| u == 0x1680
    ||| 0x2000 <= u <= 0x200A
    ||| u == 0x2028
    ||| u == 0x2029
    ||| u == 0x202F
    ||| u == 0x205F
    ||| u == 0x3000
}

/// Whether `c` is white space (`char::is_whitespace`).
pub fn is_whitespace(c: char) -> (r: bool)
    ensures
        r == is_ws(c),
{
    let u = c as u32;
    (0x9 <= u && u <= 0xD) || u == 0x20 || u == 0x85 || u == 0xA0 || u == 0x1680 || (0x2000 <= u
        && u <= 0x200A) || u == 0x2028 || u == 0x2029 || u == 0x202F || u == 0x205F || u == 0x3000
}

/// `s` without its leading white space.
pub open spec fn trim_start(s: Seq<char>) -> Seq<char>
    decreases s.len(),
{
    if s.len() > 0 && is_ws(s[0]) {
        trim_start(s.drop_first())
    } else {
        s
    }
}

/// `s` without its trailing white space.
pub open spec fn trim_end(s: Seq<char>) -> Seq<char>
    decreases s.len(),
{
    if s.len() > 0 && is_ws(s.last()) {
        trim_end(s.drop_last())
    } else {
        s
    }
}

/// `s` without leading and trailing white space (`str::trim`).
pub open spec fn trimmed(s: Seq<char>) -> Seq<char> {
    trim_end(trim_start(s))
}

/// `trim_start` removes a prefix: the first `n` characters, all white space.
proof fn lemma_trim_start(s: Seq<char>)
    ensures
        exists|n: int|
            0 <= n <= s.len() && trim_start(s) == s.skip(n) && (forall|i: int| 0 <= i < n ==> is_ws(
                #[trigger] s[i],
            )) && (n < s.len() ==> !is_ws(s[n])),
    decreases s.len(),
{
    if s.len() > 0 && is_ws(s[0]) {
        lemma_trim_start(s.drop_first());
        let n = choose|n: int|
            0 <= n <= s.drop_first().len() && trim_start(s.drop_first()) == s.drop_first().skip(n)
                && (forall|i: int| 0 <= i < n ==> is_ws(#[trigger] s.drop_first()[i])) && (n
                < s.drop_first().len() ==> !is_ws(s.drop_first()[n]));
        assert(s.drop_first().skip(n) =~= s.skip(n + 1));
        assert forall|i: int| 0 <= i < n + 1 implies is_ws(#[trigger] s[i]) by {
            if i > 0 {
                assert(s[i] == s.drop_first()[i - 1]);
            }
        }
        assert(n + 1 < s.len() ==> s[n + 1] == s.drop_first()[n]);
    } else {
        assert(s.skip(0) =~= s);
    }
}

/// `trim_end` removes a suffix: the last characters from `n` on, all white
/// space.
proof fn lemma_trim_end(s: Seq<char>)
    ensures
        exists|n: int|
            0 <= n <= s.len() && trim_end(s) == s.take(n) && (forall|i: int| n <= i < s.len() ==> is_ws(
                #[trigger] s[i],
            )) && (n > 0 ==> !is_ws(s[n - 1])),
    decreases s.len(),
{
    if s.len() > 0 && is_ws(s.last()) {
        lemma_trim_end(s.drop_last());
        let n = choose|n: int|
            0 <= n <= s.drop_last().len() && trim_end(s.drop_last()) == s.drop_last().take(n)
                && (forall|i: int| n <= i < s.drop_last().len() ==> is_ws(#[trigger] s.drop_last()[i]))
                && (n > 0 ==> !is_ws(s.drop_last()[n - 1]));
        assert(s.drop_last().take(n) =~= s.take(n));
        assert forall|i: int| n <= i < s.len() implies is_ws(#[trigger] s[i]) by {
            if i < s.len() - 1 {
                assert(s[i] == s.drop_last()[i]);
            }
        }
        assert(n > 0 ==> s[n - 1] == s.drop_last()[n - 1]);
    } else {
        assert(s.take(s.len() as int) =~= s);
    }
}

/// The characters of `s` without leading and trailing white space.
pub fn trim_chars(s: &[char]) -> (r: Vec<char>)
    ensures
        r@ == trimmed(s@),
{
    let mut start: usize = 0;
    while start < s.len() && is_whitespace(s[start])
        invariant
            start <= s@.len(),
            forall|i: int| 0 <= i < start ==> is_ws(#[trigger] s@[i]),
        decreases s@.len() - start,
    {
        start = start + 1;
    }
    let mut end: usize = s.len();
    while end > start && is_whitespace(s[end - 1])
        invariant
            start <= end <= s@.len(),
            forall|i: int| end <= i < s@.len() ==> is_ws(#[trigger] s@[i]),
        decreases end,
    {
        end = end - 1;
    }
    let mut r: Vec<char> = Vec::new();
    let mut i: usize = start;
    while i < end
        invariant
            start <= i <= end,
            end <= s@.len(),
            r@ == s@.subrange(start as int, i as int),
        decreases end - i,
    {
        r.push(s[i]);
        i = i + 1;
        assert(r@ =~= s@.subrange(start as int, i as int));
    }
    proof {
        lemma_trim_start(s@);
        let n = choose|n: int|
            0 <= n <= s@.len() && trim_start(s@) == s@.skip(n) && (forall|i: int| 0 <= i < n ==> is_ws(
                #[trigger] s@[i],
            )) && (n < s@.len() ==> !is_ws(s@[n]));
        assert(n == start) by {
            if n < start {
                assert(is_ws(s@[n]));
            }
            if start < n {
                assert(is_ws(s@[start as int]));
            }
        }
        let t = s@.skip(n);
        lemma_trim_end(t);
        let m = choose|m: int|
            0 <= m <= t.len() && trim_end(t) == t.take(m) && (forall|i: int| m <= i < t.len() ==> is_ws(
                #[trigger] t[i],
            )) && (m > 0 ==> !is_ws(t[m - 1]));
        assert(m + start == end) by {
            if m + start < end {
                assert(t[end - 1 - start] == s@[end - 1]);
                assert(is_ws(t[end - 1 - start]));
            }
            if end < m + start {
                assert(t[m - 1] == s@[m + start - 1]);
                if end > start {
                    assert(!is_ws(s@[end - 1]));
                    assert(is_ws(s@[m + start - 1]));
                } else {
                    assert(is_ws(s@[m + start - 1]));
                }
            }
        }
        assert(r@ =~= t.take(m));
    }
    r
}

/// Whether two character lists are equal.
pub fn chars_eq(a: &[char], b: &[char]) -> (r: bool)
    ensures
        r == (a@ == b@),
{
    if a.len() != b.len() {
        return false;
    }
    let mut i: usize = 0;
    while i < a.len()
        invariant
            i <= a@.len(),
            a@.len() == b@.len(),
            a@.take(i as int) == b@.take(i as int),
        decreases a@.len() - i,
    {
        if a[i] != b[i] {
            assert(a@[i as int] != b@[i as int]);
            return false;
        }
        assert(a@.take(i + 1) =~= a@.take(i as int).push(a@[i as int]));
        assert(b@.take(i + 1) =~= b@.take(i as int).push(b@[i as int]));
        i = i + 1;
    }
    assert(a@.take(a@.len() as int) =~= a@);
    assert(b@.take(b@.len() as int) =~= b@);
    true
}

/// Whether two strings are equal.
pub fn str_eq(a: &str, b: &str) -> (r: bool)
    ensures
        r == (a@ == b@),
{
    let ca = chars_of(a);
    let cb = chars_of(b);
    chars_eq(ca.as_slice(), cb.as_slice())
}

/// The decimal digit for `d` (0 to 9).
pub open spec fn digit_char(d: nat) -> char {
    if d == 0 { '0' } else if d == 1 { '1' } else if d == 2 { '2' } else if d == 3 { '3' }
    else if d == 4 { '4' } else if d == 5 { '5' } else if d == 6 { '6' } else if d == 7 { '7' }
    else if d == 8 { '8' } else { '9' }
}

/// The decimal representation of `n`, without leading zeros ("0" for zero).
pub open spec fn decimal(n: nat) -> Seq<char>
    decreases n,
{
    if n < 10 {
        seq![digit_char(n)]
    } else {
        decimal(n / 10).push(digit_char(n % 10))
    }
}

fn digit(d: u64) -> (c: char)
    requires
        d < 10,
    ensures
        c == digit_char(d as nat),
{
    if d == 0 { '0' } else if d == 1 { '1' } else if d == 2 { '2' } else if d == 3 { '3' }
    else if d == 4 { '4' } else if d == 5 { '5' } else if d == 6 { '6' } else if d == 7 { '7' }
    else if d == 8 { '8' } else { '9' }
}

/// Appends the decimal representation of `n` to `s`.
pub fn push_decimal(s: &mut String, n: u64)
    ensures
        final(s)@ == old(s)@ + decimal(n as nat),
    decreases n,
{
    if n < 10 {
        push_char(s, digit(n));
        assert(decimal(n as nat) =~= seq![digit_char(n as nat)]);
    } else {
        push_decimal(s, n / 10);
        push_char(s, digit(n % 10));
    }
}

/// Whether `needle` occurs in `hay` at position `i`.
pub open spec fn occurs_at(hay: Seq<char>, needle: Seq<char>, i: int) -> bool {
    0 <= i && i + needle.len() <= hay.len() && hay.subrange(i, i + needle.len()) == needle
}

/// Whether `needle` occurs in `hay`.
pub open spec fn contains_seq(hay: Seq<char>, needle: Seq<char>) -> bool {
    exists|i: int| occurs_at(hay, needle, i)
}

/// Whether `needle` occurs in `hay` at position `i`.
pub fn matches_at(hay: &[char], needle: &[char], i: usize) -> (r: bool)
    ensures
        r == occurs_at(hay@, needle@, i as int),
{
    if i > hay.len() || needle.len() > hay.len() - i {
        return false;
    }
    let mut k: usize = 0;
    let hl = hay.len();
    while k < needle.len()
        invariant
            k <= needle@.len(),
            hl == hay@.len(),
            i + needle@.len() <= hl,
            forall|j: int| 0 <= j < k ==> hay@[i + j] == #[trigger] needle@[j],
        decreases needle@.len() - k,
    {
        if hay[i + k] != needle[k] {
            assert(hay@.subrange(i as int, i + needle@.len())[k as int] != needle@[k as int]);
            return false;
        }
        k = k + 1;
    }
    assert(hay@.subrange(i as int, i + needle@.len()) =~= needle@);
    true
}

/// The first position at or after `from` where `needle` occurs in `hay`.
pub fn find_from(hay: &[char], needle: &[char], from: usize) -> (r: Option<usize>)
    ensures
        match r {
            Some(i) => from <= i && occurs_at(hay@, needle@, i as int) && forall|j: int|
                from <= j < i ==> !occurs_at(hay@, needle@, j),
            None => forall|j: int| from <= j ==> !occurs_at(hay@, needle@, j),
        },
{
    if from > hay.len() {
        return None;
    }
    let mut i: usize = from;
    while i < hay.len()
        invariant
            from <= i <= hay@.len(),
            forall|j: int| from <= j < i ==> !occurs_at(hay@, needle@, j),
        decreases hay@.len() - i,
    {
        if matches_at(hay, needle, i) {
            return Some(i);
        }
        i = i + 1;
    }
    if matches_at(hay, needle, i) {
        return Some(i);
    }
    None
}

/// Whether `needle` occurs in `hay`.
pub fn contains_chars(hay: &[char], needle: &[char]) -> (r: bool)
    ensures
        r == contains_seq(hay@, needle@),
{
    match find_from(hay, needle, 0) {
        Some(_) => true,
        None => false,
    }
}

/// Whether `s` begins with `prefix`.
pub fn starts_with_chars(s: &[char], prefix: &[char]) -> (r: bool)
    ensures
        r == occurs_at(s@, prefix@, 0),
{
    matches_at(s, prefix, 0)
}

/// `parts` joined with `sep` between consecutive items.
pub open spec fn join_with(parts: Seq<Seq<char>>, sep: Seq<char>) -> Seq<char>
    decreases parts.len(),
{
    if parts.len() == 0 {
        Seq::empty()
    } else if parts.len() == 1 {
        parts[0]
    } else {
        join_with(parts.drop_last(), sep) + sep + parts.last()
    }
}

/// The pieces of `s` between `'\n'` characters (one more than there are
/// newlines).
pub open spec fn split_newlines(s: Seq<char>) -> Seq<Seq<char>>
    decreases s.len(),
{
    if s.len() == 0 {
        seq![Seq::empty()]
    } else {
        let rest = split_newlines(s.drop_last());
        if s.last() == '\n' {
            rest.push(Seq::empty())
        } else {
            rest.update(rest.len() - 1, rest.last().push(s.last()))
        }
    }
}

/// `l` without one trailing carriage return.
pub open spec fn strip_cr(l: Seq<char>) -> Seq<char> {
    if l.len() > 0 && l.last() == '\r' { l.drop_last() } else { l }
}

/// The lines of `s` as `str::lines` gives them: split at `'\n'`, a final
/// line ending adds no empty line, and one `'\r'` before each line end is
/// dropped.
pub open spec fn lines_of(s: Seq<char>) -> Seq<Seq<char>> {
    let pieces = split_newlines(s);
    let kept = if s.len() == 0 || s.last() == '\n' { pieces.drop_last() } else { pieces };
    kept.map_values(|l: Seq<char>| strip_cr(l))
}

proof fn lemma_split_newlines_len(s: Seq<char>)
    ensures
        split_newlines(s).len() >= 1,
    decreases s.len(),
{
    if s.len() > 0 {
        lemma_split_newlines_len(s.drop_last());
    }
}

/// The lines of `s`.
pub fn lines(s: &[char]) -> (r: Vec<Vec<char>>)
    ensures
        r@.len() == lines_of(s@).len(),
        forall|i: int| 0 <= i < r@.len() ==> #[trigger] r@[i]@ == lines_of(s@)[i],
{
    let mut pieces: Vec<Vec<char>> = Vec::new();
    let mut cur: Vec<char> = Vec::new();
    let mut i: usize = 0;
    while i < s.len()
        invariant
            i <= s@.len(),
            split_newlines(s@.take(i as int)) == pieces@.map_values(|v: Vec<char>| v@).push(cur@),
        decreases s@.len() - i,
    {
        proof {
            assert(s@.take(i + 1).drop_last() =~= s@.take(i as int));
            lemma_split_newlines_len(s@.take(i as int));
        }
        if s[i] == '\n' {
            let done = cur;
            cur = Vec::new();
            let ghost prev = pieces@;
            pieces.push(done);
            proof {
                assert(pieces@.map_values(|v: Vec<char>| v@).push(cur@) =~= prev.map_values(
                    |v: Vec<char>| v@,
                ).push(done@).push(Seq::empty()));
            }
        } else {
            let ghost before = cur@;
            cur.push(s[i]);
            proof {
                let prev = split_newlines(s@.take(i as int));
                assert(prev.update(prev.len() - 1, prev.last().push(s@[i as int])) =~= pieces@.map_values(
                    |v: Vec<char>| v@,
                ).push(cur@));
            }
        }
        i = i + 1;
    }
    proof {
        assert(s@.take(s@.len() as int) =~= s@);
    }
    let ends_with_newline = s.len() == 0 || s[s.len() - 1] == '\n';
    if !ends_with_newline {
        pieces.push(cur);
    }
    let ghost kept = pieces@.map_values(|v: Vec<char>| v@);
    proof {
        let all = split_newlines(s@);
        if ends_with_newline {
            assert(kept =~= all.drop_last());
        } else {
            assert(kept =~= all);
        }
    }
    let mut r: Vec<Vec<char>> = Vec::new();
    let mut j: usize = 0;
    while j < pieces.len()
        invariant
            j <= pieces@.len(),
            kept == pieces@.map_values(|v: Vec<char>| v@),
            r@.len() == j,
            forall|k: int| 0 <= k < j ==> #[trigger] r@[k]@ == strip_cr(kept[k]),
        decreases pieces@.len() - j,
    {
        let l = &pieces[j];
        let n = l.len();
        let mut line: Vec<char> = Vec::new();
        let keep = if n > 0 && l[n - 1] == '\r' { n - 1 } else { n };
        let mut k: usize = 0;
        while k < keep
            invariant
                k <= keep <= n,
                n == l@.len(),
                line@ == l@.take(k as int),
            decreases keep - k,
        {
            line.push(l[k]);
            k = k + 1;
            assert(line@ =~= l@.take(k as int));
        }
        proof {
            assert(kept[j as int] == l@);
            if n > 0 && l@[n - 1] == '\r' {
                assert(line@ =~= l@.drop_last());
            } else {
                assert(line@ =~= l@);
            }
        }
        r.push(line);
        j = j + 1;
    }
    r
}

/// Joins `parts` with `sep` between consecutive items.
pub fn join_chars(parts: &Vec<Vec<char>>, sep: &[char]) -> (r: Vec<char>)
    ensures
        r@ == join_with(parts@.map_values(|v: Vec<char>| v@), sep@),
{
    let ghost ps = parts@.map_values(|v: Vec<char>| v@);
    let mut r: Vec<char> = Vec::new();
    let mut i: usize = 0;
    while i < parts.len()
        invariant
            i <= parts@.len(),
            ps == parts@.map_values(|v: Vec<char>| v@),
            r@ == join_with(ps.take(i as int), sep@),
        decreases parts@.len() - i,
    {
        proof {
            assert(ps.take(i + 1).drop_last() =~= ps.take(i as int));
        }
        if i > 0 {
            let mut k: usize = 0;
            let ghost before = r@;
            while k < sep.len()
                invariant
                    k <= sep@.len(),
                    r@ == before + sep@.take(k as int),
                decreases sep@.len() - k,
            {
                r.push(sep[k]);
                k = k + 1;
                assert(r@ =~= before + sep@.take(k as int));
            }
            assert(sep@.take(sep@.len() as int) =~= sep@);
        }
        let ghost before2 = r@;
        let p = &parts[i];
        let mut k: usize = 0;
        while k < p.len()
            invariant
                k <= p@.len(),
                r@ == before2 + p@.take(k as int),
            decreases p@.len() - k,
        {
            r.push(p[k]);
            k = k + 1;
            assert(r@ =~= before2 + p@.take(k as int));
        }
        proof {
            assert(p@.take(p@.len() as int) =~= p@);
            if i == 0 {
                assert(ps.take(1) =~= seq![p@]);
                assert(r@ =~= p@);
            } else {
                assert(ps.take(i + 1).last() == p@);
            }
        }
        i = i + 1;
    }
    proof {
        assert(ps.take(parts@.len() as int) =~= ps);
    }
    r
}

} // verus!
