//! Character-level text operations with their specifications: whitespace
//! trimming, splitting, joining, line breaking, substring search and decimal
//! rendering of integers.
use vstd::prelude::*;

verus! {

/// Unicode `White_Space` characters, the set that `char::is_whitespace` tests.
pub open spec fn is_ws(c: char) -> bool {
    let u = c as u32;
    ||| 0x09 <= u <= 0x0d
    ||| u == 0x20
    ||| u == 0x85
    ||| u == 0xa0
    ||| u == 0x1680
    ||| 0x2000 <= u <= 0x200a
    ||| u == 0x2028
    ||| u == 0x2029
    ||| u == 0x202f
    ||| u == 0x205f
    ||| u == 0x3000
}

/// Whether `c` is a Unicode whitespace character.
pub fn is_whitespace(c: char) -> (r: bool)
    ensures
        r == is_ws(c),
{
    let u = c as u32;
    (0x09 <= u && u <= 0x0d) || u == 0x20 || u == 0x85 || u == 0xa0 || u == 0x1680 || (0x2000
        <= u && u <= 0x200a) || u == 0x2028 || u == 0x2029 || u == 0x202f || u == 0x205f || u
        == 0x3000
}

/// `s` without its leading whitespace.
pub open spec fn trim_start(s: Seq<char>) -> Seq<char>
    decreases s.len(),
{
    if s.len() > 0 && is_ws(s[0]) {
        trim_start(s.drop_first())
    } else {
        s
    }
}

/// `s` without its trailing whitespace.
pub open spec fn trim_end(s: Seq<char>) -> Seq<char>
    decreases s.len(),
{
    if s.len() > 0 && is_ws(s.last()) {
        trim_end(s.drop_last())
    } else {
        s
    }
}

/// `s` without leading and trailing whitespace, as `str::trim` gives it.
pub open spec fn trim(s: Seq<char>) -> Seq<char> {
    trim_end(trim_start(s))
}

/// Whether `s` begins with `p`.
pub open spec fn starts_with(s: Seq<char>, p: Seq<char>) -> bool {
    p.len() <= s.len() && s.take(p.len() as int) == p
}

/// Position of the first `c` in `s`, or `s.len()` when `c` does not occur.
pub open spec fn index_of(s: Seq<char>, c: char) -> int
    decreases s.len(),
{
    if s.len() == 0 {
        0
    } else if s[0] == c {
        0
    } else {
        1 + index_of(s.drop_first(), c)
    }
}

/// The pieces of `s` between occurrences of `sep`, empty pieces included, as
/// `str::split` yields them.
pub open spec fn split_pieces(s: Seq<char>, sep: char) -> Seq<Seq<char>>
    decreases s.len(),
{
    let n = index_of(s, sep);
    if n >= s.len() {
        seq![s]
    } else {
        proof {
            lemma_index_of_bounds(s, sep);
        }
        seq![s.take(n)] + split_pieces(s.skip(n + 1), sep)
    }
}

/// The non-empty members of `ps`, in order.
pub open spec fn non_empty(ps: Seq<Seq<char>>) -> Seq<Seq<char>>
    decreases ps.len(),
{
    if ps.len() == 0 {
        seq![]
    } else if ps[0].len() == 0 {
        non_empty(ps.drop_first())
    } else {
        seq![ps[0]] + non_empty(ps.drop_first())
    }
}

/// The non-empty pieces of `s` between occurrences of `sep`.
pub open spec fn segments(s: Seq<char>, sep: char) -> Seq<Seq<char>> {
    non_empty(split_pieces(s, sep))
}

/// The members of `ps` with `sep` between each two neighbours.
pub open spec fn join(ps: Seq<Seq<char>>, sep: Seq<char>) -> Seq<char>
    decreases ps.len(),
{
    if ps.len() == 0 {
        seq![]
    } else if ps.len() == 1 {
        ps[0]
    } else {
        join(ps.drop_last(), sep) + sep + ps.last()
    }
}

/// `l` without one trailing carriage return.
pub open spec fn strip_cr(l: Seq<char>) -> Seq<char> {
    if l.len() > 0 && l.last() == '\r' {
        l.drop_last()
    } else {
        l
    }
}

/// The lines of `s` as `str::lines` yields them: split at `\n`, a `\r` right
/// before a `\n` removed, and no empty line after a final `\n`.
pub open spec fn lines(s: Seq<char>) -> Seq<Seq<char>>
    decreases s.len(),
{
    if s.len() == 0 {
        seq![]
    } else {
        let n = index_of(s, '\n');
        if n >= s.len() {
            seq![s]
        } else {
            proof {
                lemma_index_of_bounds(s, '\n');
            }
            seq![strip_cr(s.take(n))] + lines(s.skip(n + 1))
        }
    }
}

/// Whether `p` occurs in `s` as a contiguous run.
pub open spec fn contains(s: Seq<char>, p: Seq<char>) -> bool {
    exists|k: int| 0 <= k && k + p.len() <= s.len() && #[trigger] s.subrange(k, k + p.len()) == p
}

/// `s` with every leading repetition of the non-empty `p` removed, as
/// `str::trim_start_matches` does with a string pattern.
pub open spec fn strip_all_prefix(s: Seq<char>, p: Seq<char>) -> Seq<char>
    decreases s.len(),
{
    if p.len() > 0 && starts_with(s, p) {
        strip_all_prefix(s.skip(p.len() as int), p)
    } else {
        s
    }
}

/// The decimal digit character for `d < 10`.
pub open spec fn digit(d: nat) -> char {
    ((d + 48) as u8) as char
}

/// The decimal rendering of `n`, without leading zeros.
pub open spec fn decimal(n: nat) -> Seq<char>
    decreases n,
{
    if n < 10 {
        seq![digit(n)]
    } else {
        decimal(n / 10).push(digit(n % 10))
    }
}

/// The views of a sequence of strings.
pub open spec fn views(v: Seq<String>) -> Seq<Seq<char>> {
    v.map_values(|s: String| s@)
}

pub proof fn lemma_index_of_bounds(s: Seq<char>, c: char)
    ensures
        0 <= index_of(s, c) <= s.len(),
        index_of(s, c) < s.len() ==> s[index_of(s, c)] == c,
        forall|k: int| 0 <= k < index_of(s, c) ==> s[k] != c,
    decreases s.len(),
{
    if s.len() > 0 && s[0] != c {
        lemma_index_of_bounds(s.drop_first(), c);
        assert forall|k: int| 0 <= k < index_of(s, c) implies s[k] != c by {
            if k > 0 {
                assert(s[k] == s.drop_first()[k - 1]);
            }
        }
    }
}

/// `index_of` is the first position holding `c`.
pub proof fn lemma_index_of_is(s: Seq<char>, c: char, n: int)
    requires
        0 <= n <= s.len(),
        n < s.len() ==> s[n] == c,
        forall|k: int| 0 <= k < n ==> s[k] != c,
    ensures
        index_of(s, c) == n,
    decreases n,
{
    if n > 0 {
        assert forall|k: int| 0 <= k < n - 1 implies s.drop_first()[k] != c by {
            assert(s.drop_first()[k] == s[k + 1]);
        }
        lemma_index_of_is(s.drop_first(), c, n - 1);
    }
}

/// Leading whitespace up to `i` is what `trim_start` removes.
pub proof fn lemma_trim_start_is(s: Seq<char>, i: int)
    requires
        0 <= i <= s.len(),
        forall|k: int| 0 <= k < i ==> is_ws(s[k]),
        i == s.len() || !is_ws(s[i]),
    ensures
        trim_start(s) == s.skip(i),
    decreases i,
{
    if i == 0 {
        assert(s.skip(0) =~= s);
    } else {
        assert forall|k: int| 0 <= k < i - 1 implies is_ws(s.drop_first()[k]) by {
            assert(s.drop_first()[k] == s[k + 1]);
        }
        if i - 1 < s.drop_first().len() {
            assert(s.drop_first()[i - 1] == s[i]);
        }
        lemma_trim_start_is(s.drop_first(), i - 1);
        assert(s.drop_first().skip(i - 1) =~= s.skip(i));
    }
}

/// Trailing whitespace from `j` on is what `trim_end` removes.
pub proof fn lemma_trim_end_is(s: Seq<char>, j: int)
    requires
        0 <= j <= s.len(),
        forall|k: int| j <= k < s.len() ==> is_ws(s[k]),
        j == 0 || !is_ws(s[j - 1]),
    ensures
        trim_end(s) == s.take(j),
    decreases s.len() - j,
{
    if j == s.len() {
        assert(s.take(j) =~= s);
    } else {
        assert(s.drop_last().len() == s.len() - 1);
        assert forall|k: int| j <= k < s.len() - 1 implies is_ws(s.drop_last()[k]) by {
            assert(s.drop_last()[k] == s[k]);
        }
        if j > 0 {
            assert(s.drop_last()[j - 1] == s[j - 1]);
        }
        lemma_trim_end_is(s.drop_last(), j);
        assert(s.drop_last().take(j) =~= s.take(j));
    }
}

/// Appends `c` to `s`.
///
/// Trusted: calls `String::push`, whose documentation says that it appends
/// the given character to the end of the string.
#[verifier::external_body]
pub(crate) fn push_char(s: &mut String, c: char)
    ensures
        final(s)@ == old(s)@.push(c),
{
    s.push(c);
}

/// The characters of `s`, in order.
pub fn chars_of(s: &str) -> (v: Vec<char>)
    ensures
        v@ == s@,
{
    let mut v: Vec<char> = Vec::new();
    for c in it: s.chars()
        invariant
            v@ == it.seq().take(it.index() as int),
    {
        v.push(c);
    }
    v
}


/// The string made of `v[lo..hi]`.
pub fn string_from_chars(v: &Vec<char>, lo: usize, hi: usize) -> (r: String)
    requires
        lo <= hi <= v@.len(),
    ensures
        r@ == v@.subrange(lo as int, hi as int),
{
    let mut r = String::new();
    let mut i = lo;
    while i < hi
        invariant
            lo <= i <= hi <= v@.len(),
            r@ == v@.subrange(lo as int, i as int),
        decreases hi - i,
    {
        push_char(&mut r, v[i]);
        i = i + 1;
        assert(r@ =~= v@.subrange(lo as int, i as int));
    }
    r
}

/// Position of the first `c` in `v[lo..hi]`, counted from the start of `v`;
/// `hi` when there is none.
pub fn find_char(v: &Vec<char>, lo: usize, hi: usize, c: char) -> (j: usize)
    requires
        lo <= hi <= v@.len(),
    ensures
        lo <= j <= hi,
        j == lo + index_of(v@.subrange(lo as int, hi as int), c),
{
    let mut j = lo;
    while j < hi && v[j] != c
        invariant
            lo <= j <= hi <= v@.len(),
            forall|k: int| lo <= k < j ==> v@[k] != c,
        decreases hi - j,
    {
        j = j + 1;
    }
    proof {
        let t = v@.subrange(lo as int, hi as int);
        assert forall|k: int| 0 <= k < j - lo implies t[k] != c by {
            assert(t[k] == v@[lo + k]);
        }
        lemma_index_of_is(t, c, j - lo);
    }
    j
}

/// Bounds `(a, b)` such that `v[a..b]` is `v` without surrounding whitespace.
pub fn trim_bounds(v: &Vec<char>) -> (r: (usize, usize))
    ensures
        r.0 <= r.1 <= v@.len(),
        v@.subrange(r.0 as int, r.1 as int) == trim(v@),
{
    let n = v.len();
    let mut a: usize = 0;
    while a < n && is_whitespace(v[a])
        invariant
            a <= n == v@.len(),
            forall|k: int| 0 <= k < a ==> is_ws(v@[k]),
        decreases n - a,
    {
        a = a + 1;
    }
    let mut b: usize = n;
    while b > a && is_whitespace(v[b - 1])
        invariant
            a <= b <= n == v@.len(),
            forall|k: int| b <= k < n ==> is_ws(v@[k]),
        decreases b,
    {
        b = b - 1;
    }
    proof {
        let s = v@;
        lemma_trim_start_is(s, a as int);
        let t = s.skip(a as int);
        assert forall|k: int| b - a <= k < t.len() implies is_ws(t[k]) by {
            assert(t[k] == s[a + k]);
        }
        if b > a {
            assert(t[b - a - 1] == s[b - 1]);
        }
        lemma_trim_end_is(t, b - a);
        assert(t.take(b - a) =~= s.subrange(a as int, b as int));
    }
    (a, b)
}

/// `s` without leading and trailing whitespace.
pub fn trim_string(s: &str) -> (r: String)
    ensures
        r@ == trim(s@),
{
    let v = chars_of(s);
    let (a, b) = trim_bounds(&v);
    string_from_chars(&v, a, b)
}

proof fn lemma_non_empty_cons(p: Seq<char>, rest: Seq<Seq<char>>)
    ensures
        non_empty(seq![p] + rest) == (if p.len() > 0 { seq![p] } else { seq![] }) + non_empty(
            rest,
        ),
{
    assert((seq![p] + rest).drop_first() =~= rest);
    assert((seq![p] + rest)[0] == p);
    if p.len() == 0 {
        assert(seq![] + non_empty(rest) =~= non_empty(rest));
    }
}

/// One step of splitting `t` at `sep`, seen from positions in `v`.
proof fn lemma_split_step(v: Seq<char>, i: int, j: int, hi: int, sep: char)
    requires
        0 <= i <= j <= hi <= v.len(),
        j == i + index_of(v.subrange(i, hi), sep),
    ensures
        j == hi ==> split_pieces(v.subrange(i, hi), sep) == seq![v.subrange(i, hi)],
        j < hi ==> split_pieces(v.subrange(i, hi), sep) == seq![v.subrange(i, j)]
            + split_pieces(v.subrange(j + 1, hi), sep),
{
    let t = v.subrange(i, hi);
    lemma_index_of_bounds(t, sep);
    if j < hi {
        assert(t.take(j - i) =~= v.subrange(i, j));
        assert(t.skip(j - i + 1) =~= v.subrange(j + 1, hi));
    }
}

/// The non-empty pieces of `v[lo..hi]` between occurrences of `sep`.
pub fn split_segments(v: &Vec<char>, lo: usize, hi: usize, sep: char) -> (r: Vec<String>)
    requires
        lo <= hi <= v@.len(),
    ensures
        views(r@) == segments(v@.subrange(lo as int, hi as int), sep),
{
    let mut r: Vec<String> = Vec::new();
    let mut i = lo;
    loop
        invariant
            lo <= i <= hi <= v@.len(),
            views(r@) + non_empty(split_pieces(v@.subrange(i as int, hi as int), sep))
                == segments(v@.subrange(lo as int, hi as int), sep),
        decreases hi - i,
    {
        let j = find_char(v, i, hi, sep);
        let ghost before = views(r@);
        proof {
            lemma_split_step(v@, i as int, j as int, hi as int, sep);
            lemma_non_empty_cons(
                v@.subrange(i as int, j as int),
                if j < hi { split_pieces(v@.subrange(j + 1, hi as int), sep) } else { seq![] },
            );
        }
        if j > i {
            let piece = string_from_chars(v, i, j);
            r.push(piece);
            assert(views(r@) =~= before.push(v@.subrange(i as int, j as int)));
        }
        if j == hi {
            assert(non_empty(Seq::<Seq<char>>::empty()) == Seq::<Seq<char>>::empty());
            assert(views(r@) =~= views(r@) + non_empty(Seq::<Seq<char>>::empty()));
            return r;
        }
        i = j + 1;
    }
}

/// The pieces of `s` between occurrences of `sep`, empty pieces included.
pub fn split_all(s: &str, sep: char) -> (r: Vec<String>)
    ensures
        views(r@) == split_pieces(s@, sep),
{
    let v = chars_of(s);
    let hi = v.len();
    let mut r: Vec<String> = Vec::new();
    let mut i: usize = 0;
    assert(v@.subrange(0, hi as int) =~= s@);
    loop
        invariant
            i <= hi == v@.len(),
            v@ == s@,
            views(r@) + split_pieces(v@.subrange(i as int, hi as int), sep) == split_pieces(
                s@,
                sep,
            ),
        decreases hi - i,
    {
        let j = find_char(&v, i, hi, sep);
        let ghost before = views(r@);
        proof {
            lemma_split_step(v@, i as int, j as int, hi as int, sep);
        }
        let piece = string_from_chars(&v, i, j);
        r.push(piece);
        assert(views(r@) =~= before.push(v@.subrange(i as int, j as int)));
        if j == hi {
            assert(views(r@) =~= before + seq![v@.subrange(i as int, hi as int)]);
            return r;
        }
        assert(before + (seq![v@.subrange(i as int, j as int)] + split_pieces(
            v@.subrange(j + 1, hi as int),
            sep,
        )) =~= views(r@) + split_pieces(v@.subrange(j + 1, hi as int), sep));
        i = j + 1;
    }
}


/// The lines of `s`, as `str::lines` yields them.
pub fn lines_of(s: &str) -> (r: Vec<String>)
    ensures
        views(r@) == lines(s@),
{
    let v = chars_of(s);
    let hi = v.len();
    let mut r: Vec<String> = Vec::new();
    let mut i: usize = 0;
    assert(v@.subrange(0, hi as int) =~= s@);
    while i < hi
        invariant
            i <= hi == v@.len(),
            v@ == s@,
            views(r@) + lines(v@.subrange(i as int, hi as int)) == lines(s@),
        decreases hi - i,
    {
        let j = find_char(&v, i, hi, '\n');
        let ghost before = views(r@);
        let ghost t = v@.subrange(i as int, hi as int);
        proof {
            lemma_index_of_bounds(t, '\n');
        }
        if j == hi {
            let piece = string_from_chars(&v, i, hi);
            r.push(piece);
            assert(views(r@) =~= before.push(t));
            assert(v@.subrange(hi as int, hi as int) =~= Seq::<char>::empty());
            assert(views(r@) + lines(v@.subrange(hi as int, hi as int)) =~= before + lines(t));
            i = hi;
        } else {
            let end = if j > i && v[j - 1] == '\r' {
                j - 1
            } else {
                j
            };
            let piece = string_from_chars(&v, i, end);
            r.push(piece);
            assert(t.take(j - i) =~= v@.subrange(i as int, j as int));
            assert(t.skip(j - i + 1) =~= v@.subrange(j + 1, hi as int));
            assert(strip_cr(v@.subrange(i as int, j as int)) =~= v@.subrange(i as int, end as int));
            assert(views(r@) =~= before.push(v@.subrange(i as int, end as int)));
            assert(before + lines(t) =~= views(r@) + lines(v@.subrange(j + 1, hi as int)));
            i = j + 1;
        }
    }
    assert(v@.subrange(i as int, hi as int) =~= Seq::<char>::empty());
    assert(views(r@) + Seq::<Seq<char>>::empty() =~= views(r@));
    r
}

/// Whether `s` begins with `p`.
pub fn starts_with_chars(s: &Vec<char>, lo: usize, p: &Vec<char>) -> (r: bool)
    requires
        lo <= s@.len(),
    ensures
        r == starts_with(s@.skip(lo as int), p@),
{
    if p.len() > s.len() - lo {
        return false;
    }
    let n = s.len();
    let mut k: usize = 0;
    while k < p.len()
        invariant
            n == s@.len(),
            lo <= s@.len(),
            lo + p@.len() <= s@.len(),
            k <= p@.len(),
            forall|m: int| 0 <= m < k ==> s@[lo + m] == p@[m],
        decreases p@.len() - k,
    {
        if s[lo + k] != p[k] {
            assert(s@.skip(lo as int).take(p@.len() as int)[k as int] != p@[k as int]);
            return false;
        }
        k = k + 1;
    }
    assert(s@.skip(lo as int).take(p@.len() as int) =~= p@);
    true
}

/// Whether `p` occurs in `s`.
pub fn contains_str(s: &str, p: &str) -> (r: bool)
    ensures
        r == contains(s@, p@),
{
    let sv = chars_of(s);
    let pv = chars_of(p);
    if pv.len() > sv.len() {
        return false;
    }
    let last = sv.len() - pv.len();
    let mut k: usize = 0;
    loop
        invariant
            sv@ == s@,
            pv@ == p@,
            last == sv@.len() - pv@.len(),
            k <= last,
            forall|m: int| 0 <= m < k ==> #[trigger] s@.subrange(m, m + p@.len()) != p@,
        decreases last - k,
    {
        if starts_with_chars(&sv, k, &pv) {
            assert(sv@.skip(k as int).take(pv@.len() as int) =~= s@.subrange(
                k as int,
                k + p@.len(),
            ));
            return true;
        }
        assert(sv@.skip(k as int).take(pv@.len() as int) =~= s@.subrange(k as int, k + p@.len()));
        if k == last {
            return false;
        }
        k = k + 1;
    }
}

/// `s` with every leading repetition of the non-empty `p` removed.
pub fn strip_all_prefix_str(s: &str, p: &str) -> (r: String)
    requires
        p@.len() > 0,
    ensures
        r@ == strip_all_prefix(s@, p@),
{
    let sv = chars_of(s);
    let pv = chars_of(p);
    let mut i: usize = 0;
    let n = sv.len();
    assert(s@.skip(0) =~= s@);
    while starts_with_chars(&sv, i, &pv)
        invariant
            n == sv@.len(),
            sv@ == s@,
            pv@ == p@,
            p@.len() > 0,
            i <= sv@.len(),
            strip_all_prefix(s@.skip(i as int), p@) == strip_all_prefix(s@, p@),
        decreases sv@.len() - i,
    {
        assert(sv@.skip(i as int).len() == sv@.len() - i);
        assert(s@.skip(i as int).skip(p@.len() as int) =~= s@.skip(i + p@.len()));
        i = i + pv.len();
    }
    assert(sv@.subrange(i as int, sv@.len() as int) =~= s@.skip(i as int));
    string_from_chars(&sv, i, sv.len())
}

/// The digit character for `d < 10`.
fn digit_char(d: u64) -> (c: char)
    requires
        d < 10,
    ensures
        c == digit(d as nat),
{
    let b: u8 = (d as u8) + 48;
    b as char
}

/// Appends the decimal rendering of `n` to `s`.
pub fn push_decimal(s: &mut String, n: u64)
    ensures
        final(s)@ == old(s)@ + decimal(n as nat),
    decreases n,
{
    if n < 10 {
        push_char(s, digit_char(n));
        assert(decimal(n as nat) =~= seq![digit(n as nat)]);
        assert(s@ =~= old(s)@ + decimal(n as nat));
    } else {
        push_decimal(s, n / 10);
        push_char(s, digit_char(n % 10));
        assert(s@ =~= old(s)@ + decimal(n as nat));
    }
}

/// The decimal rendering of `n`.
pub fn decimal_string(n: u64) -> (r: String)
    ensures
        r@ == decimal(n as nat),
{
    let mut r = String::new();
    push_decimal(&mut r, n);
    assert(r@ =~= decimal(n as nat));
    r
}


/// The strings `parts[lo..]` with `sep` between each two neighbours.
pub fn join_from(parts: &Vec<String>, lo: usize, sep: &str) -> (r: String)
    requires
        lo <= parts@.len(),
    ensures
        r@ == join(views(parts@).skip(lo as int), sep@),
{
    let mut r = String::new();
    let n = parts.len();
    let ghost ps = views(parts@);
    let mut i = lo;
    assert(ps.subrange(lo as int, lo as int) =~= Seq::<Seq<char>>::empty());
    while i < n
        invariant
            lo <= i <= n == parts@.len(),
            ps == views(parts@),
            r@ == join(ps.subrange(lo as int, i as int), sep@),
        decreases n - i,
    {
        let ghost prev = ps.subrange(lo as int, i as int);
        if i > lo {
            r.append(sep);
        }
        r.append(parts[i].as_str());
        let ghost next = ps.subrange(lo as int, i + 1);
        assert(next.drop_last() =~= prev);
        assert(next.last() == parts@[i as int]@);
        if i == lo {
            assert(r@ =~= join(next, sep@));
        } else {
            assert(r@ =~= join(next, sep@));
        }
        i = i + 1;
    }
    assert(ps.subrange(lo as int, n as int) =~= ps.skip(lo as int));
    r
}

} // verus!
