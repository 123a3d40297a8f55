//! Character-level text operations used by the HTML and header scrapers:
//! substring search, splitting on a separator, replacing, trimming and
//! decimal rendering, each stated over `Seq<char>`.

use vstd::prelude::*;

verus! {

// ---------------------------------------------------------------------------
// Specifications
// ---------------------------------------------------------------------------

/// `pat` occurs in `s` at position `i`.
pub open spec fn occurs_at(s: Seq<char>, pat: Seq<char>, i: int) -> bool {
    0 <= i && i + pat.len() <= s.len() && s.subrange(i, i + pat.len()) == pat
}

/// Position of the leftmost occurrence of `pat` in `s` that starts at or
/// after `i`, or `-1` when there is none.
pub open spec fn find_from(s: Seq<char>, pat: Seq<char>, i: int) -> int
    decreases s.len() - i,
{
    if i < 0 || i + pat.len() > s.len() {
        -1
    } else if occurs_at(s, pat, i) {
        i
    } else if i >= s.len() {
        -1
    } else {
        find_from(s, pat, i + 1)
    }
}

/// The pieces of `s[i..]` separated by the non-overlapping, leftmost
/// occurrences of `pat` (the pieces that `str::split` yields).
pub open spec fn pieces_from(s: Seq<char>, pat: Seq<char>, i: int) -> Seq<Seq<char>>
    decreases s.len() - i,
{
    if pat.len() == 0 || i < 0 || i > s.len() {
        Seq::empty()
    } else {
        let m: int = find_from(s, pat, i);
        if m < 0 {
            seq![s.subrange(i, s.len() as int)]
        } else {
            proof {
                lemma_find_from(s, pat, i);
            }
            seq![s.subrange(i, m)] + pieces_from(s, pat, m + pat.len())
        }
    }
}

/// The pieces of `s` separated by `pat`.
pub open spec fn split(s: Seq<char>, pat: Seq<char>) -> Seq<Seq<char>> {
    pieces_from(s, pat, 0)
}

/// `s[i..]` with every non-overlapping, leftmost occurrence of `pat`
/// replaced by `to`.
pub open spec fn replaced_from(s: Seq<char>, pat: Seq<char>, to: Seq<char>, i: int) -> Seq<char>
    decreases s.len() - i,
{
    if pat.len() == 0 || i < 0 || i > s.len() {
        Seq::empty()
    } else {
        let m: int = find_from(s, pat, i);
        if m < 0 {
            s.subrange(i, s.len() as int)
        } else {
            proof {
                lemma_find_from(s, pat, i);
            }
            s.subrange(i, m) + to + replaced_from(s, pat, to, m + pat.len())
        }
    }
}

/// `s` with every occurrence of `pat` replaced by `to` (as `str::replace`).
pub open spec fn replace(s: Seq<char>, pat: Seq<char>, to: Seq<char>) -> Seq<char> {
    replaced_from(s, pat, to, 0)
}

/// The characters with the Unicode `White_Space` property.
pub open spec fn is_white(c: char) -> bool {
    let u: u32 = c as u32;
    (0x9 <= u && u <= 0xd) || u == 0x20 || u == 0x85 || u == 0xa0 || u == 0x1680 || (0x2000 <= u
        && u <= 0x200a) || u == 0x2028 || u == 0x2029 || u == 0x202f || u == 0x205f || u == 0x3000
}

/// `s` without its leading white space.
pub open spec fn trim_start(s: Seq<char>) -> Seq<char>
    decreases s.len(),
{
    if s.len() > 0 && is_white(s[0]) {
        trim_start(s.drop_first())
    } else {
        s
    }
}

/// `s` without its trailing white space.
pub open spec fn trim_end(s: Seq<char>) -> Seq<char>
    decreases s.len(),
{
    if s.len() > 0 && is_white(s.last()) {
        trim_end(s.drop_last())
    } else {
        s
    }
}

/// `s` without leading and trailing white space (as `str::trim`).
pub open spec fn trim(s: Seq<char>) -> Seq<char> {
    trim_end(trim_start(s))
}

/// `prefix` is a prefix of `s`.
pub open spec fn has_prefix(s: Seq<char>, prefix: Seq<char>) -> bool {
    prefix.len() <= s.len() && s.subrange(0, prefix.len() as int) == prefix
}

/// The decimal digit for `d < 10`.
pub open spec fn digit(d: nat) -> char {
    ((48 + d) as u32) as char
}

/// The decimal rendering of `n`, without leading zeros.
pub open spec fn decimal(n: nat) -> Seq<char>
    decreases n,
{
    if n < 10 {
        seq![digit(n)]
    } else {
        decimal(n / 10).push(digit(n % 10))
    }
}

// ---------------------------------------------------------------------------
// Lemmas
// ---------------------------------------------------------------------------

/// What `find_from` returns: the leftmost occurrence at or after `i`.
pub proof fn lemma_find_from(s: Seq<char>, pat: Seq<char>, i: int)
    requires
        0 <= i,
    ensures
        find_from(s, pat, i) == -1 || (i <= find_from(s, pat, i) && occurs_at(
            s,
            pat,
            find_from(s, pat, i),
        )),
        forall|j: int|
            i <= j && (find_from(s, pat, i) == -1 || j < find_from(s, pat, i)) ==> !occurs_at(
                s,
                pat,
                j,
            ),
    decreases s.len() - i,
{
    if i + pat.len() > s.len() {
    } else if occurs_at(s, pat, i) {
    } else if i >= s.len() {
    } else {
        lemma_find_from(s, pat, i + 1);
    }
}

/// Splitting on a non-empty separator always yields at least one piece.
pub proof fn lemma_pieces_nonempty(s: Seq<char>, pat: Seq<char>, i: int)
    requires
        pat.len() > 0,
        0 <= i <= s.len(),
    ensures
        pieces_from(s, pat, i).len() >= 1,
{
}

/// Replacing every occurrence of the character `c` by text without `c`
/// leaves no `c`.
pub proof fn lemma_replace_removes_char(s: Seq<char>, c: char, to: Seq<char>, i: int)
    requires
        0 <= i <= s.len(),
        forall|k: int| 0 <= k < to.len() ==> to[k] != c,
    ensures
        forall|k: int|
            0 <= k < replaced_from(s, seq![c], to, i).len() ==> replaced_from(s, seq![c], to, i)[k]
                != c,
    decreases s.len() - i,
{
    let p = seq![c];
    lemma_find_from(s, p, i);
    let m: int = find_from(s, p, i);
    let r = replaced_from(s, p, to, i);
    if m < 0 {
        assert forall|k: int| 0 <= k < r.len() implies r[k] != c by {
            if r[k] == c {
                assert(s.subrange(i + k, i + k + 1) =~= p);
                assert(occurs_at(s, p, i + k));
            }
        }
    } else {
        lemma_replace_removes_char(s, c, to, m + 1);
        let rest = replaced_from(s, p, to, m + 1);
        assert(r == s.subrange(i, m) + to + rest);
        assert forall|k: int| 0 <= k < r.len() implies r[k] != c by {
            if k < m - i {
                if r[k] == c {
                    assert(s.subrange(i + k, i + k + 1) =~= p);
                    assert(occurs_at(s, p, i + k));
                }
            } else if k < m - i + to.len() {
                assert(r[k] == to[k - (m - i)]);
            } else {
                assert(r[k] == rest[k - (m - i) - to.len()]);
            }
        }
    }
}

/// The first piece of `s` split on the character `c` holds no `c`.
pub proof fn lemma_first_piece_free(s: Seq<char>, c: char)
    ensures
        forall|k: int| 0 <= k < split(s, seq![c])[0].len() ==> split(s, seq![c])[0][k] != c,
{
    let p = seq![c];
    lemma_find_from(s, p, 0);
    let first = split(s, p)[0];
    assert forall|k: int| 0 <= k < first.len() implies first[k] != c by {
        if first[k] == c {
            assert(s.subrange(k, k + 1) =~= p);
            assert(occurs_at(s, p, k));
        }
    }
}

/// Occurrences in `s` from position `i` on are those in `s.skip(i)`.
proof fn lemma_occurs_skip(s: Seq<char>, pat: Seq<char>, i: int, k: int)
    requires
        0 <= i <= s.len(),
        0 <= k,
    ensures
        occurs_at(s, pat, i + k) == occurs_at(s.skip(i), pat, k),
{
    if i + k + pat.len() <= s.len() {
        assert(s.subrange(i + k, i + k + pat.len()) =~= s.skip(i).subrange(k, k + pat.len()));
    }
}

/// Searching `s` from `i + j` finds what searching `s.skip(i)` from `j`
/// finds, shifted by `i`.
proof fn lemma_find_skip(s: Seq<char>, pat: Seq<char>, i: int, j: int)
    requires
        0 <= i <= s.len(),
        0 <= j,
    ensures
        find_from(s, pat, i + j) == (if find_from(s.skip(i), pat, j) == -1 {
            -1
        } else {
            find_from(s.skip(i), pat, j) + i
        }),
    decreases s.len() - (i + j),
{
    lemma_occurs_skip(s, pat, i, j);
    if i + j + pat.len() > s.len() {
    } else if occurs_at(s, pat, i + j) {
    } else if i + j >= s.len() {
    } else {
        lemma_find_skip(s, pat, i, j + 1);
        assert(i + (j + 1) == i + j + 1);
    }
}

/// The pieces of `s` from `i + j` on are those of `s.skip(i)` from `j` on.
pub proof fn lemma_pieces_skip(s: Seq<char>, pat: Seq<char>, i: int, j: int)
    requires
        pat.len() > 0,
        0 <= i <= s.len(),
        0 <= j,
    ensures
        pieces_from(s, pat, i + j) == pieces_from(s.skip(i), pat, j),
    decreases s.len() - (i + j),
{
    let t = s.skip(i);
    if i + j > s.len() {
    } else {
        lemma_find_skip(s, pat, i, j);
        lemma_find_from(t, pat, j);
        let m = find_from(t, pat, j);
        if m < 0 {
            assert(s.subrange(i + j, s.len() as int) =~= t.subrange(j, t.len() as int));
        } else {
            assert(s.subrange(i + j, m + i) =~= t.subrange(j, m));
            lemma_pieces_skip(s, pat, i, m + pat.len());
            assert(i + (m + pat.len()) == m + i + pat.len());
        }
    }
}

/// When `pat` first occurs in `s` at `m`, searching from the start finds `m`.
pub proof fn lemma_find_first(s: Seq<char>, pat: Seq<char>, m: int)
    requires
        occurs_at(s, pat, m),
        forall|i: int| 0 <= i < m ==> !occurs_at(s, pat, i),
    ensures
        find_from(s, pat, 0) == m,
{
    lemma_find_from(s, pat, 0);
    let f = find_from(s, pat, 0);
    if f == -1 {
        assert(!occurs_at(s, pat, m));
    } else if f < m {
        assert(!occurs_at(s, pat, f));
    } else if f > m {
        assert(!occurs_at(s, pat, m));
    }
}

proof fn lemma_trim_start_skip(s: Seq<char>, k: int)
    requires
        0 <= k <= s.len(),
        forall|j: int| 0 <= j < k ==> is_white(s[j]),
    ensures
        trim_start(s) == trim_start(s.skip(k)),
    decreases k,
{
    if k > 0 {
        assert(s.drop_first().skip(k - 1) =~= s.skip(k));
        lemma_trim_start_skip(s.drop_first(), k - 1);
    } else {
        assert(s.skip(0) =~= s);
    }
}

proof fn lemma_trim_end_take(s: Seq<char>, k: int)
    requires
        0 <= k <= s.len(),
        forall|j: int| k <= j < s.len() ==> is_white(s[j]),
    ensures
        trim_end(s) == trim_end(s.take(k)),
    decreases s.len() - k,
{
    if k < s.len() {
        assert(s.drop_last().take(k) =~= s.take(k));
        lemma_trim_end_take(s.drop_last(), k);
    } else {
        assert(s.take(k) =~= s);
    }
}

/// The characters with the Unicode `White_Space` property, one by one: the
/// controls U+0009 to U+000D (tab, line feed, vertical tab, form feed,
/// carriage return), space, next line, no-break space, ogham space mark, the
/// spaces U+2000 to U+200A, the line and paragraph separators, narrow no-break
/// space, medium mathematical space and ideographic space.
pub proof fn law_white_space_chars(c: char)
    ensures
        is_white(c) <==> (c == '\t' || c == '\n' || c == '\u{0B}' || c == '\u{0C}' || c == '\r'
            || c == ' ' || c == '\u{85}' || c == '\u{A0}' || c == '\u{1680}' || c == '\u{2000}'
            || c == '\u{2001}' || c == '\u{2002}' || c == '\u{2003}' || c == '\u{2004}' || c
            == '\u{2005}' || c == '\u{2006}' || c == '\u{2007}' || c == '\u{2008}' || c
            == '\u{2009}' || c == '\u{200A}' || c == '\u{2028}' || c == '\u{2029}' || c
            == '\u{202F}' || c == '\u{205F}' || c == '\u{3000}'),
{
}

proof fn lemma_trim_start_shape(s: Seq<char>) -> (k: int)
    ensures
        0 <= k <= s.len(),
        trim_start(s) == s.skip(k),
        forall|i: int| 0 <= i < k ==> is_white(s[i]),
        k < s.len() ==> !is_white(s[k]),
    decreases s.len(),
{
    if s.len() > 0 && is_white(s[0]) {
        let k1 = lemma_trim_start_shape(s.drop_first());
        assert(s.drop_first().skip(k1) =~= s.skip(k1 + 1));
        assert forall|i: int| 0 <= i < k1 + 1 implies is_white(s[i]) by {
            if i > 0 {
                assert(s[i] == s.drop_first()[i - 1]);
            }
        }
        if k1 + 1 < s.len() {
            assert(s[k1 + 1] == s.drop_first()[k1]);
        }
        k1 + 1
    } else {
        assert(s.skip(0) =~= s);
        0
    }
}

proof fn lemma_trim_end_shape(s: Seq<char>) -> (m: int)
    ensures
        0 <= m <= s.len(),
        trim_end(s) == s.take(m),
        forall|i: int| m <= i < s.len() ==> is_white(s[i]),
        m > 0 ==> !is_white(s[m - 1]),
    decreases s.len(),
{
    if s.len() > 0 && is_white(s.last()) {
        let m1 = lemma_trim_end_shape(s.drop_last());
        assert(s.drop_last().take(m1) =~= s.take(m1));
        assert forall|i: int| m1 <= i < s.len() implies is_white(s[i]) by {
            if i < s.len() - 1 {
                assert(s[i] == s.drop_last()[i]);
            }
        }
        if m1 > 0 {
            assert(s[m1 - 1] == s.drop_last()[m1 - 1]);
        }
        m1
    } else {
        assert(s.take(s.len() as int) =~= s);
        s.len() as int
    }
}

/// Trimming keeps one contiguous stretch of the text: everything before it
/// and after it is white space, and it neither starts nor ends with white
/// space (as `str::trim`).
pub proof fn law_trim_strips_white_space(s: Seq<char>)
    ensures
        exists|a: int, b: int|
            0 <= a <= b <= s.len() && trim(s) == s.subrange(a, b) && (forall|i: int|
                0 <= i < a ==> is_white(#[trigger] s[i])) && (forall|i: int|
                b <= i < s.len() ==> is_white(#[trigger] s[i])) && (a < b ==> !is_white(s[a])
                && !is_white(s[b - 1])),
{
    let a = lemma_trim_start_shape(s);
    let rest = s.skip(a);
    let m = lemma_trim_end_shape(rest);
    let b = a + m;
    assert(rest.take(m) =~= s.subrange(a, b));
    assert forall|i: int| b <= i < s.len() implies is_white(s[i]) by {
        assert(s[i] == rest[i - a]);
    }
    if a < b {
        assert(s[b - 1] == rest[m - 1]);
    }
    assert(0 <= a <= b <= s.len() && trim(s) == s.subrange(a, b));
}

// ---------------------------------------------------------------------------
// Executable operations
// ---------------------------------------------------------------------------

/// The characters of `s`.
pub fn chars_of(s: &str) -> (v: Vec<char>)
    ensures
        v@ == s@,
{
    let mut v: Vec<char> = Vec::new();
    for c in it: s.chars()
        invariant
            v@ == it.seq().take(it.index() as int),
            it.seq() == s@,
    {
        v.push(c);
    }
    v
}

/// `String::push`: `s` with `c` appended.
#[verifier::external_body]
fn push_char(s: &mut String, c: char)
    ensures
        final(s)@ == old(s)@.push(c),
{
    s.push(c)
}

/// A string made of the characters `v`.
pub fn string_of(v: &Vec<char>) -> (s: String)
    ensures
        s@ == v@,
{
    let mut s = String::new();
    let mut k: usize = 0;
    while k < v.len()
        invariant
            k <= v.len(),
            s@ == v@.subrange(0, k as int),
        decreases v.len() - k,
    {
        push_char(&mut s, v[k]);
        k = k + 1;
        assert(s@ =~= v@.subrange(0, k as int));
    }
    assert(v@.subrange(0, v.len() as int) =~= v@);
    s
}

/// The characters `s[from..to]`.
pub fn slice_chars(s: &Vec<char>, from: usize, to: usize) -> (r: Vec<char>)
    requires
        from <= to <= s.len(),
    ensures
        r@ == s@.subrange(from as int, to as int),
{
    let mut r: Vec<char> = Vec::new();
    let mut k: usize = from;
    while k < to
        invariant
            from <= k <= to <= s.len(),
            r@ == s@.subrange(from as int, k as int),
        decreases to - k,
    {
        r.push(s[k]);
        k = k + 1;
        assert(r@ =~= s@.subrange(from as int, k as int));
    }
    r
}

/// Appends the characters `s[from..to]` to `out`.
pub fn push_chars(out: &mut Vec<char>, s: &Vec<char>, from: usize, to: usize)
    requires
        from <= to <= s.len(),
    ensures
        final(out)@ == old(out)@ + s@.subrange(from as int, to as int),
{
    let mut k: usize = from;
    while k < to
        invariant
            from <= k <= to <= s.len(),
            out@ == old(out)@ + s@.subrange(from as int, k as int),
        decreases to - k,
    {
        out.push(s[k]);
        k = k + 1;
        assert(out@ =~= old(out)@ + s@.subrange(from as int, k as int));
    }
}

/// Whether `pat` occurs in `s` at position `i`.
pub fn occurs_at_exec(s: &Vec<char>, pat: &Vec<char>, i: usize) -> (r: bool)
    ensures
        r == occurs_at(s@, pat@, i as int),
{
    if pat.len() > s.len() || i > s.len() - pat.len() {
        return false;
    }
    let mut k: usize = 0;
    while k < pat.len()
        invariant
            i + pat.len() <= s.len(),
            k <= pat.len(),
            forall|t: int| 0 <= t < k ==> s@[i + t] == pat@[t],
        decreases pat.len() - k,
    {
        if s[i + k] != pat[k] {
            assert(s@.subrange(i as int, i + pat.len())[k as int] != pat@[k as int]);
            return false;
        }
        k = k + 1;
    }
    assert(s@.subrange(i as int, i + pat.len()) =~= pat@);
    true
}

/// The leftmost occurrence of `pat` in `s` at or after `i`.
pub fn find_from_exec(s: &Vec<char>, pat: &Vec<char>, i: usize) -> (r: Option<usize>)
    ensures
        match r {
            Some(m) => m as int == find_from(s@, pat@, i as int),
            None => find_from(s@, pat@, i as int) == -1,
        },
{
    if pat.len() > s.len() || i > s.len() - pat.len() {
        return None;
    }
    let last: usize = s.len() - pat.len();
    let mut j: usize = i;
    loop
        invariant
            pat.len() <= s.len(),
            last == s.len() - pat.len(),
            i <= j <= last,
            find_from(s@, pat@, i as int) == find_from(s@, pat@, j as int),
        decreases last - j,
    {
        if occurs_at_exec(s, pat, j) {
            return Some(j);
        }
        if j == last {
            assert(find_from(s@, pat@, j + 1) == -1);
            return None;
        }
        j = j + 1;
    }
}

/// The `n`-th piece of `s` split on `pat`, if there is one
/// (as `s.split(pat).nth(n)`).
pub fn split_nth(s: &Vec<char>, pat: &Vec<char>, n: usize) -> (r: Option<Vec<char>>)
    requires
        pat.len() > 0,
    ensures
        r is Some <==> n < split(s@, pat@).len(),
        r matches Some(v) ==> v@ == split(s@, pat@)[n as int],
{
    let mut start: usize = 0;
    let mut k: usize = 0;
    proof {
        lemma_pieces_nonempty(s@, pat@, 0);
        assert(split(s@, pat@).skip(0) =~= split(s@, pat@));
    }
    while k < n
        invariant
            pat.len() > 0,
            start <= s.len(),
            k <= n,
            k <= split(s@, pat@).len(),
            split(s@, pat@).skip(k as int) == pieces_from(s@, pat@, start as int),
        decreases n - k,
    {
        proof {
            lemma_find_from(s@, pat@, start as int);
        }
        match find_from_exec(s, pat, start) {
            None => {
                assert(pieces_from(s@, pat@, start as int).len() == 1);
                assert(split(s@, pat@).len() == k + 1);
                return None;
            },
            Some(m) => {
                let ghost rest = pieces_from(s@, pat@, (m + pat.len()) as int);
                assert(pieces_from(s@, pat@, start as int) == seq![
                    s@.subrange(start as int, m as int),
                ] + rest);
                let ghost tail = split(s@, pat@).skip(k as int);
                assert(split(s@, pat@).skip(k + 1) =~= tail.skip(1));
                assert((seq![s@.subrange(start as int, m as int)] + rest).skip(1) =~= rest);
                start = m + pat.len();
                k = k + 1;
            },
        }
    }
    proof {
        lemma_find_from(s@, pat@, start as int);
        lemma_pieces_nonempty(s@, pat@, start as int);
        assert(split(s@, pat@)[n as int] == split(s@, pat@).skip(n as int)[0]);
    }
    match find_from_exec(s, pat, start) {
        None => Some(slice_chars(s, start, s.len())),
        Some(m) => Some(slice_chars(s, start, m)),
    }
}

/// `s` with every occurrence of `pat` replaced by `to` (as `str::replace`).
pub fn replace_exec(s: &Vec<char>, pat: &Vec<char>, to: &Vec<char>) -> (r: Vec<char>)
    requires
        pat.len() > 0,
    ensures
        r@ == replace(s@, pat@, to@),
{
    let mut out: Vec<char> = Vec::new();
    let mut start: usize = 0;
    loop
        invariant
            pat.len() > 0,
            start <= s.len(),
            replace(s@, pat@, to@) == out@ + replaced_from(s@, pat@, to@, start as int),
        decreases s.len() - start,
    {
        proof {
            lemma_find_from(s@, pat@, start as int);
        }
        match find_from_exec(s, pat, start) {
            None => {
                push_chars(&mut out, s, start, s.len());
                return out;
            },
            Some(m) => {
                let ghost old_out = out@;
                push_chars(&mut out, s, start, m);
                let mut t: usize = 0;
                while t < to.len()
                    invariant
                        t <= to.len(),
                        out@ == old_out + s@.subrange(start as int, m as int) + to@.subrange(
                            0,
                            t as int,
                        ),
                    decreases to.len() - t,
                {
                    out.push(to[t]);
                    t = t + 1;
                    assert(out@ =~= old_out + s@.subrange(start as int, m as int)
                        + to@.subrange(0, t as int));
                }
                assert(to@.subrange(0, to.len() as int) =~= to@);
                assert(old_out + (s@.subrange(start as int, m as int) + to@ + replaced_from(
                    s@,
                    pat@,
                    to@,
                    m + pat.len(),
                )) =~= out@ + replaced_from(s@, pat@, to@, m + pat.len()));
                start = m + pat.len();
            },
        }
    }
}

/// Whether `c` has the Unicode `White_Space` property.
pub fn is_white_exec(c: char) -> (r: bool)
    ensures
        r == is_white(c),
{
    let u: u32 = c as u32;
    (0x9 <= u && u <= 0xd) || u == 0x20 || u == 0x85 || u == 0xa0 || u == 0x1680 || (0x2000 <= u
        && u <= 0x200a) || u == 0x2028 || u == 0x2029 || u == 0x202f || u == 0x205f || u == 0x3000
}

/// `s` without leading and trailing white space (as `str::trim`).
pub fn trim_exec(s: &Vec<char>) -> (r: Vec<char>)
    ensures
        r@ == trim(s@),
{
    let mut a: usize = 0;
    while a < s.len() && is_white_exec(s[a])
        invariant
            a <= s.len(),
            forall|j: int| 0 <= j < a ==> is_white(s@[j]),
        decreases s.len() - a,
    {
        a = a + 1;
    }
    proof {
        lemma_trim_start_skip(s@, a as int);
    }
    let ghost rest = s@.skip(a as int);
    assert(trim_start(rest) == rest);
    let mut b: usize = s.len();
    while b > a && is_white_exec(s[b - 1])
        invariant
            a <= b <= s.len(),
            rest == s@.skip(a as int),
            forall|j: int| b <= j < s.len() ==> is_white(s@[j]),
        decreases b - a,
    {
        b = b - 1;
    }
    proof {
        assert forall|j: int| (b - a) <= j < rest.len() implies is_white(rest[j]) by {
            assert(rest[j] == s@[j + a]);
        }
        lemma_trim_end_take(rest, (b - a) as int);
        let kept = rest.take((b - a) as int);
        assert(kept =~= s@.subrange(a as int, b as int));
        if kept.len() > 0 {
            assert(kept.last() == s@[b - 1]);
        }
    }
    slice_chars(s, a, b)
}

/// Whether `prefix` is a prefix of `s`.
pub fn has_prefix_exec(s: &Vec<char>, prefix: &Vec<char>) -> (r: bool)
    ensures
        r == has_prefix(s@, prefix@),
{
    occurs_at_exec(s, prefix, 0)
}

/// The decimal digit for `d < 10`.
pub fn digit_exec(d: u64) -> (c: char)
    requires
        d < 10,
    ensures
        c == digit(d as nat),
{
    match d {
        0 => '0',
        1 => '1',
        2 => '2',
        3 => '3',
        4 => '4',
        5 => '5',
        6 => '6',
        7 => '7',
        8 => '8',
        _ => '9',
    }
}

/// Appends the decimal rendering of `n` to `out`.
pub fn push_decimal(out: &mut Vec<char>, n: u64)
    ensures
        final(out)@ == old(out)@ + decimal(n as nat),
    decreases n,
{
    if n >= 10 {
        push_decimal(out, n / 10);
    }
    out.push(digit_exec(n % 10));
    assert(out@ =~= old(out)@ + decimal(n as nat));
}

} // verus!
