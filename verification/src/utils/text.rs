use vstd::prelude::*;

verus! {

/// Calls std's `String::push`, which appends one character to the end of the string.
#[verifier::external_body]
pub(crate) fn push_char(s: &mut String, c: char)
    ensures
        final(s)@ == old(s)@.push(c),
{
    s.push(c);
}

/// Calls std's `String::pop`, which removes the last character of the string and
/// returns it, or returns `None` and leaves the string as it was when it is empty.
#[verifier::external_body]
pub(crate) fn pop_char(s: &mut String) -> (res: Option<char>)
    ensures
        old(s)@.len() == 0 ==> res is None && final(s)@ == old(s)@,
        old(s)@.len() > 0 ==> res == Some(old(s)@.last()) && final(s)@ == old(s)@.drop_last(),
{
    s.pop()
}

} // verus!

verus! {

/// Whether `c` has the Unicode `White_Space` property, which is what std's
/// `char::is_whitespace` and `str::trim` go by.
pub open spec fn is_whitespace_char(c: char) -> bool {
    let u = c as u32;
    ||| 0x09 <= u <= 0x0d
    ||| u == 0x20
    ||| u == 0x85
    ||| u == 0xa0
    ||| u == 0x1680
    ||| 0x2000 <= u <= 0x200a
    ||| u == 0x2028
    ||| u == 0x2029
    ||| u == 0x202f
    ||| u == 0x205f
    ||| u == 0x3000
}

pub fn is_whitespace(c: char) -> (res: bool)
    ensures
        res == is_whitespace_char(c),
{
    let u = c as u32;
    (0x09 <= u && u <= 0x0d) || u == 0x20 || u == 0x85 || u == 0xa0 || u == 0x1680 || (0x2000
        <= u && u <= 0x200a) || u == 0x2028 || u == 0x2029 || u == 0x202f || u == 0x205f || u
        == 0x3000
}

/// Whether `s` begins with `p`.
pub open spec fn starts_with(s: Seq<char>, p: Seq<char>) -> bool {
    p.len() <= s.len() && s.subrange(0, p.len() as int) == p
}

/// Whether `s` ends with `p`.
pub open spec fn ends_with(s: Seq<char>, p: Seq<char>) -> bool {
    p.len() <= s.len() && s.subrange(s.len() - p.len(), s.len() as int) == p
}

/// The first position at or after `i` where `s` holds `c`, or the length of `s`.
pub open spec fn find_char_from(s: Seq<char>, c: char, i: int) -> int
    decreases s.len() - i,
{
    if i < 0 || i >= s.len() {
        s.len() as int
    } else if s[i] == c {
        i
    } else {
        find_char_from(s, c, i + 1)
    }
}

pub proof fn lemma_find_char_from(s: Seq<char>, c: char, i: int)
    requires
        0 <= i <= s.len(),
    ensures
        i <= find_char_from(s, c, i) <= s.len(),
        find_char_from(s, c, i) < s.len() ==> s[find_char_from(s, c, i)] == c,
        forall|j: int| i <= j < find_char_from(s, c, i) ==> s[j] != c,
    decreases s.len() - i,
{
    if i < s.len() && s[i] != c {
        lemma_find_char_from(s, c, i + 1);
    }
}

/// `find_char_from` gives `k` when `c` is not in `s[i..k]` and `k` is the end or holds `c`.
pub proof fn lemma_find_char_is(s: Seq<char>, c: char, i: int, k: int)
    requires
        0 <= i <= k <= s.len(),
        forall|j: int| i <= j < k ==> s[j] != c,
        k == s.len() || s[k] == c,
    ensures
        find_char_from(s, c, i) == k,
    decreases k - i,
{
    if i < k {
        lemma_find_char_is(s, c, i + 1, k);
    }
}

/// The first position at or after `i` where `c` occurs in `v`, or `v.len()`.
pub fn find_char(v: &Vec<char>, c: char, i: usize) -> (res: usize)
    requires
        i <= v@.len(),
    ensures
        res == find_char_from(v@, c, i as int),
{
    let mut j = i;
    while j < v.len() && v[j] != c
        invariant
            i <= j <= v@.len(),
            find_char_from(v@, c, j as int) == find_char_from(v@, c, i as int),
        decreases v@.len() - j,
    {
        j = j + 1;
    }
    j
}

/// The characters of a string, in order.
pub fn chars_of(s: &str) -> (res: Vec<char>)
    ensures
        res@ == s@,
{
    let n = s.unicode_len();
    let mut v: Vec<char> = Vec::new();
    let mut i: usize = 0;
    while i < n
        invariant
            n == s@.len(),
            i <= n,
            v@ == s@.subrange(0, i as int),
        decreases n - i,
    {
        v.push(s.get_char(i));
        i = i + 1;
    }
    assert(v@ == s@);
    v
}

/// A string made of the characters `from..to` of `v`.
pub fn string_from_chars(v: &Vec<char>, from: usize, to: usize) -> (res: String)
    requires
        from <= to <= v@.len(),
    ensures
        res@ == v@.subrange(from as int, to as int),
{
    let mut s = String::new();
    let mut i = from;
    while i < to
        invariant
            from <= i <= to <= v@.len(),
            s@ == v@.subrange(from as int, i as int),
        decreases to - i,
    {
        push_char(&mut s, v[i]);
        i = i + 1;
        assert(s@ == v@.subrange(from as int, i as int));
    }
    s
}

/// A vector holding the characters `from..to` of `v`.
pub fn copy_chars(v: &Vec<char>, from: usize, to: usize) -> (res: Vec<char>)
    requires
        from <= to <= v@.len(),
    ensures
        res@ == v@.subrange(from as int, to as int),
{
    let mut out: Vec<char> = Vec::new();
    let mut i = from;
    while i < to
        invariant
            from <= i <= to <= v@.len(),
            out@ == v@.subrange(from as int, i as int),
        decreases to - i,
    {
        out.push(v[i]);
        i = i + 1;
        assert(out@ == v@.subrange(from as int, i as int));
    }
    out
}

/// Whether `v` holds the characters of `p` at position `i`.
pub fn has_at(v: &Vec<char>, i: usize, p: &str) -> (res: bool)
    requires
        i <= v@.len(),
    ensures
        res == starts_with(v@.subrange(i as int, v@.len() as int), p@),
{
    let n = p.unicode_len();
    if n > v.len() - i {
        return false;
    }
    let mut k: usize = 0;
    while k < n
        invariant
            n == p@.len(),
            i + n <= v.len(),
            k <= n,
            forall|m: int| 0 <= m < k ==> v@[i + m] == p@[m],
        decreases n - k,
    {
        if v[i + k] != p.get_char(k) {
            assert(v@.subrange(i as int, v@.len() as int).subrange(0, n as int)[k as int] != p@[k as int]);
            return false;
        }
        k = k + 1;
    }
    assert(v@.subrange(i as int, v@.len() as int).subrange(0, n as int) =~= p@);
    true
}

/// The first position at or after `i` of a character that is not white space, or the
/// length of `s`.
pub open spec fn skip_whitespace_from(s: Seq<char>, i: int) -> int
    decreases s.len() - i,
{
    if i < 0 || i >= s.len() {
        s.len() as int
    } else if is_whitespace_char(s[i]) {
        skip_whitespace_from(s, i + 1)
    } else {
        i
    }
}

/// The end of `s.take(j)` once its trailing white space is dropped.
pub open spec fn trim_end_from(s: Seq<char>, j: int) -> int
    decreases j,
{
    if j <= 0 || j > s.len() {
        0
    } else if is_whitespace_char(s[j - 1]) {
        trim_end_from(s, j - 1)
    } else {
        j
    }
}

pub proof fn lemma_trim_end_from(s: Seq<char>, j: int)
    requires
        0 <= j <= s.len(),
    ensures
        0 <= trim_end_from(s, j) <= j,
        trim_end_from(s, j) > 0 ==> !is_whitespace_char(s[trim_end_from(s, j) - 1]),
        forall|k: int| trim_end_from(s, j) <= k < j ==> is_whitespace_char(s[k]),
    decreases j,
{
    if j > 0 && is_whitespace_char(s[j - 1]) {
        lemma_trim_end_from(s, j - 1);
    }
}

/// `s` without its leading and trailing white space, as std's `str::trim` gives it.
pub open spec fn trim(s: Seq<char>) -> Seq<char> {
    let a = skip_whitespace_from(s, 0);
    let b = trim_end_from(s, s.len() as int);
    if a < b {
        s.subrange(a, b)
    } else {
        Seq::empty()
    }
}

/// The bounds of `v` without its leading and trailing white space.
pub fn trim_bounds(v: &Vec<char>) -> (res: (usize, usize))
    ensures
        res.0 == skip_whitespace_from(v@, 0),
        res.1 == trim_end_from(v@, v@.len() as int),
{
    let mut a: usize = 0;
    while a < v.len() && is_whitespace(v[a])
        invariant
            a <= v@.len(),
            skip_whitespace_from(v@, a as int) == skip_whitespace_from(v@, 0),
        decreases v@.len() - a,
    {
        a = a + 1;
    }
    let mut b: usize = v.len();
    while b > 0 && is_whitespace(v[b - 1])
        invariant
            b <= v@.len(),
            trim_end_from(v@, b as int) == trim_end_from(v@, v@.len() as int),
        decreases b,
    {
        b = b - 1;
    }
    (a, b)
}

/// `v` without its leading and trailing white space.
pub fn trim_chars(v: &Vec<char>) -> (res: Vec<char>)
    ensures
        res@ == trim(v@),
{
    let (a, b) = trim_bounds(v);
    proof {
        lemma_trim_end_from(v@, v@.len() as int);
    }
    if a < b {
        copy_chars(v, a, b)
    } else {
        Vec::new()
    }
}

} // verus!

verus! {

/// Whether `p` occurs in `s` at position `i`.
pub open spec fn occurs_at(s: Seq<char>, p: Seq<char>, i: int) -> bool {
    0 <= i && i + p.len() <= s.len() && s.subrange(i, i + p.len()) == p
}

/// Whether `p` occurs anywhere in `s`.
pub open spec fn contains_text(s: Seq<char>, p: Seq<char>) -> bool {
    exists|i: int| occurs_at(s, p, i)
}

fn occurs_at_exec(v: &Vec<char>, p: &Vec<char>, i: usize) -> (res: bool)
    requires
        i + p@.len() <= v.len(),
    ensures
        res == occurs_at(v@, p@, i as int),
{
    let mut k: usize = 0;
    while k < p.len()
        invariant
            i + p@.len() <= v.len(),
            k <= p@.len(),
            forall|m: int| 0 <= m < k ==> v@[i + m] == p@[m],
        decreases p@.len() - k,
    {
        if v[i + k] != p[k] {
            assert(v@.subrange(i as int, i + p@.len())[k as int] != p@[k as int]);
            return false;
        }
        k = k + 1;
    }
    assert(v@.subrange(i as int, i + p@.len()) =~= p@);
    true
}

/// Whether `p` occurs anywhere in `v`.
pub fn contains_chars(v: &Vec<char>, p: &Vec<char>) -> (res: bool)
    ensures
        res == contains_text(v@, p@),
{
    if p.len() > v.len() {
        return false;
    }
    let last = v.len() - p.len();
    let mut i: usize = 0;
    while i <= last
        invariant_except_break
            i <= last,
            last + p@.len() == v.len(),
            forall|j: int| 0 <= j < i ==> !occurs_at(v@, p@, j),
        ensures
            forall|j: int| 0 <= j <= last ==> !occurs_at(v@, p@, j),
        decreases last + 1 - i,
    {
        if occurs_at_exec(v, p, i) {
            return true;
        }
        if i == last {
            break;
        }
        i = i + 1;
    }
    assert forall|j: int| !occurs_at(v@, p@, j) by {
        if 0 <= j && j > last {
            assert(j + p@.len() > v@.len());
        }
    }
    false
}

/// What std's `str::to_lowercase` makes of a text.
pub uninterp spec fn lowercase(s: Seq<char>) -> Seq<char>;

/// Calls std's `str::to_lowercase`. The contract names its result: the same text always
/// gives the same lowercase text.
#[verifier::external_body]
pub(crate) fn to_lowercase(s: &str) -> (res: String)
    ensures
        res@ == lowercase(s@),
{
    s.to_lowercase()
}

} // verus!

verus! {

/// Whether the characters of `p` appear in `s` in the same order, not necessarily next
/// to each other. Taking the first character of `s` that matches the first of `p` is
/// always as good as any later match, so the definition does so.
pub open spec fn is_subsequence(p: Seq<char>, s: Seq<char>) -> bool
    decreases s.len(),
{
    if p.len() == 0 {
        true
    } else if s.len() == 0 {
        false
    } else if p[0] == s[0] {
        is_subsequence(p.drop_first(), s.drop_first())
    } else {
        is_subsequence(p, s.drop_first())
    }
}

/// Whether the characters of `p` appear in `v` in the same order.
pub fn subsequence_chars(p: &Vec<char>, v: &Vec<char>) -> (res: bool)
    ensures
        res == is_subsequence(p@, v@),
{
    let mut i: usize = 0;
    let mut j: usize = 0;
    assert(p@.skip(0) =~= p@);
    assert(v@.skip(0) =~= v@);
    while i < p.len() && j < v.len()
        invariant
            i <= p@.len(),
            j <= v@.len(),
            is_subsequence(p@.skip(i as int), v@.skip(j as int)) == is_subsequence(p@, v@),
        decreases v@.len() - j,
    {
        assert(v@.skip(j as int).drop_first() =~= v@.skip(j + 1));
        assert(p@.skip(i as int).drop_first() =~= p@.skip(i + 1));
        if p[i] == v[j] {
            i = i + 1;
        }
        j = j + 1;
    }
    i == p.len()
}

} // verus!

verus! {

proof fn lemma_subsequence_drop_first(p: Seq<char>, s: Seq<char>)
    requires
        p.len() > 0,
        is_subsequence(p, s),
    ensures
        is_subsequence(p.drop_first(), s),
    decreases p.len(), s.len(),
{
    let q = p.drop_first();
    if s.len() > 0 {
        if p[0] == s[0] {
            lemma_subsequence_prepend(q, s[0], s.drop_first());
            assert(seq![s[0]] + s.drop_first() =~= s);
        } else {
            lemma_subsequence_drop_first(p, s.drop_first());
            lemma_subsequence_prepend(q, s[0], s.drop_first());
            assert(seq![s[0]] + s.drop_first() =~= s);
        }
    }
}

proof fn lemma_subsequence_prepend(p: Seq<char>, c: char, s: Seq<char>)
    requires
        is_subsequence(p, s),
    ensures
        is_subsequence(p, seq![c] + s),
    decreases p.len(), s.len() + 1,
{
    let t = seq![c] + s;
    assert(t.drop_first() =~= s);
    if p.len() > 0 && p[0] == c {
        lemma_subsequence_drop_first(p, s);
    }
}

proof fn lemma_subsequence_of_prefix(p: Seq<char>, b: Seq<char>)
    ensures
        is_subsequence(p, p + b),
    decreases p.len(),
{
    if p.len() > 0 {
        lemma_subsequence_of_prefix(p.drop_first(), b);
        assert((p + b).drop_first() =~= p.drop_first() + b);
    }
}

/// A text that occurs in `s` as one run also occurs in it as a subsequence.
pub proof fn lemma_occurrence_is_subsequence(s: Seq<char>, p: Seq<char>, i: int)
    requires
        occurs_at(s, p, i),
    ensures
        is_subsequence(p, s),
    decreases i,
{
    if i == 0 {
        lemma_subsequence_of_prefix(p, s.skip(p.len() as int));
        assert(p + s.skip(p.len() as int) =~= s);
    } else {
        let rest = s.drop_first();
        assert(rest.subrange(i - 1, i - 1 + p.len()) =~= s.subrange(i, i + p.len()));
        lemma_occurrence_is_subsequence(rest, p, i - 1);
        lemma_subsequence_prepend(p, s[0], rest);
        assert(seq![s[0]] + rest =~= s);
    }
}

} // verus!
