//! Character sequences: occurrences of a pattern, the first and the last
//! index of a character, and the trimming of white space.

use vstd::prelude::*;
use vstd::string::StrSliceExecFns;

verus! {

/// `pat` stands in `s` at index `i`.
pub open spec fn occurs_at(s: Seq<char>, pat: Seq<char>, i: int) -> bool {
    &&& 0 <= i
    &&& i + pat.len() <= s.len()
    &&& s.subrange(i, i + pat.len()) == pat
}

/// `pat` stands in `s` at index `i` and nowhere before.
pub open spec fn is_first_occurrence(s: Seq<char>, pat: Seq<char>, i: int) -> bool {
    &&& occurs_at(s, pat, i)
    &&& forall|j: int| 0 <= j < i ==> !occurs_at(s, pat, j)
}

/// The index at which `pat` first stands in `s`.
pub open spec fn first_occurrence(s: Seq<char>, pat: Seq<char>) -> Option<int> {
    if exists|i: int| is_first_occurrence(s, pat, i) {
        Some(choose|i: int| is_first_occurrence(s, pat, i))
    } else {
        None
    }
}

/// There is one first occurrence at most.
pub proof fn lemma_first_occurrence(s: Seq<char>, pat: Seq<char>, i: int)
    requires
        is_first_occurrence(s, pat, i),
    ensures
        first_occurrence(s, pat) == Some(i),
{
}

/// The characters of `s`, one element each.
pub fn chars_of(s: &str) -> (v: Vec<char>)
    ensures
        v@ == s@,
{
    let mut v: Vec<char> = Vec::new();
    for c in it: s.chars()
        invariant
            it.seq() == s@,
            v@ == s@.take(it.index() as int),
    {
        v.push(c);
    }
    v
}

/// The first index at which `s` holds `c`.
pub open spec fn is_first_index(s: Seq<char>, c: char, i: int) -> bool {
    &&& 0 <= i < s.len()
    &&& s[i] == c
    &&& forall|j: int| 0 <= j < i ==> s[j] != c
}

/// The last index at which `s` holds `c`.
pub open spec fn is_last_index(s: Seq<char>, c: char, i: int) -> bool {
    &&& 0 <= i < s.len()
    &&& s[i] == c
    &&& forall|j: int| i < j < s.len() ==> s[j] != c
}

pub open spec fn first_index_of(s: Seq<char>, c: char) -> Option<int> {
    if exists|i: int| is_first_index(s, c, i) {
        Some(choose|i: int| is_first_index(s, c, i))
    } else {
        None
    }
}

pub open spec fn last_index_of(s: Seq<char>, c: char) -> Option<int> {
    if exists|i: int| is_last_index(s, c, i) {
        Some(choose|i: int| is_last_index(s, c, i))
    } else {
        None
    }
}

/// `s` holds `c` nowhere.
pub open spec fn lacks(s: Seq<char>, c: char) -> bool {
    forall|i: int| 0 <= i < s.len() ==> s[i] != c
}

/// There is one first index at most.
pub proof fn lemma_first_index(s: Seq<char>, c: char, i: int)
    requires
        is_first_index(s, c, i),
    ensures
        first_index_of(s, c) == Some(i),
{
}

/// There is one last index at most.
pub proof fn lemma_last_index(s: Seq<char>, c: char, i: int)
    requires
        is_last_index(s, c, i),
    ensures
        last_index_of(s, c) == Some(i),
{
}

/// A text without `c` has neither a first nor a last index of it.
pub proof fn lemma_lacks(s: Seq<char>, c: char)
    requires
        lacks(s, c),
    ensures
        first_index_of(s, c) is None,
        last_index_of(s, c) is None,
{
}

/// Whether `pat` stands in `s` at index `i`.
pub fn matches_at(s: &Vec<char>, pat: &Vec<char>, i: usize) -> (r: bool)
    ensures
        r == occurs_at(s@, pat@, i as int),
{
    if pat.len() > s.len() || i > s.len() - pat.len() {
        return false;
    }
    let mut k: usize = 0;
    while k < pat.len()
        invariant
            k <= pat.len(),
            i + pat.len() <= s.len(),
            forall|j: int| 0 <= j < k ==> s@[i + j] == pat@[j],
        decreases pat.len() - k,
    {
        if s[i + k] != pat[k] {
            return false;
        }
        k += 1;
    }
    assert(s@.subrange(i as int, i + pat.len()) =~= pat@);
    true
}

/// The index, counted from `from`, at which `pat` first stands in what
/// `s` holds from `from` on.
pub fn find_from(s: &Vec<char>, from: usize, pat: &Vec<char>) -> (r: Option<usize>)
    requires
        from <= s.len(),
    ensures
        match r {
            Some(k) => first_occurrence(s@.skip(from as int), pat@) == Some(k as int) && from + k
                + pat.len() <= s.len(),
            None => first_occurrence(s@.skip(from as int), pat@) is None,
        },
{
    let ghost rest = s@.skip(from as int);
    let mut i: usize = from;
    while i < s.len()
        invariant
            from <= i <= s.len(),
            rest == s@.skip(from as int),
            forall|j: int| 0 <= j < i - from ==> !occurs_at(rest, pat@, j),
        decreases s.len() - i,
    {
        proof {
            lemma_occurs_at_skip(s@, from as int, pat@, i - from);
        }
        if matches_at(s, pat, i) {
            proof {
                lemma_first_occurrence(rest, pat@, i - from);
            }
            return Some(i - from);
        }
        i += 1;
    }
    proof {
        lemma_occurs_at_skip(s@, from as int, pat@, i - from);
    }
    if matches_at(s, pat, i) {
        proof {
            lemma_first_occurrence(rest, pat@, i - from);
        }
        return Some(i - from);
    }
    None
}

/// An occurrence in what follows index `from` is one in the whole, `from`
/// places further on.
pub proof fn lemma_occurs_at_skip(s: Seq<char>, from: int, pat: Seq<char>, i: int)
    requires
        0 <= from <= s.len(),
        0 <= i,
    ensures
        occurs_at(s.skip(from), pat, i) == occurs_at(s, pat, from + i),
{
    if i + pat.len() <= s.len() - from {
        assert(s.skip(from).subrange(i, i + pat.len()) =~= s.subrange(
            from + i,
            from + i + pat.len(),
        ));
    }
}

/// The first index of `c` in `s[from..to]`, counted from `from`.
pub fn index_of(s: &Vec<char>, from: usize, to: usize, c: char) -> (r: Option<usize>)
    requires
        from <= to <= s.len(),
    ensures
        match r {
            Some(k) => first_index_of(s@.subrange(from as int, to as int), c) == Some(k as int)
                && from + k < to,
            None => lacks(s@.subrange(from as int, to as int), c),
        },
{
    let ghost part = s@.subrange(from as int, to as int);
    let mut i: usize = from;
    while i < to
        invariant
            from <= i <= to <= s.len(),
            part == s@.subrange(from as int, to as int),
            forall|j: int| 0 <= j < i - from ==> part[j] != c,
        decreases to - i,
    {
        if s[i] == c {
            proof {
                lemma_first_index(part, c, i - from);
            }
            return Some(i - from);
        }
        i += 1;
    }
    None
}

/// The last index of `c` in `s[from..to]`, counted from `from`.
pub fn last_index(s: &Vec<char>, from: usize, to: usize, c: char) -> (r: Option<usize>)
    requires
        from <= to <= s.len(),
    ensures
        match r {
            Some(k) => last_index_of(s@.subrange(from as int, to as int), c) == Some(k as int)
                && from + k < to,
            None => lacks(s@.subrange(from as int, to as int), c),
        },
{
    let ghost part = s@.subrange(from as int, to as int);
    let mut i: usize = to;
    while i > from
        invariant
            from <= i <= to <= s.len(),
            part == s@.subrange(from as int, to as int),
            forall|j: int| i - from <= j < part.len() ==> part[j] != c,
        decreases i,
    {
        i -= 1;
        if s[i] == c {
            proof {
                lemma_last_index(part, c, i - from);
            }
            return Some(i - from);
        }
    }
    None
}

/// White space, as Unicode defines it.
pub open spec fn is_space(c: char) -> bool {
    let n = c as u32;
    ||| 0x09 <= n <= 0x0d
    ||| n == 0x20
    ||| n == 0x85
    ||| n == 0xa0
    ||| n == 0x1680
    ||| 0x2000 <= n <= 0x200a
    ||| n == 0x2028
    ||| n == 0x2029
    ||| n == 0x202f
    ||| n == 0x205f
    ||| n == 0x3000
}

/// `s` without the white space that it begins with.
pub open spec fn trim_start(s: Seq<char>) -> Seq<char>
    decreases s.len(),
{
    if s.len() > 0 && is_space(s[0]) {
        trim_start(s.drop_first())
    } else {
        s
    }
}

/// `s` without the white space that it ends with.
pub open spec fn trim_end(s: Seq<char>) -> Seq<char>
    decreases s.len(),
{
    if s.len() > 0 && is_space(s.last()) {
        trim_end(s.drop_last())
    } else {
        s
    }
}

/// `s` without the white space at its two ends.
pub open spec fn trim(s: Seq<char>) -> Seq<char> {
    trim_end(trim_start(s))
}

/// Whether `c` is white space.
pub fn char_is_space(c: char) -> (r: bool)
    ensures
        r == is_space(c),
{
    let n: u32 = c as u32;
    (0x09 <= n && n <= 0x0d) || n == 0x20 || n == 0x85 || n == 0xa0 || n == 0x1680 || (0x2000 <= n
        && n <= 0x200a) || n == 0x2028 || n == 0x2029 || n == 0x202f || n == 0x205f || n == 0x3000
}

/// The bounds of `s[from..to]` without the white space at its two ends.
pub fn trim_bounds(s: &Vec<char>, from: usize, to: usize) -> (r: (usize, usize))
    requires
        from <= to <= s.len(),
    ensures
        from <= r.0 <= r.1 <= to,
        s@.subrange(r.0 as int, r.1 as int) == trim(s@.subrange(from as int, to as int)),
{
    let mut a: usize = from;
    while a < to && char_is_space(s[a])
        invariant
            from <= a <= to <= s.len(),
            trim_start(s@.subrange(a as int, to as int)) == trim_start(
                s@.subrange(from as int, to as int),
            ),
        decreases to - a,
    {
        assert(s@.subrange(a as int, to as int).drop_first() =~= s@.subrange(a + 1, to as int));
        a += 1;
    }
    let mut b: usize = to;
    while b > a && char_is_space(s[b - 1])
        invariant
            a <= b <= to <= s.len(),
            trim_end(s@.subrange(a as int, b as int)) == trim_end(s@.subrange(a as int, to as int)),
        decreases b,
    {
        assert(s@.subrange(a as int, b as int).drop_last() =~= s@.subrange(a as int, b - 1));
        b -= 1;
    }
    (a, b)
}

/// The characters of `s` from index `from` up to `to`, as a string of its own.
pub fn slice_of(s: &str, from: usize, to: usize) -> (r: String)
    requires
        from <= to <= s@.len(),
    ensures
        r@ == s@.subrange(from as int, to as int),
{
    s.substring_char(from, to).to_owned()
}

/// `s` holds white space and nothing else.
pub open spec fn all_spaces(s: Seq<char>) -> bool {
    forall|i: int| 0 <= i < s.len() ==> is_space(s[i])
}

/// White space in front of a text that begins with none is trimmed away,
/// and nothing more.
pub proof fn lemma_trim_start(p: Seq<char>, x: Seq<char>)
    requires
        all_spaces(p),
        x.len() > 0 ==> !is_space(x[0]),
    ensures
        trim_start(p + x) == x,
    decreases p.len(),
{
    if p.len() == 0 {
    } else {
        assert((p + x).drop_first() =~= p.drop_first() + x);
        lemma_trim_start(p.drop_first(), x);
    }
}

/// White space behind a text that ends with none is trimmed away, and
/// nothing more.
pub proof fn lemma_trim_end(x: Seq<char>, q: Seq<char>)
    requires
        all_spaces(q),
        x.len() > 0 ==> !is_space(x.last()),
    ensures
        trim_end(x + q) == x,
    decreases q.len(),
{
    if q.len() == 0 {
    } else {
        assert((x + q).drop_last() =~= x + q.drop_last());
        lemma_trim_end(x, q.drop_last());
    }
}

/// A text with white space around it is trimmed to the text, where the
/// text neither begins nor ends with white space.
pub proof fn lemma_trim(p: Seq<char>, x: Seq<char>, q: Seq<char>)
    requires
        all_spaces(p),
        all_spaces(q),
        x.len() > 0 ==> !is_space(x[0]) && !is_space(x.last()),
    ensures
        trim(p + x + q) == x,
{
    if x.len() == 0 {
        lemma_trim_start(p + q, x);
        lemma_trim_end(x, Seq::<char>::empty());
    } else {
        assert(p + x + q =~= p + (x + q));
        lemma_trim_start(p, x + q);
        lemma_trim_end(x, q);
    }
}

} // verus!
