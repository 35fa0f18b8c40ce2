//! Small character-level helpers shared by the parsers and validators.

use vstd::prelude::*;

verus! {

/// The characters of `s`, in order.
pub fn chars_of(s: &str) -> (r: Vec<char>)
    ensures
        r@ == s@,
{
    let mut out: Vec<char> = Vec::new();
    for c in it: s.chars()
        invariant
            out@ == it.seq().take(it.index()),
            it.seq() == s@,
    {
        out.push(c);
    }
    out
}

/// Builds a `String` holding exactly the characters of `v`.
#[verifier::external_body]
pub(crate) fn string_from_chars(v: &[char]) -> (r: String)
    ensures
        r@ == v@,
{
    v.iter().collect()
}

/// Whether two character vectors are equal.
pub fn chars_equal(a: &Vec<char>, b: &Vec<char>) -> (r: bool)
    ensures
        r == (a@ == b@),
{
    if a.len() != b.len() {
        return false;
    }
    let mut i: usize = 0;
    while i < a.len()
        invariant
            a@.len() == b@.len(),
            i <= a@.len(),
            forall|j: int| 0 <= j < i ==> a@[j] == b@[j],
        decreases a@.len() - i,
    {
        if a[i] != b[i] {
            return false;
        }
        i = i + 1;
    }
    assert(a@ =~= b@);
    true
}

/// Whether two strings hold the same characters.
pub fn str_equal(a: &str, b: &str) -> (r: bool)
    ensures
        r == (a@ == b@),
{
    let ca = chars_of(a);
    let cb = chars_of(b);
    chars_equal(&ca, &cb)
}

/// `pat` occurs in `s` starting at index `k`.
pub open spec fn occurs_at(s: Seq<char>, pat: Seq<char>, k: int) -> bool {
    0 <= k && k + pat.len() <= s.len() && s.subrange(k, k + pat.len()) == pat
}

/// `pat` occurs somewhere in `s`.
pub open spec fn contains_seq(s: Seq<char>, pat: Seq<char>) -> bool {
    exists|k: int| occurs_at(s, pat, k)
}

/// `k` is the first index at which `pat` occurs in `s`.
pub open spec fn is_first_occurrence(s: Seq<char>, pat: Seq<char>, k: int) -> bool {
    occurs_at(s, pat, k) && forall|j: int| 0 <= j < k ==> !#[trigger] occurs_at(s, pat, j)
}

/// The first index at which `pat` occurs in `s`, if any.
pub open spec fn first_occurrence(s: Seq<char>, pat: Seq<char>) -> Option<int> {
    if contains_seq(s, pat) {
        Some(choose|k: int| is_first_occurrence(s, pat, k))
    } else {
        None
    }
}

/// The first occurrence is unique and exists whenever `pat` occurs.
pub proof fn lemma_first_occurrence(s: Seq<char>, pat: Seq<char>, k: int)
    requires
        is_first_occurrence(s, pat, k),
    ensures
        first_occurrence(s, pat) == Some(k),
{
    let c = choose|m: int| is_first_occurrence(s, pat, m);
    assert(is_first_occurrence(s, pat, c));
    if c < k {
        assert(!occurs_at(s, pat, c));
    } else if c > k {
        assert(!occurs_at(s, pat, k));
    }
}

fn occurs_at_exec(s: &Vec<char>, pat: &Vec<char>, k: usize) -> (r: bool)
    requires
        k + pat@.len() <= s@.len(),
    ensures
        r == occurs_at(s@, pat@, k as int),
{
    let n = s.len();
    let mut i: usize = 0;
    while i < pat.len()
        invariant
            n == s@.len(),
            k + pat@.len() <= s@.len(),
            i <= pat@.len(),
            forall|j: int| 0 <= j < i ==> s@[k + j] == pat@[j],
        decreases pat@.len() - i,
    {
        assert(k + i < s@.len());
        if s[k + i] != pat[i] {
            assert(s@.subrange(k as int, k + pat@.len())[i as int] != pat@[i as int]);
            return false;
        }
        i = i + 1;
    }
    assert(s@.subrange(k as int, k + pat@.len()) =~= pat@);
    true
}

/// The first index at which `pat` occurs in `s`.
pub fn find_chars(s: &Vec<char>, pat: &Vec<char>) -> (r: Option<usize>)
    ensures
        r matches Some(k) ==> is_first_occurrence(s@, pat@, k as int),
        r is None ==> !contains_seq(s@, pat@),
        r matches Some(k) ==> first_occurrence(s@, pat@) == Some(k as int),
        r is None ==> first_occurrence(s@, pat@) is None,
{
    if pat.len() > s.len() {
        return None;
    }
    let last = s.len() - pat.len();
    let mut k: usize = 0;
    while k <= last
        invariant
            pat@.len() <= s@.len(),
            last == s@.len() - pat@.len(),
            k <= last + 1,
            forall|j: int| 0 <= j < k ==> !#[trigger] occurs_at(s@, pat@, j),
        decreases last + 1 - k,
    {
        if occurs_at_exec(s, pat, k) {
            proof {
                lemma_first_occurrence(s@, pat@, k as int);
            }
            return Some(k);
        }
        if k == last {
            assert forall|j: int| !occurs_at(s@, pat@, j) by {
                if 0 <= j <= k {
                }
            }
            return None;
        }
        k = k + 1;
    }
    None
}

/// The index of the first character of `s` that is `a` or `b`.
pub open spec fn is_first_of_two(s: Seq<char>, a: char, b: char, k: int) -> bool {
    &&& 0 <= k < s.len()
    &&& (s[k] == a || s[k] == b)
    &&& forall|j: int| 0 <= j < k ==> #[trigger] s[j] != a && s[j] != b
}

/// The first index of `s` holding `a` or `b`, if any.
pub open spec fn first_of_two(s: Seq<char>, a: char, b: char) -> Option<int> {
    if exists|k: int| is_first_of_two(s, a, b, k) {
        Some(choose|k: int| is_first_of_two(s, a, b, k))
    } else {
        None
    }
}

/// The first index holding `a` or `b` is unique.
pub proof fn lemma_first_of_two(s: Seq<char>, a: char, b: char, k: int)
    requires
        is_first_of_two(s, a, b, k),
    ensures
        first_of_two(s, a, b) == Some(k),
{
    let c = choose|m: int| is_first_of_two(s, a, b, m);
    assert(is_first_of_two(s, a, b, c));
    if c < k {
        assert(s[c] != a && s[c] != b);
    } else if c > k {
        assert(s[k] != a && s[k] != b);
    }
}

/// The first index holding `a` or `b`, searching from `from`.
pub fn find_either(s: &Vec<char>, from: usize, a: char, b: char) -> (r: Option<usize>)
    requires
        from <= s@.len(),
    ensures
        r matches Some(k) ==> from <= k < s@.len() && (s@[k as int] == a || s@[k as int] == b)
            && forall|j: int| from <= j < k ==> #[trigger] s@[j] != a && s@[j] != b,
        r is None ==> forall|j: int| from <= j < s@.len() ==> #[trigger] s@[j] != a && s@[j] != b,
        r matches Some(k) ==> first_of_two(s@.skip(from as int), a, b) == Some(k - from),
        r is None ==> first_of_two(s@.skip(from as int), a, b) is None,
{
    let ghost rest = s@.skip(from as int);
    let mut k = from;
    while k < s.len()
        invariant
            from <= k <= s@.len(),
            rest == s@.skip(from as int),
            forall|j: int| from <= j < k ==> #[trigger] s@[j] != a && s@[j] != b,
        decreases s@.len() - k,
    {
        if s[k] == a || s[k] == b {
            proof {
                assert forall|j: int| 0 <= j < k - from implies #[trigger] rest[j] != a && rest[j]
                    != b by {
                    assert(rest[j] == s@[from + j]);
                }
                lemma_first_of_two(rest, a, b, k - from);
            }
            return Some(k);
        }
        k = k + 1;
    }
    proof {
        assert forall|m: int| !is_first_of_two(rest, a, b, m) by {
            if is_first_of_two(rest, a, b, m) {
                assert(rest[m] == s@[from + m]);
            }
        }
    }
    None
}

/// `s` begins with `p`.
pub open spec fn starts_with_seq(s: Seq<char>, p: Seq<char>) -> bool {
    p.len() <= s.len() && s.take(p.len() as int) == p
}

/// `s` ends with `p`.
pub open spec fn ends_with_seq(s: Seq<char>, p: Seq<char>) -> bool {
    p.len() <= s.len() && s.skip(s.len() - p.len()) == p
}

/// Whether `s` begins with `p`.
pub fn starts_with_chars(s: &Vec<char>, p: &Vec<char>) -> (r: bool)
    ensures
        r == starts_with_seq(s@, p@),
{
    if p.len() > s.len() {
        return false;
    }
    let mut i: usize = 0;
    while i < p.len()
        invariant
            p@.len() <= s@.len(),
            i <= p@.len(),
            forall|j: int| 0 <= j < i ==> s@[j] == p@[j],
        decreases p@.len() - i,
    {
        if s[i] != p[i] {
            assert(s@.take(p@.len() as int)[i as int] != p@[i as int]);
            return false;
        }
        i = i + 1;
    }
    assert(s@.take(p@.len() as int) =~= p@);
    true
}

/// Whether `s` ends with `p`.
pub fn ends_with_chars(s: &Vec<char>, p: &Vec<char>) -> (r: bool)
    ensures
        r == ends_with_seq(s@, p@),
{
    if p.len() > s.len() {
        return false;
    }
    let n: usize = s.len();
    let off: usize = n - p.len();
    let mut i: usize = 0;
    while i < p.len()
        invariant
            n == s@.len(),
            p@.len() <= s@.len(),
            off == s@.len() - p@.len(),
            i <= p@.len(),
            forall|j: int| 0 <= j < i ==> s@[off + j] == p@[j],
        decreases p@.len() - i,
    {
        if s[off + i] != p[i] {
            assert(s@.skip(off as int)[i as int] != p@[i as int]);
            return false;
        }
        i = i + 1;
    }
    assert(s@.skip(off as int) =~= p@);
    true
}

/// Whether `c` occurs in `s`.
pub fn contains_char(s: &Vec<char>, c: char) -> (r: bool)
    ensures
        r == s@.contains(c),
{
    let mut i: usize = 0;
    while i < s.len()
        invariant
            i <= s@.len(),
            forall|j: int| 0 <= j < i ==> s@[j] != c,
        decreases s@.len() - i,
    {
        if s[i] == c {
            assert(s@[i as int] == c);
            return true;
        }
        i = i + 1;
    }
    false
}

/// ASCII upper-case letters mapped to lower case.
pub open spec fn ascii_lower(c: char) -> char {
    if 'A' <= c && c <= 'Z' {
        ((c as u32) + 32) as char
    } else {
        c
    }
}

/// The text with ASCII upper-case letters mapped to lower case.
pub open spec fn ascii_lowercase(s: Seq<char>) -> Seq<char> {
    Seq::new(s.len(), |i: int| ascii_lower(s[i]))
}

/// Lower-cases the ASCII letters of `s` (`to_ascii_lowercase`).
pub fn to_ascii_lowercase(s: &Vec<char>) -> (r: Vec<char>)
    ensures
        r@ == ascii_lowercase(s@),
{
    let mut out: Vec<char> = Vec::new();
    let mut i: usize = 0;
    while i < s.len()
        invariant
            i <= s@.len(),
            out@ == ascii_lowercase(s@.take(i as int)),
        decreases s@.len() - i,
    {
        let c = s[i];
        let l = if 'A' <= c && c <= 'Z' {
            let code: u8 = (c as u8) + 32;
            code as char
        } else {
            c
        };
        out.push(l);
        i = i + 1;
        assert(out@ =~= ascii_lowercase(s@.take(i as int)));
    }
    assert(s@.take(s@.len() as int) =~= s@);
    out
}

/// ASCII lower-case letters mapped to upper case.
pub open spec fn ascii_upper(c: char) -> char {
    if 'a' <= c && c <= 'z' {
        ((c as u32) - 32) as char
    } else {
        c
    }
}

/// The text with ASCII lower-case letters mapped to upper case.
pub open spec fn ascii_uppercase(s: Seq<char>) -> Seq<char> {
    Seq::new(s.len(), |i: int| ascii_upper(s[i]))
}

/// Upper-cases the ASCII letters of `s` (`to_ascii_uppercase`).
pub fn to_ascii_uppercase(s: &Vec<char>) -> (r: Vec<char>)
    ensures
        r@ == ascii_uppercase(s@),
{
    let mut out: Vec<char> = Vec::new();
    let mut i: usize = 0;
    while i < s.len()
        invariant
            i <= s@.len(),
            out@ == ascii_uppercase(s@.take(i as int)),
        decreases s@.len() - i,
    {
        let c = s[i];
        let u = if 'a' <= c && c <= 'z' {
            let code: u8 = (c as u8) - 32;
            code as char
        } else {
            c
        };
        out.push(u);
        i = i + 1;
        assert(out@ =~= ascii_uppercase(s@.take(i as int)));
    }
    assert(s@.take(s@.len() as int) =~= s@);
    out
}

/// The characters of `a` followed by those of `b`.
pub fn concat_chars(a: &Vec<char>, b: &Vec<char>) -> (r: Vec<char>)
    ensures
        r@ == a@ + b@,
{
    let mut out: Vec<char> = Vec::new();
    let mut i: usize = 0;
    while i < a.len()
        invariant
            i <= a@.len(),
            out@ == a@.take(i as int),
        decreases a@.len() - i,
    {
        out.push(a[i]);
        i = i + 1;
        assert(out@ =~= a@.take(i as int));
    }
    let mut j: usize = 0;
    while j < b.len()
        invariant
            i == a@.len(),
            j <= b@.len(),
            out@ == a@ + b@.take(j as int),
        decreases b@.len() - j,
    {
        out.push(b[j]);
        j = j + 1;
        assert(out@ =~= a@ + b@.take(j as int));
    }
    assert(a@.take(a@.len() as int) =~= a@);
    assert(b@.take(b@.len() as int) =~= b@);
    out
}

/// The texts of a list of string slices.
pub open spec fn str_views(parts: Seq<&str>) -> Seq<Seq<char>> {
    Seq::new(parts.len(), |i: int| parts[i]@)
}

/// The concatenation of a list of texts, in order.
pub open spec fn joined(parts: Seq<Seq<char>>) -> Seq<char>
    decreases parts.len(),
{
    if parts.len() == 0 {
        Seq::empty()
    } else {
        joined(parts.drop_last()) + parts.last()
    }
}

/// Concatenates the given pieces into one string.
pub fn join_strs(parts: &Vec<&str>) -> (r: String)
    ensures
        r@ == joined(str_views(parts@)),
{
    let mut out = String::new();
    let mut i: usize = 0;
    assert(str_views(parts@.take(0)) =~= Seq::<Seq<char>>::empty());
    while i < parts.len()
        invariant
            i <= parts@.len(),
            out@ == joined(str_views(parts@.take(i as int))),
        decreases parts@.len() - i,
    {
        assert(str_views(parts@.take(i + 1)).drop_last() =~= str_views(parts@.take(i as int)));
        out.append(parts[i]);
        i = i + 1;
    }
    assert(parts@.take(parts@.len() as int) =~= parts@);
    out
}

} // verus!
