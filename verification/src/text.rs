//! Character-level searching and ordering, shared by the parsers and the
//! sorters.  Everything here is stated over `Seq<char>`, the view of a
//! string.

use vstd::prelude::*;
use vstd::string::*;

verus! {

/// Three-way outcome of a comparison.
#[derive(Clone, Copy, Debug, PartialEq, Eq, Structural)]
pub enum Precedence {
    Lower,
    Same,
    Higher,
}

/// First position at or after `from` at which `c` stands in `s`, and
/// `s.len()` where it stands nowhere from there on.
pub open spec fn first_at(s: Seq<char>, c: char, from: int) -> int
    decreases s.len() - from,
{
    if from >= s.len() {
        s.len() as int
    } else if from >= 0 && s[from] == c {
        from
    } else {
        first_at(s, c, from + 1)
    }
}

/// Last position below `upto` at which `c` stands in `s`, and `-1` where it
/// stands nowhere below.
pub open spec fn last_before(s: Seq<char>, c: char, upto: int) -> int
    decreases upto,
{
    if upto <= 0 {
        -1
    } else if upto <= s.len() && s[upto - 1] == c {
        upto - 1
    } else {
        last_before(s, c, upto - 1)
    }
}

/// `pat` stands in `s` at position `i`.
pub open spec fn occurs_at(s: Seq<char>, pat: Seq<char>, i: int) -> bool {
    0 <= i && i + pat.len() <= s.len() && forall|j: int|
        0 <= j < pat.len() ==> s[i + j] == #[trigger] pat[j]
}

/// First position at or after `from` at which `pat` stands in `s`, and `-1`
/// where it stands nowhere from there on.
pub open spec fn first_occurrence(s: Seq<char>, pat: Seq<char>, from: int) -> int
    decreases s.len() - from,
{
    if from + pat.len() > s.len() {
        -1
    } else if occurs_at(s, pat, from) {
        from
    } else {
        first_occurrence(s, pat, from + 1)
    }
}

/// Last position below `upto` at which `pat` stands in `s`, and `-1` where
/// it stands nowhere below.
pub open spec fn last_occurrence(s: Seq<char>, pat: Seq<char>, upto: int) -> int
    decreases upto,
{
    if upto <= 0 {
        -1
    } else if occurs_at(s, pat, upto - 1) {
        upto - 1
    } else {
        last_occurrence(s, pat, upto - 1)
    }
}

/// `pat` stands somewhere in `s`.
pub open spec fn has_occurrence(s: Seq<char>, pat: Seq<char>) -> bool {
    first_occurrence(s, pat, 0) >= 0
}

/// Lexicographic comparison by code point: the first position at which the
/// two differ decides, and a proper prefix comes first.
pub open spec fn lex_order(a: Seq<char>, b: Seq<char>) -> Precedence
    decreases a.len(),
{
    if a.len() == 0 {
        if b.len() == 0 {
            Precedence::Same
        } else {
            Precedence::Lower
        }
    } else if b.len() == 0 {
        Precedence::Higher
    } else if a[0] == b[0] {
        lex_order(a.drop_first(), b.drop_first())
    } else if a[0] < b[0] {
        Precedence::Lower
    } else {
        Precedence::Higher
    }
}

/// `a` comes before `b` lexicographically, or equals it.
pub open spec fn lex_le(a: Seq<char>, b: Seq<char>) -> bool {
    lex_order(a, b) != Precedence::Higher
}

/// Lexicographic comparison of byte strings.
pub open spec fn byte_order(a: Seq<u8>, b: Seq<u8>) -> Precedence
    decreases a.len(),
{
    if a.len() == 0 {
        if b.len() == 0 {
            Precedence::Same
        } else {
            Precedence::Lower
        }
    } else if b.len() == 0 {
        Precedence::Higher
    } else if a[0] == b[0] {
        byte_order(a.drop_first(), b.drop_first())
    } else if a[0] < b[0] {
        Precedence::Lower
    } else {
        Precedence::Higher
    }
}

/// Shorter byte strings first; byte strings of one length in
/// lexicographic order.
pub open spec fn len_alpha_order(a: Seq<u8>, b: Seq<u8>) -> Precedence {
    if a.len() < b.len() {
        Precedence::Lower
    } else if a.len() > b.len() {
        Precedence::Higher
    } else {
        byte_order(a, b)
    }
}

/// What `first_at` returns lies between `from` and the end, holds `c` unless
/// it is the end, and nothing between `from` and it holds `c`.
pub proof fn lemma_first_at(s: Seq<char>, c: char, from: int)
    requires
        0 <= from <= s.len(),
    ensures
        from <= first_at(s, c, from) <= s.len(),
        first_at(s, c, from) < s.len() ==> s[first_at(s, c, from)] == c,
        forall|k: int| from <= k < first_at(s, c, from) ==> s[k] != c,
    decreases s.len() - from,
{
    if from < s.len() && s[from] != c {
        lemma_first_at(s, c, from + 1);
    }
}

/// Nothing is found beyond the end of the text.
pub proof fn lemma_last_before_beyond(s: Seq<char>, c: char, upto: int)
    requires
        upto >= s.len(),
    ensures
        last_before(s, c, upto) == last_before(s, c, s.len() as int),
    decreases upto - s.len(),
{
    if upto > s.len() {
        lemma_last_before_beyond(s, c, upto - 1);
    }
}

/// What `first_occurrence` returns is a place where `pat` stands, the first
/// one from `from` on; `-1` says that there is none.
pub proof fn lemma_first_occurrence(s: Seq<char>, pat: Seq<char>, from: int)
    requires
        0 <= from,
    ensures
        first_occurrence(s, pat, from) == -1 || from <= first_occurrence(s, pat, from),
        first_occurrence(s, pat, from) >= 0 ==> occurs_at(s, pat, first_occurrence(s, pat, from)),
        first_occurrence(s, pat, from) >= 0 ==> forall|k: int|
            from <= k < first_occurrence(s, pat, from) ==> !occurs_at(s, pat, k),
        first_occurrence(s, pat, from) == -1 ==> forall|k: int| from <= k ==> !occurs_at(s, pat, k),
    decreases s.len() - from,
{
    if from + pat.len() <= s.len() && !occurs_at(s, pat, from) {
        lemma_first_occurrence(s, pat, from + 1);
    }
}

/// What `last_occurrence` returns is a place where `pat` stands, the last
/// one below `upto`; `-1` says that there is none.
pub proof fn lemma_last_occurrence(s: Seq<char>, pat: Seq<char>, upto: int)
    ensures
        -1 <= last_occurrence(s, pat, upto),
        last_occurrence(s, pat, upto) >= 0 ==> last_occurrence(s, pat, upto) < upto && occurs_at(
            s,
            pat,
            last_occurrence(s, pat, upto),
        ),
        forall|k: int| last_occurrence(s, pat, upto) < k < upto ==> !occurs_at(s, pat, k),
    decreases upto,
{
    if upto > 0 && !occurs_at(s, pat, upto - 1) {
        lemma_last_occurrence(s, pat, upto - 1);
    }
}

/// Comparing a text with itself gives `Same`.
pub proof fn lemma_lex_reflexive(a: Seq<char>)
    ensures
        lex_order(a, a) == Precedence::Same,
    decreases a.len(),
{
    if a.len() > 0 {
        lemma_lex_reflexive(a.drop_first());
    }
}

/// Only equal texts compare as `Same`.
pub proof fn lemma_lex_same_is_equal(a: Seq<char>, b: Seq<char>)
    requires
        lex_order(a, b) == Precedence::Same,
    ensures
        a == b,
    decreases a.len(),
{
    if a.len() > 0 {
        lemma_lex_same_is_equal(a.drop_first(), b.drop_first());
        assert(a =~= seq![a[0]] + a.drop_first());
        assert(b =~= seq![b[0]] + b.drop_first());
    } else {
        assert(a =~= b);
    }
}

/// Swapping the two texts swaps `Lower` and `Higher`.
pub proof fn lemma_lex_flip(a: Seq<char>, b: Seq<char>)
    ensures
        lex_order(a, b) == Precedence::Lower <==> lex_order(b, a) == Precedence::Higher,
        lex_order(a, b) == Precedence::Same <==> lex_order(b, a) == Precedence::Same,
    decreases a.len(),
{
    if a.len() > 0 && b.len() > 0 {
        if a[0] == b[0] {
            lemma_lex_flip(a.drop_first(), b.drop_first());
        }
    }
}

/// The lexicographic order is transitive.
pub proof fn lemma_lex_transitive(a: Seq<char>, b: Seq<char>, c: Seq<char>)
    requires
        lex_le(a, b),
        lex_le(b, c),
    ensures
        lex_le(a, c),
        lex_order(a, b) == Precedence::Lower || lex_order(b, c) == Precedence::Lower ==> lex_order(
            a,
            c,
        ) == Precedence::Lower,
    decreases a.len(),
{
    if a.len() > 0 && b.len() > 0 && c.len() > 0 && a[0] == b[0] && b[0] == c[0] {
        lemma_lex_transitive(a.drop_first(), b.drop_first(), c.drop_first());
    }
}

/// The characters of `s`, in order.
pub fn chars_of(s: &str) -> (v: Vec<char>)
    ensures
        v@ == s@,
{
    broadcast use group_string_axioms;

    let mut v: Vec<char> = Vec::new();
    for c in it: s.chars()
        invariant
            it.seq() == s@,
            v@ =~= it.seq().take(it.index() as int),
    {
        v.push(c);
    }
    assert(v@ =~= s@);
    v
}

/// Finds the first `c` at or after `from`; the length of `s` where there
/// is none.
pub fn find_char(s: &Vec<char>, c: char, from: usize) -> (r: usize)
    ensures
        r == first_at(s@, c, from as int),
        r <= s.len(),
        from <= s.len() ==> from <= r,
{
    if from >= s.len() {
        return s.len();
    }
    let mut i: usize = from;
    while i < s.len() && s[i] != c
        invariant
            from <= i <= s.len(),
            first_at(s@, c, from as int) == first_at(s@, c, i as int),
        decreases s.len() - i,
    {
        i += 1;
    }
    i
}

/// Finds the last `c` below `upto`.
pub fn find_last_char(s: &Vec<char>, c: char, upto: usize) -> (r: Option<usize>)
    ensures
        match r {
            Some(i) => i == last_before(s@, c, upto as int) && i < upto && i < s.len(),
            None => last_before(s@, c, upto as int) == -1,
        },
{
    let mut i: usize = if upto <= s.len() {
        upto
    } else {
        proof {
            lemma_last_before_beyond(s@, c, upto as int);
        }
        s.len()
    };
    while i > 0 && s[i - 1] != c
        invariant
            i <= upto,
            i <= s.len(),
            last_before(s@, c, upto as int) == last_before(s@, c, i as int),
        decreases i,
    {
        i -= 1;
    }
    if i > 0 {
        Some(i - 1)
    } else {
        None
    }
}

/// Tells whether `pat` stands in `s` at position `i`.
pub fn matches_at(s: &Vec<char>, pat: &Vec<char>, i: usize) -> (r: bool)
    ensures
        r == occurs_at(s@, pat@, i as int),
{
    if pat.len() > s.len() || i > s.len() - pat.len() {
        return false;
    }
    let mut k: usize = 0;
    while k < pat.len()
        invariant
            k <= pat.len(),
            i + pat.len() <= s.len(),
            forall|j: int| 0 <= j < k ==> s@[i + j] == pat@[j],
        decreases pat.len() - k,
    {
        if s[i + k] != pat[k] {
            return false;
        }
        k += 1;
    }
    true
}

/// Finds the first place at or after `from` where `pat` stands in `s`.
pub fn find(s: &Vec<char>, pat: &Vec<char>, from: usize) -> (r: Option<usize>)
    ensures
        match r {
            Some(i) => i == first_occurrence(s@, pat@, from as int),
            None => first_occurrence(s@, pat@, from as int) == -1,
        },
{
    if pat.len() > s.len() || from > s.len() - pat.len() {
        return None;
    }
    let last: usize = s.len() - pat.len();
    let mut i: usize = from;
    loop
        invariant
            from <= i <= last,
            last == s.len() - pat.len(),
            first_occurrence(s@, pat@, from as int) == first_occurrence(s@, pat@, i as int),
        decreases last - i,
    {
        if matches_at(s, pat, i) {
            return Some(i);
        }
        if i == last {
            assert(first_occurrence(s@, pat@, i + 1) == -1);
            return None;
        }
        i += 1;
    }
}

/// Finds the last place below `upto` where `pat` stands in `s`.
pub fn find_last(s: &Vec<char>, pat: &Vec<char>, upto: usize) -> (r: Option<usize>)
    ensures
        match r {
            Some(i) => i == last_occurrence(s@, pat@, upto as int),
            None => last_occurrence(s@, pat@, upto as int) == -1,
        },
{
    let mut i: usize = upto;
    while i > 0
        invariant
            i <= upto,
            last_occurrence(s@, pat@, upto as int) == last_occurrence(s@, pat@, i as int),
        decreases i,
    {
        if matches_at(s, pat, i - 1) {
            return Some(i - 1);
        }
        i -= 1;
    }
    None
}

/// Tells whether `pat` stands somewhere in `s`.
pub fn contains(s: &Vec<char>, pat: &Vec<char>) -> (r: bool)
    ensures
        r == has_occurrence(s@, pat@),
{
    find(s, pat, 0).is_some()
}

/// Compares two texts lexicographically.
pub fn lex_compare(a: &Vec<char>, b: &Vec<char>) -> (r: Precedence)
    ensures
        r == lex_order(a@, b@),
{
    let mut i: usize = 0;
    assert(a@.skip(0) =~= a@ && b@.skip(0) =~= b@);
    while i < a.len() && i < b.len()
        invariant
            i <= a.len(),
            i <= b.len(),
            lex_order(a@, b@) == lex_order(a@.skip(i as int), b@.skip(i as int)),
        decreases a.len() - i,
    {
        let x = a[i];
        let y = b[i];
        assert(a@.skip(i as int)[0] == x && b@.skip(i as int)[0] == y);
        if x != y {
            if x < y {
                return Precedence::Lower;
            } else {
                return Precedence::Higher;
            }
        }
        assert(a@.skip(i as int).drop_first() =~= a@.skip(i + 1));
        assert(b@.skip(i as int).drop_first() =~= b@.skip(i + 1));
        i += 1;
    }
    if i < b.len() {
        Precedence::Lower
    } else if i < a.len() {
        Precedence::Higher
    } else {
        Precedence::Same
    }
}

/// Compares two texts by the length of their UTF-8 encoding, then
/// lexicographically by its bytes.
pub fn len_alpha_compare(a: &str, b: &str) -> (r: Precedence)
    ensures
        r == len_alpha_order(a.spec_bytes(), b.spec_bytes()),
{
    let x = a.as_bytes_vec();
    let y = b.as_bytes_vec();
    if x.len() < y.len() {
        return Precedence::Lower;
    }
    if x.len() > y.len() {
        return Precedence::Higher;
    }
    let mut i: usize = 0;
    assert(x@.skip(0) =~= x@ && y@.skip(0) =~= y@);
    while i < x.len()
        invariant
            i <= x.len(),
            x.len() == y.len(),
            x@ == a.spec_bytes(),
            y@ == b.spec_bytes(),
            byte_order(x@, y@) == byte_order(x@.skip(i as int), y@.skip(i as int)),
        decreases x.len() - i,
    {
        let p = x[i];
        let q = y[i];
        assert(x@.skip(i as int)[0] == p && y@.skip(i as int)[0] == q);
        if p != q {
            if p < q {
                return Precedence::Lower;
            } else {
                return Precedence::Higher;
            }
        }
        assert(x@.skip(i as int).drop_first() =~= x@.skip(i + 1));
        assert(y@.skip(i as int).drop_first() =~= y@.skip(i + 1));
        i += 1;
    }
    Precedence::Same
}

} // verus!
