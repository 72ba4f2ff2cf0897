//! The version normalizer: from a bundle name to a three-part version with
//! an optional prerelease label, and the order of such versions.

use crate::error::EngineError;
use crate::text::{
    chars_of, find_char, find_last, find_last_char, first_at, last_before, last_occurrence,
    lemma_first_at, lemma_last_occurrence, lemma_lex_flip, lemma_lex_reflexive,
    lemma_lex_same_is_equal, lemma_lex_transitive, lex_compare, lex_order, Precedence,
};
use vstd::prelude::*;
use vstd::string::*;

verus! {

/// A normalized version.  Build metadata is never kept.
#[derive(Clone, Debug, PartialEq, Eq)]
pub struct Version {
    pub major: u64,
    pub minor: u64,
    pub patch: u64,
    /// The prerelease label; empty for a release.
    pub pre: String,
}

/// What a [`Version`] stands for.
pub struct VersionView {
    pub major: u64,
    pub minor: u64,
    pub patch: u64,
    pub pre: Seq<char>,
}

impl View for Version {
    type V = VersionView;

    open spec fn view(&self) -> VersionView {
        VersionView { major: self.major, minor: self.minor, patch: self.patch, pre: self.pre@ }
    }
}

/// Version `0.0.0`, with which every upgrade may start.
pub open spec fn zero_version() -> VersionView {
    VersionView { major: 0, minor: 0, patch: 0, pre: Seq::empty() }
}

pub open spec fn is_digit(c: char) -> bool {
    '0' <= c <= '9'
}

pub open spec fn all_digits(s: Seq<char>) -> bool {
    forall|i: int| 0 <= i < s.len() ==> is_digit(#[trigger] s[i])
}

/// The number that a run of decimal digits writes.
pub open spec fn digits_value(s: Seq<char>) -> nat
    decreases s.len(),
{
    if s.len() == 0 {
        0
    } else {
        (digits_value(s.drop_last()) * 10 + (s.last() as int - '0' as int)) as nat
    }
}

/// `s` without the `+` that may lead a number.
pub open spec fn unsigned_part(s: Seq<char>) -> Seq<char> {
    if s.len() > 0 && s[0] == '+' {
        s.skip(1)
    } else {
        s
    }
}

/// The number that `s` writes: decimal digits, at least one, after an
/// optional `+`, with a value that fits 64 bits.  Anything else is no number.
pub open spec fn number(s: Seq<char>) -> Option<u64> {
    let d = unsigned_part(s);
    if d.len() > 0 && all_digits(d) && digits_value(d) <= u64::MAX {
        Some(digits_value(d) as u64)
    } else {
        None
    }
}

/// The version that a payload writes.
///
/// With two dots or more, the first two components are major and minor; the
/// third gives the patch number up to its first hyphen and the prerelease
/// label from there to its second hyphen; further components are ignored.
/// With fewer dots, what follows the last `v` (the whole payload where there
/// is no `v`) is the major number, and minor and patch are zero.
pub open spec fn payload_version(p: Seq<char>) -> Option<VersionView> {
    let d1 = first_at(p, '.', 0);
    let d2 = first_at(p, '.', d1 + 1);
    if d2 < p.len() {
        let d3 = first_at(p, '.', d2 + 1);
        let third = p.subrange(d2 + 1, d3);
        let h1 = first_at(third, '-', 0);
        let h2 = first_at(third, '-', h1 + 1);
        let label = if h1 < third.len() {
            third.subrange(h1 + 1, h2)
        } else {
            Seq::empty()
        };
        match (number(p.subrange(0, d1)), number(p.subrange(d1 + 1, d2)), number(third.take(h1))) {
            (Some(major), Some(minor), Some(patch)) => Some(
                VersionView { major, minor, patch, pre: label },
            ),
            _ => None,
        }
    } else {
        let v = last_before(p, 'v', p.len() as int);
        match number(p.skip(v + 1)) {
            Some(major) => Some(VersionView { major, minor: 0, patch: 0, pre: Seq::empty() }),
            None => None,
        }
    }
}

/// The text `.v`, which announces the version in a bundle name.
pub open spec fn version_mark() -> Seq<char> {
    seq!['.', 'v']
}

/// The part of a bundle name that writes its version: what follows the last
/// `.v`; without a `.v`, what follows the first dot; without a dot, the name.
pub open spec fn payload_of(raw: Seq<char>) -> Seq<char> {
    let v = last_occurrence(raw, version_mark(), raw.len() as int);
    let d = first_at(raw, '.', 0);
    if v >= 0 {
        raw.skip(v + 2)
    } else if d < raw.len() {
        raw.skip(d + 1)
    } else {
        raw
    }
}

/// The version that a bundle name embeds, `None` where it cannot be read.
pub open spec fn normalized(raw: Seq<char>) -> Option<VersionView> {
    payload_version(payload_of(raw))
}

/// Order of prerelease labels: a release (no label) stands above every
/// prerelease, and two labels compare lexicographically.
pub open spec fn label_order(a: Seq<char>, b: Seq<char>) -> Precedence {
    if a.len() == 0 && b.len() == 0 {
        Precedence::Same
    } else if a.len() == 0 {
        Precedence::Higher
    } else if b.len() == 0 {
        Precedence::Lower
    } else {
        lex_order(a, b)
    }
}

/// Order of versions: by major, minor and patch, then by prerelease label.
pub open spec fn version_order(a: VersionView, b: VersionView) -> Precedence {
    if a.major != b.major {
        if a.major < b.major {
            Precedence::Lower
        } else {
            Precedence::Higher
        }
    } else if a.minor != b.minor {
        if a.minor < b.minor {
            Precedence::Lower
        } else {
            Precedence::Higher
        }
    } else if a.patch != b.patch {
        if a.patch < b.patch {
            Precedence::Lower
        } else {
            Precedence::Higher
        }
    } else {
        label_order(a.pre, b.pre)
    }
}

/// `a` is at most `b`.
pub open spec fn version_le(a: VersionView, b: VersionView) -> bool {
    version_order(a, b) != Precedence::Higher
}

/// A version compares as `Same` with itself.
pub proof fn lemma_version_reflexive(a: VersionView)
    ensures
        version_order(a, a) == Precedence::Same,
{
    lemma_lex_reflexive(a.pre);
}

/// Only equal versions compare as `Same`.
pub proof fn lemma_version_same_is_equal(a: VersionView, b: VersionView)
    requires
        version_order(a, b) == Precedence::Same,
    ensures
        a == b,
{
    if a.pre.len() > 0 && b.pre.len() > 0 {
        lemma_lex_same_is_equal(a.pre, b.pre);
    } else {
        assert(a.pre =~= b.pre);
    }
}

/// Swapping two versions swaps `Lower` and `Higher`.
pub proof fn lemma_version_flip(a: VersionView, b: VersionView)
    ensures
        version_order(a, b) == Precedence::Lower <==> version_order(b, a) == Precedence::Higher,
        version_order(a, b) == Precedence::Same <==> version_order(b, a) == Precedence::Same,
{
    lemma_lex_flip(a.pre, b.pre);
}

/// The order of versions is transitive, and strict where one step is.
pub proof fn lemma_version_transitive(a: VersionView, b: VersionView, c: VersionView)
    requires
        version_le(a, b),
        version_le(b, c),
    ensures
        version_le(a, c),
        version_order(a, b) == Precedence::Lower || version_order(b, c) == Precedence::Lower
            ==> version_order(a, c) == Precedence::Lower,
{
    if a.major == b.major && b.major == c.major && a.minor == b.minor && b.minor == c.minor
        && a.patch == b.patch && b.patch == c.patch {
        if a.pre.len() > 0 && b.pre.len() > 0 && c.pre.len() > 0 {
            lemma_lex_transitive(a.pre, b.pre, c.pre);
        }
    }
}

/// A prefix of a run of digits writes a number that is no larger.
pub proof fn lemma_digits_prefix(s: Seq<char>, k: int)
    requires
        all_digits(s),
        0 <= k <= s.len(),
    ensures
        digits_value(s.take(k)) <= digits_value(s),
    decreases s.len() - k,
{
    if k < s.len() {
        let t = s.drop_last();
        assert(all_digits(t)) by {
            assert forall|i: int| 0 <= i < t.len() implies is_digit(#[trigger] t[i]) by {
                assert(t[i] == s[i]);
            }
        }
        assert(is_digit(s[s.len() - 1]));
        if k < t.len() {
            lemma_digits_prefix(t, k);
        }
        assert(t.take(k) =~= s.take(k));
        assert(t.take(t.len() as int) =~= t);
    } else {
        assert(s.take(k) =~= s);
    }
}

/// Reads the number that a text writes.
pub fn read_number(text: &str) -> (r: Option<u64>)
    ensures
        r == number(text@),
{
    let chars = chars_of(text);
    assert(chars@.subrange(0, chars.len() as int) =~= text@);
    parse_number(&chars, 0, chars.len())
}

/// Reads the number written between `from` and `to`.
pub(crate) fn parse_number(chars: &Vec<char>, from: usize, to: usize) -> (r: Option<u64>)
    requires
        from <= to <= chars.len(),
    ensures
        r == number(chars@.subrange(from as int, to as int)),
{
    let ghost whole = chars@.subrange(from as int, to as int);
    let start: usize = if from < to && chars[from] == '+' {
        from + 1
    } else {
        from
    };
    let ghost d = unsigned_part(whole);
    assert(d =~= chars@.subrange(start as int, to as int));
    if start == to {
        return None;
    }
    let mut value: u64 = 0;
    let mut i: usize = start;
    assert(d.take(0) =~= Seq::<char>::empty());
    while i < to
        invariant
            from <= start <= i <= to <= chars.len(),
            start < to,
            d == chars@.subrange(start as int, to as int),
            d == unsigned_part(chars@.subrange(from as int, to as int)),
            all_digits(d.take(i - start)),
            value == digits_value(d.take(i - start)),
        decreases to - i,
    {
        let c = chars[i];
        assert(d[i - start] == c);
        if c < '0' || c > '9' {
            assert(!is_digit(d[i - start]));
            return None;
        }
        let digit: u64 = (c as u32 - '0' as u32) as u64;
        let ghost next = d.take(i - start + 1);
        assert(next.drop_last() =~= d.take(i - start));
        assert(next.last() == c);
        assert(all_digits(next)) by {
            assert forall|j: int| 0 <= j < next.len() implies is_digit(#[trigger] next[j]) by {
                if j < i - start {
                    assert(d.take(i - start)[j] == next[j]);
                }
            }
        }
        if value > (u64::MAX - digit) / 10 {
            proof {
                assert(digits_value(next) > u64::MAX);
                if all_digits(d) {
                    lemma_digits_prefix(d, i - start + 1);
                }
            }
            return None;
        }
        value = value * 10 + digit;
        i += 1;
    }
    assert(d.take(to - start) =~= d);
    Some(value)
}

impl Version {
    /// A copy of this version.
    pub fn duplicate(&self) -> (r: Version)
        ensures
            r@ == self@,
    {
        Version { major: self.major, minor: self.minor, patch: self.patch, pre: self.pre.clone() }
    }

    /// Version `0.0.0`.
    pub fn zero() -> (r: Version)
        ensures
            r@ == zero_version(),
    {
        Version { major: 0, minor: 0, patch: 0, pre: String::new() }
    }

    /// Compares this version with `other`.
    pub fn precedence(&self, other: &Version) -> (r: Precedence)
        ensures
            r == version_order(self@, other@),
    {
        if self.major != other.major {
            if self.major < other.major {
                Precedence::Lower
            } else {
                Precedence::Higher
            }
        } else if self.minor != other.minor {
            if self.minor < other.minor {
                Precedence::Lower
            } else {
                Precedence::Higher
            }
        } else if self.patch != other.patch {
            if self.patch < other.patch {
                Precedence::Lower
            } else {
                Precedence::Higher
            }
        } else {
            let a = chars_of(self.pre.as_str());
            let b = chars_of(other.pre.as_str());
            if a.len() == 0 && b.len() == 0 {
                Precedence::Same
            } else if a.len() == 0 {
                Precedence::Higher
            } else if b.len() == 0 {
                Precedence::Lower
            } else {
                lex_compare(&a, &b)
            }
        }
    }
}

/// Reads the version that a payload writes.
pub fn build_semver(payload: &str) -> (r: Result<Version, EngineError>)
    ensures
        match r {
            Ok(v) => payload_version(payload@) == Some(v@),
            Err(e) => e == EngineError::MalformedVersion && payload_version(payload@) is None,
        },
{
    let p = chars_of(payload);
    let n: usize = p.len();
    let d1: usize = find_char(&p, '.', 0);
    let d2: usize = if d1 < n {
        find_char(&p, '.', d1 + 1)
    } else {
        n
    };
    if d2 < n {
        let d3: usize = find_char(&p, '.', d2 + 1);
        let h1: usize = find_char(&p, '-', d2 + 1);
        let patch_end: usize = if h1 < d3 {
            h1
        } else {
            d3
        };
        let label_end: usize = if h1 < d3 {
            let h2: usize = find_char(&p, '-', h1 + 1);
            if h2 < d3 {
                h2
            } else {
                d3
            }
        } else {
            d3
        };
        proof {
            lemma_third_component(p@, d2 as int + 1, d3 as int);
        }
        let major = parse_number(&p, 0, d1);
        let minor = parse_number(&p, d1 + 1, d2);
        let patch = parse_number(&p, d2 + 1, patch_end);
        match (major, minor, patch) {
            (Some(major), Some(minor), Some(patch)) => {
                let pre = if h1 < d3 {
                    payload.substring_char(h1 + 1, label_end).to_owned()
                } else {
                    String::new()
                };
                Ok(Version { major, minor, patch, pre })
            },
            _ => Err(EngineError::MalformedVersion),
        }
    } else {
        let start: usize = match find_last_char(&p, 'v', n) {
            Some(v) => v + 1,
            None => 0,
        };
        assert(p@.skip(start as int) =~= p@.subrange(start as int, n as int));
        match parse_number(&p, start, n) {
            Some(major) => Ok(Version { major, minor: 0, patch: 0, pre: String::new() }),
            None => Err(EngineError::MalformedVersion),
        }
    }
}

/// Searching a slice of a text for a character is searching the text up to
/// the end of the slice.
pub proof fn lemma_first_at_in_slice(s: Seq<char>, c: char, lo: int, hi: int, from: int)
    requires
        0 <= lo <= hi <= s.len(),
        0 <= from <= hi - lo,
    ensures
        first_at(s.subrange(lo, hi), c, from) == if first_at(s, c, lo + from) < hi {
            first_at(s, c, lo + from) - lo
        } else {
            hi - lo
        },
    decreases hi - lo - from,
{
    let t = s.subrange(lo, hi);
    if from < hi - lo {
        assert(t[from] == s[lo + from]);
        if s[lo + from] != c {
            lemma_first_at_in_slice(s, c, lo, hi, from + 1);
        }
    } else {
        lemma_first_at(s, c, lo + from);
    }
}

/// Where the hyphens of the third component of a payload stand, told in
/// positions of the payload.
pub proof fn lemma_third_component(p: Seq<char>, lo: int, hi: int)
    requires
        0 <= lo <= hi <= p.len(),
    ensures
        ({
            let third = p.subrange(lo, hi);
            let h1 = first_at(third, '-', 0);
            let h2 = first_at(third, '-', h1 + 1);
            let g1 = first_at(p, '-', lo);
            let g2 = first_at(p, '-', g1 + 1);
            &&& h1 < third.len() <==> g1 < hi
            &&& g1 < hi ==> h1 == g1 - lo && third.take(h1) == p.subrange(lo, g1)
            &&& g1 < hi ==> third.subrange(h1 + 1, h2) == p.subrange(
                g1 + 1,
                if g2 < hi {
                    g2
                } else {
                    hi
                },
            )
            &&& g1 >= hi ==> third.take(h1) == third
        }),
{
    let third = p.subrange(lo, hi);
    let h1 = first_at(third, '-', 0);
    let h2 = first_at(third, '-', h1 + 1);
    let g1 = first_at(p, '-', lo);
    let g2 = first_at(p, '-', g1 + 1);
    lemma_first_at_in_slice(p, '-', lo, hi, 0);
    lemma_first_at(p, '-', lo);
    if g1 < hi {
        lemma_first_at_in_slice(p, '-', lo, hi, h1 + 1);
        lemma_first_at(p, '-', g1 + 1);
        assert(third.take(h1) =~= p.subrange(lo, g1));
        assert(third.subrange(h1 + 1, h2) =~= p.subrange(
            g1 + 1,
            if g2 < hi {
                g2
            } else {
                hi
            },
        ));
    } else {
        assert(third.take(h1) =~= third);
    }
}

/// Reads the version that a bundle name embeds.
pub fn normalize(raw_name: &str) -> (r: Result<Version, EngineError>)
    ensures
        match r {
            Ok(v) => normalized(raw_name@) == Some(v@),
            Err(e) => e == EngineError::MalformedVersion && normalized(raw_name@) is None,
        },
{
    let chars = chars_of(raw_name);
    let n: usize = chars.len();
    let mut mark: Vec<char> = Vec::new();
    mark.push('.');
    mark.push('v');
    assert(mark@ =~= version_mark());
    proof {
        lemma_last_occurrence(chars@, version_mark(), n as int);
    }
    let start: usize = match find_last(&chars, &mark, n) {
        Some(v) => v + 2,
        None => {
            let d: usize = find_char(&chars, '.', 0);
            if d < n {
                d + 1
            } else {
                0
            }
        },
    };
    assert(raw_name@.skip(0) =~= raw_name@);
    build_semver(raw_name.substring_char(start, n))
}

} // verus!
