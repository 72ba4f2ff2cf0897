//! The order in which names are reported, and the sorter that establishes
//! it.  A name is ranked by the version that goes with it and, among equal
//! versions, lexicographically; a name without a version comes before every
//! name with one.

use crate::text::{
    chars_of, lemma_lex_flip, lemma_lex_reflexive, lemma_lex_same_is_equal, lemma_lex_transitive,
    lex_compare, lex_order, Precedence,
};
use crate::version::{
    lemma_version_flip, lemma_version_reflexive, lemma_version_same_is_equal,
    lemma_version_transitive, normalized, version_order, Version, VersionView,
};
use vstd::prelude::*;
use vstd::relations::{sorted_by, total_ordering};
use vstd::seq_lib::{lemma_sorted_unique, to_multiset_insert};

verus! {

/// Comparison of two names, each with the version that goes with it.
pub open spec fn keyed_order(
    va: Option<VersionView>,
    a: Seq<char>,
    vb: Option<VersionView>,
    b: Seq<char>,
) -> Precedence {
    match (va, vb) {
        (Some(x), Some(y)) => if version_order(x, y) != Precedence::Same {
            version_order(x, y)
        } else {
            lex_order(a, b)
        },
        (None, Some(_)) => Precedence::Lower,
        (Some(_), None) => Precedence::Higher,
        (None, None) => lex_order(a, b),
    }
}

/// `a` is reported no later than `b`, where `ver` gives each name its
/// version.
pub open spec fn keyed_le(
    ver: spec_fn(Seq<char>) -> Option<VersionView>,
    a: Seq<char>,
    b: Seq<char>,
) -> bool {
    keyed_order(ver(a), a, ver(b), b) != Precedence::Higher
}

/// The order on names that `ver` induces.
pub open spec fn keyed_leq(ver: spec_fn(Seq<char>) -> Option<VersionView>) -> spec_fn(
    Seq<char>,
    Seq<char>,
) -> bool {
    |a: Seq<char>, b: Seq<char>| keyed_le(ver, a, b)
}

/// Each name ranked by the version it embeds.
pub open spec fn by_version() -> spec_fn(Seq<char>) -> Option<VersionView> {
    |name: Seq<char>| normalized(name)
}

/// Each name ranked by its text alone.
pub open spec fn by_text() -> spec_fn(Seq<char>) -> Option<VersionView> {
    |name: Seq<char>| None::<VersionView>
}

/// Bundle names in ascending order of their version, equal versions in
/// lexicographic order of the names.
pub open spec fn version_leq() -> spec_fn(Seq<char>, Seq<char>) -> bool {
    keyed_leq(by_version())
}

/// Texts in lexicographic order.
pub open spec fn text_leq() -> spec_fn(Seq<char>, Seq<char>) -> bool {
    keyed_leq(by_text())
}

/// Swapping the two sides swaps `Lower` and `Higher`.
pub proof fn lemma_keyed_flip(
    va: Option<VersionView>,
    a: Seq<char>,
    vb: Option<VersionView>,
    b: Seq<char>,
)
    ensures
        keyed_order(va, a, vb, b) == Precedence::Lower <==> keyed_order(vb, b, va, a)
            == Precedence::Higher,
        keyed_order(va, a, vb, b) == Precedence::Same <==> keyed_order(vb, b, va, a)
            == Precedence::Same,
{
    lemma_lex_flip(a, b);
    if va is Some && vb is Some {
        lemma_version_flip(va.unwrap(), vb.unwrap());
    }
}

/// The order that `ver` induces is a total order on names.
pub proof fn lemma_keyed_total(ver: spec_fn(Seq<char>) -> Option<VersionView>)
    ensures
        total_ordering(keyed_leq(ver)),
{
    let leq = keyed_leq(ver);
    assert forall|x: Seq<char>| #[trigger] leq(x, x) by {
        lemma_lex_reflexive(x);
        if ver(x) is Some {
            lemma_version_reflexive(ver(x).unwrap());
        }
    }
    assert forall|x: Seq<char>, y: Seq<char>| #[trigger] leq(x, y) && #[trigger] leq(y, x) implies x
        == y by {
        lemma_keyed_flip(ver(x), x, ver(y), y);
        lemma_lex_flip(x, y);
        if ver(x) is Some && ver(y) is Some {
            lemma_version_flip(ver(x).unwrap(), ver(y).unwrap());
        }
        lemma_lex_same_is_equal(x, y);
    }
    assert forall|x: Seq<char>, y: Seq<char>, z: Seq<char>| #[trigger]
        leq(x, y) && #[trigger] leq(y, z) implies leq(x, z) by {
        lemma_keyed_transitive(ver, x, y, z);
    }
    assert forall|x: Seq<char>, y: Seq<char>| #[trigger] leq(x, y) || #[trigger] leq(y, x) by {
        lemma_keyed_flip(ver(x), x, ver(y), y);
    }
}

/// The order that `ver` induces is transitive.
pub proof fn lemma_keyed_transitive(
    ver: spec_fn(Seq<char>) -> Option<VersionView>,
    x: Seq<char>,
    y: Seq<char>,
    z: Seq<char>,
)
    requires
        keyed_le(ver, x, y),
        keyed_le(ver, y, z),
    ensures
        keyed_le(ver, x, z),
{
    if ver(x) is Some && ver(y) is Some && ver(z) is Some {
        let (a, b, c) = (ver(x).unwrap(), ver(y).unwrap(), ver(z).unwrap());
        lemma_version_transitive(a, b, c);
        if version_order(a, b) == Precedence::Same && version_order(b, c) == Precedence::Same {
            lemma_version_same_is_equal(a, b);
            lemma_version_same_is_equal(b, c);
            lemma_version_reflexive(a);
            lemma_lex_transitive(x, y, z);
        } else if version_order(a, c) == Precedence::Same {
            lemma_version_same_is_equal(a, c);
            lemma_version_flip(a, b);
        }
    } else if ver(x) is None && ver(y) is None && ver(z) is None {
        lemma_lex_transitive(x, y, z);
    }
}

/// A name together with the version that ranks it.
pub struct Ranked {
    pub version: Option<Version>,
    pub name: String,
}

impl Ranked {
    /// The version that ranks this name.
    pub open spec fn rank(&self) -> Option<VersionView> {
        match self.version {
            Some(v) => Some(v@),
            None => None,
        }
    }

    /// Compares this name with `other`.
    pub fn precedence(&self, other: &Ranked) -> (r: Precedence)
        ensures
            r == keyed_order(self.rank(), self.name@, other.rank(), other.name@),
    {
        match (&self.version, &other.version) {
            (Some(x), Some(y)) => {
                let by_version = x.precedence(y);
                match by_version {
                    Precedence::Same => lex_compare(
                        &chars_of(self.name.as_str()),
                        &chars_of(other.name.as_str()),
                    ),
                    _ => by_version,
                }
            },
            (None, Some(_)) => Precedence::Lower,
            (Some(_), None) => Precedence::Higher,
            (None, None) => lex_compare(
                &chars_of(self.name.as_str()),
                &chars_of(other.name.as_str()),
            ),
        }
    }
}

/// The names of a list of ranked names, in order.
pub open spec fn ranked_names(v: Seq<Ranked>) -> Seq<Seq<char>> {
    v.map_values(|r: Ranked| r.name@)
}

/// Every name of the list goes with the version that `ver` gives it.
pub open spec fn ranked_by(v: Seq<Ranked>, ver: spec_fn(Seq<char>) -> Option<VersionView>) -> bool {
    forall|i: int| 0 <= i < v.len() ==> (#[trigger] v[i]).rank() == ver(v[i].name@)
}

/// Sorts names into the order that their versions induce.  What comes out
/// is the one sorted arrangement of what went in.
pub(crate) fn sort_ranked(
    items: Vec<Ranked>,
    Ghost(ver): Ghost<spec_fn(Seq<char>) -> Option<VersionView>>,
) -> (out: Vec<Ranked>)
    requires
        ranked_by(items@, ver),
    ensures
        ranked_by(out@, ver),
        ranked_names(out@) == ranked_names(items@).sort_by(keyed_leq(ver)),
{
    let ghost all = items@;
    let ghost leq = keyed_leq(ver);
    let mut out: Vec<Ranked> = Vec::new();
    proof {
        lemma_keyed_total(ver);
        assert(ranked_names(all).take(0) =~= ranked_names(out@));
    }
    for item in it: items
        invariant
            it.seq() == all,
            leq == keyed_leq(ver),
            total_ordering(leq),
            ranked_by(all, ver),
            ranked_by(out@, ver),
            sorted_by(ranked_names(out@), leq),
            ranked_names(out@).to_multiset() == ranked_names(all).take(
                it.index() as int,
            ).to_multiset(),
    {
        let ghost before = out@;
        let ghost k = it.index() as int;
        assert(item == all[k]);
        let mut pos: usize = 0;
        while pos < out.len() && !matches!(out[pos].precedence(&item), Precedence::Higher)
            invariant
                pos <= out.len(),
                out@ == before,
                leq == keyed_leq(ver),
                ranked_by(before, ver),
                item.rank() == ver(item.name@),
                forall|j: int| 0 <= j < pos ==> leq(#[trigger] ranked_names(before)[j], item.name@),
            decreases out.len() - pos,
        {
            pos += 1;
        }
        out.insert(pos, item);
        proof {
            let names = ranked_names(before);
            let grown = ranked_names(out@);
            assert(grown =~= names.insert(pos as int, item.name@));
            to_multiset_insert(names, pos as int, item.name@);
            assert(ranked_names(all).take(k + 1) =~= ranked_names(all).take(k).push(item.name@));
            vstd::seq_lib::to_multiset_build(ranked_names(all).take(k), item.name@);
            assert forall|i: int, j: int| 0 <= i < j < grown.len() implies #[trigger] leq(
                grown[i],
                grown[j],
            ) by {
                if j == pos {
                    assert(grown[i] == names[i]);
                } else if i == pos {
                    assert(grown[j] == names[j - 1]);
                    lemma_keyed_flip(
                        ver(names[pos as int]),
                        names[pos as int],
                        ver(item.name@),
                        item.name@,
                    );
                    assert(leq(item.name@, names[pos as int]));
                    if j - 1 > pos {
                        assert(leq(names[pos as int], names[j - 1]));
                    }
                } else {
                    let a = if i < pos {
                        i
                    } else {
                        i - 1
                    };
                    let b = if j < pos {
                        j
                    } else {
                        j - 1
                    };
                    assert(grown[i] == names[a] && grown[j] == names[b]);
                    assert(leq(names[a], names[b]));
                }
            }
            assert forall|i: int| 0 <= i < out@.len() implies (#[trigger] out@[i]).rank() == ver(
                out@[i].name@,
            ) by {
                if i < pos {
                    assert(out@[i] == before[i]);
                } else if i > pos {
                    assert(out@[i] == before[i - 1]);
                }
            }
        }
    }
    proof {
        let names = ranked_names(all);
        assert(names.take(all.len() as int) =~= names);
        names.lemma_sort_by_ensures(leq);
        lemma_sorted_unique(ranked_names(out@), names.sort_by(leq), leq);
    }
    out
}

} // verus!
