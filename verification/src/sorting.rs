//! Ordering signed names by name, so that what is built from them does not
//! depend on the order in which they arrived.
use crate::authority::AuthoritySignature;
use crate::base_types::AuthorityPublicKeyBytes;
use crate::bytes::{
    bytes_lt, lemma_lex_lt_irreflexive, lemma_lex_lt_total, lemma_lex_lt_transitive, lex_le, lex_lt,
};
use vstd::prelude::*;
use vstd::relations::total_ordering;
use vstd::seq_lib::{lemma_sorted_unique, to_multiset_contains, to_multiset_insert};

verus! {

/// A validator's name with that validator's signature, as plain bytes.
pub type SignedName = (Seq<u8>, Seq<u8>);

/// The plain bytes of a list of names with signatures.
pub open spec fn pairs_view(pairs: Seq<(AuthorityPublicKeyBytes, AuthoritySignature)>) -> Seq<
    SignedName,
> {
    Seq::new(pairs.len(), |i: int| (pairs[i].0@, pairs[i].1@))
}

/// The names are in ascending order; equal names may follow each other.
pub open spec fn sorted_by_name(pairs: Seq<SignedName>) -> bool {
    forall|i: int, j: int| 0 <= i < j < pairs.len() ==> lex_le(pairs[i].0, pairs[j].0)
}

/// Every name comes with one signature only: entries with the same name
/// are the same entry.
pub open spec fn one_signature_per_name(pairs: Seq<SignedName>) -> bool {
    forall|i: int, j: int|
        0 <= i < pairs.len() && 0 <= j < pairs.len() && pairs[i].0 == pairs[j].0 ==> pairs[i].1
            == pairs[j].1
}

/// `sorted` with `item` put behind every entry whose name is not greater.
pub open spec fn insert_by_name(sorted: Seq<SignedName>, item: SignedName) -> Seq<SignedName>
    decreases sorted.len(),
{
    if sorted.len() == 0 {
        seq![item]
    } else if lex_lt(item.0, sorted[0].0) {
        seq![item] + sorted
    } else {
        seq![sorted[0]] + insert_by_name(sorted.drop_first(), item)
    }
}

/// The entries of `pairs` in ascending order of their names; entries with
/// the same name keep the order in which they came.
pub open spec fn name_sorted(pairs: Seq<SignedName>) -> Seq<SignedName>
    decreases pairs.len(),
{
    if pairs.len() == 0 {
        Seq::<SignedName>::empty()
    } else {
        insert_by_name(name_sorted(pairs.drop_last()), pairs.last())
    }
}

/// Where `insert_by_name` puts the item: behind all entries that are not
/// greater, in front of the first greater one.
pub proof fn lemma_insert_position(sorted: Seq<SignedName>, item: SignedName) -> (p: int)
    ensures
        0 <= p <= sorted.len(),
        insert_by_name(sorted, item) == sorted.insert(p, item),
        forall|k: int| 0 <= k < p ==> !lex_lt(item.0, sorted[k].0),
        p < sorted.len() ==> lex_lt(item.0, sorted[p].0),
    decreases sorted.len(),
{
    if sorted.len() == 0 {
        assert(seq![item] =~= sorted.insert(0, item));
        0
    } else if lex_lt(item.0, sorted[0].0) {
        assert(seq![item] + sorted =~= sorted.insert(0, item));
        0
    } else {
        let rest = sorted.drop_first();
        let q = lemma_insert_position(rest, item);
        assert(seq![sorted[0]] + rest.insert(q, item) =~= sorted.insert(q + 1, item));
        assert forall|k: int| 0 <= k < q + 1 implies !lex_lt(item.0, sorted[k].0) by {
            if k > 0 {
                assert(sorted[k] == rest[k - 1]);
            }
        }
        q + 1
    }
}

/// Inserting at a place that separates the not-greater from the greater
/// entries is what `insert_by_name` does.
pub proof fn lemma_insert_at(sorted: Seq<SignedName>, item: SignedName, p: int)
    requires
        0 <= p <= sorted.len(),
        forall|k: int| 0 <= k < p ==> !lex_lt(item.0, sorted[k].0),
        p < sorted.len() ==> lex_lt(item.0, sorted[p].0),
    ensures
        insert_by_name(sorted, item) == sorted.insert(p, item),
{
    let q = lemma_insert_position(sorted, item);
    if q < p {
        assert(!lex_lt(item.0, sorted[q].0));
    } else if p < q {
        assert(!lex_lt(item.0, sorted[p].0));
    }
}

/// Inserting into a sorted list gives a sorted list with one more entry.
pub proof fn lemma_insert_by_name_sorted(sorted: Seq<SignedName>, item: SignedName)
    requires
        sorted_by_name(sorted),
    ensures
        sorted_by_name(insert_by_name(sorted, item)),
        insert_by_name(sorted, item).to_multiset() == sorted.to_multiset().insert(item),
        insert_by_name(sorted, item).len() == sorted.len() + 1,
{
    let p = lemma_insert_position(sorted, item);
    let out = sorted.insert(p, item);
    to_multiset_insert(sorted, p, item);
    assert forall|i: int, j: int| 0 <= i < j < out.len() implies lex_le(out[i].0, out[j].0) by {
        if j == p {
            assert(out[i] == sorted[i]);
            lemma_lex_lt_total(item.0, sorted[i].0);
        } else if i == p {
            assert(out[j] == sorted[j - 1]);
            if j - 1 > p {
                assert(lex_le(sorted[p].0, sorted[j - 1].0));
                if sorted[p].0 != sorted[j - 1].0 {
                    lemma_lex_lt_transitive(item.0, sorted[p].0, sorted[j - 1].0);
                }
            }
        } else {
            let a = if i < p { i } else { i - 1 };
            let b = if j < p { j } else { j - 1 };
            assert(out[i] == sorted[a]);
            assert(out[j] == sorted[b]);
        }
    }
}

/// The sorted list is sorted and holds exactly the given entries.
pub proof fn lemma_name_sorted(pairs: Seq<SignedName>)
    ensures
        sorted_by_name(name_sorted(pairs)),
        name_sorted(pairs).to_multiset() == pairs.to_multiset(),
        name_sorted(pairs).len() == pairs.len(),
    decreases pairs.len(),
{
    broadcast use vstd::seq_lib::group_to_multiset_ensures;

    if pairs.len() == 0 {
        assert(name_sorted(pairs).to_multiset() =~= pairs.to_multiset());
    } else {
        lemma_name_sorted(pairs.drop_last());
        lemma_insert_by_name_sorted(name_sorted(pairs.drop_last()), pairs.last());
        assert(pairs.drop_last().push(pairs.last()) =~= pairs);
    }
}

/// A list that holds the same entries as one in which every name comes
/// with one signature has that property too.
pub proof fn lemma_one_signature_permuted(x: Seq<SignedName>, y: Seq<SignedName>)
    requires
        one_signature_per_name(x),
        x.to_multiset() == y.to_multiset(),
    ensures
        one_signature_per_name(y),
{
    assert forall|i: int, j: int|
        0 <= i < y.len() && 0 <= j < y.len() && y[i].0 == y[j].0 implies y[i].1 == y[j].1 by {
        assert(y.contains(y[i]));
        assert(y.contains(y[j]));
        to_multiset_contains(y, y[i]);
        to_multiset_contains(y, y[j]);
        to_multiset_contains(x, y[i]);
        to_multiset_contains(x, y[j]);
        let m = choose|m: int| 0 <= m < x.len() && x[m] == y[i];
        let n = choose|n: int| 0 <= n < x.len() && x[n] == y[j];
        assert(x[m].1 == x[n].1);
    }
}

/// The order that decides between entries: by name, then by signature.
pub open spec fn pair_le(a: SignedName, b: SignedName) -> bool {
    lex_lt(a.0, b.0) || (a.0 == b.0 && lex_le(a.1, b.1))
}

/// `pair_le` is a total order.
pub proof fn lemma_pair_le_total()
    ensures
        total_ordering(|a: SignedName, b: SignedName| pair_le(a, b)),
{
    let leq = |a: SignedName, b: SignedName| pair_le(a, b);
    assert forall|a: SignedName| #[trigger] leq(a, a) by {}
    assert forall|a: SignedName, b: SignedName| #[trigger] leq(a, b) && #[trigger] leq(
        b,
        a,
    ) implies a == b by {
        lemma_lex_lt_total(a.0, b.0);
        lemma_lex_lt_total(a.1, b.1);
        lemma_lex_lt_irreflexive(a.0);
    }
    assert forall|a: SignedName, b: SignedName, c: SignedName| #[trigger] leq(a, b)
        && #[trigger] leq(b, c) implies leq(a, c) by {
        lemma_lex_lt_total(a.0, b.0);
        lemma_lex_lt_total(b.0, c.0);
        if lex_lt(a.0, b.0) && lex_lt(b.0, c.0) {
            lemma_lex_lt_transitive(a.0, b.0, c.0);
        }
        if a.0 == b.0 && b.0 == c.0 {
            if lex_lt(a.1, b.1) && lex_lt(b.1, c.1) {
                lemma_lex_lt_transitive(a.1, b.1, c.1);
            }
        }
    }
    assert forall|a: SignedName, b: SignedName| #[trigger] leq(a, b) || #[trigger] leq(b, a) by {
        lemma_lex_lt_total(a.0, b.0);
        lemma_lex_lt_total(a.1, b.1);
    }
}

/// Order independence of sorting: lists that hold the same entries, each
/// name with one signature only, sort to the same list.
pub proof fn lemma_name_sorted_unique(x: Seq<SignedName>, y: Seq<SignedName>)
    requires
        one_signature_per_name(x),
        x.to_multiset() == y.to_multiset(),
    ensures
        name_sorted(x) == name_sorted(y),
{
    let sx = name_sorted(x);
    let sy = name_sorted(y);
    lemma_name_sorted(x);
    lemma_name_sorted(y);
    lemma_one_signature_permuted(x, sx);
    lemma_one_signature_permuted(x, sy);
    let leq = |a: SignedName, b: SignedName| pair_le(a, b);
    lemma_pair_le_total();
    assert forall|i: int, j: int| 0 <= i < j < sx.len() implies #[trigger] leq(sx[i], sx[j]) by {
        assert(lex_le(sx[i].0, sx[j].0));
        if sx[i].0 == sx[j].0 {
            assert(sx[i].1 == sx[j].1);
        }
    }
    assert forall|i: int, j: int| 0 <= i < j < sy.len() implies #[trigger] leq(sy[i], sy[j]) by {
        assert(lex_le(sy[i].0, sy[j].0));
        if sy[i].0 == sy[j].0 {
            assert(sy[i].1 == sy[j].1);
        }
    }
    lemma_sorted_unique(sx, sy, leq);
}

/// Sorts `pairs` by name; entries with the same name keep their order.
pub fn sort_by_name(pairs: Vec<(AuthorityPublicKeyBytes, AuthoritySignature)>) -> (sorted: Vec<
    (AuthorityPublicKeyBytes, AuthoritySignature),
>)
    ensures
        pairs_view(sorted@) == name_sorted(pairs_view(pairs@)),
        sorted_by_name(pairs_view(sorted@)),
        pairs_view(sorted@).to_multiset() == pairs_view(pairs@).to_multiset(),
        sorted@.len() == pairs@.len(),
{
    let ghost all = pairs_view(pairs@);
    let mut sorted: Vec<(AuthorityPublicKeyBytes, AuthoritySignature)> = Vec::new();
    let mut i: usize = 0;
    assert(pairs_view(sorted@) =~= name_sorted(all.subrange(0, 0)));
    while i < pairs.len()
        invariant
            i <= pairs.len(),
            all == pairs_view(pairs@),
            sorted@.len() == i,
            pairs_view(sorted@) == name_sorted(all.subrange(0, i as int)),
        decreases pairs.len() - i,
    {
        let item = pairs[i];
        let ghost before = pairs_view(sorted@);
        let ghost entry = (item.0@, item.1@);
        let mut p: usize = 0;
        let mut found = false;
        while p < sorted.len() && !found
            invariant
                p <= sorted.len(),
                before == pairs_view(sorted@),
                entry == (item.0@, item.1@),
                forall|k: int| 0 <= k < p ==> !lex_lt(entry.0, before[k].0),
                found ==> p < sorted.len() && lex_lt(entry.0, before[p as int].0),
            decreases sorted.len() - p + (if found { 0int } else { 1int }),
        {
            if bytes_lt(item.0.as_bytes(), sorted[p].0.as_bytes()) {
                found = true;
            } else {
                p += 1;
            }
        }
        sorted.insert(p, item);
        proof {
            lemma_insert_at(before, entry, p as int);
            assert(pairs_view(sorted@) =~= before.insert(p as int, entry));
            assert(all.subrange(0, i + 1).drop_last() =~= all.subrange(0, i as int));
            assert(all.subrange(0, i + 1).last() == entry);
        }
        i += 1;
    }
    proof {
        assert(all.subrange(0, i as int) =~= all);
        lemma_name_sorted(all);
    }
    sorted
}

} // verus!
