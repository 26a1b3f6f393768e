//! Compact sets of validator indices, kept in a `roaring::RoaringBitmap`.
use roaring::RoaringBitmap;
use vstd::prelude::*;

verus! {

/// A compressed set of `u32` values.
#[verifier::external_type_specification]
#[verifier::external_body]
pub struct ExRoaringBitmap(RoaringBitmap);

/// The values that a bitmap holds, in ascending order.
pub uninterp spec fn bitmap_values(bitmap: RoaringBitmap) -> Seq<u32>;

/// Each value is smaller than the next one.
pub open spec fn strictly_ascending(values: Seq<u32>) -> bool {
    forall|i: int, j: int| 0 <= i < j < values.len() ==> values[i] < values[j]
}

/// `values` with `value` put at its place in ascending order, unless it is
/// there already.
pub open spec fn ascending_insert(values: Seq<u32>, value: u32) -> Seq<u32>
    decreases values.len(),
{
    if values.len() == 0 {
        seq![value]
    } else if value == values[0] {
        values
    } else if value < values[0] {
        seq![value] + values
    } else {
        seq![values[0]] + ascending_insert(values.drop_first(), value)
    }
}

/// Inserting keeps what was there, adds the value, and nothing else.
pub proof fn lemma_ascending_insert_contains(values: Seq<u32>, value: u32, x: u32)
    ensures
        ascending_insert(values, value).contains(x) <==> (x == value || values.contains(x)),
    decreases values.len(),
{
    let out = ascending_insert(values, value);
    if values.len() == 0 {
        assert(out[0] == value);
    } else if value == values[0] {
        if x == value {
            assert(values[0] == x);
        }
    } else if value < values[0] {
        assert(out[0] == value);
        if values.contains(x) {
            let k = choose|k: int| 0 <= k < values.len() && values[k] == x;
            assert(out[k + 1] == x);
        }
        if out.contains(x) && x != value {
            let k = choose|k: int| 0 <= k < out.len() && out[k] == x;
            assert(values[k - 1] == x);
        }
    } else {
        let rest = values.drop_first();
        lemma_ascending_insert_contains(rest, value, x);
        let inner = ascending_insert(rest, value);
        if out.contains(x) {
            let k = choose|k: int| 0 <= k < out.len() && out[k] == x;
            if k == 0 {
                assert(values[0] == x);
            } else {
                assert(inner[k - 1] == x);
                if rest.contains(x) {
                    let m = choose|m: int| 0 <= m < rest.len() && rest[m] == x;
                    assert(values[m + 1] == x);
                }
            }
        }
        if x == value || values.contains(x) {
            if x == values[0] {
                assert(out[0] == x);
            } else {
                if values.contains(x) {
                    let m = choose|m: int| 0 <= m < values.len() && values[m] == x;
                    assert(rest[m - 1] == x);
                }
                assert(inner.contains(x));
                let k = choose|k: int| 0 <= k < inner.len() && inner[k] == x;
                assert(out[k + 1] == x);
            }
        }
    }
}

/// Inserting into an ascending sequence gives an ascending sequence.
pub proof fn lemma_ascending_insert_ascending(values: Seq<u32>, value: u32)
    requires
        strictly_ascending(values),
    ensures
        strictly_ascending(ascending_insert(values, value)),
    decreases values.len(),
{
    let out = ascending_insert(values, value);
    if values.len() == 0 {
    } else if value == values[0] {
    } else if value < values[0] {
        assert forall|i: int, j: int| 0 <= i < j < out.len() implies out[i] < out[j] by {
            if i == 0 {
                assert(out[j] == values[j - 1]);
                if j - 1 > 0 {
                    assert(values[0] < values[j - 1]);
                }
            } else {
                assert(out[i] == values[i - 1]);
                assert(out[j] == values[j - 1]);
            }
        }
    } else {
        let rest = values.drop_first();
        assert(strictly_ascending(rest)) by {
            assert forall|i: int, j: int| 0 <= i < j < rest.len() implies rest[i] < rest[j] by {
                assert(rest[i] == values[i + 1]);
                assert(rest[j] == values[j + 1]);
            }
        }
        lemma_ascending_insert_ascending(rest, value);
        let inner = ascending_insert(rest, value);
        assert forall|i: int, j: int| 0 <= i < j < out.len() implies out[i] < out[j] by {
            if i == 0 {
                let x = inner[j - 1];
                assert(inner.contains(x));
                lemma_ascending_insert_contains(rest, value, x);
                if rest.contains(x) {
                    let m = choose|m: int| 0 <= m < rest.len() && rest[m] == x;
                    assert(values[m + 1] == x);
                    assert(values[0] < values[m + 1]);
                }
            } else {
                assert(out[i] == inner[i - 1]);
                assert(out[j] == inner[j - 1]);
            }
        }
    }
}

/// `RoaringBitmap::new`: a bitmap that holds nothing.
#[verifier::external_body]
pub(crate) fn bitmap_new() -> (bitmap: RoaringBitmap)
    ensures
        bitmap_values(bitmap) == Seq::<u32>::empty(),
{
    RoaringBitmap::new()
}

/// `RoaringBitmap::insert`: adds `value` to the set. The values stay in
/// ascending order, each held once.
#[verifier::external_body]
pub(crate) fn bitmap_insert(bitmap: &mut RoaringBitmap, value: u32)
    ensures
        bitmap_values(*final(bitmap)) == ascending_insert(bitmap_values(*old(bitmap)), value),
{
    bitmap.insert(value);
}

/// `RoaringBitmap::iter`, collected: every value of the set, once, ordered
/// by value.
#[verifier::external_body]
pub(crate) fn bitmap_to_vec(bitmap: &RoaringBitmap) -> (values: Vec<u32>)
    ensures
        values@ == bitmap_values(*bitmap),
        strictly_ascending(values@),
{
    bitmap.iter().collect()
}

/// `Clone::clone` of a bitmap: a bitmap that holds the same values.
pub assume_specification[ <RoaringBitmap as Clone>::clone ](bitmap: &RoaringBitmap) -> (copy:
    RoaringBitmap)
    ensures
        bitmap_values(copy) == bitmap_values(*bitmap),
;

} // verus!
