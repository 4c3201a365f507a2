//! The filter: which items a filter text keeps.
//!
//! An item is kept when the folded filter text is a contiguous part of the
//! folded id or of one single folded column text. Fields are tested one by
//! one: a match that would span two fields does not count.

use crate::text::chars_of;
use crate::text::contains;
use crate::text::contains_chars;
use crate::text::lowercase;
use crate::text::to_lowercase;
use crate::types::ItemView;
use crate::types::MenuItem;
use vstd::prelude::*;

verus! {

/// The item has a field that contains `needle` once the field is folded to
/// lowercase. `needle` is taken as it is.
pub open spec fn item_matches(item: ItemView, needle: Seq<char>) -> bool {
    ||| contains(lowercase(item.id), needle)
    ||| exists|j: int|
        0 <= j < item.columns.len() && contains(lowercase(#[trigger] item.columns[j]), needle)
}

/// The indices below `n` of the items that match, in rising order.
pub open spec fn matching_below(items: Seq<ItemView>, needle: Seq<char>, n: nat) -> Seq<int>
    decreases n,
{
    if n == 0 {
        Seq::empty()
    } else {
        let rest = matching_below(items, needle, (n - 1) as nat);
        if item_matches(items[n - 1], needle) {
            rest.push(n - 1)
        } else {
            rest
        }
    }
}

/// The indices `0, 1, .., n - 1`.
pub open spec fn all_indices(n: nat) -> Seq<int> {
    Seq::new(n, |i: int| i)
}

/// The filtered subset for a filter text: every index for the empty text,
/// otherwise the indices of the items that match the folded text.
pub open spec fn matching(items: Seq<ItemView>, filter: Seq<char>) -> Seq<int> {
    if filter.len() == 0 {
        all_indices(items.len())
    } else {
        matching_below(items, lowercase(filter), items.len())
    }
}

/// A list of machine indices, read as integers.
pub open spec fn as_ints(indices: Seq<usize>) -> Seq<int> {
    indices.map_values(|i: usize| i as int)
}

/// The sequence rises strictly and stays below `bound`.
pub open spec fn rising_below(indices: Seq<int>, bound: int) -> bool {
    &&& forall|k: int| 0 <= k < indices.len() ==> 0 <= #[trigger] indices[k] < bound
    &&& forall|j: int, k: int| 0 <= j < k < indices.len() ==> indices[j] < indices[k]
}

/// `matching_below` lists exactly the matching indices below `n`, each once,
/// in rising order.
pub proof fn lemma_matching_below(items: Seq<ItemView>, needle: Seq<char>, n: nat)
    ensures
        rising_below(matching_below(items, needle, n), n as int),
        matching_below(items, needle, n).len() <= n,
        forall|i: int|
            0 <= i < n ==> (matching_below(items, needle, n).contains(i) <==> item_matches(
                #[trigger] items[i],
                needle,
            )),
    decreases n,
{
    if n > 0 {
        let rest = matching_below(items, needle, (n - 1) as nat);
        let all = matching_below(items, needle, n);
        lemma_matching_below(items, needle, (n - 1) as nat);
        if item_matches(items[n - 1], needle) {
            assert(all[all.len() - 1] == n - 1);
            assert forall|i: int| 0 <= i < n implies (all.contains(i) <==> item_matches(
                #[trigger] items[i],
                needle,
            )) by {
                if i < n - 1 {
                    if rest.contains(i) {
                        let k = choose|k: int| 0 <= k < rest.len() && rest[k] == i;
                        assert(all[k] == i);
                    }
                    if all.contains(i) {
                        let k = choose|k: int| 0 <= k < all.len() && all[k] == i;
                        assert(rest[k] == i);
                    }
                }
            }
        } else {
            assert forall|i: int| 0 <= i < n implies (all.contains(i) <==> item_matches(
                #[trigger] items[i],
                needle,
            )) by {
                if i == n - 1 {
                    if all.contains(i) {
                        let k = choose|k: int| 0 <= k < all.len() && all[k] == i;
                        assert(all[k] < n - 1);
                    }
                }
            }
        }
    }
}

/// The filtered subset is a part of `0..len(items)` in the items' own order,
/// and it holds every index when the filter text is empty.
pub proof fn lemma_matching_is_ordered_subset(items: Seq<ItemView>, filter: Seq<char>)
    ensures
        rising_below(matching(items, filter), items.len() as int),
        matching(items, filter).len() <= items.len(),
        filter.len() == 0 ==> matching(items, filter) == all_indices(items.len()),
        filter.len() > 0 ==> forall|i: int|
            0 <= i < items.len() ==> (matching(items, filter).contains(i) <==> item_matches(
                #[trigger] items[i],
                lowercase(filter),
            )),
{
    if filter.len() > 0 {
        lemma_matching_below(items, lowercase(filter), items.len());
    }
}

/// Whether the item has a field whose lowercase form contains `needle`.
pub fn matches_item(item: &MenuItem, needle: &Vec<char>) -> (b: bool)
    ensures
        b == item_matches(item@, needle@),
{
    let id: String = to_lowercase(item.id.as_str());
    let id_chars: Vec<char> = chars_of(id.as_str());
    if contains_chars(&id_chars, needle) {
        return true;
    }
    let mut j: usize = 0;
    while j < item.columns.len()
        invariant
            j <= item.columns.len(),
            !contains(lowercase(item@.id), needle@),
            forall|k: int|
                0 <= k < j ==> !contains(lowercase(#[trigger] item@.columns[k]), needle@),
        decreases item.columns.len() - j,
    {
        let col: String = to_lowercase(item.columns[j].as_str());
        let col_chars: Vec<char> = chars_of(col.as_str());
        assert(item@.columns[j as int] == item.columns@[j as int]@);
        if contains_chars(&col_chars, needle) {
            return true;
        }
        j += 1;
    }
    false
}

/// Computes the filtered subset of `items` for the filter text: the indices
/// of the items kept, in the items' own order. The same arguments always give
/// the same list.
pub fn recompute_filter(items: &Vec<MenuItem>, filter: &str) -> (indices: Vec<usize>)
    ensures
        as_ints(indices@) == matching(items.deep_view(), filter@),
{
    let mut indices: Vec<usize> = Vec::new();
    let n: usize = items.len();
    if filter.is_empty() {
        let mut i: usize = 0;
        while i < n
            invariant
                i <= n,
                indices@.len() == i,
                forall|k: int| 0 <= k < i ==> indices@[k] == k,
            decreases n - i,
        {
            indices.push(i);
            i += 1;
        }
        assert(as_ints(indices@) =~= all_indices(items.deep_view().len()));
        return indices;
    }
    let folded: String = to_lowercase(filter);
    let needle: Vec<char> = chars_of(folded.as_str());
    let mut i: usize = 0;
    while i < n
        invariant
            i <= n,
            n == items.len(),
            needle@ == lowercase(filter@),
            as_ints(indices@) == matching_below(items.deep_view(), needle@, i as nat),
        decreases n - i,
    {
        let keep: bool = matches_item(&items[i], &needle);
        assert(items.deep_view()[i as int] == items@[i as int]@);
        if keep {
            let ghost before = indices@;
            indices.push(i);
            assert(as_ints(indices@) =~= as_ints(before).push(i as int));
        }
        i += 1;
    }
    indices
}

} // verus!
