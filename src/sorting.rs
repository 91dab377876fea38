use vstd::prelude::*;
use core::cmp::Ordering;
use binary_heap_plus::{BinaryHeap, FnComparator};
use crate::entry::{
    Entry, EntryView, FileProperty, SortOrder, entry_cmp, entry_le, lemma_entry_cmp_flip,
    lemma_entry_le_trans,
};

verus! {

broadcast use vstd::seq_lib::group_to_multiset_ensures;

/// What a sequence of entries looks like.
pub open spec fn views(s: Seq<Entry>) -> Seq<EntryView> {
    s.map_values(|e: Entry| e@)
}

/// Every entry may stand before every later one, in ascending order by `p`.
pub open spec fn sorted_by(s: Seq<EntryView>, p: FileProperty) -> bool {
    forall|i: int, j: int| 0 <= i < j < s.len() ==> entry_le(#[trigger] s[i], #[trigger] s[j], p)
}

/// Each entry may stand before the next one.
pub open spec fn adjacent_sorted_by(s: Seq<EntryView>, p: FileProperty) -> bool {
    forall|i: int| 0 <= i < s.len() - 1 ==> entry_le(#[trigger] s[i], s[i + 1], p)
}

/// `s` is in the order that `o` asks for: ascending by its attribute, or the
/// reverse of such a sequence.
pub open spec fn in_order(s: Seq<EntryView>, o: SortOrder) -> bool {
    if o.ascending {
        sorted_by(s, o.fileproperty)
    } else {
        sorted_by(s.reverse(), o.fileproperty)
    }
}

/// Result of sorting `input` into the order `o`: the same entries, in order.
pub open spec fn sorted_from(r: Seq<EntryView>, input: Seq<EntryView>, o: SortOrder) -> bool {
    &&& r.to_multiset() == input.to_multiset()
    &&& in_order(r, o)
}

/// Where `e` goes into `r`: after every entry at the end of `r` that `e`
/// does not strictly precede.
pub open spec fn insert_pos(r: Seq<EntryView>, e: EntryView, p: FileProperty) -> int
    decreases r.len(),
{
    if r.len() == 0 {
        0
    } else if entry_cmp(e, r.last(), p) == Ordering::Less {
        insert_pos(r.drop_last(), e, p)
    } else {
        r.len() as int
    }
}

/// The entries sorted ascending by `p`, each put in after those it does not
/// precede, so that entries comparing equal keep their order.
pub open spec fn insertion_sorted(s: Seq<EntryView>, p: FileProperty) -> Seq<EntryView>
    decreases s.len(),
{
    if s.len() == 0 {
        s
    } else {
        let r = insertion_sorted(s.drop_last(), p);
        r.insert(insert_pos(r, s.last(), p), s.last())
    }
}

/// The result of sorting `s` into the order `o`: the stable ascending
/// order, or the whole of it reversed.
pub open spec fn sort_result(s: Seq<EntryView>, o: SortOrder) -> Seq<EntryView> {
    if o.ascending {
        insertion_sorted(s, o.fileproperty)
    } else {
        insertion_sorted(s, o.fileproperty).reverse()
    }
}

/// Order between neighbours extends to every pair.
pub proof fn lemma_adjacent_sorted(s: Seq<EntryView>, p: FileProperty)
    requires
        adjacent_sorted_by(s, p),
    ensures
        sorted_by(s, p),
{
    assert forall|i: int, j: int| 0 <= i < j < s.len() implies entry_le(
        #[trigger] s[i],
        #[trigger] s[j],
        p,
    ) by {
        lemma_adjacent_sorted_from(s, p, i, j);
    }
}

proof fn lemma_adjacent_sorted_from(s: Seq<EntryView>, p: FileProperty, i: int, j: int)
    requires
        adjacent_sorted_by(s, p),
        0 <= i < j < s.len(),
    ensures
        entry_le(s[i], s[j], p),
    decreases j - i,
{
    if j > i + 1 {
        lemma_adjacent_sorted_from(s, p, i + 1, j);
        lemma_entry_le_trans(s[i], s[i + 1], s[j], p);
    }
}

/// Relies on `binary_heap_plus::BinaryHeap`: `from_vec_cmp` builds a heap of
/// the entries under a comparator that calls `compare_entries` (a total order:
/// see `lemma_entry_cmp_flip` and `lemma_entry_le_trans`), and
/// `into_sorted_vec` hands the same items back in ascending order of it.
#[verifier::external_body]
fn heap_sorted(entries: Vec<Entry>, order: SortOrder) -> (r: Vec<Entry>)
    ensures
        views(r@).to_multiset() == views(entries@).to_multiset(),
        adjacent_sorted_by(views(r@), order.fileproperty),
{
    let cmp = FnComparator(move |a: &Entry, b: &Entry| order.compare_entries(a, b));
    BinaryHeap::from_vec_cmp(entries, cmp).into_sorted_vec()
}

/// The entries in reverse order.
fn reversed(v: Vec<Entry>) -> (r: Vec<Entry>)
    ensures
        views(r@) == views(v@).reverse(),
{
    let ghost orig = v@;
    let mut v = v;
    let mut r: Vec<Entry> = Vec::new();
    while v.len() > 0
        invariant
            v@ == orig.subrange(0, v@.len() as int),
            r@.len() + v@.len() == orig.len(),
            forall|k: int| 0 <= k < r@.len() ==> #[trigger] r@[k] == orig[orig.len() - 1 - k],
        decreases v@.len(),
    {
        let e = v.pop().unwrap();
        r.push(e);
    }
    assert(views(r@) =~= views(orig).reverse());
    r
}

/// A directory's listing in the order `order` asks for.
pub fn sort_listing(entries: Vec<Entry>, order: SortOrder) -> (r: Vec<Entry>)
    ensures
        sorted_from(views(r@), views(entries@), order),
{
    let ghost input = views(entries@);
    let s = heap_sorted(entries, order);
    proof {
        lemma_adjacent_sorted(views(s@), order.fileproperty);
    }
    if order.ascending {
        s
    } else {
        let r = reversed(s);
        proof {
            views(s@).lemma_reverse_to_multiset();
            assert(views(r@).reverse() =~= views(s@));
        }
        r
    }
}

/// A sorted copy of `entries`, in the order `order` asks for. Entries that
/// compare equal keep their relative order before the direction is applied.
pub fn sort_entries(entries: &Vec<Entry>, order: SortOrder) -> (r: Vec<Entry>)
    ensures
        views(r@) == sort_result(views(entries@), order),
        sorted_from(views(r@), views(entries@), order),
{
    let p = order.fileproperty;
    let n = entries.len();
    let mut r: Vec<Entry> = Vec::new();
    let mut i: usize = 0;
    while i < n
        invariant
            n == entries@.len(),
            i <= n,
            p == order.fileproperty,
            sorted_by(views(r@), p),
            views(r@) == insertion_sorted(views(entries@.subrange(0, i as int)), p),
            views(r@).to_multiset() == views(entries@.subrange(0, i as int)).to_multiset(),
        decreases n - i,
    {
        let e = entries[i].clone();
        let mut j: usize = r.len();
        assert(views(r@).subrange(0, j as int) =~= views(r@));
        while j > 0 && matches!(order.compare_entries(&e, &r[j - 1]), Ordering::Less)
            invariant
                j <= r@.len(),
                p == order.fileproperty,
                forall|k: int| j <= k < r@.len() ==> entry_cmp(e@, #[trigger] r@[k]@, p) == Ordering::Less,
                insert_pos(views(r@), e@, p) == insert_pos(views(r@).subrange(0, j as int), e@, p),
            decreases j,
        {
            proof {
                let sub = views(r@).subrange(0, j as int);
                assert(sub.drop_last() =~= views(r@).subrange(0, j - 1));
                assert(sub.last() == r@[j - 1]@);
            }
            j -= 1;
        }
        proof {
            let sub = views(r@).subrange(0, j as int);
            if j > 0 {
                assert(sub.last() == r@[j - 1]@);
            }
            assert(insert_pos(views(r@), e@, p) == j);
        }
        let ghost old_r = views(r@);
        proof {
            assert forall|k: int| 0 <= k < j implies entry_le(#[trigger] old_r[k], e@, p) by {
                lemma_entry_cmp_flip(e@, old_r[j - 1], p);
                if k < j - 1 {
                    lemma_entry_le_trans(old_r[k], old_r[j - 1], e@, p);
                }
            }
            assert forall|k: int| j <= k < old_r.len() implies entry_le(e@, #[trigger] old_r[k], p) by {
                assert(r@[k]@ == old_r[k]);
            }
        }
        r.insert(j, e);
        proof {
            let s = views(r@);
            assert(s =~= old_r.insert(j as int, entries@[i as int]@));
            assert forall|a: int, b: int| 0 <= a < b < s.len() implies entry_le(
                #[trigger] s[a],
                #[trigger] s[b],
                p,
            ) by {
                if b < j {
                    assert(s[a] == old_r[a] && s[b] == old_r[b]);
                } else if b == j {
                    assert(s[a] == old_r[a]);
                } else if a < j {
                    assert(s[a] == old_r[a] && s[b] == old_r[b - 1]);
                    lemma_entry_le_trans(old_r[a], e@, old_r[b - 1], p);
                } else if a == j {
                    assert(s[b] == old_r[b - 1]);
                } else {
                    assert(s[a] == old_r[a - 1] && s[b] == old_r[b - 1]);
                }
            }
            assert(views(entries@.subrange(0, i + 1)) =~= views(entries@.subrange(0, i as int)).push(
                entries@[i as int]@,
            ));
            assert(views(entries@.subrange(0, i + 1)).drop_last() =~= views(
                entries@.subrange(0, i as int),
            ));
        }
        i += 1;
    }
    proof {
        assert(entries@.subrange(0, n as int) =~= entries@);
    }
    if order.ascending {
        r
    } else {
        let ghost fwd = views(r@);
        let rev = reversed(r);
        proof {
            fwd.lemma_reverse_to_multiset();
            assert(views(rev@).reverse() =~= fwd);
        }
        rev
    }
}

} // verus!

verus! {

/// In entries sorted by name in ascending order, every directory stands
/// before every file, and among directories, as among files, the names
/// ascend when case is ignored.
pub proof fn lemma_name_order_groups(s: Seq<EntryView>)
    requires
        in_order(s, SortOrder { fileproperty: FileProperty::Name, ascending: true }),
    ensures
        forall|i: int, j: int|
            0 <= i < j < s.len() && (#[trigger] s[j]).is_dir ==> (#[trigger] s[i]).is_dir,
        forall|i: int, j: int|
            0 <= i < j < s.len() && (#[trigger] s[i]).is_dir == (#[trigger] s[j]).is_dir
                ==> crate::entry::name_cmp(s[i].name, s[j].name) != Ordering::Greater,
{
    assert forall|i: int, j: int|
        0 <= i < j < s.len() && (#[trigger] s[j]).is_dir implies (#[trigger] s[i]).is_dir by {
        assert(entry_le(s[i], s[j], FileProperty::Name));
    }
    assert forall|i: int, j: int|
        0 <= i < j < s.len() && (#[trigger] s[i]).is_dir == (#[trigger] s[j]).is_dir
            implies crate::entry::name_cmp(s[i].name, s[j].name) != Ordering::Greater by {
        assert(entry_le(s[i], s[j], FileProperty::Name));
    }
}

} // verus!
