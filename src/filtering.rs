use vstd::prelude::*;
use crate::entry::{Entry, EntryView, lower_of, lowercase};
use crate::text::chars_of;
use crate::sorting::views;

verus! {

/// `needle` occurs in `hay` as a run of consecutive characters.
pub open spec fn occurs_in(needle: Seq<char>, hay: Seq<char>) -> bool {
    exists|i: int| 0 <= i <= hay.len() - needle.len() && #[trigger] hay.subrange(i, i + needle.len()) == needle
}

/// Whether `needle` occurs in `hay`, by trying each place in turn.
fn str_contains(hay: &str, needle: &str) -> (r: bool)
    ensures
        r == occurs_in(needle@, hay@),
{
    let h = chars_of(hay);
    let n = chars_of(needle);
    let hl = h.len();
    if n.len() > hl {
        return false;
    }
    if n.len() == 0 {
        assert(h@.subrange(0, 0) =~= n@);
        assert(h@.subrange(0int, 0int + n@.len()) == n@);
        return true;
    }
    let last = hl - n.len();
    let mut i: usize = 0;
    while i <= last
        invariant
            h@ == hay@,
            n@ == needle@,
            hl == h@.len(),
            n@.len() > 0,
            last == h@.len() - n@.len(),
            forall|k: int| 0 <= k < i ==> #[trigger] h@.subrange(k, k + n@.len()) != n@,
        decreases last + 1 - i,
    {
        let mut j: usize = 0;
        while j < n.len()
            invariant
                i <= last,
                hl == h@.len(),
                i + n@.len() <= hl,
                j <= n@.len(),
                forall|t: int| 0 <= t < j ==> h@[i + t] == n@[t],
            ensures
                j <= n@.len(),
                forall|t: int| 0 <= t < j ==> h@[i + t] == n@[t],
                j < n@.len() ==> h@[i + j] != n@[j as int],
            decreases n@.len() - j,
        {
            if h[i + j] != n[j] {
                break;
            }
            j += 1;
        }
        if j == n.len() {
            assert(h@.subrange(i as int, i + n@.len()) =~= n@);
            return true;
        }
        assert(h@.subrange(i as int, i + n@.len())[j as int] != n@[j as int]);
        i += 1;
    }
    proof {
        assert forall|k: int| 0 <= k <= hay@.len() - needle@.len() implies #[trigger] hay@.subrange(
            k,
            k + needle@.len(),
        ) != needle@ by {
            assert(k < i);
        }
    }
    false
}

/// An entry is kept when its name contains the filter text, case ignored.
pub open spec fn keeps(e: EntryView, needle: Seq<char>) -> bool {
    occurs_in(lower_of(needle), lower_of(e.name))
}

pub open spec fn keep_pred(needle: Seq<char>) -> spec_fn(EntryView) -> bool {
    |e: EntryView| keeps(e, needle)
}

/// The entries of `s` that the filter text keeps, in their order.
pub open spec fn filtered(s: Seq<EntryView>, needle: Seq<char>) -> Seq<EntryView> {
    s.filter(keep_pred(needle))
}

/// The entries whose names contain `needle`, case ignored, in their order;
/// `items` is left as it is.
pub fn filter_entries(items: &Vec<Entry>, needle: &str) -> (r: Vec<Entry>)
    ensures
        views(r@) == filtered(views(items@), needle@),
        needle@.len() == 0 ==> views(r@) == views(items@),
{
    let low = lowercase(needle);
    proof {
        if needle@.len() == 0 {
            assert forall|e: EntryView| keeps(e, needle@) by {
                let n = lower_of(needle@);
                let h = lower_of(e.name);
                assert(n.len() == 0);
                assert(h.subrange(0int, 0int + n.len()) =~= n);
            }
            lemma_filter_all(views(items@), needle@);
        }
    }
    let mut r: Vec<Entry> = Vec::new();
    let mut i: usize = 0;
    while i < items.len()
        invariant
            i <= items@.len(),
            low@ == lower_of(needle@),
            views(r@) == filtered(views(items@.subrange(0, i as int)), needle@),
        decreases items@.len() - i,
    {
        let name = lowercase(items[i].name.0.as_str());
        let keep = str_contains(name.as_str(), low.as_str());
        proof {
            let pre = views(items@.subrange(0, i as int));
            let next = views(items@.subrange(0, i + 1));
            assert(next.drop_last() =~= pre);
            assert(next.last() == items@[i as int]@);
            reveal(Seq::filter);
        }
        if keep {
            r.push(items[i].clone());
            proof {
                assert(views(r@) =~= filtered(views(items@.subrange(0, i as int)), needle@).push(
                    items@[i as int]@,
                ));
            }
        }
        i += 1;
    }
    proof {
        assert(items@.subrange(0, items@.len() as int) =~= items@);
    }
    r
}

/// Filtering twice with the same text gives what filtering once gave.
pub proof fn lemma_filter_idempotent(items: Seq<EntryView>, needle: Seq<char>)
    ensures
        filtered(filtered(items, needle), needle) == filtered(items, needle),
    decreases items.len(),
{
    reveal(Seq::filter);
    if items.len() > 0 {
        lemma_filter_idempotent(items.drop_last(), needle);
        let f = filtered(items.drop_last(), needle);
        if keeps(items.last(), needle) {
            assert(f.push(items.last()).drop_last() =~= f);
        }
    }
}

/// Where the filter text keeps every entry, filtering changes nothing.
proof fn lemma_filter_all(items: Seq<EntryView>, needle: Seq<char>)
    requires
        forall|e: EntryView| keeps(e, needle),
    ensures
        filtered(items, needle) == items,
    decreases items.len(),
{
    reveal(Seq::filter);
    if items.len() > 0 {
        lemma_filter_all(items.drop_last(), needle);
        assert(items.drop_last().push(items.last()) =~= items);
    }
}

} // verus!
