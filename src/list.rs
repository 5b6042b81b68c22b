use crate::action::{
    act_on_kids, holder_after, holder_touched, kids_after, opt_view, path_found, taken, ActionView,
    ItemAction,
};
use crate::enums::{ItemStatus, PrintWhich};
use crate::item::{capped, item_view, lemma_children_views, tally, tally_seq, views, Item, ItemView};
use crate::stamp::{now, stamp_le, Timestamp};
use crate::text::{decimal, usize_text};
use vstd::prelude::*;
use vstd::string::StringExecFns;

verus! {

/// A named, ordered collection of top-level entries.
pub struct List {
    pub name: String,
    pub items: Vec<Item>,
    pub created: Timestamp,
    pub last_updated: Timestamp,
}

pub struct ListView {
    pub name: Seq<char>,
    pub items: Seq<ItemView>,
    pub created: Timestamp,
    pub last_updated: Timestamp,
}

impl View for List {
    type V = ListView;

    open spec fn view(&self) -> ListView {
        ListView { name: self.name@, items: views(self.items@), created: self.created, last_updated: self.last_updated }
    }
}

/// The list `l` after `a` is dispatched along the coordinate stack `stack` (read from its end).
pub open spec fn list_after(l: ListView, stack: Seq<usize>, a: ActionView, now: Timestamp) -> ListView {
    let k = stack.len();
    if path_found(l.items, stack, k) {
        ListView {
            items: kids_after(l.items, stack, k, a, now),
            last_updated: if holder_touched(k, a) { now } else { l.last_updated },
            ..l
        }
    } else {
        l
    }
}

/// What dispatching `a` along `stack` hands back: the removed entry for a found `Remove`.
pub open spec fn list_taken(l: ListView, stack: Seq<usize>, a: ActionView, now: Timestamp) -> Option<ItemView> {
    if path_found(l.items, stack, stack.len()) {
        taken(l.items, stack, stack.len(), a, now)
    } else {
        None
    }
}

/// A move: remove along `from`, then put what was removed along `to`.
pub open spec fn list_moved(l: ListView, from: Seq<usize>, to: Seq<usize>, now: Timestamp) -> ListView {
    let l1 = list_after(l, from, ActionView::Remove, now);
    match list_taken(l, from, ActionView::Remove, now) {
        Some(v) => list_after(l1, to, ActionView::Put(v), now),
        None => l1,
    }
}

/// The number of to-dos in `status` across the list.
pub open spec fn list_tally(l: ListView, status: ItemStatus) -> nat {
    tally_seq(l.items, status)
}

/// The counts reported for a selection: top-level entries, then the complete and
/// incomplete to-dos (capped at `usize::MAX`) where the selection asks for them.
pub open spec fn status_counts_of(l: ListView, which: PrintWhich) -> (usize, Option<usize>, Option<usize>) {
    let c = capped(list_tally(l, ItemStatus::Complete)) as usize;
    let i = capped(list_tally(l, ItemStatus::Incomplete)) as usize;
    (
        l.items.len() as usize,
        if which is Incomplete { None } else { Some(c) },
        if which is Complete { None } else { Some(i) },
    )
}

/// The status summary text for a selection.
pub open spec fn status_text(l: ListView, which: PrintWhich) -> Seq<char> {
    let counts = status_counts_of(l, which);
    let head = if which is All { "Items: "@ + decimal(l.items.len()) } else { Seq::empty() };
    if l.items.len() == 0 {
        head
    } else {
        head + match counts.1 {
            Some(c) => "\nComplete: "@ + decimal(c as nat),
            None => Seq::empty(),
        } + match counts.2 {
            Some(i) => "\nIncomplete: "@ + decimal(i as nat),
            None => Seq::empty(),
        }
    }
}

/// Creation times never decrease along `s`.
pub open spec fn created_sorted(s: Seq<ItemView>) -> bool {
    forall|a: int, b: int| 0 <= a < b < s.len() ==> stamp_le(#[trigger] s[a].created, #[trigger] s[b].created)
}

/// The two moments are the same instant (the zone offset plays no part).
pub open spec fn same_moment(a: Timestamp, b: Timestamp) -> bool {
    a.secs == b.secs && a.nanos == b.nanos
}

pub open spec fn made_at_pred(t: Timestamp) -> spec_fn(ItemView) -> bool {
    |v: ItemView| same_moment(v.created, t)
}

/// The entries of `s` created at the instant `t`, in their order in `s`.
pub open spec fn made_at(s: Seq<ItemView>, t: Timestamp) -> Seq<ItemView> {
    s.filter(made_at_pred(t))
}

/// Moving `x` in front of entries all created strictly after it keeps, for every
/// instant, the order of the entries created at that instant.
proof fn lemma_move_before_later(a: Seq<ItemView>, b: Seq<ItemView>, x: ItemView, c: Seq<ItemView>, t: Timestamp)
    requires
        forall|q: int| 0 <= q < b.len() ==> !stamp_le(#[trigger] b[q].created, x.created),
    ensures
        made_at(a + b + seq![x] + c, t) == made_at(a + seq![x] + b + c, t),
{
    broadcast use Seq::filter_distributes_over_add;

    let pred = made_at_pred(t);
    let fx = seq![x].filter(pred);
    let fb = b.filter(pred);
    reveal(Seq::filter);
    assert(seq![x].drop_last() =~= Seq::<ItemView>::empty());
    assert(seq![x].last() == x);
    assert(Seq::<ItemView>::empty().filter(pred) =~= Seq::<ItemView>::empty());
    assert(fx == if pred(x) { seq![x].drop_last().filter(pred).push(x) } else { seq![x].drop_last().filter(pred) });
    if pred(x) {
        assert(fx =~= seq![x]);
        if fb.len() > 0 {
            b.lemma_filter_contains_rev(pred, fb[0]);
            let q = choose|q: int| 0 <= q < b.len() && b[q] == fb[0];
            assert(!stamp_le(b[q].created, x.created));
        }
        assert(fb =~= Seq::<ItemView>::empty());
        assert(fb + fx =~= fx + fb);
    } else {
        assert(fx =~= Seq::<ItemView>::empty());
        assert(fb + fx =~= fx + fb);
    }
    assert(((a + b) + seq![x]).filter(pred) == (a + b).filter(pred) + fx);
    assert((a + seq![x]).filter(pred) == a.filter(pred) + fx);
    assert(((a + seq![x]) + b).filter(pred) == (a + seq![x]).filter(pred) + fb);
    assert((a + b + seq![x] + c).filter(pred) =~= a.filter(pred) + fb + fx + c.filter(pred));
    assert((a + seq![x] + b + c).filter(pred) =~= a.filter(pred) + fx + fb + c.filter(pred));
}

proof fn lemma_views_insert(s: Seq<Item>, i: int, x: Item)
    requires
        0 <= i <= s.len(),
    ensures
        views(s.insert(i, x)) == views(s).insert(i, item_view(x)),
{
    assert(views(s.insert(i, x)) =~= views(s).insert(i, item_view(x)));
}

/// The number of to-dos in `status` over `items`, capped at `usize::MAX`.
fn tally_items(items: &Vec<Item>, status: ItemStatus) -> (r: usize)
    ensures
        r as nat == capped(tally_seq(views(items@), status)),
{
    let ghost kids = views(items@);
    let mut total: usize = 0;
    let mut j: usize = 0;
    while j < items.len()
        invariant
            j <= items@.len(),
            kids == views(items@),
            total as nat == capped(tally_seq(kids.take(j as int), status)),
        decreases items@.len() - j,
    {
        let c = items[j].count_status(status);
        proof {
            assert(kids.take(j + 1).drop_last() =~= kids.take(j as int));
            assert(kids.take(j + 1).last() == item_view(items@[j as int]));
        }
        total = total.saturating_add(c);
        j = j + 1;
    }
    assert(kids.take(j as int) =~= kids);
    total
}

impl List {
    /// An empty list called `name`, made at the given moment.
    pub fn new_at(name: String, at: Timestamp) -> (r: List)
        ensures
            r@ == (ListView { name: name@, items: Seq::empty(), created: at, last_updated: at }),
    {
        let r = List { name, items: Vec::new(), created: at, last_updated: at };
        assert(r@.items =~= Seq::<ItemView>::empty());
        r
    }

    /// An empty list called `name`, made now.
    pub fn new(name: String) -> (r: List)
        ensures
            r@.name == name@,
            r@.items == Seq::<ItemView>::empty(),
            r@.created == r@.last_updated,
    {
        List::new_at(name, now())
    }

    /// Dispatches `action` along `indices`, a coordinate stack read from its end
    /// (the last element is the top-level coordinate), at time `at`. The stack is used up.
    pub fn act_on_item_at_time(&mut self, indices: &mut Vec<usize>, action: ItemAction, at: Timestamp) -> (r: Option<Item>)
        ensures
            final(self)@ == list_after(old(self)@, old(indices)@, action@, at),
            opt_view(r) == list_taken(old(self)@, old(indices)@, action@, at),
            final(indices)@ == Seq::<usize>::empty(),
    {
        let k = indices.len();
        let touched = k > 0 || match action {
            ItemAction::Add(_, _) => true,
            ItemAction::Put(_) => true,
            _ => false,
        };
        let r = act_on_kids(&mut self.items, indices, k, action, at);
        if r.0 && touched {
            self.last_updated = at;
        }
        indices.clear();
        r.1
    }

    /// Dispatches `action` along `indices` at the current time.
    pub fn act_on_item_at(&mut self, indices: &mut Vec<usize>, action: ItemAction) -> (r: Option<Item>)
        ensures
            exists|t: Timestamp|
                final(self)@ == list_after(old(self)@, old(indices)@, action@, t) && opt_view(r)
                    == list_taken(old(self)@, old(indices)@, action@, t),
            final(indices)@ == Seq::<usize>::empty(),
    {
        self.act_on_item_at_time(indices, action, now())
    }

    /// Moves the entry at `from` to the end of the holder at `to`, at time `at`;
    /// `to` is followed in the list as it stands after the removal. Returns whether
    /// an entry was removed; when none was, the list is unchanged.
    pub fn move_item_at_time(&mut self, from: &mut Vec<usize>, to: &mut Vec<usize>, at: Timestamp) -> (r: bool)
        ensures
            final(self)@ == list_moved(old(self)@, old(from)@, old(to)@, at),
            r == list_taken(old(self)@, old(from)@, ActionView::Remove, at) is Some,
            final(from)@ == Seq::<usize>::empty(),
    {
        match self.act_on_item_at_time(from, ItemAction::Remove, at) {
            Some(item) => {
                self.act_on_item_at_time(to, ItemAction::Put(item), at);
                true
            },
            None => false,
        }
    }

    /// Moves the entry at `from` to the end of the holder at `to`, at the current time.
    pub fn move_item(&mut self, from: &mut Vec<usize>, to: &mut Vec<usize>) -> (r: bool)
        ensures
            exists|t: Timestamp|
                final(self)@ == list_moved(old(self)@, old(from)@, old(to)@, t) && r == list_taken(
                    old(self)@,
                    old(from)@,
                    ActionView::Remove,
                    t,
                ) is Some,
            final(from)@ == Seq::<usize>::empty(),
    {
        self.move_item_at_time(from, to, now())
    }

    /// Puts the top-level entries in order of creation, earliest first, as is done
    /// when a list is loaded. Entries created at the same instant keep their order;
    /// nothing else changes.
    pub fn sort_by_created(&mut self)
        ensures
            final(self)@.items.to_multiset() == old(self)@.items.to_multiset(),
            forall|t: Timestamp| #[trigger] made_at(final(self)@.items, t) == made_at(old(self)@.items, t),
            final(self)@.items.len() == old(self)@.items.len(),
            created_sorted(final(self)@.items),
            final(self)@.name == old(self)@.name,
            final(self)@.created == old(self)@.created,
            final(self)@.last_updated == old(self)@.last_updated,
    {
        broadcast use vstd::seq_lib::group_to_multiset_ensures;

        let ghost orig = views(self.items@);
        let n = self.items.len();
        if n == 0 {
            return;
        }
        let mut i: usize = 1;
        while i < n
            invariant
                1 <= i <= n,
                n == self.items@.len(),
                views(self.items@).to_multiset() == orig.to_multiset(),
                created_sorted(views(self.items@).take(i as int)),
                forall|t: Timestamp| #[trigger] made_at(views(self.items@), t) == made_at(orig, t),
                self@.name == old(self)@.name,
                self@.created == old(self)@.created,
                self@.last_updated == old(self)@.last_updated,
            decreases n - i,
        {
            let ghost before = self.items@;
            let item = self.items.remove(i);
            proof {
                crate::action::lemma_views_remove(before, i as int);
                vstd::seq_lib::to_multiset_remove(views(before), i as int);
            }
            let ghost w = views(self.items@);
            assert(w.take(i as int) =~= views(before).take(i as int));
            let mut p: usize = i;
            while p > 0 && !self.items[p - 1].created.not_after(&item.created)
                invariant
                    0 <= p <= i,
                    i < n,
                    self.items@.len() == n - 1,
                    w == views(self.items@),
                    forall|q: int| p <= q < i ==> !stamp_le(#[trigger] w[q].created, item.created),
                decreases p,
            {
                p = p - 1;
            }
            let ghost mid = self.items@;
            let ghost iv = item_view(item);
            self.items.insert(p, item);
            proof {
                lemma_views_insert(mid, p as int, item);
                vstd::seq_lib::to_multiset_insert(w, p as int, iv);
                let nw = views(self.items@);
                assert(nw == w.insert(p as int, iv));
                assert(iv == views(before)[i as int]);
                vstd::seq_lib::to_multiset_contains(views(before), iv);
                assert(w.to_multiset() == views(before).to_multiset().remove(iv));
                assert(nw.to_multiset() =~= views(before).to_multiset());
                let vb = views(before);
                let a = vb.take(p as int);
                let b = vb.subrange(p as int, i as int);
                let c = vb.skip(i + 1);
                assert(vb =~= a + b + seq![iv] + c);
                assert(nw =~= a + seq![iv] + b + c);
                assert forall|q: int| 0 <= q < b.len() implies !stamp_le(#[trigger] b[q].created, iv.created) by {
                    assert(b[q] == w[p + q]);
                }
                assert forall|t: Timestamp| #[trigger] made_at(nw, t) == made_at(orig, t) by {
                    lemma_move_before_later(a, b, iv, c, t);
                }
                let pre = nw.take(i + 1);
                assert forall|a: int, b: int| 0 <= a < b < pre.len() implies stamp_le(
                    #[trigger] pre[a].created,
                    #[trigger] pre[b].created,
                ) by {
                    assert(created_sorted(w.take(i as int)));
                    if p > 0 {
                        assert(stamp_le(w[p - 1].created, iv.created));
                    }
                    if a < p && b < p {
                        assert(w.take(i as int)[a] == w[a] && w.take(i as int)[b] == w[b]);
                    } else if a < p && b == p {
                        assert(w.take(i as int)[a] == w[a] && w.take(i as int)[p - 1] == w[p - 1]);
                    } else if a < p {
                        assert(w.take(i as int)[a] == w[a] && w.take(i as int)[b - 1] == w[b - 1]);
                    } else if a == p {
                        assert(!stamp_le(w[b - 1].created, iv.created));
                    } else {
                        assert(w.take(i as int)[a - 1] == w[a - 1] && w.take(i as int)[b - 1] == w[b - 1]);
                    }
                }
            }
            i = i + 1;
        }
        assert(views(self.items@).take(n as int) =~= views(self.items@));
    }

    /// Top-level entry count, and the complete and incomplete to-do counts over the
    /// whole tree where `print_which` asks for them.
    pub fn status_counts(&self, print_which: PrintWhich) -> (r: (usize, Option<usize>, Option<usize>))
        ensures
            r == status_counts_of(self@, print_which),
    {
        let c = tally_items(&self.items, ItemStatus::Complete);
        let i = tally_items(&self.items, ItemStatus::Incomplete);
        let complete = match print_which {
            PrintWhich::Incomplete => None,
            _ => Some(c),
        };
        let incomplete = match print_which {
            PrintWhich::Complete => None,
            _ => Some(i),
        };
        (self.items.len(), complete, incomplete)
    }

    /// Appends the status summary for `print_which` to `content`.
    pub fn status(&self, content: &mut String, print_which: PrintWhich)
        ensures
            final(content)@ == old(content)@ + status_text(self@, print_which),
    {
        proof {
            reveal_strlit("Items: ");
            reveal_strlit("\nComplete: ");
            reveal_strlit("\nIncomplete: ");
        }
        let ghost start = content@;
        let counts = self.status_counts(print_which);
        match print_which {
            PrintWhich::All => {
                content.append("Items: ");
                let n = usize_text(self.items.len());
                content.append(n.as_str());
            },
            _ => {},
        }
        let ghost after_head = content@;
        if self.items.len() == 0 {
            assert(content@ =~= start + status_text(self@, print_which));
            return;
        }
        match counts.1 {
            Some(c) => {
                content.append("\nComplete: ");
                let t = usize_text(c);
                content.append(t.as_str());
            },
            None => {},
        }
        let ghost after_c = content@;
        match counts.2 {
            Some(i) => {
                content.append("\nIncomplete: ");
                let t = usize_text(i);
                content.append(t.as_str());
            },
            None => {},
        }
        assert(content@ =~= start + status_text(self@, print_which));
    }
}

} // verus!
