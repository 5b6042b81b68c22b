use crate::enums::{ItemStatus, ItemType};
use crate::stamp::{now, Timestamp};
use vstd::prelude::*;

verus! {

/// One entry of a list: a to-do or a note, owning its nested entries in display order.
pub struct Item {
    pub item_type: ItemType,
    pub status: ItemStatus,
    pub text: String,
    pub sub_items: Vec<Item>,
    pub created: Timestamp,
    pub last_updated: Timestamp,
    pub hidden: bool,
}

/// The mathematical value of an entry and everything nested under it.
pub struct ItemView {
    pub kind: ItemType,
    pub status: ItemStatus,
    pub text: Seq<char>,
    pub children: Seq<ItemView>,
    pub created: Timestamp,
    pub last_updated: Timestamp,
    pub hidden: bool,
}

pub open spec fn item_view(n: Item) -> ItemView
    decreases n,
{
    ItemView {
        kind: n.item_type,
        status: n.status,
        text: n.text@,
        children: Seq::new(
            n.sub_items@.len(),
            |i: int|
                if 0 <= i < n.sub_items@.len() {
                    item_view(n.sub_items@[i])
                } else {
                    fresh(n.item_type, Seq::empty(), n.created)
                },
        ),
        created: n.created,
        last_updated: n.last_updated,
        hidden: n.hidden,
    }
}

/// The views of a sequence of entries, position by position.
pub open spec fn views(s: Seq<Item>) -> Seq<ItemView> {
    Seq::new(s.len(), |i: int| item_view(s[i]))
}

impl View for Item {
    type V = ItemView;

    open spec fn view(&self) -> ItemView {
        item_view(*self)
    }
}

pub proof fn lemma_children_views(n: Item)
    ensures
        item_view(n).children == views(n.sub_items@),
{
    assert(item_view(n).children =~= views(n.sub_items@));
}

/// A new, visible, incomplete entry with no nested entries, made at `now`.
pub open spec fn fresh(kind: ItemType, text: Seq<char>, now: Timestamp) -> ItemView {
    ItemView {
        kind,
        status: ItemStatus::Incomplete,
        text,
        children: Seq::empty(),
        created: now,
        last_updated: now,
        hidden: false,
    }
}

/// The entry counts toward `status`: a to-do in that status.
pub open spec fn counts_as(n: ItemView, status: ItemStatus) -> bool {
    n.kind == ItemType::Todo && n.status == status
}

/// The number of to-dos in `status` in the subtree of `n`, `n` included.
pub open spec fn tally(n: ItemView, status: ItemStatus) -> nat
    decreases n, 0nat,
{
    (if counts_as(n, status) { 1nat } else { 0nat }) + tally_seq(n.children, status)
}

pub open spec fn tally_seq(s: Seq<ItemView>, status: ItemStatus) -> nat
    decreases s, 1nat,
{
    if s.len() == 0 {
        0
    } else {
        tally_seq(s.drop_last(), status) + tally(s.last(), status)
    }
}

/// The number of entries in the subtree of `n`, `n` included.
pub open spec fn size(n: ItemView) -> nat
    decreases n, 0nat,
{
    1 + size_seq(n.children)
}

pub open spec fn size_seq(s: Seq<ItemView>) -> nat
    decreases s, 1nat,
{
    if s.len() == 0 {
        0
    } else {
        size_seq(s.drop_last()) + size(s.last())
    }
}

/// The largest number of entries directly under one holder, anywhere in the subtree of `n`.
pub open spec fn widest(n: ItemView) -> nat
    decreases n, 0nat,
{
    let w = widest_seq(n.children);
    if n.children.len() > w { n.children.len() } else { w }
}

pub open spec fn widest_seq(s: Seq<ItemView>) -> nat
    decreases s, 1nat,
{
    if s.len() == 0 {
        0
    } else {
        let a = widest_seq(s.drop_last());
        let b = widest(s.last());
        if a > b { a } else { b }
    }
}

pub open spec fn max3(a: nat, b: nat, c: nat) -> nat {
    if a >= b && a >= c { a } else if b >= c { b } else { c }
}

/// One entry of `s` with a to-do in `status` makes the whole sequence hold one.
pub proof fn lemma_tally_seq_ge(s: Seq<ItemView>, status: ItemStatus, j: int)
    requires
        0 <= j < s.len(),
    ensures
        tally_seq(s, status) >= tally(s[j], status),
    decreases s.len(),
{
    if j < s.len() - 1 {
        lemma_tally_seq_ge(s.drop_last(), status, j);
    }
}

pub open spec fn capped(n: nat) -> nat {
    if n > usize::MAX { usize::MAX as nat } else { n }
}

impl Item {
    /// A new incomplete, visible entry made at the given moment.
    pub fn new_at(item_type: ItemType, text: String, at: Timestamp) -> (r: Item)
        ensures
            r@ == fresh(item_type, text@, at),
    {
        let r = Item {
            item_type,
            status: ItemStatus::Incomplete,
            text,
            sub_items: Vec::new(),
            created: at,
            last_updated: at,
            hidden: false,
        };
        assert(r@.children =~= Seq::<ItemView>::empty());
        r
    }

    /// A new incomplete, visible entry made now.
    pub fn new(item_type: ItemType, text: String) -> (r: Item)
        ensures
            exists|t: Timestamp| r@ == fresh(item_type, text@, t),
    {
        Item::new_at(item_type, text, now())
    }

    /// The number of to-dos in `status` in this subtree, capped at `usize::MAX`.
    pub fn count_status(&self, status: ItemStatus) -> (r: usize)
        ensures
            r as nat == capped(tally(self@, status)),
        decreases self,
    {
        let mut counter: usize = if self.item_type == ItemType::Todo && self.status == status {
            1
        } else {
            0
        };
        let ghost kids = views(self.sub_items@);
        proof {
            lemma_children_views(*self);
        }
        let mut j: usize = 0;
        while j < self.sub_items.len()
            invariant
                j <= self.sub_items@.len(),
                kids == views(self.sub_items@),
                kids == self@.children,
                counter as nat == capped(
                    (if counts_as(self@, status) { 1nat } else { 0nat }) + tally_seq(kids.take(j as int), status),
                ),
            decreases self.sub_items@.len() - j,
        {
            let sub = &self.sub_items[j];
            proof {
                assert(decreases_to!(self => self.sub_items));
                assert(decreases_to!(self.sub_items => self.sub_items@));
            }
            let c = sub.count_status(status);
            proof {
                assert(kids.take(j + 1).drop_last() =~= kids.take(j as int));
                assert(kids.take(j + 1).last() == sub@);
            }
            counter = counter.saturating_add(c);
            j = j + 1;
        }
        assert(kids.take(j as int) =~= kids);
        counter
    }

    /// Whether this subtree holds at least one to-do in `status`.
    pub fn has_status(&self, status: ItemStatus) -> (r: bool)
        ensures
            r == (tally(self@, status) > 0),
        decreases self,
    {
        if self.item_type == ItemType::Todo && self.status == status {
            return true;
        }
        let ghost kids = views(self.sub_items@);
        proof {
            lemma_children_views(*self);
        }
        let mut j: usize = 0;
        while j < self.sub_items.len()
            invariant
                j <= self.sub_items@.len(),
                kids == views(self.sub_items@),
                kids == self@.children,
                !counts_as(self@, status),
                tally_seq(kids.take(j as int), status) == 0,
            decreases self.sub_items@.len() - j,
        {
            let sub = &self.sub_items[j];
            proof {
                assert(decreases_to!(self => self.sub_items));
                assert(decreases_to!(self.sub_items => self.sub_items@));
                assert(kids.take(j + 1).drop_last() =~= kids.take(j as int));
                assert(kids.take(j + 1).last() == sub@);
            }
            if sub.has_status(status) {
                proof {
                    lemma_tally_seq_ge(kids, status, j as int);
                }
                return true;
            }
            j = j + 1;
        }
        assert(kids.take(j as int) =~= kids);
        false
    }

    /// Whether this subtree holds a complete to-do.
    pub fn has_complete(&self) -> (r: bool)
        ensures
            r == (tally(self@, ItemStatus::Complete) > 0),
    {
        self.has_status(ItemStatus::Complete)
    }

    /// Whether this subtree holds an incomplete to-do.
    pub fn has_incomplete(&self) -> (r: bool)
        ensures
            r == (tally(self@, ItemStatus::Incomplete) > 0),
    {
        self.has_status(ItemStatus::Incomplete)
    }

    /// The larger of `cmp` and the largest number of entries directly under one
    /// entry anywhere in this subtree.
    pub fn get_highest_num(&self, cmp: usize) -> (r: usize)
        ensures
            r as nat == (if cmp as nat > widest(self@) { cmp as nat } else { widest(self@) }),
        decreases self,
    {
        let ghost kids = views(self.sub_items@);
        proof {
            lemma_children_views(*self);
        }
        let mut best: usize = if self.sub_items.len() > cmp { self.sub_items.len() } else { cmp };
        let mut j: usize = 0;
        while j < self.sub_items.len()
            invariant
                j <= self.sub_items@.len(),
                kids == views(self.sub_items@),
                kids == self@.children,
                best as nat == max3(cmp as nat, kids.len(), widest_seq(kids.take(j as int))),
            decreases self.sub_items@.len() - j,
        {
            let sub = &self.sub_items[j];
            proof {
                assert(decreases_to!(self => self.sub_items));
                assert(decreases_to!(self.sub_items => self.sub_items@));
                assert(kids.take(j + 1).drop_last() =~= kids.take(j as int));
                assert(kids.take(j + 1).last() == sub@);
            }
            best = sub.get_highest_num(best);
            j = j + 1;
        }
        assert(kids.take(j as int) =~= kids);
        best
    }

    /// The number of complete to-dos in this subtree, capped at `usize::MAX`.
    pub fn count_complete(&self) -> (r: usize)
        ensures
            r as nat == capped(tally(self@, ItemStatus::Complete)),
    {
        self.count_status(ItemStatus::Complete)
    }

    /// The number of incomplete to-dos in this subtree, capped at `usize::MAX`.
    pub fn count_incomplete(&self) -> (r: usize)
        ensures
            r as nat == capped(tally(self@, ItemStatus::Incomplete)),
    {
        self.count_status(ItemStatus::Incomplete)
    }
}

} // verus!
