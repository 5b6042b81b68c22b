use crate::enums::{next_status, other_type, ItemStatus, ItemType};
use crate::item::{fresh, item_view, lemma_children_views, views, Item, ItemView};
use crate::stamp::{now, Timestamp};
use vstd::prelude::*;

verus! {

/// An operation applied at an addressed entry, or at a holder of entries.
pub enum ItemAction {
    AlterStatus(ItemStatus),
    AlterHidden(bool),
    ToggleHidden,
    Add(ItemType, String),
    CycleStatus,
    Edit(String),
    Remove,
    Put(Item),
    ToggleType,
}

/// The mathematical value of an `ItemAction`.
pub enum ActionView {
    AlterStatus(ItemStatus),
    AlterHidden(bool),
    ToggleHidden,
    Add(ItemType, Seq<char>),
    CycleStatus,
    Edit(Seq<char>),
    Remove,
    Put(ItemView),
    ToggleType,
}

impl View for ItemAction {
    type V = ActionView;

    open spec fn view(&self) -> ActionView {
        match self {
            ItemAction::AlterStatus(s) => ActionView::AlterStatus(*s),
            ItemAction::AlterHidden(h) => ActionView::AlterHidden(*h),
            ItemAction::ToggleHidden => ActionView::ToggleHidden,
            ItemAction::Add(t, m) => ActionView::Add(*t, m@),
            ItemAction::CycleStatus => ActionView::CycleStatus,
            ItemAction::Edit(m) => ActionView::Edit(m@),
            ItemAction::Remove => ActionView::Remove,
            ItemAction::Put(it) => ActionView::Put(item_view(*it)),
            ItemAction::ToggleType => ActionView::ToggleType,
        }
    }
}

pub open spec fn opt_view(o: Option<Item>) -> Option<ItemView> {
    match o {
        Some(it) => Some(item_view(it)),
        None => None,
    }
}

/// The entry `n` after `a` is applied to it where its path ends, at time `now`.
pub open spec fn node_after(n: ItemView, a: ActionView, now: Timestamp) -> ItemView {
    let m = match a {
        ActionView::AlterStatus(s) => ItemView { status: s, ..n },
        ActionView::AlterHidden(h) => ItemView { hidden: h, ..n },
        ActionView::ToggleHidden => ItemView { hidden: !n.hidden, ..n },
        ActionView::Add(t, m) => ItemView { children: n.children.push(fresh(t, m, now)), ..n },
        ActionView::CycleStatus => ItemView { status: next_status(n.status), ..n },
        ActionView::Edit(m) => ItemView { text: m, ..n },
        ActionView::Remove => n,
        ActionView::Put(v) => ItemView { children: n.children.push(v), ..n },
        ActionView::ToggleType => ItemView { kind: other_type(n.kind), ..n },
    };
    ItemView { last_updated: now, ..m }
}

/// The coordinates still to follow, first one first: the stack `stack[..k]` read from its end.
/// Every coordinate names an existing entry (1-based) among the children reached so far.
pub open spec fn path_found(kids: Seq<ItemView>, stack: Seq<usize>, k: nat) -> bool
    decreases k,
{
    if k == 0 {
        true
    } else if k > stack.len() {
        false
    } else {
        let c = stack[k - 1] as int;
        1 <= c <= kids.len() && (k == 1 || path_found(kids[c - 1].children, stack, (k - 1) as nat))
    }
}

/// Whether the holder itself changes when the path is found: it does unless the path
/// is already used up and the action is neither `Add` nor `Put`.
pub open spec fn holder_touched(k: nat, a: ActionView) -> bool {
    k > 0 || a is Add || a is Put
}

/// The children of a holder after `a` is dispatched along `stack[..k]`, on a found path.
pub open spec fn kids_after(kids: Seq<ItemView>, stack: Seq<usize>, k: nat, a: ActionView, now: Timestamp) -> Seq<ItemView>
    decreases k,
{
    if k == 0 || k > stack.len() {
        match a {
            ActionView::Add(t, m) => kids.push(fresh(t, m, now)),
            ActionView::Put(v) => kids.push(v),
            _ => kids,
        }
    } else {
        let i = stack[k - 1] as int - 1;
        if k == 1 && a is Remove {
            kids.remove(i)
        } else if k == 1 {
            kids.update(i, node_after(kids[i], a, now))
        } else {
            kids.update(
                i,
                ItemView {
                    children: kids_after(kids[i].children, stack, (k - 1) as nat, a, now),
                    last_updated: now,
                    ..kids[i]
                },
            )
        }
    }
}

/// What the dispatch hands back on a found path: the removed entry, stamped `now`, for a
/// `Remove` whose path ends at it; nothing otherwise.
pub open spec fn taken(kids: Seq<ItemView>, stack: Seq<usize>, k: nat, a: ActionView, now: Timestamp) -> Option<ItemView>
    decreases k,
{
    if k == 0 || k > stack.len() {
        None
    } else {
        let i = stack[k - 1] as int - 1;
        if k == 1 && a is Remove {
            Some(ItemView { last_updated: now, ..kids[i] })
        } else if k == 1 {
            None
        } else {
            taken(kids[i].children, stack, (k - 1) as nat, a, now)
        }
    }
}

/// The holder entry `n` after `a` is dispatched into its children along `stack[..k]`.
pub open spec fn holder_after(n: ItemView, stack: Seq<usize>, k: nat, a: ActionView, now: Timestamp) -> ItemView {
    if path_found(n.children, stack, k) {
        ItemView {
            children: kids_after(n.children, stack, k, a, now),
            last_updated: if holder_touched(k, a) { now } else { n.last_updated },
            ..n
        }
    } else {
        n
    }
}

pub proof fn lemma_views_push(s: Seq<Item>, x: Item)
    ensures
        views(s.push(x)) == views(s).push(item_view(x)),
{
    assert(views(s.push(x)) =~= views(s).push(item_view(x)));
}

pub proof fn lemma_views_update(s: Seq<Item>, i: int, x: Item)
    requires
        0 <= i < s.len(),
    ensures
        views(s.update(i, x)) == views(s).update(i, item_view(x)),
{
    assert(views(s.update(i, x)) =~= views(s).update(i, item_view(x)));
}

pub proof fn lemma_views_remove(s: Seq<Item>, i: int)
    requires
        0 <= i < s.len(),
    ensures
        views(s.remove(i)) == views(s).remove(i),
{
    assert(views(s.remove(i)) =~= views(s).remove(i));
}

impl Item {
    /// Applies `action` to this entry itself: the path has ended here.
    fn apply_here(&mut self, action: ItemAction, at: Timestamp)
        ensures
            final(self)@ == node_after(old(self)@, action@, at),
    {
        let ghost before = *self;
        proof {
            lemma_children_views(before);
        }
        match action {
            ItemAction::AlterStatus(status) => {
                self.status = status;
            },
            ItemAction::AlterHidden(hidden) => {
                self.hidden = hidden;
            },
            ItemAction::Add(item_type, message) => {
                let fresh_item = Item::new_at(item_type, message, at);
                self.sub_items.push(fresh_item);
                proof {
                    lemma_views_push(before.sub_items@, fresh_item);
                }
            },
            ItemAction::Edit(msg) => {
                self.text = msg;
            },
            ItemAction::Remove => {},
            ItemAction::Put(item) => {
                let ghost g = item;
                self.sub_items.push(item);
                proof {
                    lemma_views_push(before.sub_items@, g);
                }
            },
            ItemAction::CycleStatus => {
                self.status = self.status.cycled();
            },
            ItemAction::ToggleType => {
                self.item_type = self.item_type.toggled();
            },
            ItemAction::ToggleHidden => {
                self.hidden = !self.hidden;
            },
        }
        self.last_updated = at;
        proof {
            lemma_children_views(*self);
            assert(item_view(*self).children =~= node_after(item_view(before), action@, at).children);
        }
    }
}

/// Dispatches `action` into the holder's children `kids` along the coordinates
/// `stack[..k]`, read from the end (the next coordinate is `stack[k - 1]`), at time `at`.
/// Returns whether the path was found and, for a `Remove`, the removed entry.
/// A path that is not found changes nothing.
pub fn act_on_kids(kids: &mut Vec<Item>, stack: &Vec<usize>, k: usize, action: ItemAction, at: Timestamp) -> (r: (bool, Option<Item>))
    requires
        k <= stack@.len(),
    ensures
        r.0 == path_found(views(old(kids)@), stack@, k as nat),
        r.0 ==> views(final(kids)@) == kids_after(views(old(kids)@), stack@, k as nat, action@, at),
        r.0 ==> opt_view(r.1) == taken(views(old(kids)@), stack@, k as nat, action@, at),
        !r.0 ==> views(final(kids)@) == views(old(kids)@) && r.1 is None,
    decreases k,
{
    let ghost old_kids = kids@;
    let ghost act = action@;
    if k == 0 {
        match action {
            ItemAction::Put(item) => {
                let ghost g = item;
                kids.push(item);
                proof {
                    lemma_views_push(old_kids, g);
                }
            },
            ItemAction::Add(item_type, message) => {
                let fresh_item = Item::new_at(item_type, message, at);
                kids.push(fresh_item);
                proof {
                    lemma_views_push(old_kids, fresh_item);
                }
            },
            _ => {},
        }
        return (true, None);
    }
    let c = stack[k - 1];
    if c < 1 || c > kids.len() {
        return (false, None);
    }
    let i = c - 1;
    let is_remove = match action {
        ItemAction::Remove => true,
        _ => false,
    };
    if k == 1 && is_remove {
        let mut item = kids.remove(i);
        proof {
            lemma_views_remove(old_kids, i as int);
        }
        item.last_updated = at;
        proof {
            lemma_children_views(old_kids[i as int]);
            lemma_children_views(item);
            assert(item_view(item).children =~= item_view(old_kids[i as int]).children);
        }
        return (true, Some(item));
    }
    if k == 1 {
        let child = &mut kids[i];
        child.apply_here(action, at);
        proof {
            lemma_views_update(old_kids, i as int, *child);
        }
        return (true, None);
    }
    let child = &mut kids[i];
    let ghost old_child = *child;
    proof {
        lemma_children_views(old_child);
    }
    let r = act_on_kids(&mut child.sub_items, stack, k - 1, action, at);
    if r.0 {
        child.last_updated = at;
    }
    proof {
        lemma_children_views(*child);
        lemma_views_update(old_kids, i as int, *child);
        if r.0 {
            assert(item_view(*child) =~= ItemView {
                children: kids_after(item_view(old_child).children, stack@, (k - 1) as nat, act, at),
                last_updated: at,
                ..item_view(old_child)
            });
        } else {
            assert(item_view(*child) =~= item_view(old_child));
            assert(views(old_kids).update(i as int, item_view(old_child)) =~= views(old_kids));
        }
    }
    r
}

impl Item {
    /// Dispatches `action` into this entry's children along `indices`, a coordinate
    /// stack read from its end, at time `at`. The stack is used up.
    pub fn act_on_item_at_time(&mut self, indices: &mut Vec<usize>, action: ItemAction, at: Timestamp) -> (r: Option<Item>)
        ensures
            final(self)@ == holder_after(old(self)@, old(indices)@, old(indices)@.len(), action@, at),
            opt_view(r) == (if path_found(old(self)@.children, old(indices)@, old(indices)@.len()) {
                taken(old(self)@.children, old(indices)@, old(indices)@.len(), action@, at)
            } else {
                None
            }),
            final(indices)@ == Seq::<usize>::empty(),
    {
        let ghost before = *self;
        proof {
            lemma_children_views(before);
        }
        let k = indices.len();
        let touched = k > 0 || match action {
            ItemAction::Add(_, _) => true,
            ItemAction::Put(_) => true,
            _ => false,
        };
        let r = act_on_kids(&mut self.sub_items, indices, k, action, at);
        if r.0 && touched {
            self.last_updated = at;
        }
        proof {
            lemma_children_views(*self);
            assert(item_view(*self) =~= holder_after(item_view(before), indices@, k as nat, action@, at));
        }
        indices.clear();
        r.1
    }

    /// Dispatches `action` into this entry's children along `indices` at the current time.
    pub fn act_on_item_at(&mut self, indices: &mut Vec<usize>, action: ItemAction) -> (r: Option<Item>)
        ensures
            exists|t: Timestamp|
                final(self)@ == holder_after(old(self)@, old(indices)@, old(indices)@.len(), action@, t)
                    && opt_view(r) == (if path_found(old(self)@.children, old(indices)@, old(indices)@.len()) {
                    taken(old(self)@.children, old(indices)@, old(indices)@.len(), action@, t)
                } else {
                    None
                }),
            final(indices)@ == Seq::<usize>::empty(),
    {
        self.act_on_item_at_time(indices, action, now())
    }
}

} // verus!
