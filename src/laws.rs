use crate::action::{holder_after, kids_after, node_after, path_found, taken, ActionView};
use crate::enums::{ItemStatus, ItemType, PrintWhich};
use crate::item::{fresh, size, size_seq, tally, ItemView};
use crate::list::{list_after, list_moved, list_taken, ListView};
use crate::render::{item_entries, kids_entries, list_entries, passes, Entry, RenderOptions};
use crate::stamp::Timestamp;
use vstd::prelude::*;

verus! {

/// The entry that the coordinates `stack[..k]` (read from the end, `k >= 1`) address.
pub open spec fn node_at(kids: Seq<ItemView>, stack: Seq<usize>, k: nat) -> ItemView
    decreases k,
{
    if k <= 1 || k > stack.len() {
        kids[stack[0] as int - 1]
    } else {
        node_at(kids[stack[k - 1] as int - 1].children, stack, (k - 1) as nat)
    }
}

/// The children of the holder that the coordinates `stack[..k]` lead to.
pub open spec fn holder_kids(kids: Seq<ItemView>, stack: Seq<usize>, k: nat) -> Seq<ItemView>
    decreases k,
{
    if k == 0 || k > stack.len() {
        kids
    } else {
        holder_kids(kids[stack[k - 1] as int - 1].children, stack, (k - 1) as nat)
    }
}

/// An action that changes fields of the addressed entry only, the same way each time.
pub open spec fn settles(a: ActionView) -> bool {
    a is AlterStatus || a is AlterHidden || a is Edit
}

proof fn lemma_kids_after_settles(kids: Seq<ItemView>, stack: Seq<usize>, k: nat, a: ActionView, t1: Timestamp, t2: Timestamp)
    requires
        settles(a),
        k <= stack.len(),
        path_found(kids, stack, k),
    ensures
        path_found(kids_after(kids, stack, k, a, t1), stack, k),
        kids_after(kids_after(kids, stack, k, a, t1), stack, k, a, t2) == kids_after(kids, stack, k, a, t2),
    decreases k,
{
    if k >= 2 {
        let i = stack[k - 1] as int - 1;
        lemma_kids_after_settles(kids[i].children, stack, (k - 1) as nat, a, t1, t2);
        let once = kids_after(kids, stack, k, a, t1);
        assert(once[i].children == kids_after(kids[i].children, stack, (k - 1) as nat, a, t1));
        assert(kids_after(once, stack, k, a, t2) =~= kids_after(kids, stack, k, a, t2));
    } else if k == 1 {
        let i = stack[0] as int - 1;
        assert(kids_after(kids_after(kids, stack, k, a, t1), stack, k, a, t2) =~= kids_after(kids, stack, k, a, t2));
    }
}

/// Applying a status (as when checking an entry off), a hidden flag or a text along a
/// path twice in a row leaves the list as applying it once at the later time does.
pub proof fn lemma_set_twice_same_as_once(l: ListView, stack: Seq<usize>, a: ActionView, t1: Timestamp, t2: Timestamp)
    requires
        settles(a),
    ensures
        list_after(list_after(l, stack, a, t1), stack, a, t2) == list_after(l, stack, a, t2),
{
    if path_found(l.items, stack, stack.len()) {
        lemma_kids_after_settles(l.items, stack, stack.len(), a, t1, t2);
    }
}

/// Dispatching `Add` with no coordinates appends exactly one new entry to the list and
/// leaves every existing entry as it was.
pub proof fn lemma_add_at_empty_path_appends(l: ListView, kind: ItemType, text: Seq<char>, t: Timestamp)
    ensures
        list_after(l, Seq::empty(), ActionView::Add(kind, text), t).items == l.items.push(fresh(kind, text, t)),
        list_after(l, Seq::empty(), ActionView::Add(kind, text), t).items.len() == l.items.len() + 1,
        forall|i: int|
            0 <= i < l.items.len() ==> #[trigger] list_after(l, Seq::empty(), ActionView::Add(kind, text), t).items[i]
                == l.items[i],
{
}

/// The same for an entry acting as the holder.
pub proof fn lemma_add_at_empty_path_appends_to_entry(n: ItemView, kind: ItemType, text: Seq<char>, t: Timestamp)
    ensures
        holder_after(n, Seq::empty(), 0, ActionView::Add(kind, text), t).children == n.children.push(fresh(kind, text, t)),
{
}

proof fn lemma_size_push(s: Seq<ItemView>, x: ItemView)
    ensures
        size_seq(s.push(x)) == size_seq(s) + size(x),
{
    assert(s.push(x).drop_last() =~= s);
}

proof fn lemma_size_update(s: Seq<ItemView>, i: int, x: ItemView)
    requires
        0 <= i < s.len(),
    ensures
        size_seq(s.update(i, x)) + size(s[i]) == size_seq(s) + size(x),
    decreases s.len(),
{
    if i == s.len() - 1 {
        assert(s.update(i, x).drop_last() =~= s.drop_last());
    } else {
        assert(s.update(i, x).drop_last() =~= s.drop_last().update(i, x));
        lemma_size_update(s.drop_last(), i, x);
    }
}

proof fn lemma_size_remove(s: Seq<ItemView>, i: int)
    requires
        0 <= i < s.len(),
    ensures
        size_seq(s.remove(i)) + size(s[i]) == size_seq(s),
    decreases s.len(),
{
    if i == s.len() - 1 {
        assert(s.remove(i) =~= s.drop_last());
    } else {
        assert(s.remove(i).drop_last() =~= s.drop_last().remove(i));
        lemma_size_remove(s.drop_last(), i);
    }
}

proof fn lemma_remove_size(kids: Seq<ItemView>, stack: Seq<usize>, k: nat, t: Timestamp)
    requires
        1 <= k <= stack.len(),
        path_found(kids, stack, k),
    ensures
        taken(kids, stack, k, ActionView::Remove, t) == Some(ItemView { last_updated: t, ..node_at(kids, stack, k) }),
        size_seq(kids_after(kids, stack, k, ActionView::Remove, t)) + size(node_at(kids, stack, k)) == size_seq(kids),
    decreases k,
{
    let i = stack[k - 1] as int - 1;
    if k == 1 {
        lemma_size_remove(kids, i);
    } else {
        lemma_remove_size(kids[i].children, stack, (k - 1) as nat, t);
        let inner = kids_after(kids[i].children, stack, (k - 1) as nat, ActionView::Remove, t);
        let x = ItemView { children: inner, last_updated: t, ..kids[i] };
        lemma_size_update(kids, i, x);
    }
}

proof fn lemma_put_size(kids: Seq<ItemView>, stack: Seq<usize>, k: nat, v: ItemView, t: Timestamp)
    requires
        k <= stack.len(),
        path_found(kids, stack, k),
    ensures
        size_seq(kids_after(kids, stack, k, ActionView::Put(v), t)) == size_seq(kids) + size(v),
        holder_kids(kids_after(kids, stack, k, ActionView::Put(v), t), stack, k) == holder_kids(kids, stack, k).push(v),
    decreases k,
{
    let a = ActionView::Put(v);
    if k == 0 {
        lemma_size_push(kids, v);
    } else {
        let i = stack[k - 1] as int - 1;
        if k == 1 {
            let x = node_after(kids[i], a, t);
            lemma_size_push(kids[i].children, v);
            lemma_size_update(kids, i, x);
            let after = kids_after(kids, stack, k, a, t);
            assert(after[i] == x);
            assert(holder_kids(after, stack, k) == holder_kids(x.children, stack, 0));
            assert(holder_kids(kids, stack, k) == holder_kids(kids[i].children, stack, 0));
        } else {
            lemma_put_size(kids[i].children, stack, (k - 1) as nat, v, t);
            let inner = kids_after(kids[i].children, stack, (k - 1) as nat, a, t);
            let x = ItemView { children: inner, last_updated: t, ..kids[i] };
            lemma_size_update(kids, i, x);
            let after = kids_after(kids, stack, k, a, t);
            assert(after[i] == x);
            assert(holder_kids(after, stack, k) == holder_kids(inner, stack, (k - 1) as nat));
        }
    }
}

/// Moving an existing entry (removing it at `t1`, then putting it at `t2` into a holder
/// that exists once it is removed) keeps the number of entries in the list. The entry
/// arrives last among that holder's children with its kind, status, text, hidden flag,
/// creation time and nested entries unchanged, after that holder's earlier children,
/// which stay as they were and in order.
pub proof fn lemma_move_conservation(l: ListView, from: Seq<usize>, to: Seq<usize>, t1: Timestamp, t2: Timestamp)
    requires
        from.len() > 0,
        path_found(l.items, from, from.len()),
        path_found(list_after(l, from, ActionView::Remove, t1).items, to, to.len()),
    ensures
        ({
            let l1 = list_after(l, from, ActionView::Remove, t1);
            let v = list_taken(l, from, ActionView::Remove, t1);
            let n = node_at(l.items, from, from.len());
            &&& v matches Some(x) && size_seq(list_after(l1, to, ActionView::Put(x), t2).items) == size_seq(l.items)
            &&& v matches Some(x) && holder_kids(list_after(l1, to, ActionView::Put(x), t2).items, to, to.len())
                == holder_kids(l1.items, to, to.len()).push(x)
            &&& v matches Some(x) && x.kind == n.kind && x.status == n.status && x.text == n.text && x.hidden
                == n.hidden && x.created == n.created && x.children == n.children
        }),
        size_seq(list_moved(l, from, to, t1).items) == size_seq(l.items),
{
    let n = node_at(l.items, from, from.len());
    lemma_remove_size(l.items, from, from.len(), t1);
    let v = ItemView { last_updated: t1, ..n };
    let l1 = list_after(l, from, ActionView::Remove, t1);
    assert(list_taken(l, from, ActionView::Remove, t1) == Some(v));
    lemma_put_size(l1.items, to, to.len(), v, t2);
    lemma_put_size(l1.items, to, to.len(), v, t1);
}

/// An entry with every `last_updated`, its own and those nested under it, cleared.
pub open spec fn unstamped(n: ItemView) -> ItemView
    decreases n,
{
    ItemView {
        children: Seq::new(
            n.children.len(),
            |i: int| if 0 <= i < n.children.len() { unstamped(n.children[i]) } else { n },
        ),
        last_updated: Timestamp { secs: 0, nanos: 0, offset: 0 },
        ..n
    }
}

pub open spec fn unstamped_seq(s: Seq<ItemView>) -> Seq<ItemView> {
    Seq::new(s.len(), |i: int| unstamped(s[i]))
}

proof fn lemma_unstamped_children(n: ItemView)
    ensures
        unstamped(n).children == unstamped_seq(n.children),
{
    assert(unstamped(n).children =~= unstamped_seq(n.children));
}

proof fn lemma_unstamped_update(s: Seq<ItemView>, i: int, x: ItemView, y: ItemView)
    requires
        0 <= i < s.len(),
        unstamped(x) == unstamped(y),
    ensures
        unstamped_seq(s.update(i, x)) == unstamped_seq(s.update(i, y)),
{
    assert(unstamped_seq(s.update(i, x)) =~= unstamped_seq(s.update(i, y)));
}

proof fn lemma_settle_times_only_stamps(kids: Seq<ItemView>, stack: Seq<usize>, k: nat, a: ActionView, t1: Timestamp, t2: Timestamp)
    requires
        settles(a),
        k <= stack.len(),
        path_found(kids, stack, k),
    ensures
        unstamped_seq(kids_after(kids, stack, k, a, t1)) == unstamped_seq(kids_after(kids, stack, k, a, t2)),
    decreases k,
{
    if k == 0 {
    } else {
        let i = stack[k - 1] as int - 1;
        if k == 1 {
            let x = node_after(kids[i], a, t1);
            let y = node_after(kids[i], a, t2);
            lemma_unstamped_children(x);
            lemma_unstamped_children(y);
            assert(unstamped(x) =~= unstamped(y));
            lemma_unstamped_update(kids, i, x, y);
        } else {
            lemma_settle_times_only_stamps(kids[i].children, stack, (k - 1) as nat, a, t1, t2);
            let x = ItemView {
                children: kids_after(kids[i].children, stack, (k - 1) as nat, a, t1),
                last_updated: t1,
                ..kids[i]
            };
            let y = ItemView {
                children: kids_after(kids[i].children, stack, (k - 1) as nat, a, t2),
                last_updated: t2,
                ..kids[i]
            };
            lemma_unstamped_children(x);
            lemma_unstamped_children(y);
            assert(unstamped(x) =~= unstamped(y));
            lemma_unstamped_update(kids, i, x, y);
        }
    }
}

/// Setting a status (as when checking an entry off), a hidden flag or a text along a
/// path a second time, at any later time, changes nothing but `last_updated` stamps:
/// every entry keeps its kind, status, text, hidden flag, creation time and children.
pub proof fn lemma_set_again_changes_only_stamps(l: ListView, stack: Seq<usize>, a: ActionView, t1: Timestamp, t2: Timestamp)
    requires
        settles(a),
    ensures
        unstamped_seq(list_after(list_after(l, stack, a, t1), stack, a, t2).items) == unstamped_seq(
            list_after(l, stack, a, t1).items,
        ),
        list_after(list_after(l, stack, a, t1), stack, a, t2).name == list_after(l, stack, a, t1).name,
        list_after(list_after(l, stack, a, t1), stack, a, t2).created == list_after(l, stack, a, t1).created,
{
    lemma_set_twice_same_as_once(l, stack, a, t1, t2);
    if path_found(l.items, stack, stack.len()) {
        lemma_settle_times_only_stamps(l.items, stack, stack.len(), a, t2, t1);
    }
}

proof fn lemma_entries_pass(n: ItemView, index: nat, indent: Seq<char>, o: RenderOptions, limit: Option<usize>, ph: bool)
    ensures
        forall|j: int|
            0 <= j < item_entries(n, index, indent, o, limit, ph).len() ==> passes(
                #[trigger] item_entries(n, index, indent, o, limit, ph)[j].node,
                o.print_which,
            ),
    decreases n, 0nat,
{
    if passes(n, o.print_which) && limit != Some(1usize) {
        let show = (!n.hidden && !ph) || o.display_hidden;
        lemma_kids_entries_pass(
            n.children,
            indent + crate::text::blanks(o.spacing as nat) + crate::text::blanks(6),
            o,
            crate::render::next_limit(limit),
            !show,
        );
    }
}

proof fn lemma_kids_entries_pass(s: Seq<ItemView>, indent: Seq<char>, o: RenderOptions, limit: Option<usize>, ph: bool)
    ensures
        forall|j: int|
            0 <= j < kids_entries(s, indent, o, limit, ph).len() ==> passes(
                #[trigger] kids_entries(s, indent, o, limit, ph)[j].node,
                o.print_which,
            ),
    decreases s, 1nat,
{
    if s.len() > 0 {
        lemma_kids_entries_pass(s.drop_last(), indent, o, limit, ph);
        lemma_entries_pass(s.last(), s.len(), indent, o, limit, ph);
    }
}

/// With the selection `Complete`, every drawn line is an entry whose subtree holds a
/// complete to-do; with `Incomplete`, one that holds an incomplete to-do.
pub proof fn lemma_filter_correct(l: ListView, which: PrintWhich, plain: bool, max_level: Option<usize>, display_hidden: bool)
    ensures
        forall|j: int|
            0 <= j < list_entries(l, which, plain, max_level, display_hidden).len() ==> {
                let e = #[trigger] list_entries(l, which, plain, max_level, display_hidden)[j];
                &&& which is Complete ==> tally(e.node, ItemStatus::Complete) > 0
                &&& which is Incomplete ==> tally(e.node, ItemStatus::Incomplete) > 0
            },
{
    let o = crate::render::list_options(l, which, plain, display_hidden);
    lemma_kids_entries_pass(l.items, Seq::empty(), o, max_level, false);
}

proof fn lemma_hidden_parent_draws_nothing(n: ItemView, index: nat, indent: Seq<char>, o: RenderOptions, limit: Option<usize>)
    requires
        !o.display_hidden,
    ensures
        item_entries(n, index, indent, o, limit, true) == Seq::<Entry>::empty(),
    decreases n, 0nat,
{
    if passes(n, o.print_which) && limit != Some(1usize) {
        lemma_hidden_kids_draw_nothing(
            n.children,
            indent + crate::text::blanks(o.spacing as nat) + crate::text::blanks(6),
            o,
            crate::render::next_limit(limit),
        );
        assert(item_entries(n, index, indent, o, limit, true) =~= Seq::<Entry>::empty());
    }
}

proof fn lemma_hidden_kids_draw_nothing(s: Seq<ItemView>, indent: Seq<char>, o: RenderOptions, limit: Option<usize>)
    requires
        !o.display_hidden,
    ensures
        kids_entries(s, indent, o, limit, true) == Seq::<Entry>::empty(),
    decreases s, 1nat,
{
    if s.len() > 0 {
        lemma_hidden_kids_draw_nothing(s.drop_last(), indent, o, limit);
        lemma_hidden_parent_draws_nothing(s.last(), s.len(), indent, o, limit);
        assert(kids_entries(s, indent, o, limit, true) =~= Seq::<Entry>::empty());
    }
}

/// Unless hidden entries are shown, a hidden entry draws no line at all: neither its
/// own nor one for anything nested under it, whatever their own flags.
pub proof fn lemma_hidden_subtree_not_drawn(n: ItemView, index: nat, indent: Seq<char>, o: RenderOptions, limit: Option<usize>, parent_hidden: bool)
    requires
        n.hidden,
        !o.display_hidden,
    ensures
        item_entries(n, index, indent, o, limit, parent_hidden) == Seq::<Entry>::empty(),
{
    lemma_hidden_parent_draws_nothing(n, index, indent, o, limit);
    if passes(n, o.print_which) && limit != Some(1usize) {
        lemma_hidden_kids_draw_nothing(
            n.children,
            indent + crate::text::blanks(o.spacing as nat) + crate::text::blanks(6),
            o,
            crate::render::next_limit(limit),
        );
        assert(item_entries(n, index, indent, o, limit, parent_hidden) =~= Seq::<Entry>::empty());
    }
}

} // verus!
