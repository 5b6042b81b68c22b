use crate::enums::{status_symbol, ItemStatus, ItemType, PrintWhich};
use crate::item::{item_view, lemma_children_views, tally, views, widest_seq, Item, ItemView};
use crate::list::{List, ListView};
use crate::text::{
    blanks, bold, danger, decimal, info, primary, push_blanks, styled_blue, styled_bold, styled_cyan,
    styled_green, styled_red, styled_yellow, success, usize_text, warning,
};
use crate::stamp::stamp_format;
use vstd::prelude::*;
use vstd::string::{StrSliceExecFns, StringExecFns};

verus! {

/// How a listing is drawn: which entries it keeps, whether it is styled, the width
/// that entry numbers are padded to, and whether hidden entries are shown.
#[derive(Clone, Copy, Debug, PartialEq, Eq, Structural)]
pub struct RenderOptions {
    pub print_which: PrintWhich,
    pub plain: bool,
    pub spacing: usize,
    pub display_hidden: bool,
}

/// One drawn line: the entry, its 1-based position among its siblings, and its indentation.
pub struct Entry {
    pub node: ItemView,
    pub index: nat,
    pub indent: Seq<char>,
}

/// The subtree of `n` is kept by the selection.
pub open spec fn passes(n: ItemView, which: PrintWhich) -> bool {
    match which {
        PrintWhich::All => true,
        PrintWhich::Complete => tally(n, ItemStatus::Complete) > 0,
        PrintWhich::Incomplete => tally(n, ItemStatus::Incomplete) > 0,
    }
}

/// The entry is drawn: neither it nor the entry above it is hidden, or hidden entries are shown.
pub open spec fn shown(n: ItemView, parent_hidden: bool, display_hidden: bool) -> bool {
    (!n.hidden && !parent_hidden) || display_hidden
}

/// The depth budget one level down: `Some(1)` is the last level drawn; `Some(0)` and
/// `None` set no limit.
pub open spec fn next_limit(limit: Option<usize>) -> Option<usize> {
    match limit {
        Some(m) => if m > 1 { Some((m - 1) as usize) } else { limit },
        None => None,
    }
}

pub open spec fn child_indent(indent: Seq<char>, spacing: usize) -> Seq<char> {
    indent + blanks(spacing as nat) + blanks(6)
}

/// The lines drawn for `n` at position `index`, then for what is nested under it.
pub open spec fn item_entries(
    n: ItemView,
    index: nat,
    indent: Seq<char>,
    o: RenderOptions,
    limit: Option<usize>,
    parent_hidden: bool,
) -> Seq<Entry>
    decreases n, 0nat,
{
    if !passes(n, o.print_which) {
        Seq::empty()
    } else {
        let show = shown(n, parent_hidden, o.display_hidden);
        let own = if show { seq![Entry { node: n, index, indent }] } else { Seq::empty() };
        if limit == Some(1usize) {
            own
        } else {
            own + kids_entries(n.children, child_indent(indent, o.spacing), o, next_limit(limit), !show)
        }
    }
}

/// The lines drawn for the siblings `s`, numbered from 1 in order.
pub open spec fn kids_entries(
    s: Seq<ItemView>,
    indent: Seq<char>,
    o: RenderOptions,
    limit: Option<usize>,
    parent_hidden: bool,
) -> Seq<Entry>
    decreases s, 1nat,
{
    if s.len() == 0 {
        Seq::empty()
    } else {
        kids_entries(s.drop_last(), indent, o, limit, parent_hidden) + item_entries(
            s.last(),
            s.len(),
            indent,
            o,
            limit,
            parent_hidden,
        )
    }
}

/// Spaces that right-align an entry number in a column `spacing` digits wide.
pub open spec fn number_pad(index: nat, spacing: usize) -> Seq<char> {
    let d = decimal(index).len();
    blanks(if spacing as nat >= d { (spacing - d) as nat } else { 0 })
}

pub open spec fn status_colour(s: ItemStatus, t: Seq<char>) -> Seq<char> {
    match s {
        ItemStatus::Complete => styled_green(t),
        ItemStatus::Disabled => styled_yellow(t),
        ItemStatus::Incomplete => styled_red(t),
    }
}

/// The text of one drawn line, starting with its line break.
pub open spec fn line_text(e: Entry, o: RenderOptions) -> Seq<char> {
    let num = "\n"@ + e.indent + decimal(e.index) + ". "@;
    let pad = number_pad(e.index, o.spacing);
    match e.node.kind {
        ItemType::Todo => {
            let head = num + pad + "["@ + status_symbol(e.node.status) + "] "@;
            if o.plain {
                head + e.node.text
            } else {
                status_colour(e.node.status, styled_bold(head)) + e.node.text
            }
        },
        ItemType::Note => {
            if o.plain {
                num + pad + "    "@ + e.node.text
            } else {
                styled_cyan(styled_bold(num)) + pad + "    "@ + e.node.text
            }
        },
    }
}

pub open spec fn lines_text(es: Seq<Entry>, o: RenderOptions) -> Seq<char>
    decreases es.len(),
{
    if es.len() == 0 {
        Seq::empty()
    } else {
        lines_text(es.drop_last(), o) + line_text(es.last(), o)
    }
}

pub proof fn lemma_lines_text_append(a: Seq<Entry>, b: Seq<Entry>, o: RenderOptions)
    ensures
        lines_text(a + b, o) == lines_text(a, o) + lines_text(b, o),
    decreases b.len(),
{
    if b.len() == 0 {
        assert(a + b =~= a);
        assert(lines_text(a, o) + lines_text(b, o) =~= lines_text(a, o));
    } else {
        assert((a + b).drop_last() =~= a + b.drop_last());
        lemma_lines_text_append(a, b.drop_last(), o);
        assert(lines_text(a + b, o) =~= lines_text(a, o) + lines_text(b, o));
    }
}

/// The largest number of entries directly under one holder anywhere in the list.
pub open spec fn list_widest(l: ListView) -> nat {
    let w = widest_seq(l.items);
    if l.items.len() > w { l.items.len() } else { w }
}

/// The width that entry numbers are padded to: the digits of the widest holder's count.
pub open spec fn list_spacing(l: ListView) -> usize {
    decimal(list_widest(l)).len() as usize
}

pub open spec fn header_text(l: ListView, plain: bool) -> Seq<char> {
    let created = stamp_format(l.created.secs, l.created.nanos, l.created.offset);
    let updated = stamp_format(l.last_updated.secs, l.last_updated.nanos, l.last_updated.offset);
    if plain {
        "Created On: "@ + created + "\nLast Edit : "@ + updated
    } else {
        styled_blue("Created On: "@) + styled_cyan(created) + styled_blue("\nLast Edit : "@) + styled_cyan(updated)
    }
}

pub open spec fn list_options(l: ListView, which: PrintWhich, plain: bool, display_hidden: bool) -> RenderOptions {
    RenderOptions { print_which: which, plain, spacing: list_spacing(l), display_hidden }
}

/// The lines drawn for the whole list.
pub open spec fn list_entries(l: ListView, which: PrintWhich, plain: bool, max_level: Option<usize>, display_hidden: bool) -> Seq<Entry> {
    kids_entries(l.items, Seq::empty(), list_options(l, which, plain, display_hidden), max_level, false)
}

/// The full listing: the dates, then either every drawn line or a note that the list is empty.
pub open spec fn list_render(l: ListView, which: PrintWhich, plain: bool, max_level: Option<usize>, display_hidden: bool) -> Seq<char> {
    header_text(l, plain) + if l.items.len() == 0 {
        "\n There are no items in this list"@
    } else {
        lines_text(list_entries(l, which, plain, max_level, display_hidden), list_options(l, which, plain, display_hidden))
    }
}

impl Item {
    /// Appends the one line of this entry, drawn at `index` with `indent`.
    fn write_line(&self, output: &mut String, index: usize, indent: &String, o: RenderOptions)
        ensures
            final(output)@ == old(output)@ + line_text(Entry { node: self@, index: index as nat, indent: indent@ }, o),
    {
        proof {
            reveal_strlit("\n");
            reveal_strlit(". ");
            reveal_strlit("[");
            reveal_strlit("] ");
            reveal_strlit("    ");
        }
        let ghost e = Entry { node: self@, index: index as nat, indent: indent@ };
        let num_text = usize_text(index);
        let mut num = String::from_str("\n");
        num.append(indent.as_str());
        num.append(num_text.as_str());
        num.append(". ");
        let digits = num_text.as_str().unicode_len();
        let pad_len: usize = if o.spacing >= digits { o.spacing - digits } else { 0 };
        let mut pad = String::new();
        push_blanks(&mut pad, pad_len);
        assert(pad@ == number_pad(index as nat, o.spacing));
        assert(num@ =~= "\n"@ + indent@ + decimal(index as nat) + ". "@);
        match self.item_type {
            ItemType::Todo => {
                let mut head = num;
                head.append(pad.as_str());
                head.append("[");
                let sym = self.status.symbol();
                head.append(sym.as_str());
                head.append("] ");
                if o.plain {
                    output.append(head.as_str());
                } else {
                    let b = bold(head.as_str());
                    let coloured = match self.status {
                        ItemStatus::Complete => success(b.as_str()),
                        ItemStatus::Disabled => warning(b.as_str()),
                        ItemStatus::Incomplete => danger(b.as_str()),
                    };
                    output.append(coloured.as_str());
                }
                output.append(self.text.as_str());
            },
            ItemType::Note => {
                if o.plain {
                    output.append(num.as_str());
                } else {
                    let b = bold(num.as_str());
                    let coloured = info(b.as_str());
                    output.append(coloured.as_str());
                }
                output.append(pad.as_str());
                output.append("    ");
                output.append(self.text.as_str());
            },
        }
        assert(final(output)@ =~= old(output)@ + line_text(e, o));
    }

    /// Appends the lines of this entry, drawn at `index` with `indent`, and of what is
    /// nested under it, as far as the selection, hiding and depth budget allow.
    pub fn printable(
        &self,
        output: &mut String,
        index: usize,
        indent: &String,
        o: RenderOptions,
        limit: Option<usize>,
        parent_is_hidden: bool,
    )
        ensures
            final(output)@ == old(output)@ + lines_text(
                item_entries(self@, index as nat, indent@, o, limit, parent_is_hidden),
                o,
            ),
        decreases self,
    {
        let ghost start = output@;
        let ghost es = item_entries(self@, index as nat, indent@, o, limit, parent_is_hidden);
        let keep = match o.print_which {
            PrintWhich::All => true,
            PrintWhich::Complete => self.has_complete(),
            PrintWhich::Incomplete => self.has_incomplete(),
        };
        if !keep {
            assert(es =~= Seq::<Entry>::empty());
            assert(output@ =~= start + lines_text(es, o));
            return;
        }
        let show = (!self.hidden && !parent_is_hidden) || o.display_hidden;
        let ghost own = if show {
            seq![Entry { node: self@, index: index as nat, indent: indent@ }]
        } else {
            Seq::<Entry>::empty()
        };
        if show {
            self.write_line(output, index, indent, o);
        }
        proof {
            assert(lines_text(own, o) =~= if show {
                line_text(Entry { node: self@, index: index as nat, indent: indent@ }, o)
            } else {
                Seq::<char>::empty()
            }) by {
                assert(lines_text(Seq::<Entry>::empty(), o) == Seq::<char>::empty());
                if show {
                    assert(own.drop_last() =~= Seq::<Entry>::empty());
                    assert(own.last() == Entry { node: self@, index: index as nat, indent: indent@ });
                }
            }
            assert(output@ =~= start + lines_text(own, o));
        }
        let stop = match limit {
            Some(m) => m == 1,
            None => false,
        };
        if stop {
            return;
        }
        let next: Option<usize> = match limit {
            Some(m) => if m > 1 { Some(m - 1) } else { limit },
            None => None,
        };
        let mut ci = indent.clone();
        push_blanks(&mut ci, o.spacing);
        push_blanks(&mut ci, 6);
        assert(ci@ =~= child_indent(indent@, o.spacing));
        let ghost kids = views(self.sub_items@);
        proof {
            lemma_children_views(*self);
        }
        let ghost mid = output@;
        let mut j: usize = 0;
        while j < self.sub_items.len()
            invariant
                j <= self.sub_items@.len(),
                kids == views(self.sub_items@),
                kids == self@.children,
                output@ == mid + lines_text(kids_entries(kids.take(j as int), ci@, o, next, !show), o),
            decreases self.sub_items@.len() - j,
        {
            let sub = &self.sub_items[j];
            proof {
                assert(decreases_to!(self => self.sub_items));
                assert(decreases_to!(self.sub_items => self.sub_items@));
                assert(kids.take(j + 1).drop_last() =~= kids.take(j as int));
                assert(kids.take(j + 1).last() == sub@);
                lemma_lines_text_append(
                    kids_entries(kids.take(j as int), ci@, o, next, !show),
                    item_entries(sub@, (j + 1) as nat, ci@, o, next, !show),
                    o,
                );
            }
            sub.printable(output, j + 1, &ci, o, next, !show);
            j = j + 1;
        }
        proof {
            assert(kids.take(j as int) =~= kids);
            lemma_lines_text_append(own, kids_entries(kids, ci@, o, next, !show), o);
        }
    }
}

impl List {
    /// The largest number of entries directly under one holder anywhere in the list.
    pub fn get_highest_num(&self) -> (r: usize)
        ensures
            r as nat == list_widest(self@),
    {
        let ghost kids = views(self.items@);
        let mut best: usize = self.items.len();
        let mut j: usize = 0;
        while j < self.items.len()
            invariant
                j <= self.items@.len(),
                kids == views(self.items@),
                best as nat == (if kids.len() >= widest_seq(kids.take(j as int)) {
                    kids.len()
                } else {
                    widest_seq(kids.take(j as int))
                }),
            decreases self.items@.len() - j,
        {
            proof {
                assert(kids.take(j + 1).drop_last() =~= kids.take(j as int));
                assert(kids.take(j + 1).last() == item_view(self.items@[j as int]));
            }
            best = self.items[j].get_highest_num(best);
            j = j + 1;
        }
        assert(kids.take(j as int) =~= kids);
        best
    }

    /// The width that entry numbers are padded to.
    pub fn get_spacing_count(&self) -> (r: usize)
        ensures
            r == list_spacing(self@),
    {
        let h = self.get_highest_num();
        let t = usize_text(h);
        t.as_str().unicode_len()
    }

    /// The listing of this list: its dates, then its entries as selected, numbered by
    /// position, indented by depth, down to `max_level` levels when one is given.
    pub fn print(&self, print_which: PrintWhich, plain: bool, max_level: Option<usize>, display_hidden: bool) -> (r: String)
        ensures
            r@ == list_render(self@, print_which, plain, max_level, display_hidden),
    {
        proof {
            reveal_strlit("Created On: ");
            reveal_strlit("\nLast Edit : ");
            reveal_strlit("\n There are no items in this list");
        }
        let created = self.created.display();
        let updated = self.last_updated.display();
        let mut out = String::new();
        if plain {
            out.append("Created On: ");
            out.append(created.as_str());
            out.append("\nLast Edit : ");
            out.append(updated.as_str());
        } else {
            let a = primary("Created On: ");
            let b = info(created.as_str());
            let c = primary("\nLast Edit : ");
            let d = info(updated.as_str());
            out.append(a.as_str());
            out.append(b.as_str());
            out.append(c.as_str());
            out.append(d.as_str());
        }
        assert(out@ =~= header_text(self@, plain));
        if self.items.len() == 0 {
            out.append("\n There are no items in this list");
            assert(out@ =~= list_render(self@, print_which, plain, max_level, display_hidden));
            return out;
        }
        let o = RenderOptions {
            print_which,
            plain,
            spacing: self.get_spacing_count(),
            display_hidden,
        };
        let indent = String::new();
        let ghost kids = views(self.items@);
        let ghost head = out@;
        let mut j: usize = 0;
        while j < self.items.len()
            invariant
                j <= self.items@.len(),
                kids == views(self.items@),
                o == list_options(self@, print_which, plain, display_hidden),
                indent@ == Seq::<char>::empty(),
                out@ == head + lines_text(kids_entries(kids.take(j as int), indent@, o, max_level, false), o),
            decreases self.items@.len() - j,
        {
            let sub = &self.items[j];
            proof {
                assert(kids.take(j + 1).drop_last() =~= kids.take(j as int));
                assert(kids.take(j + 1).last() == sub@);
                lemma_lines_text_append(
                    kids_entries(kids.take(j as int), indent@, o, max_level, false),
                    item_entries(sub@, (j + 1) as nat, indent@, o, max_level, false),
                    o,
                );
            }
            sub.printable(&mut out, j + 1, &indent, o, max_level, false);
            j = j + 1;
        }
        assert(kids.take(j as int) =~= kids);
        out
    }
}

} // verus!
