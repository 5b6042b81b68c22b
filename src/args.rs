use crate::enums::{ItemType, PrintWhich};
use vstd::prelude::*;

verus! {

pub struct AddArgs {
    pub item_nest_location: Vec<usize>,
    pub item_message: String,
    pub item_type: ItemType,
}

pub struct CheckArgs {
    pub item_location: Vec<usize>,
}

pub struct DisableArgs {
    pub item_location: Vec<usize>,
}

pub struct EditArgs {
    pub item_location: Vec<usize>,
    pub item_message: String,
}

pub struct HideArgs {
    pub item_location: Vec<usize>,
}

pub struct MoveArgs {
    pub item_location: Vec<usize>,
    pub output_location: Vec<usize>,
}

pub struct ShowArgs {
    pub print_which: PrintWhich,
    pub status: bool,
    pub plain: bool,
    pub level: Option<usize>,
    pub display_hidden: bool,
}

pub struct RemoveArgs {
    pub item_location: Vec<usize>,
}

pub struct UncheckArgs {
    pub item_location: Vec<usize>,
}

pub struct UnhideArgs {
    pub item_location: Vec<usize>,
}

/// The command to carry out, with its own arguments.
pub enum Mode {
    Add(AddArgs),
    Check(CheckArgs),
    Disable(DisableArgs),
    Edit(EditArgs),
    Hide(HideArgs),
    Move(MoveArgs),
    New,
    Show(ShowArgs),
    Remove(RemoveArgs),
    Uncheck(UncheckArgs),
    Unhide(UnhideArgs),
}

/// A parsed command line.
pub struct Args {
    pub list_path: String,
    pub quiet: bool,
    pub verbose: bool,
    pub mode: Mode,
}

/// `b` is `a` with every coordinate path turned end for end, and nothing else changed.
pub open spec fn reversed_mode(a: Mode, b: Mode) -> bool {
    match (a, b) {
        (Mode::Add(x), Mode::Add(y)) => y.item_nest_location@ == x.item_nest_location@.reverse()
            && y.item_message == x.item_message && y.item_type == x.item_type,
        (Mode::Check(x), Mode::Check(y)) => y.item_location@ == x.item_location@.reverse(),
        (Mode::Disable(x), Mode::Disable(y)) => y.item_location@ == x.item_location@.reverse(),
        (Mode::Edit(x), Mode::Edit(y)) => y.item_location@ == x.item_location@.reverse()
            && y.item_message == x.item_message,
        (Mode::Hide(x), Mode::Hide(y)) => y.item_location@ == x.item_location@.reverse(),
        (Mode::Move(x), Mode::Move(y)) => y.item_location@ == x.item_location@.reverse()
            && y.output_location@ == x.output_location@.reverse(),
        (Mode::New, Mode::New) => true,
        (Mode::Show(x), Mode::Show(y)) => y == x,
        (Mode::Remove(x), Mode::Remove(y)) => y.item_location@ == x.item_location@.reverse(),
        (Mode::Uncheck(x), Mode::Uncheck(y)) => y.item_location@ == x.item_location@.reverse(),
        (Mode::Unhide(x), Mode::Unhide(y)) => y.item_location@ == x.item_location@.reverse(),
        _ => false,
    }
}

/// Turns `v` end for end.
pub fn reverse_in_place(v: &mut Vec<usize>)
    ensures
        final(v)@ == old(v)@.reverse(),
{
    let ghost orig = v@;
    let mut out: Vec<usize> = Vec::new();
    while v.len() > 0
        invariant
            v@ == orig.subrange(0, v@.len() as int),
            out@.len() + v@.len() == orig.len(),
            forall|i: int| 0 <= i < out@.len() ==> out@[i] == orig[orig.len() - 1 - i],
        decreases v@.len(),
    {
        let x = v.pop().unwrap();
        out.push(x);
    }
    assert(out@ =~= orig.reverse());
    *v = out;
}

impl Mode {
    /// Turns every coordinate path end for end, so that it can be used as a stack
    /// whose last element is the top-level coordinate.
    pub fn reverse_coordinates(&mut self)
        ensures
            reversed_mode(*old(self), *final(self)),
    {
        match self {
            Mode::Add(mode_args) => reverse_in_place(&mut mode_args.item_nest_location),
            Mode::Check(mode_args) => reverse_in_place(&mut mode_args.item_location),
            Mode::Disable(mode_args) => reverse_in_place(&mut mode_args.item_location),
            Mode::Edit(mode_args) => reverse_in_place(&mut mode_args.item_location),
            Mode::Hide(mode_args) => reverse_in_place(&mut mode_args.item_location),
            Mode::Move(mode_args) => {
                reverse_in_place(&mut mode_args.item_location);
                reverse_in_place(&mut mode_args.output_location);
            },
            Mode::Remove(mode_args) => reverse_in_place(&mut mode_args.item_location),
            Mode::Uncheck(mode_args) => reverse_in_place(&mut mode_args.item_location),
            Mode::Unhide(mode_args) => reverse_in_place(&mut mode_args.item_location),
            Mode::New => {},
            Mode::Show(_) => {},
        }
    }
}

impl Args {
    /// Turns every coordinate path of the command end for end.
    pub fn reverse_coordinates(&mut self)
        ensures
            reversed_mode(old(self).mode, final(self).mode),
            final(self).list_path == old(self).list_path,
            final(self).quiet == old(self).quiet,
            final(self).verbose == old(self).verbose,
    {
        self.mode.reverse_coordinates();
    }
}

} // verus!
