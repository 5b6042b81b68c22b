use crate::args::{reversed_mode, Args};
use crate::enums::{ExitCode, PathExitCondition};
use vstd::prelude::*;
use vstd::string::{StrSliceExecFns, StringExecFns};

verus! {

/// Gives the path of the list file a command works on.
pub trait GetPath {
    fn get_path(&self) -> &String;
}

/// The state of one command: its arguments, the messages gathered for output, and
/// the path of the list file.
pub struct Ctx {
    pub args: Args,
    pub buffer: String,
    pub path: String,
}

/// The buffer after `msg` is printed to it: on a new line unless the buffer is empty.
pub open spec fn printed(buffer: Seq<char>, msg: Seq<char>) -> Seq<char> {
    if buffer.len() == 0 { msg } else { buffer + "\n"@ + msg }
}

/// The message printed in verbose mode when the list file is missing.
pub open spec fn missing_text(path: Seq<char>) -> Seq<char> {
    "File at \""@ + path + "\" does not exist"@
}

/// The buffer after a verbose message: printed only when verbose and not quiet.
pub open spec fn v_printed(args: Args, buffer: Seq<char>, msg: Seq<char>) -> Seq<char> {
    if args.verbose && !args.quiet { printed(buffer, msg) } else { buffer }
}

impl GetPath for Ctx {
    fn get_path(&self) -> &String {
        &self.path
    }
}

impl Ctx {
    /// The list file is the list path with `.json` appended.
    fn construct_path(&mut self)
        ensures
            final(self).path@ == old(self).args.list_path@ + ".json"@,
            final(self).args == old(self).args,
            final(self).buffer == old(self).buffer,
    {
        let mut p = self.args.list_path.clone();
        p.append(".json");
        self.path = p;
    }

    /// The context of a command: its coordinate paths turned into stacks, an empty
    /// buffer, and the list file's path.
    pub fn init(args: Args) -> (r: Result<Ctx, ExitCode>)
        ensures
            r matches Ok(ctx) && reversed_mode(args.mode, ctx.args.mode) && ctx.args.list_path == args.list_path
                && ctx.args.quiet == args.quiet && ctx.args.verbose == args.verbose && ctx.buffer@
                == Seq::<char>::empty() && ctx.path@ == args.list_path@ + ".json"@,
    {
        let mut args = args;
        args.reverse_coordinates();
        let mut ctx = Ctx { args, buffer: String::new(), path: String::new() };
        ctx.construct_path();
        Ok(ctx)
    }

    /// Tests the existence of the list file, given as `exists`, against `condition`.
    pub fn check_path(&mut self, condition: PathExitCondition, exists: bool) -> (r: Result<(), ExitCode>)
        ensures
            final(self).args == old(self).args,
            final(self).path == old(self).path,
            match condition {
                PathExitCondition::Exists => final(self).buffer == old(self).buffer && if exists {
                    r matches Err(ExitCode::FileExists(p)) && p@ == old(self).path@
                } else {
                    r is Ok
                },
                PathExitCondition::NotExists => if exists {
                    r is Ok && final(self).buffer == old(self).buffer
                } else {
                    r matches Err(ExitCode::FileDoesNotExist(p)) && p@ == old(self).path@ && final(self).buffer@
                        == v_printed(old(self).args, old(self).buffer@, missing_text(old(self).path@))
                },
                PathExitCondition::Ignore => r is Ok && final(self).buffer == old(self).buffer,
            },
    {
        match condition {
            PathExitCondition::Exists => {
                if exists {
                    Err(ExitCode::FileExists(self.path.clone()))
                } else {
                    Ok(())
                }
            },
            PathExitCondition::NotExists => {
                if !exists {
                    let mut msg = String::from_str("File at \"");
                    msg.append(self.path.as_str());
                    msg.append("\" does not exist");
                    self.v_print(msg.as_str());
                    Err(ExitCode::FileDoesNotExist(self.path.clone()))
                } else {
                    Ok(())
                }
            },
            PathExitCondition::Ignore => Ok(()),
        }
    }

    /// Adds `msg` to the buffer, on a new line unless the buffer is empty.
    pub fn print(&mut self, msg: &str)
        ensures
            final(self).buffer@ == printed(old(self).buffer@, msg@),
            final(self).args == old(self).args,
            final(self).path == old(self).path,
    {
        if self.buffer.as_str().unicode_len() != 0 {
            self.buffer.append("\n");
        }
        self.buffer.append(msg);
    }

    /// Prints `msg` unless quiet.
    pub fn q_print(&mut self, msg: &str)
        ensures
            final(self).buffer@ == if old(self).args.quiet { old(self).buffer@ } else { printed(old(self).buffer@, msg@) },
            final(self).args == old(self).args,
            final(self).path == old(self).path,
    {
        if !self.args.quiet {
            self.print(msg);
        }
    }

    /// Prints `msg` when verbose and not quiet.
    pub fn v_print(&mut self, msg: &str)
        ensures
            final(self).buffer@ == v_printed(old(self).args, old(self).buffer@, msg@),
            final(self).args == old(self).args,
            final(self).path == old(self).path,
    {
        if self.args.verbose {
            self.q_print(msg);
        }
    }
}

} // verus!
