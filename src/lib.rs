use vstd::prelude::*;

pub mod action;
pub mod args;
pub mod ctx;
pub mod enums;
pub mod item;
pub mod laws;
pub mod list;
pub mod markdown;
pub mod render;
pub mod stamp;
pub mod text;
pub mod utils;

pub use action::{act_on_kids, ActionView, ItemAction};
pub use args::{
    AddArgs, Args, CheckArgs, DisableArgs, EditArgs, HideArgs, Mode, MoveArgs, RemoveArgs, ShowArgs,
    UncheckArgs, UnhideArgs,
};
pub use ctx::{Ctx, GetPath};
pub use enums::{
    ExitCode, ItemStatus, ItemType, ParseItemTypeError, ParsePrintWhichError, PathExitCondition, PrintWhich,
};
pub use item::{Item, ItemView};
pub use list::{List, ListView};
pub use markdown::{
    check_item, get_next_item_number, next_number_from, parse_number, uncheck_item, update_last_edit,
};
pub use render::RenderOptions;
pub use stamp::Timestamp;
pub use text::{bold, danger, info, italic, primary, success, warning};
pub use utils::get_printable_coords;

verus! {

} // verus!
