use vstd::prelude::*;
use vstd::string::{StrSliceExecFns, StringExecFns};

verus! {

/// Progress of a to-do entry.
#[derive(Clone, Copy, Debug, PartialEq, Eq, Structural)]
pub enum ItemStatus {
    Incomplete,
    Complete,
    Disabled,
}

/// Whether an entry is an actionable to-do or a purely informational note.
#[derive(Clone, Copy, Debug, PartialEq, Eq, Structural)]
pub enum ItemType {
    Todo,
    Note,
}

/// Which entries a listing or a status summary is about.
#[derive(Clone, Copy, Debug, PartialEq, Eq, Structural)]
pub enum PrintWhich {
    All,
    Complete,
    Incomplete,
}

/// What a command expects of the list file's existence.
#[derive(Clone, Copy, Debug, PartialEq, Eq, Structural)]
pub enum PathExitCondition {
    Exists,
    NotExists,
    Ignore,
}

#[derive(Debug)]
pub struct ParsePrintWhichError;

#[derive(Debug)]
pub struct ParseItemTypeError;

/// The status that follows `s` when statuses are cycled.
pub open spec fn next_status(s: ItemStatus) -> ItemStatus {
    match s {
        ItemStatus::Complete => ItemStatus::Disabled,
        ItemStatus::Disabled => ItemStatus::Incomplete,
        ItemStatus::Incomplete => ItemStatus::Complete,
    }
}

/// The other kind of entry.
pub open spec fn other_type(t: ItemType) -> ItemType {
    match t {
        ItemType::Todo => ItemType::Note,
        ItemType::Note => ItemType::Todo,
    }
}

pub open spec fn status_symbol(s: ItemStatus) -> Seq<char> {
    match s {
        ItemStatus::Complete => seq!['x'],
        ItemStatus::Disabled => seq!['-'],
        ItemStatus::Incomplete => seq![' '],
    }
}

pub open spec fn print_which_name(p: PrintWhich) -> Seq<char> {
    match p {
        PrintWhich::All => seq!['a', 'l', 'l'],
        PrintWhich::Complete => seq!['c', 'o', 'm', 'p', 'l', 'e', 't', 'e'],
        PrintWhich::Incomplete => seq!['i', 'n', 'c', 'o', 'm', 'p', 'l', 'e', 't', 'e'],
    }
}

pub open spec fn item_type_name(t: ItemType) -> Seq<char> {
    match t {
        ItemType::Todo => seq!['t', 'o', 'd', 'o'],
        ItemType::Note => seq!['n', 'o', 't', 'e'],
    }
}

/// Character-wise equality of two string slices.
pub fn str_equals(a: &str, b: &str) -> (r: bool)
    ensures
        r == (a@ == b@),
{
    let n = a.unicode_len();
    if n != b.unicode_len() {
        return false;
    }
    let mut i: usize = 0;
    while i < n
        invariant
            n == a@.len(),
            n == b@.len(),
            i <= n,
            forall|j: int| 0 <= j < i ==> a@[j] == b@[j],
        decreases n - i,
    {
        if a.get_char(i) != b.get_char(i) {
            return false;
        }
        i = i + 1;
    }
    assert(a@ =~= b@);
    true
}

impl ItemStatus {
    /// The glyph shown between brackets for this status.
    pub fn symbol(&self) -> (r: String)
        ensures
            r@ == status_symbol(*self),
    {
        let r = match self {
            ItemStatus::Complete => String::from_str("x"),
            ItemStatus::Disabled => String::from_str("-"),
            ItemStatus::Incomplete => String::from_str(" "),
        };
        proof {
            reveal_strlit("x");
            reveal_strlit("-");
            reveal_strlit(" ");
            assert(r@ =~= status_symbol(*self));
        }
        r
    }

    /// The status that follows this one: Complete, Disabled, Incomplete, Complete, ...
    pub fn cycled(&self) -> (r: ItemStatus)
        ensures
            r == next_status(*self),
    {
        match self {
            ItemStatus::Complete => ItemStatus::Disabled,
            ItemStatus::Disabled => ItemStatus::Incomplete,
            ItemStatus::Incomplete => ItemStatus::Complete,
        }
    }
}

impl ItemType {
    pub fn toggled(&self) -> (r: ItemType)
        ensures
            r == other_type(*self),
    {
        match self {
            ItemType::Todo => ItemType::Note,
            ItemType::Note => ItemType::Todo,
        }
    }

    /// The lower-case name of the kind, as accepted by `parse`.
    pub fn name(&self) -> (r: String)
        ensures
            r@ == item_type_name(*self),
    {
        let r = match self {
            ItemType::Todo => String::from_str("todo"),
            ItemType::Note => String::from_str("note"),
        };
        proof {
            reveal_strlit("todo");
            reveal_strlit("note");
            assert(r@ =~= item_type_name(*self));
        }
        r
    }

    /// Reads a kind from its lower-case name.
    pub fn parse(input: &str) -> (r: Result<ItemType, ParseItemTypeError>)
        ensures
            input@ == item_type_name(ItemType::Todo) <==> r == Ok::<ItemType, ParseItemTypeError>(ItemType::Todo),
            input@ == item_type_name(ItemType::Note) <==> r == Ok::<ItemType, ParseItemTypeError>(ItemType::Note),
            r is Err <==> (input@ != item_type_name(ItemType::Todo) && input@ != item_type_name(ItemType::Note)),
    {
        proof {
            reveal_strlit("todo");
            reveal_strlit("note");
            assert("todo"@ =~= item_type_name(ItemType::Todo));
            assert("note"@ =~= item_type_name(ItemType::Note));
        }
        if str_equals(input, "todo") {
            Ok(ItemType::Todo)
        } else if str_equals(input, "note") {
            Ok(ItemType::Note)
        } else {
            Err(ParseItemTypeError)
        }
    }
}

impl PrintWhich {
    /// The lower-case name of the selection, as accepted by `parse`.
    pub fn name(&self) -> (r: String)
        ensures
            r@ == print_which_name(*self),
    {
        let r = match self {
            PrintWhich::All => String::from_str("all"),
            PrintWhich::Complete => String::from_str("complete"),
            PrintWhich::Incomplete => String::from_str("incomplete"),
        };
        proof {
            reveal_strlit("all");
            reveal_strlit("complete");
            reveal_strlit("incomplete");
            assert(r@ =~= print_which_name(*self));
        }
        r
    }

    /// Reads a selection from its lower-case name.
    pub fn parse(input: &str) -> (r: Result<PrintWhich, ParsePrintWhichError>)
        ensures
            forall|p: PrintWhich| input@ == print_which_name(p) <==> r == Ok::<PrintWhich, ParsePrintWhichError>(p),
            r is Err <==> (forall|p: PrintWhich| input@ != print_which_name(p)),
    {
        proof {
            reveal_strlit("all");
            reveal_strlit("complete");
            reveal_strlit("incomplete");
            assert("all"@ =~= print_which_name(PrintWhich::All));
            assert("complete"@ =~= print_which_name(PrintWhich::Complete));
            assert("incomplete"@ =~= print_which_name(PrintWhich::Incomplete));
        }
        if str_equals(input, "all") {
            Ok(PrintWhich::All)
        } else if str_equals(input, "complete") {
            Ok(PrintWhich::Complete)
        } else if str_equals(input, "incomplete") {
            Ok(PrintWhich::Incomplete)
        } else {
            Err(ParsePrintWhichError)
        }
    }
}

impl std::str::FromStr for PrintWhich {
    type Err = ParsePrintWhichError;

    fn from_str(input: &str) -> Result<PrintWhich, ParsePrintWhichError> {
        PrintWhich::parse(input)
    }
}

impl std::str::FromStr for ItemType {
    type Err = ParseItemTypeError;

    fn from_str(input: &str) -> Result<ItemType, ParseItemTypeError> {
        ItemType::parse(input)
    }
}

#[verifier::external_type_specification]
#[verifier::external_body]
pub struct ExJsonError(serde_json::Error);

/// How a command ends; each outcome has its own process exit code.
pub enum ExitCode {
    Success,
    NoEnvVar,
    NoListName,
    NoListItemMessage(String),
    NoListItemNumber(String),
    FileExists(String),
    FileDoesNotExist(String),
    FailedToWrite(String),
    FailedToRead(String),
    FailedToOpen(String),
    FailedToDeserialize(serde_json::Error),
    FailedToSerialize(serde_json::Error),
}

pub open spec fn exit_number(e: ExitCode) -> i32 {
    match e {
        ExitCode::Success => 0,
        ExitCode::NoEnvVar => 2,
        ExitCode::NoListName => 3,
        ExitCode::NoListItemMessage(_) => 4,
        ExitCode::NoListItemNumber(_) => 5,
        ExitCode::FileExists(_) => 6,
        ExitCode::FileDoesNotExist(_) => 7,
        ExitCode::FailedToWrite(_) => 10,
        ExitCode::FailedToRead(_) => 11,
        ExitCode::FailedToOpen(_) => 12,
        ExitCode::FailedToDeserialize(_) => 13,
        ExitCode::FailedToSerialize(_) => 14,
    }
}

pub open spec fn quoted(before: Seq<char>, path: Seq<char>) -> Seq<char> {
    before + "\""@ + path + "\""@
}

/// The description of an outcome; for the two json failures, its leading part.
pub open spec fn exit_text(e: ExitCode) -> Seq<char> {
    match e {
        ExitCode::Success => "Success"@,
        ExitCode::NoEnvVar => "No list path given and TODO_LIST is not set"@,
        ExitCode::NoListName => "No list name for list"@,
        ExitCode::NoListItemMessage(p) => quoted("No item-message for list "@, p@),
        ExitCode::NoListItemNumber(p) => quoted("No item-number for list "@, p@),
        ExitCode::FileExists(p) => quoted("File exists at path "@, p@),
        ExitCode::FileDoesNotExist(p) => quoted("File does not exist at path "@, p@),
        ExitCode::FailedToWrite(p) => quoted("Failed to write to file "@, p@),
        ExitCode::FailedToRead(p) => quoted("Failed to read file "@, p@),
        ExitCode::FailedToOpen(p) => quoted("Failed to open file "@, p@),
        ExitCode::FailedToDeserialize(_) => "Failed to deserialize json: "@,
        ExitCode::FailedToSerialize(_) => "Failed to serialize to json: "@,
    }
}

/// Relies on the `Display` of `serde_json::Error` for its description.
#[verifier::external_body]
fn json_error_text(e: &serde_json::Error) -> (r: String) {
    format!("{}", e)
}

fn quote_path(before: &str, path: &String) -> (r: String)
    ensures
        r@ == quoted(before@, path@),
{
    let mut r = String::from_str(before);
    r.append("\"");
    r.append(path.as_str());
    r.append("\"");
    r
}

impl ExitCode {
    /// The process exit code of this outcome.
    pub fn code(&self) -> (r: i32)
        ensures
            r == exit_number(*self),
    {
        match self {
            ExitCode::Success => 0,
            ExitCode::NoEnvVar => 2,
            ExitCode::NoListName => 3,
            ExitCode::NoListItemMessage(_) => 4,
            ExitCode::NoListItemNumber(_) => 5,
            ExitCode::FileExists(_) => 6,
            ExitCode::FileDoesNotExist(_) => 7,
            ExitCode::FailedToWrite(_) => 10,
            ExitCode::FailedToRead(_) => 11,
            ExitCode::FailedToOpen(_) => 12,
            ExitCode::FailedToDeserialize(_) => 13,
            ExitCode::FailedToSerialize(_) => 14,
        }
    }

    /// The description of this outcome.
    pub fn message(&self) -> (r: String)
        ensures
            !(*self is FailedToDeserialize || *self is FailedToSerialize) ==> r@ == exit_text(*self),
            (*self is FailedToDeserialize || *self is FailedToSerialize) ==> r@.len() >= exit_text(*self).len()
                && r@.subrange(0, exit_text(*self).len() as int) == exit_text(*self),
    {
        match self {
            ExitCode::Success => String::from_str("Success"),
            ExitCode::NoEnvVar => String::from_str("No list path given and TODO_LIST is not set"),
            ExitCode::NoListName => String::from_str("No list name for list"),
            ExitCode::NoListItemMessage(p) => quote_path("No item-message for list ", p),
            ExitCode::NoListItemNumber(p) => quote_path("No item-number for list ", p),
            ExitCode::FileExists(p) => quote_path("File exists at path ", p),
            ExitCode::FileDoesNotExist(p) => quote_path("File does not exist at path ", p),
            ExitCode::FailedToWrite(p) => quote_path("Failed to write to file ", p),
            ExitCode::FailedToRead(p) => quote_path("Failed to read file ", p),
            ExitCode::FailedToOpen(p) => quote_path("Failed to open file ", p),
            ExitCode::FailedToDeserialize(e) => {
                let mut r = String::from_str("Failed to deserialize json: ");
                let t = json_error_text(e);
                r.append(t.as_str());
                assert(r@.subrange(0, exit_text(*self).len() as int) =~= exit_text(*self));
                r
            },
            ExitCode::FailedToSerialize(e) => {
                let mut r = String::from_str("Failed to serialize to json: ");
                let t = json_error_text(e);
                r.append(t.as_str());
                assert(r@.subrange(0, exit_text(*self).len() as int) =~= exit_text(*self));
                r
            },
        }
    }
}

} // verus!
