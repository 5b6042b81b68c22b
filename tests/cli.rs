use todo_list::{
    get_printable_coords, AddArgs, Args, Ctx, ExitCode, GetPath, ItemType, Mode, MoveArgs, PathExitCondition,
    PrintWhich, ShowArgs,
};

fn args(mode: Mode, quiet: bool, verbose: bool) -> Args {
    Args { list_path: "groceries".to_string(), quiet, verbose, mode }
}

#[test]
fn printable_coords() {
    assert_eq!(get_printable_coords(&vec![12, 3]), "12, 3");
    assert_eq!(get_printable_coords(&vec![7]), "7");
    assert_eq!(get_printable_coords(&vec![]), "");
}

#[test]
fn parse_names() {
    assert!(matches!(PrintWhich::parse("complete"), Ok(PrintWhich::Complete)));
    assert!(matches!(PrintWhich::parse("all"), Ok(PrintWhich::All)));
    assert!(matches!("incomplete".parse::<PrintWhich>(), Ok(PrintWhich::Incomplete)));
    assert!(PrintWhich::parse("some").is_err());
    assert!(matches!(ItemType::parse("note"), Ok(ItemType::Note)));
    assert!(matches!("todo".parse::<ItemType>(), Ok(ItemType::Todo)));
    assert!(ItemType::parse("Todo").is_err());
    assert_eq!(PrintWhich::Incomplete.name(), "incomplete");
    assert_eq!(ItemType::Note.name(), "note");
}

#[test]
fn init_reverses_paths_and_builds_file_path() {
    let mode = Mode::Move(MoveArgs { item_location: vec![1, 2, 3], output_location: vec![4, 5] });
    let ctx = Ctx::init(args(mode, false, false)).ok().expect("context");
    assert_eq!(ctx.path, "groceries.json");
    assert_eq!(ctx.get_path(), "groceries.json");
    assert!(ctx.buffer.is_empty());
    match &ctx.args.mode {
        Mode::Move(m) => {
            assert_eq!(m.item_location, vec![3, 2, 1]);
            assert_eq!(m.output_location, vec![5, 4]);
        },
        _ => panic!("mode changed"),
    }
}

#[test]
fn reverse_coordinates_on_add() {
    let mut a = args(
        Mode::Add(AddArgs { item_nest_location: vec![2, 1], item_message: "m".to_string(), item_type: ItemType::Note }),
        false,
        false,
    );
    a.reverse_coordinates();
    match a.mode {
        Mode::Add(x) => {
            assert_eq!(x.item_nest_location, vec![1, 2]);
            assert_eq!(x.item_message, "m");
        },
        _ => panic!("mode changed"),
    }
}

#[test]
fn print_levels() {
    let show = ShowArgs { print_which: PrintWhich::All, status: false, plain: true, level: None, display_hidden: false };
    let mut ctx = Ctx::init(args(Mode::Show(show), false, false)).ok().expect("context");
    ctx.print("one");
    ctx.print("two");
    assert_eq!(ctx.buffer, "one\ntwo");
    ctx.v_print("hidden");
    assert_eq!(ctx.buffer, "one\ntwo");
    ctx.q_print("three");
    assert_eq!(ctx.buffer, "one\ntwo\nthree");
    let mut quiet = Ctx::init(args(Mode::New, true, true)).ok().expect("context");
    quiet.q_print("x");
    quiet.v_print("y");
    assert!(quiet.buffer.is_empty());
    let mut verbose = Ctx::init(args(Mode::New, false, true)).ok().expect("context");
    verbose.v_print("y");
    assert_eq!(verbose.buffer, "y");
}

#[test]
fn check_path_outcomes() {
    let mut ctx = Ctx::init(args(Mode::New, false, true)).ok().expect("context");
    assert!(ctx.check_path(PathExitCondition::Exists, false).is_ok());
    match ctx.check_path(PathExitCondition::Exists, true) {
        Err(ExitCode::FileExists(p)) => assert_eq!(p, "groceries.json"),
        _ => panic!("expected FileExists"),
    }
    assert!(ctx.check_path(PathExitCondition::NotExists, true).is_ok());
    match ctx.check_path(PathExitCondition::NotExists, false) {
        Err(e) => {
            assert_eq!(e.code(), 7);
            assert_eq!(e.message(), "File does not exist at path \"groceries.json\"");
        },
        _ => panic!("expected FileDoesNotExist"),
    }
    assert_eq!(ctx.buffer, "File at \"groceries.json\" does not exist");
    assert!(ctx.check_path(PathExitCondition::Ignore, false).is_ok());
}

#[test]
fn exit_codes_and_messages() {
    assert_eq!(ExitCode::Success.code(), 0);
    assert_eq!(ExitCode::NoListName.code(), 3);
    assert_eq!(ExitCode::NoEnvVar.code(), 2);
    assert_eq!(ExitCode::FailedToOpen("a".to_string()).code(), 12);
    assert_eq!(ExitCode::FailedToOpen("a".to_string()).message(), "Failed to open file \"a\"");
    assert_eq!(ExitCode::NoListName.message(), "No list name for list");
    let err = serde_json::from_str::<u8>("x").unwrap_err();
    let e = ExitCode::FailedToDeserialize(err);
    assert_eq!(e.code(), 13);
    let m = e.message();
    assert!(m.starts_with("Failed to deserialize json: "));
    assert!(m.len() > "Failed to deserialize json: ".len());
}
