use ffizer::apply::{execute, FsCommand};
use ffizer::order::lex_cmp;
use ffizer::planner::{cmp_path_for_plan, compute_dst_path, plan, select_operation, SourceEntry};
use ffizer::scan::child_path_of;
use ffizer::{
    as_local_path, create_folder_error, execution_error, retrieval_error,
    tool_not_configured_error, Action, ChildPath, Ctx, Error, FileOperation,
};
use std::cmp::Ordering;

fn entry(relative: &str, base: &str, is_dir: bool, dst_exists: bool) -> SourceEntry {
    SourceEntry {
        path: ChildPath {
            relative: relative.as_bytes().to_vec(),
            base: base.as_bytes().to_vec(),
            is_symlink: false,
        },
        is_dir,
        dst_exists,
    }
}

#[test]
fn test_compute_dst_path_asis() {
    let ctx = Ctx { dst_folder: b"test/dst".to_vec(), ..Default::default() };
    let src = ChildPath {
        relative: b"hello/sample.txt".to_vec(),
        base: b"test/src".to_vec(),
        is_symlink: false,
    };
    let expected = ChildPath {
        relative: b"hello/sample.txt".to_vec(),
        base: ctx.dst_folder.clone(),
        is_symlink: false,
    };
    let actual = compute_dst_path(&ctx, &src);
    assert_eq!(actual, expected);
}

#[test]
fn plan_concrete_scenario_mkdir_then_copy() {
    // source tree: `a/` (directory) and `a/x.txt`; destination empty
    let ctx = Ctx { dst_folder: b"dst".to_vec(), src_uri: b"src".to_vec() };
    let entries = vec![
        entry("a/x.txt", "src", false, false),
        entry("a", "src", true, false),
    ];
    let actions = plan(&ctx, entries).unwrap();
    assert_eq!(actions.len(), 2);
    assert_eq!(actions[0].dst_path.relative, b"a".to_vec());
    assert_eq!(actions[0].dst_path.base, b"dst".to_vec());
    assert_eq!(actions[0].operation, FileOperation::MkDir);
    assert_eq!(actions[1].dst_path.relative, b"a/x.txt".to_vec());
    assert_eq!(actions[1].operation, FileOperation::CopyRaw);

    let cmds = execute(&actions);
    assert_eq!(
        cmds,
        vec![
            FsCommand::CreateDirAll { path: b"dst/a".to_vec() },
            FsCommand::CopyFile { src: b"src/a/x.txt".to_vec(), dst: b"dst/a/x.txt".to_vec() },
        ]
    );
}

#[test]
fn plan_update_scenario_keeps_existing_content() {
    // `a/x.txt` changed upstream but the destination already has it:
    // everything is kept and the apply run writes nothing
    let ctx = Ctx { dst_folder: b"dst".to_vec(), src_uri: b"src".to_vec() };
    let entries = vec![
        entry("a", "src", true, true),
        entry("a/x.txt", "src", false, true),
    ];
    let actions = plan(&ctx, entries).unwrap();
    assert_eq!(actions.len(), 2);
    assert!(actions.iter().all(|a| a.operation == FileOperation::Keep));
    let cmds = execute(&actions);
    assert!(cmds.is_empty());
}

#[test]
fn plan_is_deterministic() {
    let ctx = Ctx { dst_folder: b"dst".to_vec(), src_uri: b"src".to_vec() };
    let entries = vec![
        entry("b", "src", true, false),
        entry("a", "src", true, true),
        entry("b/z.txt", "src", false, false),
        entry("a/y.txt", "src", false, false),
    ];
    let first = plan(&ctx, entries.clone()).unwrap();
    let second = plan(&ctx, entries).unwrap();
    assert_eq!(first, second);
}

#[test]
fn plan_sorts_directory_before_its_descendants() {
    // byte order: "a" < "a/b.txt" < "ab" because '/' sorts below 'b'
    let ctx = Ctx { dst_folder: b"dst".to_vec(), src_uri: b"src".to_vec() };
    let entries = vec![
        entry("ab", "src", false, false),
        entry("a/b.txt", "src", false, false),
        entry("a", "src", true, false),
    ];
    let actions = plan(&ctx, entries).unwrap();
    let rels: Vec<Vec<u8>> = actions.iter().map(|a| a.dst_path.relative.clone()).collect();
    assert_eq!(rels, vec![b"a".to_vec(), b"a/b.txt".to_vec(), b"ab".to_vec()]);
}

#[test]
fn plan_keep_wins_over_changed_source() {
    // the destination file exists, the source has different content: kept,
    // and no command of the run targets it
    let ctx = Ctx { dst_folder: b"dst".to_vec(), src_uri: b"src".to_vec() };
    let entries = vec![
        entry("kept.txt", "src", false, true),
        entry("new.txt", "src", false, false),
    ];
    let actions = plan(&ctx, entries).unwrap();
    assert_eq!(actions[0].operation, FileOperation::Keep);
    assert_eq!(actions[1].operation, FileOperation::CopyRaw);
    let cmds = execute(&actions);
    assert_eq!(cmds.len(), 1);
    assert_eq!(
        cmds[0],
        FsCommand::CopyFile { src: b"src/new.txt".to_vec(), dst: b"dst/new.txt".to_vec() }
    );
}

#[test]
fn select_operation_follows_the_rule() {
    assert_eq!(select_operation(true, true), FileOperation::Keep);
    assert_eq!(select_operation(true, false), FileOperation::Keep);
    assert_eq!(select_operation(false, true), FileOperation::MkDir);
    assert_eq!(select_operation(false, false), FileOperation::CopyRaw);
}

#[test]
fn cmp_path_for_plan_orders_by_dst_then_src() {
    let mk = |rel: &str, src_rel: &str| Action {
        src_path: ChildPath {
            relative: src_rel.as_bytes().to_vec(),
            base: b"s".to_vec(),
            is_symlink: false,
        },
        dst_path: ChildPath {
            relative: rel.as_bytes().to_vec(),
            base: b"d".to_vec(),
            is_symlink: false,
        },
        operation: FileOperation::Nothing,
    };
    assert_eq!(cmp_path_for_plan(&mk("a", "a"), &mk("b", "a")), Ordering::Less);
    assert_eq!(cmp_path_for_plan(&mk("b", "a"), &mk("a", "a")), Ordering::Greater);
    assert_eq!(cmp_path_for_plan(&mk("a", "a"), &mk("a", "a")), Ordering::Equal);
    assert_eq!(cmp_path_for_plan(&mk("a", "a"), &mk("a", "b")), Ordering::Less);
}

#[test]
fn plan_of_no_entries_is_empty() {
    let ctx = Ctx::default();
    let actions = plan(&ctx, Vec::new()).unwrap();
    assert!(actions.is_empty());
}

#[test]
fn full_path_joins_base_and_relative() {
    let c = ChildPath { relative: b"a/x.txt".to_vec(), base: b"dst".to_vec(), is_symlink: false };
    assert_eq!(c.full_path(), b"dst/a/x.txt".to_vec());
    let root = ChildPath { relative: Vec::new(), base: b"dst".to_vec(), is_symlink: false };
    assert_eq!(root.full_path(), b"dst".to_vec());
    let bare = ChildPath { relative: b"x".to_vec(), base: Vec::new(), is_symlink: false };
    assert_eq!(bare.full_path(), b"x".to_vec());
}

#[test]
fn execute_ignores_passive_operations() {
    let mk = |op: FileOperation| Action {
        src_path: ChildPath { relative: b"r".to_vec(), base: b"s".to_vec(), is_symlink: false },
        dst_path: ChildPath { relative: b"r".to_vec(), base: b"d".to_vec(), is_symlink: false },
        operation: op,
    };
    let actions = vec![
        mk(FileOperation::Nothing),
        mk(FileOperation::Ignore),
        mk(FileOperation::Keep),
        mk(FileOperation::CopyRender),
    ];
    assert!(execute(&actions).is_empty());
}

#[test]
fn child_path_of_addresses_entries_under_the_root() {
    let base = b"/tmp/src".to_vec();
    // the root itself
    let c = child_path_of(&base, &b"/tmp/src".to_vec(), false).unwrap();
    assert_eq!(c.relative, Vec::<u8>::new());
    assert_eq!(c.base, base);
    // an entry below the root
    let c = child_path_of(&base, &b"/tmp/src/a/x.txt".to_vec(), false).unwrap();
    assert_eq!(c.relative, b"a/x.txt".to_vec());
    assert_eq!(c.base, base);
    // a sibling whose name merely extends the root's is not below it
    assert!(child_path_of(&base, &b"/tmp/srcdir/x".to_vec(), false).is_none());
    // an unrelated path
    assert!(child_path_of(&base, &b"/tmp/other".to_vec(), false).is_none());
    // a symlink is recorded, never followed
    let c = child_path_of(&base, &b"/tmp/src/link".to_vec(), true).unwrap();
    assert!(c.is_symlink);
}

#[test]
fn lex_cmp_puts_prefix_first() {
    assert_eq!(lex_cmp(&b"a".to_vec(), &b"a/b".to_vec()), Ordering::Less);
    assert_eq!(lex_cmp(&b"a/b".to_vec(), &b"ab".to_vec()), Ordering::Less);
    assert_eq!(lex_cmp(&b"ab".to_vec(), &b"ab".to_vec()), Ordering::Equal);
    assert_eq!(lex_cmp(&b"b".to_vec(), &b"a".to_vec()), Ordering::Greater);
}

#[test]
fn as_local_path_uses_the_uri_unchanged() {
    assert_eq!(as_local_path(b"./tpl".to_vec()).unwrap(), b"./tpl".to_vec());
}

#[test]
fn error_constructors_carry_their_context() {
    let e = retrieval_error(b"dst".to_vec(), b"url".to_vec(), b"rev".to_vec(), b"why".to_vec());
    assert_eq!(
        e,
        Error::RetrievalFailed {
            dst: b"dst".to_vec(),
            url: b"url".to_vec(),
            rev: b"rev".to_vec(),
            cause: b"why".to_vec(),
        }
    );
    let e = create_folder_error(b"p".to_vec(), b"why".to_vec());
    assert_eq!(e, Error::CreateFolderFailed { path: b"p".to_vec(), cause: b"why".to_vec() });
    let e = tool_not_configured_error(b"merge".to_vec());
    assert_eq!(e, Error::ToolNotConfigured { kind: b"merge".to_vec() });
    let action = Action {
        src_path: ChildPath { relative: b"r".to_vec(), base: b"s".to_vec(), is_symlink: false },
        dst_path: ChildPath { relative: b"r".to_vec(), base: b"d".to_vec(), is_symlink: false },
        operation: FileOperation::CopyRaw,
    };
    let e = execution_error(action.clone(), b"why".to_vec());
    assert_eq!(e, Error::ExecutionFailed { action, cause: b"why".to_vec() });
}
