use sailor_hook::diff::{
    blob_name, collect_changes, diff_args, file_found, list_args, list_commit_files, list_files,
    parse_diff, parse_diffgit_header, resolve_in, ships, ChangeStatus, PathRefusal, UntrackedFile,
    MAX_UNTRACKED_BYTES,
};
use sailor_hook::json;
use sailor_hook::preview::DevServer;
use sailor_hook::replies::{
    browse_list_reply, browse_reply, diff_reply, preview_reply, Reply,
};

const STAGED: &str = "diff --git a/a.txt b/a.txt
index 5626abf..bd5c5e8 100644
--- a/a.txt
+++ b/a.txt
@@ -1 +1,2 @@
 one
+changed
";

const UNSTAGED: &str = "diff --git a/b.txt b/b.txt
index 2c3d0b0..7a8e6f1 100644
--- a/b.txt
+++ b/b.txt
@@ -1 +1,2 @@
 keep
+also
";

#[test]
fn collects_staged_unstaged_and_untracked() {
    let changes = collect_changes(
        &vec![STAGED.to_string(), UNSTAGED.to_string()],
        &vec![UntrackedFile { name: "new.txt".into(), size: Some(10), text: "brand new\n".into() }],
    );

    let a = changes.iter().find(|c| c.name == "a.txt").unwrap();
    assert_eq!(a.status, ChangeStatus::Modified);
    // Staged diff: context line " one" + addition "+changed"
    assert!(a.patch.contains(" one") && a.patch.contains("+changed"));

    let b = changes.iter().find(|c| c.name == "b.txt").unwrap();
    assert!(b.patch.contains("+also"));

    let new = changes.iter().find(|c| c.name == "new.txt").unwrap();
    assert_eq!(new.status, ChangeStatus::Untracked);
    assert_eq!(new.contents.as_deref(), Some("brand new\n"));
}

#[test]
fn detects_added_deleted_renamed() {
    let patch = "diff --git a/added.txt b/added.txt
new file mode 100644
index 0000000..45b983b
--- /dev/null
+++ b/added.txt
@@ -0,0 +1 @@
+hi
diff --git a/gone.txt b/gone.txt
deleted file mode 100644
index 2c3d0b0..0000000
--- a/gone.txt
+++ /dev/null
@@ -1 +0,0 @@
-bye
diff --git a/keep.txt b/moved.txt
similarity index 100%
rename from keep.txt
rename to moved.txt
";
    let changes = collect_changes(&vec![patch.to_string()], &vec![]);
    assert_eq!(changes.len(), 3);

    let added = changes.iter().find(|c| c.name == "added.txt").unwrap();
    assert_eq!(added.status, ChangeStatus::Added);

    let gone = changes.iter().find(|c| c.name == "gone.txt").unwrap();
    assert_eq!(gone.status, ChangeStatus::Deleted);

    let moved = changes.iter().find(|c| c.name == "moved.txt").unwrap();
    assert_eq!(moved.status, ChangeStatus::Renamed);
    assert_eq!(moved.prev_name.as_deref(), Some("keep.txt"));
}

#[test]
fn commit_diff_overrides_flags() {
    assert_eq!(
        diff_args(false, false, Some("HEAD~1")),
        vec![vec!["diff", "--no-color", "HEAD~1"]]
    );
    assert_eq!(diff_args(true, true, Some("HEAD~1")).len(), 1);
    assert_eq!(diff_args(true, true, None).len(), 2);
    assert!(diff_args(false, false, None).is_empty());

    let patch = "diff --git a/a.txt b/a.txt
index 5626abf..f719efd 100644
--- a/a.txt
+++ b/a.txt
@@ -1 +1 @@
-one
+two
";
    let changes = collect_changes(&vec![patch.to_string()], &vec![]);
    assert_eq!(changes.len(), 1);
    assert!(changes[0].patch.contains("-one") && changes[0].patch.contains("+two"));
}

#[test]
fn non_git_dir_returns_none() {
    match diff_reply("/p", Ok(None)) {
        Reply::Refusal { status, body } => assert_eq!((status, body.as_str()), (404, "not a git repository")),
        other => panic!("{other:?}"),
    }
}

#[test]
fn browse_lists_and_reads_files() {
    let files = list_files("src/a.ts\n", "");
    assert!(files.iter().any(|f| f == "src/a.ts"));
    // A conflict lists a file more than once, and a file that is gone is not shown.
    assert_eq!(list_files("b\na\nnew\nb\n", "a\n"), vec!["b", "new"]);
    assert_eq!(
        list_args(None),
        vec![
            vec!["ls-files", "--cached", "--others", "--exclude-standard"],
            vec!["ls-files", "--deleted"],
        ]
    );
    assert_eq!(list_args(Some("v1")), vec![vec!["ls-tree", "-r", "--name-only", "v1"]]);
    assert_eq!(list_commit_files("b\na\n"), vec!["b", "a"]);
    assert_eq!(blob_name("HEAD", "src/a.ts"), "HEAD:src/a.ts");
}

#[test]
fn read_file_refuses_escape() {
    assert_eq!(resolve_in("/repo", Some("/outside.txt")), Err(PathRefusal::Escapes));
    assert_eq!(resolve_in("/repo", Some("/repository/x")), Err(PathRefusal::Escapes));
    assert_eq!(resolve_in("/repo", None), Err(PathRefusal::Missing));
    assert_eq!(resolve_in("/repo", Some("/repo/a.txt")), Ok("/repo/a.txt".to_string()));
    assert_eq!(
        PathRefusal::Escapes.message("../outside.txt"),
        "path escapes repo root: ../outside.txt"
    );
}

#[test]
fn a_missing_file_is_none_and_an_escape_is_refused() {
    assert_eq!(file_found(Err(PathRefusal::Missing)), Ok(None));
    assert_eq!(file_found(Err(PathRefusal::Escapes)), Err(PathRefusal::Escapes));
    assert_eq!(file_found(Err(PathRefusal::Empty)), Err(PathRefusal::Empty));
    assert_eq!(file_found(Ok("/repo/a".into())), Ok(Some("/repo/a".into())));
}

#[test]
fn files_with_unusual_names_still_render() {
    let patch = "diff --git \"a/\\303\\251.txt\" \"b/\\303\\251.txt\"\n+x";
    let changes = parse_diff(patch);
    assert_eq!(changes.len(), 1);
    assert_eq!(changes[0].patch, patch);
    assert_eq!(changes[0].name, "\\303\\251.txt");
    assert_eq!(changes[0].prev_name, None);

    let odd = parse_diff("diff --git nothing to see\n+x\ndiff --git a/x \"b/y\\\"z\"\n+y");
    assert_eq!(odd.len(), 2);
    assert_eq!((odd[0].name.as_str(), &odd[0].prev_name), ("nothing to see", &None));
    assert_eq!(odd[1].name, "y\\\"z");
    assert_eq!(odd[1].prev_name.as_deref(), Some("x"));
    assert_eq!(
        parse_diffgit_header("diff --git \"a/\\t\" b/plain"),
        Some(("\\t".into(), "plain".into()))
    );
}

#[test]
fn a_header_gives_both_names() {
    assert_eq!(
        parse_diffgit_header("diff --git a/x y.txt b/z.txt"),
        Some(("x y.txt".into(), "z.txt".into()))
    );
    assert_eq!(parse_diffgit_header("--- a/x"), None);
}

#[test]
fn large_files_are_listed_but_not_shipped() {
    assert!(ships(Some(MAX_UNTRACKED_BYTES)));
    assert!(!ships(Some(MAX_UNTRACKED_BYTES + 1)));
    assert!(!ships(None));
}

#[test]
fn the_viewer_is_answered_with_documents() {
    let changes = collect_changes(&vec![STAGED.to_string()], &vec![]);
    match diff_reply("/p", Ok(Some(changes))) {
        Reply::Document(doc) => {
            let text = json::render(&doc);
            assert!(text.starts_with(r#"{"changes":[{"name":"a.txt","patch":""#));
            assert!(text.ends_with(r#","status":"modified"}],"repo":"/p","total":1}"#));
        }
        other => panic!("{other:?}"),
    }
    match browse_reply("/p", "a.txt", Ok(Some("x\n".into()))) {
        Reply::Document(doc) => assert_eq!(
            json::render(&doc),
            r#"{"contents":"x\n","file":"a.txt","repo":"/p"}"#
        ),
        other => panic!("{other:?}"),
    }
    match browse_list_reply("/p", Ok(Some(vec!["a".into(), "b".into()]))) {
        Reply::Document(doc) => {
            assert_eq!(json::render(&doc), r#"{"files":["a","b"],"repo":"/p"}"#)
        }
        other => panic!("{other:?}"),
    }
    let found = vec![DevServer { port: 80, process: "node".into(), bind: "127.0.0.1".into(), name: None }];
    match preview_reply(Ok(found)) {
        Reply::Document(doc) => assert_eq!(
            json::render(&doc),
            r#"{"servers":[{"bind":"127.0.0.1","port":80,"process":"node"}],"total":1}"#
        ),
        other => panic!("{other:?}"),
    }
    for reply in [
        diff_reply("/p", Err("e".into())),
        browse_reply("/p", "a", Err("e".into())),
        browse_list_reply("/p", Err("e".into())),
        preview_reply(Err("e".into())),
    ] {
        match reply {
            Reply::Refusal { status, body } => assert_eq!((status, body.as_str()), (500, "e")),
            other => panic!("{other:?}"),
        }
    }
    match browse_reply("/p", "a", Ok(None)) {
        Reply::Refusal { status, body } => assert_eq!((status, body.as_str()), (404, "file not found")),
        other => panic!("{other:?}"),
    }
}
