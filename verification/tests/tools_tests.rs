use ollo_code::tools::{
    check_workspace_path, command_outcome, command_result_text, directory_listing,
    extract_tool_call, fenced_json_blocks, join_patch_lines, patch_report, patch_result, plan_patch,
    replace_once, search_outcome, update_outcome, EditError, PatchError, PatchOp, SearchError,
    ToolCall, ToolCallError, ToolResult, ToolRunner, WorkspacePathError,
};
fn runner() -> ToolRunner {
    ToolRunner::new("/tmp/ollo-workspace".to_string())
}

fn strings(items: &[&str]) -> Vec<String> {
    items.iter().map(|s| s.to_string()).collect()
}

#[test]
fn extracts_fenced_tool_call() {
    let text = "Use this:\n```json\n{\"tool\":\"read_file\",\"path\":\"Cargo.toml\"}\n```";
    let call = extract_tool_call(text).unwrap().unwrap();
    assert_eq!(
        call,
        ToolCall::Read {
            path: "Cargo.toml".to_string()
        }
    );
}

#[test]
fn rejects_path_escape() {
    let runner = runner();
    assert!(runner.workspace_path("../secret").is_err());
    assert!(runner.workspace_path("/tmp/secret").is_err());
}

#[test]
fn parses_search_tool() {
    let call = ToolCall::from_json(r#"{"tool":"search","query":"fn main","path":"src"}"#).unwrap();
    assert_eq!(
        call,
        ToolCall::Search {
            query: "fn main".to_string(),
            path: Some("src".to_string())
        }
    );
}

#[test]
fn workspace_path_joins_relative_paths() {
    let runner = runner();
    assert_eq!(
        runner.workspace_path("src/main.rs").unwrap(),
        "/tmp/ollo-workspace/src/main.rs"
    );
    assert_eq!(runner.root(), "/tmp/ollo-workspace");
    let slashed = ToolRunner::new("/srv/".to_string());
    assert_eq!(slashed.workspace_path("a.txt").unwrap(), "/srv/a.txt");
    assert_eq!(
        std::path::PathBuf::from(runner.workspace_path("a/b").unwrap()),
        std::path::Path::new("/tmp/ollo-workspace").join("a/b")
    );
}

#[test]
fn workspace_path_errors_name_the_reason() {
    let runner = runner();
    assert_eq!(
        runner.workspace_path("/etc/passwd").unwrap_err(),
        WorkspacePathError::Absolute
    );
    assert_eq!(
        runner.workspace_path("a/../../b").unwrap_err(),
        WorkspacePathError::Escapes
    );
    assert_eq!(runner.workspace_path("..").unwrap_err(), WorkspacePathError::Escapes);
    assert_eq!(
        WorkspacePathError::Absolute.message(),
        "absolute paths are not allowed"
    );
    assert_eq!(WorkspacePathError::Escapes.message(), "path escapes workspace");
}

#[test]
fn dots_inside_names_are_not_parent_components() {
    assert_eq!(check_workspace_path("a/..b/c"), Ok(()));
    assert_eq!(check_workspace_path("notes..txt"), Ok(()));
    assert_eq!(check_workspace_path("./a"), Ok(()));
    assert_eq!(check_workspace_path("a/.."), Err(WorkspacePathError::Escapes));
}

#[test]
fn tool_names_and_aliases_parse() {
    assert_eq!(
        ToolCall::from_json(r#"{"tool":"run_command","command":"ls"}"#),
        Ok(ToolCall::Bash { command: "ls".to_string() })
    );
    assert_eq!(
        ToolCall::from_json(r#"{"tool":"write_file","path":"a","content":"b"}"#),
        Ok(ToolCall::Write { path: "a".to_string(), content: "b".to_string() })
    );
    assert_eq!(
        ToolCall::from_json(r#"{"tool":"edit","path":"a","old":"x","new":"y"}"#),
        Ok(ToolCall::Edit { path: "a".to_string(), old: "x".to_string(), new: "y".to_string() })
    );
    assert_eq!(
        ToolCall::from_json(r#"{"tool":"list_files","path":"."}"#),
        Ok(ToolCall::List { path: ".".to_string() })
    );
    assert_eq!(
        ToolCall::from_json(r#"{"tool":"grep","query":"x"}"#),
        Ok(ToolCall::Search { query: "x".to_string(), path: None })
    );
    assert_eq!(
        ToolCall::from_json(r#"{"tool":"apply_patch","patch":"p"}"#),
        Ok(ToolCall::Patch { patch: "p".to_string() })
    );
}

#[test]
fn tool_call_errors() {
    assert_eq!(ToolCall::from_json("not json"), Err(ToolCallError::NotJson));
    assert_eq!(
        ToolCall::from_json(r#"{"tool":"read"}"#),
        Err(ToolCallError::MissingField("path".to_string()))
    );
    assert_eq!(
        ToolCall::from_json("[1, 2]"),
        Err(ToolCallError::MissingField("tool".to_string()))
    );
    assert_eq!(
        ToolCall::from_json(r#"{"tool":"fly"}"#),
        Err(ToolCallError::UnknownTool("fly".to_string()))
    );
    assert_eq!(
        ToolCall::from_json(r#"{"tool":"bash","command":7}"#),
        Err(ToolCallError::MissingField("command".to_string()))
    );
    assert_eq!(ToolCallError::NotJson.message(), "tool call is not valid JSON");
    assert_eq!(
        ToolCallError::MissingField("path".to_string()).message(),
        "path field is required"
    );
    assert_eq!(
        ToolCallError::UnknownTool("fly".to_string()).message(),
        "unknown tool `fly`"
    );
}

#[test]
fn tool_call_from_object_fields() {
    let fields = vec![
        ("path".to_string(), Some("src".to_string())),
        ("tool".to_string(), Some("read".to_string())),
    ];
    assert_eq!(
        ToolCall::from_fields(&fields),
        Ok(ToolCall::Read { path: "src".to_string() })
    );
    let fields = vec![("tool".to_string(), None)];
    assert_eq!(
        ToolCall::from_fields(&fields),
        Err(ToolCallError::MissingField("tool".to_string()))
    );
}

#[test]
fn extract_takes_the_first_block_that_parses() {
    let text = "```json\n{\"tool\":\"fly\"}\n```\ntext\n```json\n{\"tool\":\"bash\",\"command\":\"ls\"}\n```";
    assert_eq!(
        extract_tool_call(text).unwrap(),
        Some(ToolCall::Bash { command: "ls".to_string() })
    );
    assert_eq!(
        extract_tool_call("  {\"tool\":\"list\",\"path\":\"src\"}  ").unwrap(),
        Some(ToolCall::List { path: "src".to_string() })
    );
    assert_eq!(extract_tool_call("just words").unwrap(), None);
}

#[test]
fn fenced_blocks_are_collected_and_trimmed() {
    let text = "a\n  ```json\n  {\"x\": 1}\n\n```\nb\n```json\nunclosed";
    assert_eq!(fenced_json_blocks(text), vec!["{\"x\": 1}".to_string()]);
    assert!(fenced_json_blocks("no fences").is_empty());
}

#[test]
fn patch_lines_join_with_a_final_newline_when_asked() {
    assert_eq!(join_patch_lines(&strings(&["a", "b"]), true), "a\nb\n");
    assert_eq!(join_patch_lines(&strings(&["a", "b"]), false), "a\nb");
    assert_eq!(join_patch_lines(&Vec::new(), true), "");
}

#[test]
fn add_file_patch_plans_the_new_content() {
    let plan = plan_patch("*** Begin Patch\n*** Add File: hello.txt\n+hello\n*** End Patch");
    assert_eq!(plan.error, None);
    assert_eq!(
        plan.ops,
        vec![PatchOp::Add { path: "hello.txt".to_string(), content: "hello\n".to_string() }]
    );
    assert_eq!(patch_report(&plan.ops), "added hello.txt");
}

#[test]
fn update_patch_plans_the_hunk() {
    let plan = plan_patch(
        "*** Begin Patch\n*** Update File: hello.txt\n@@\n hello\n-world\n+ollo\n*** End Patch",
    );
    assert_eq!(plan.error, None);
    assert_eq!(
        plan.ops,
        vec![PatchOp::Update {
            path: "hello.txt".to_string(),
            old: strings(&["hello", "world"]),
            new: strings(&["hello", "ollo"]),
        }]
    );
    assert_eq!(
        update_outcome("hello.txt", "hello\nworld\n", &strings(&["hello", "world"]), &strings(&["hello", "ollo"])),
        Ok("hello\nollo\n".to_string())
    );
    assert_eq!(
        update_outcome("hello.txt", "other\n", &strings(&["hello"]), &strings(&["x"])),
        Err("update hunk did not match hello.txt".to_string())
    );
}

#[test]
fn patch_errors() {
    assert_eq!(plan_patch("just text").error, Some(PatchError::NotPatchFormat));
    assert_eq!(
        plan_patch("*** Begin Patch\n*** End Patch").error,
        Some(PatchError::NoOperations)
    );
    let plan = plan_patch("*** Begin Patch\n*** Add File: a\nno plus\n*** End Patch");
    assert_eq!(plan.error, Some(PatchError::AddLineWithoutPlus));
    let plan = plan_patch(
        "*** Begin Patch\n*** Delete File: old.txt\n*** Update File: b\n?bad\n*** End Patch",
    );
    assert_eq!(plan.ops, vec![PatchOp::Delete { path: "old.txt".to_string() }]);
    assert_eq!(plan.error, Some(PatchError::BadUpdateLine));
    assert_eq!(PatchError::NotPatchFormat.message(), "patch must use apply_patch format");
    assert_eq!(
        PatchError::NoOperations.message(),
        "patch did not contain any supported file operations"
    );
}

#[test]
fn patch_report_lists_each_operation() {
    let ops = vec![
        PatchOp::Add { path: "a".to_string(), content: String::new() },
        PatchOp::Delete { path: "b".to_string() },
        PatchOp::Update { path: "c".to_string(), old: Vec::new(), new: Vec::new() },
    ];
    assert_eq!(patch_report(&ops), "added a\ndeleted b\nupdated c");
}

#[test]
fn replace_once_changes_the_first_occurrence() {
    assert_eq!(replace_once("hello world world", "world", "ollo"), Some("hello ollo world".to_string()));
    assert_eq!(replace_once("hello", "x", "y"), None);
}

#[test]
fn edit_target_refuses_empty_old_text_first() {
    let runner = runner();
    assert_eq!(runner.edit_target("/abs", ""), Err(EditError::EmptyOld));
    assert_eq!(
        runner.edit_target("/abs", "x"),
        Err(EditError::Path(WorkspacePathError::Absolute))
    );
    assert_eq!(runner.edit_target("f.txt", "x").unwrap(), "/tmp/ollo-workspace/f.txt");
    assert_eq!(EditError::EmptyOld.message("f"), "old text cannot be empty");
    assert_eq!(EditError::NotFound.message("f.txt"), "old text was not found in f.txt");
}

#[test]
fn search_needs_a_query_and_a_workspace_path() {
    let runner = runner();
    assert_eq!(runner.search_target("  ", None), Err(SearchError::EmptyQuery));
    assert_eq!(
        runner.search_target("x", Some("../up")),
        Err(SearchError::Path(WorkspacePathError::Escapes))
    );
    assert_eq!(
        runner.search_target("x", None).unwrap(),
        "/tmp/ollo-workspace/."
    );
}

#[test]
fn search_outcomes() {
    assert_eq!(search_outcome(Some(1), false, b"", b""), Ok("no matches".to_string()));
    assert_eq!(
        search_outcome(Some(2), false, b"out", b"err"),
        Err("search failed\nouterr".to_string())
    );
    assert_eq!(search_outcome(Some(0), true, b"a:1:x\n", b""), Ok("a:1:x\n".to_string()));
    assert_eq!(
        search_outcome(Some(0), true, b"bad \xff byte", b""),
        Ok("bad \u{fffd} byte".to_string())
    );
}

#[test]
fn command_outcomes() {
    assert_eq!(
        command_outcome("exit status: 0", true, b"ok", b""),
        Ok("status: exit status: 0\nok".to_string())
    );
    assert_eq!(
        command_outcome("exit status: 1", false, b"", b"boom"),
        Err("status: exit status: 1\nboom".to_string())
    );
}

#[test]
fn listing_is_sorted_with_directories_marked() {
    let entries = vec![
        ("zeta.txt".to_string(), false),
        ("src".to_string(), true),
        ("Cargo.toml".to_string(), false),
        ("alpha".to_string(), false),
    ];
    assert_eq!(directory_listing(&entries), "Cargo.toml\nalpha\nsrc/\nzeta.txt");
    assert_eq!(directory_listing(&Vec::new()), "");
}

#[test]
fn tool_results_and_command_text() {
    let ok = ToolResult::from_outcome(Ok("done".to_string()));
    assert_eq!(ok, ToolResult { ok: true, output: "done".to_string() });
    let err = ToolResult::from_outcome(Err("bad".to_string()));
    assert!(!err.ok);
    assert_eq!(command_result_text(&ok), "ok\ndone");
    assert_eq!(command_result_text(&err), "error\nbad");
}

#[test]
fn patch_result_reports_failures_then_plan_errors_then_operations() {
    let plan = plan_patch("*** Begin Patch\n*** Add File: a.txt\n+x\n*** Delete File: b.txt\n*** End Patch");
    assert_eq!(patch_result(&plan, None), Ok("added a.txt\ndeleted b.txt".to_string()));
    assert_eq!(
        patch_result(&plan, Some("failed to delete b.txt".to_string())),
        Err("failed to delete b.txt".to_string())
    );
    let bad = plan_patch("*** Begin Patch\n*** Add File: a\nno plus\n*** End Patch");
    assert_eq!(
        patch_result(&bad, None),
        Err("add file lines must start with +".to_string())
    );
}
