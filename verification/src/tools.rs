//! Model-callable tools: requests, workspace path checks, and the pure parts
//! of running them (tool-call extraction, patches, edits, listings).
use vstd::prelude::*;

use crate::text::{
    chars_eq, chars_of, chars_starts_with, copy_range, join, join_strings, line_bounds, lines,
    push_char, starts_with, str_eq, string_from_chars, strings_view, trim, trim_bounds, trim_str,
    decode_utf8_lossy, utf8_lossy,
};
verus! {

/// Runs tools from a workspace root, held as the text of its path.
#[derive(Debug, Clone)]
pub struct ToolRunner {
    root: String,
}

/// A tool request, as the model writes it in fenced JSON.
#[derive(Debug, Clone, PartialEq, Eq)]
pub enum ToolCall {
    Bash { command: String },
    Read { path: String },
    Write { path: String, content: String },
    Edit { path: String, old: String, new: String },
    List { path: String },
    Search { query: String, path: Option<String> },
    Patch { patch: String },
}

/// The mathematical value of a [`ToolCall`].
pub enum ToolCallModel {
    Bash { command: Seq<char> },
    Read { path: Seq<char> },
    Write { path: Seq<char>, content: Seq<char> },
    Edit { path: Seq<char>, old: Seq<char>, new: Seq<char> },
    List { path: Seq<char> },
    Search { query: Seq<char>, path: Option<Seq<char>> },
    Patch { patch: Seq<char> },
}

impl View for ToolCall {
    type V = ToolCallModel;

    open spec fn view(&self) -> ToolCallModel {
        match self {
            ToolCall::Bash { command } => ToolCallModel::Bash { command: command@ },
            ToolCall::Read { path } => ToolCallModel::Read { path: path@ },
            ToolCall::Write { path, content } => ToolCallModel::Write {
                path: path@,
                content: content@,
            },
            ToolCall::Edit { path, old, new } => ToolCallModel::Edit {
                path: path@,
                old: old@,
                new: new@,
            },
            ToolCall::List { path } => ToolCallModel::List { path: path@ },
            ToolCall::Search { query, path } => ToolCallModel::Search {
                query: query@,
                path: match path {
                    Some(p) => Some(p@),
                    None => None,
                },
            },
            ToolCall::Patch { patch } => ToolCallModel::Patch { patch: patch@ },
        }
    }
}

/// What a tool run reports back.
#[derive(Debug, Clone, PartialEq, Eq)]
pub struct ToolResult {
    pub ok: bool,
    pub output: String,
}

/// Why a path was refused as a workspace path.
#[derive(Debug, Clone, Copy, PartialEq, Eq)]
pub enum WorkspacePathError {
    /// The path is absolute.
    Absolute,
    /// The path has a `..` component.
    Escapes,
}

impl WorkspacePathError {
    /// The message shown for the error.
    pub fn message(&self) -> (r: String)
        ensures
            r@ == (match self {
                WorkspacePathError::Absolute => "absolute paths are not allowed"@,
                WorkspacePathError::Escapes => "path escapes workspace"@,
            }),
    {
        match self {
            WorkspacePathError::Absolute => "absolute paths are not allowed".to_string(),
            WorkspacePathError::Escapes => "path escapes workspace".to_string(),
        }
    }
}

// ---------------------------------------------------------------------------
// Workspace paths
// ---------------------------------------------------------------------------
/// The path is absolute: on Unix, it begins with `/`.
pub open spec fn path_is_absolute(p: Seq<char>) -> bool {
    p.len() > 0 && p[0] == '/'
}

/// `p` has a `..` component: a `..` between separators or the ends.
pub open spec fn has_parent_component(p: Seq<char>) -> bool {
    exists|i: int|
        0 <= i && i + 2 <= p.len() && #[trigger] p[i] == '.' && p[i + 1] == '.' && (i == 0 || p[i
            - 1] == '/') && (i + 2 == p.len() || p[i + 2] == '/')
}

/// What `workspace_path` decides for `p`: `Ok` for a path that stays inside the root.
pub open spec fn workspace_check(p: Seq<char>) -> Result<(), WorkspacePathError> {
    if path_is_absolute(p) {
        Err(WorkspacePathError::Absolute)
    } else if has_parent_component(p) {
        Err(WorkspacePathError::Escapes)
    } else {
        Ok(())
    }
}

/// Decides whether `path` stays inside the workspace.
pub fn check_workspace_path(path: &str) -> (r: Result<(), WorkspacePathError>)
    ensures
        r == workspace_check(path@),
{
    let p = chars_of(path);
    let n = p.len();
    if n > 0 && p[0] == '/' {
        return Err(WorkspacePathError::Absolute);
    }
    let mut i: usize = 0;
    while n >= 2 && i <= n - 2
        invariant
            i <= n,
            n == p@.len(),
            p@ == path@,
            !path_is_absolute(path@),
            forall|j: int|
                0 <= j < i ==> !(j + 2 <= p@.len() && #[trigger] p@[j] == '.' && p@[j + 1] == '.'
                    && (j == 0 || p@[j - 1] == '/') && (j + 2 == p@.len() || p@[j + 2] == '/')),
        decreases n - i,
    {
        if p[i] == '.' && p[i + 1] == '.' && (i == 0 || p[i - 1] == '/') && (i + 2 == n || p[i
            + 2] == '/') {
            assert(p@[i as int] == '.');
            assert(has_parent_component(path@));
            return Err(WorkspacePathError::Escapes);
        }
        i = i + 1;
    }
    Ok(())
}

/// The text of `root` joined with the relative path `rel`, as `Path::join`
/// writes it on Unix: one `/` between them unless the root is empty or
/// already ends with one.
pub open spec fn join_text(root: Seq<char>, rel: Seq<char>) -> Seq<char> {
    if root.len() > 0 && root.last() != '/' {
        root + seq!['/'] + rel
    } else {
        root + rel
    }
}

/// The text of `root` joined with `rel`.
pub fn join_path_text(root: &str, rel: &str) -> (r: String)
    ensures
        r@ == join_text(root@, rel@),
{
    let v = chars_of(root);
    let n = v.len();
    if n > 0 && v[n - 1] != '/' {
        let r = crate::text::concat3(root, "/", rel);
        proof {
            reveal_strlit("/");
        }
        r
    } else {
        crate::text::concat2(root, rel)
    }
}

impl ToolRunner {
    /// The text of the root this runner works in.
    pub closed spec fn root_text(&self) -> Seq<char> {
        self.root@
    }

    /// A runner for the workspace whose path is `root`.
    pub fn new(root: String) -> (r: Self)
        ensures
            r.root_text() == root@,
    {
        Self { root }
    }

    /// The workspace root.
    pub fn root(&self) -> (r: &str)
        ensures
            r@ == self.root_text(),
    {
        self.root.as_str()
    }

    /// The root path joined with `path`, when `path` stays inside the
    /// workspace: relative, and without a `..` component. The path returned
    /// begins with the root.
    pub fn workspace_path(&self, path: &str) -> (r: Result<String, WorkspacePathError>)
        ensures
            r is Ok <==> workspace_check(path@) is Ok,
            r matches Err(e) ==> workspace_check(path@) == Err::<(), WorkspacePathError>(e),
            r matches Ok(p) ==> p@ == join_text(self.root_text(), path@),
            r matches Ok(p) ==> starts_with(p@, self.root_text()),
    {
        match check_workspace_path(path) {
            Ok(()) => {
                let p = join_path_text(self.root.as_str(), path);
                proof {
                    let rt = self.root@;
                    if rt.len() > 0 && rt.last() != '/' {
                        assert(p@.take(rt.len() as int) =~= rt);
                    } else {
                        assert(p@.take(rt.len() as int) =~= rt);
                    }
                }
                Ok(p)
            },
            Err(e) => Err(e),
        }
    }
}

// ---------------------------------------------------------------------------
// Patch lines
// ---------------------------------------------------------------------------
/// `lines` joined by newlines, with one more newline when `trailing_newline`
/// holds and the text is not empty.
pub open spec fn joined_patch_text(lines: Seq<Seq<char>>, trailing_newline: bool) -> Seq<char> {
    let text = join(lines, seq!['\n']);
    if trailing_newline && text.len() > 0 {
        text.push('\n')
    } else {
        text
    }
}

/// Joins hunk lines into the text they stand for.
pub fn join_patch_lines(lines: &Vec<String>, trailing_newline: bool) -> (r: String)
    ensures
        r@ == joined_patch_text(lines@.map_values(|l: String| l@), trailing_newline),
{
    let mut text = join_strings(lines, "\n");
    proof {
        reveal_strlit("\n");
    }
    assert("\n"@ =~= seq!['\n']);
    if trailing_newline && text.as_str().is_empty() == false {
        push_char(&mut text, '\n');
    }
    text
}

// ---------------------------------------------------------------------------
// Fenced JSON blocks
// ---------------------------------------------------------------------------
/// Scanner state over lines: blocks found, inside a block, text of the open block.
pub type FenceState = (Seq<Seq<char>>, bool, Seq<char>);

/// One line of the scan for fenced JSON blocks.
pub open spec fn fence_step(st: FenceState, line: Seq<char>) -> FenceState {
    let t = trim(line);
    if !st.1 && starts_with(t, "```json"@) {
        (st.0, true, Seq::empty())
    } else if st.1 && t == "```"@ {
        (st.0.push(trim(st.2)), false, Seq::empty())
    } else if st.1 {
        (st.0, true, st.2 + line + seq!['\n'])
    } else {
        st
    }
}

/// The scan state after the lines `ls`.
pub open spec fn fence_scan(ls: Seq<Seq<char>>) -> FenceState
    decreases ls.len(),
{
    if ls.len() == 0 {
        (Seq::empty(), false, Seq::empty())
    } else {
        fence_step(fence_scan(ls.drop_last()), ls.last())
    }
}

/// The trimmed contents of the closed fenced blocks that open with a line
/// starting ```` ```json ```` and close with a line that is exactly ```` ``` ````.
pub open spec fn fenced_blocks(text: Seq<char>) -> Seq<Seq<char>> {
    fence_scan(lines(text)).0
}

/// The fenced JSON blocks of `text`, in order.
pub fn fenced_json_blocks(text: &str) -> (r: Vec<String>)
    ensures
        r@.map_values(|b: String| b@) == fenced_blocks(text@),
{
    let v = chars_of(text);
    let lb = line_bounds(v.as_slice());
    let open = chars_of("```json");
    let close = chars_of("```");
    let mut blocks: Vec<String> = Vec::new();
    let mut in_block = false;
    let mut current: Vec<char> = Vec::new();
    let mut k: usize = 0;
    let ghost ls = lines(v@);
    assert(ls.take(0) =~= Seq::<Seq<char>>::empty());
    while k < lb.len()
        invariant
            k <= lb@.len(),
            v@ == text@,
            ls == lines(v@),
            open@ == "```json"@,
            close@ == "```"@,
            lb@.len() == ls.len(),
            forall|q: int| 0 <= q < lb@.len() ==> #[trigger] lb@[q].0 <= lb@[q].1 <= v@.len(),
            forall|q: int|
                0 <= q < lb@.len() ==> v@.subrange(#[trigger] lb@[q].0 as int, lb@[q].1 as int)
                    == ls[q],
            fence_scan(ls.take(k as int)) == (
                blocks@.map_values(|b: String| b@),
                in_block,
                current@,
            ),
        decreases lb.len() - k,
    {
        let (a, b) = lb[k];
        assert(a == lb@[k as int].0 && b == lb@[k as int].1);
        let line = copy_range(v.as_slice(), a, b);
        assert(line@ == ls[k as int]);
        let (x, y) = trim_bounds(line.as_slice());
        let t = copy_range(line.as_slice(), x, y);
        assert(ls.take(k + 1).drop_last() =~= ls.take(k as int));
        assert(ls.take(k + 1).last() == line@);
        let ghost before = (blocks@.map_values(|b: String| b@), in_block, current@);
        if !in_block && chars_starts_with(t.as_slice(), open.as_slice()) {
            in_block = true;
            current = Vec::new();
            assert(current@ =~= Seq::<char>::empty());
        } else if in_block && chars_eq(t.as_slice(), close.as_slice()) {
            in_block = false;
            let (c0, c1) = trim_bounds(current.as_slice());
            let block = crate::text::string_from_range(current.as_slice(), c0, c1);
            let ghost old_blocks = blocks@;
            blocks.push(block);
            assert(blocks@.map_values(|b: String| b@) =~= old_blocks.map_values(|b: String| b@).push(
                block@,
            ));
            current = Vec::new();
            assert(current@ =~= Seq::<char>::empty());
        } else if in_block {
            crate::text::append_chars(&mut current, line.as_slice());
            current.push('\n');
            assert(current@ =~= before.2 + line@ + seq!['\n']);
        }
        assert(fence_scan(ls.take(k + 1)) == fence_step(before, line@));
        k = k + 1;
    }
    assert(ls.take(k as int) =~= ls);
    blocks
}

// ---------------------------------------------------------------------------
// Tool calls from JSON
// ---------------------------------------------------------------------------
/// What `serde_json` makes of `text`: `None` when it is not JSON,
/// `Some(None)` for JSON that is not an object, and for an object its
/// entries, each with the string it holds or `None` for a value that is
/// not a string.
pub uninterp spec fn json_object_fields(text: Seq<char>) -> Option<
    Option<Seq<(Seq<char>, Option<Seq<char>>)>>,
>;

/// Parses `text` with `serde_json::from_str` into a `serde_json::Value` and
/// keeps, of an object, each key with its value when that value is a string.
/// The contract names the result `json_object_fields(text)` and claims no
/// more of it.
#[verifier::external_body]
fn parse_json_object(text: &str) -> (r: Option<Option<Vec<(String, Option<String>)>>>)
    ensures
        r.deep_view() == json_object_fields(text@),
{
    match serde_json::from_str::<serde_json::Value>(text) {
        Err(_) => None,
        Ok(serde_json::Value::Object(map)) => Some(
            Some(
                map.into_iter().map(
                    |(key, value)|
                        match value {
                            serde_json::Value::String(s) => (key, Some(s)),
                            _ => (key, None),
                        },
                ).collect(),
            ),
        ),
        Ok(_) => Some(None),
    }
}

/// The string value of the first entry named `name` (`value.get(name).and_then(as_str)`).
pub open spec fn field_lookup(fields: Seq<(Seq<char>, Option<Seq<char>>)>, name: Seq<char>) -> Option<
    Seq<char>,
>
    decreases fields.len(),
{
    if fields.len() == 0 {
        None
    } else if fields[0].0 == name {
        fields[0].1
    } else {
        field_lookup(fields.drop_first(), name)
    }
}

fn get_field(fields: &Vec<(String, Option<String>)>, name: &str) -> (r: Option<String>)
    ensures
        r.deep_view() == field_lookup(fields.deep_view(), name@),
{
    let ghost f = fields.deep_view();
    let mut i: usize = 0;
    assert(f.skip(0) =~= f);
    while i < fields.len()
        invariant
            i <= fields@.len(),
            f == fields.deep_view(),
            field_lookup(f, name@) == field_lookup(f.skip(i as int), name@),
        decreases fields.len() - i,
    {
        assert(f[i as int] == fields@[i as int].deep_view());
        assert(f.skip(i as int)[0] == f[i as int]);
        if str_eq(fields[i].0.as_str(), name) {
            return match &fields[i].1 {
                Some(s) => Some(s.clone()),
                None => None,
            };
        }
        assert(f.skip(i as int).drop_first() =~= f.skip(i + 1));
        i = i + 1;
    }
    None
}

/// Why text is not a tool call.
#[derive(Debug, Clone, PartialEq, Eq)]
pub enum ToolCallError {
    /// The text is not JSON.
    NotJson,
    /// A required string field is missing (the `tool` field included).
    MissingField(String),
    /// The `tool` field names no known tool.
    UnknownTool(String),
}

/// The mathematical value of a [`ToolCallError`].
pub enum ToolCallErrorModel {
    NotJson,
    MissingField(Seq<char>),
    UnknownTool(Seq<char>),
}

impl View for ToolCallError {
    type V = ToolCallErrorModel;

    open spec fn view(&self) -> ToolCallErrorModel {
        match self {
            ToolCallError::NotJson => ToolCallErrorModel::NotJson,
            ToolCallError::MissingField(n) => ToolCallErrorModel::MissingField(n@),
            ToolCallError::UnknownTool(t) => ToolCallErrorModel::UnknownTool(t@),
        }
    }
}

impl ToolCallError {
    /// The message shown for the error.
    pub fn message(&self) -> (r: String)
        ensures
            r@ == (match self@ {
                ToolCallErrorModel::NotJson => "tool call is not valid JSON"@,
                ToolCallErrorModel::MissingField(n) => n + " field is required"@,
                ToolCallErrorModel::UnknownTool(t) => "unknown tool `"@ + t + "`"@,
            }),
    {
        match self {
            ToolCallError::NotJson => "tool call is not valid JSON".to_string(),
            ToolCallError::MissingField(n) => crate::text::concat2(n.as_str(), " field is required"),
            ToolCallError::UnknownTool(t) => crate::text::concat3("unknown tool `", t.as_str(), "`"),
        }
    }
}

/// A required string field, or the error naming it.
pub open spec fn required(fields: Seq<(Seq<char>, Option<Seq<char>>)>, name: Seq<char>) -> Result<
    Seq<char>,
    ToolCallErrorModel,
> {
    match field_lookup(fields, name) {
        Some(v) => Ok(v),
        None => Err(ToolCallErrorModel::MissingField(name)),
    }
}

/// The tool call that the entries of a JSON object describe.
pub open spec fn tool_call_from_fields(f: Seq<(Seq<char>, Option<Seq<char>>)>) -> Result<
    ToolCallModel,
    ToolCallErrorModel,
> {
    match field_lookup(f, "tool"@) {
        None => Err(ToolCallErrorModel::MissingField("tool"@)),
        Some(tool) => if tool == "bash"@ || tool == "run_command"@ {
            match required(f, "command"@) {
                Ok(command) => Ok(ToolCallModel::Bash { command }),
                Err(e) => Err(e),
            }
        } else if tool == "read"@ || tool == "read_file"@ {
            match required(f, "path"@) {
                Ok(path) => Ok(ToolCallModel::Read { path }),
                Err(e) => Err(e),
            }
        } else if tool == "write"@ || tool == "write_file"@ {
            match required(f, "path"@) {
                Ok(path) => match required(f, "content"@) {
                    Ok(content) => Ok(ToolCallModel::Write { path, content }),
                    Err(e) => Err(e),
                },
                Err(e) => Err(e),
            }
        } else if tool == "edit"@ {
            match required(f, "path"@) {
                Ok(path) => match required(f, "old"@) {
                    Ok(old) => match required(f, "new"@) {
                        Ok(new) => Ok(ToolCallModel::Edit { path, old, new }),
                        Err(e) => Err(e),
                    },
                    Err(e) => Err(e),
                },
                Err(e) => Err(e),
            }
        } else if tool == "list"@ || tool == "list_files"@ {
            match required(f, "path"@) {
                Ok(path) => Ok(ToolCallModel::List { path }),
                Err(e) => Err(e),
            }
        } else if tool == "search"@ || tool == "grep"@ {
            match required(f, "query"@) {
                Ok(query) => Ok(ToolCallModel::Search { query, path: field_lookup(f, "path"@) }),
                Err(e) => Err(e),
            }
        } else if tool == "patch"@ || tool == "apply_patch"@ {
            match required(f, "patch"@) {
                Ok(patch) => Ok(ToolCallModel::Patch { patch }),
                Err(e) => Err(e),
            }
        } else {
            Err(ToolCallErrorModel::UnknownTool(tool))
        },
    }
}

/// The tool call that JSON `text` describes, as deserializing a `ToolCall` gives it.
pub open spec fn tool_call_spec(text: Seq<char>) -> Result<ToolCallModel, ToolCallErrorModel> {
    match json_object_fields(text) {
        None => Err(ToolCallErrorModel::NotJson),
        Some(None) => Err(ToolCallErrorModel::MissingField("tool"@)),
        Some(Some(f)) => tool_call_from_fields(f),
    }
}

/// The view of a parse result.
pub open spec fn tool_call_result_view(r: Result<ToolCall, ToolCallError>) -> Result<
    ToolCallModel,
    ToolCallErrorModel,
> {
    match r {
        Ok(c) => Ok(c@),
        Err(e) => Err(e@),
    }
}

fn require_field(fields: &Vec<(String, Option<String>)>, name: &str) -> (r: Result<
    String,
    ToolCallError,
>)
    ensures
        match r {
            Ok(v) => required(fields.deep_view(), name@) == Ok::<Seq<char>, ToolCallErrorModel>(v@),
            Err(e) => required(fields.deep_view(), name@) == Err::<Seq<char>, ToolCallErrorModel>(
                e@,
            ),
        },
{
    match get_field(fields, name) {
        Some(v) => Ok(v),
        None => Err(ToolCallError::MissingField(name.to_string())),
    }
}

impl ToolCall {
    /// The tool call that the entries of a JSON object describe.
    pub fn from_fields(fields: &Vec<(String, Option<String>)>) -> (r: Result<ToolCall, ToolCallError>)
        ensures
            tool_call_result_view(r) == tool_call_from_fields(fields.deep_view()),
    {
        let tool = match get_field(fields, "tool") {
            Some(t) => t,
            None => {
                return Err(ToolCallError::MissingField("tool".to_string()));
            },
        };
        let t = tool.as_str();
        if str_eq(t, "bash") || str_eq(t, "run_command") {
            let command = require_field(fields, "command")?;
            Ok(ToolCall::Bash { command })
        } else if str_eq(t, "read") || str_eq(t, "read_file") {
            let path = require_field(fields, "path")?;
            Ok(ToolCall::Read { path })
        } else if str_eq(t, "write") || str_eq(t, "write_file") {
            let path = require_field(fields, "path")?;
            let content = require_field(fields, "content")?;
            Ok(ToolCall::Write { path, content })
        } else if str_eq(t, "edit") {
            let path = require_field(fields, "path")?;
            let old = require_field(fields, "old")?;
            let new = require_field(fields, "new")?;
            Ok(ToolCall::Edit { path, old, new })
        } else if str_eq(t, "list") || str_eq(t, "list_files") {
            let path = require_field(fields, "path")?;
            Ok(ToolCall::List { path })
        } else if str_eq(t, "search") || str_eq(t, "grep") {
            let path = get_field(fields, "path");
            let query = require_field(fields, "query")?;
            Ok(ToolCall::Search { query, path })
        } else if str_eq(t, "patch") || str_eq(t, "apply_patch") {
            let patch = require_field(fields, "patch")?;
            Ok(ToolCall::Patch { patch })
        } else {
            Err(ToolCallError::UnknownTool(tool))
        }
    }

    /// Parses JSON `text` into a tool call, as deserializing a `ToolCall`
    /// with `serde_json` does.
    pub fn from_json(text: &str) -> (r: Result<ToolCall, ToolCallError>)
        ensures
            tool_call_result_view(r) == tool_call_spec(text@),
    {
        match parse_json_object(text) {
            None => Err(ToolCallError::NotJson),
            Some(None) => Err(ToolCallError::MissingField("tool".to_string())),
            Some(Some(fields)) => ToolCall::from_fields(&fields),
        }
    }
}

/// The first block that parses as a tool call.
pub open spec fn first_tool_call(blocks: Seq<Seq<char>>) -> Option<ToolCallModel>
    decreases blocks.len(),
{
    if blocks.len() == 0 {
        None
    } else {
        match tool_call_spec(blocks[0]) {
            Ok(c) => Some(c),
            Err(_) => first_tool_call(blocks.drop_first()),
        }
    }
}

/// The tool call that a model's reply asks for: the first fenced JSON block
/// that is a tool call, else the whole trimmed reply when it is one.
pub open spec fn requested_tool_call(text: Seq<char>) -> Option<ToolCallModel> {
    match first_tool_call(fenced_blocks(text)) {
        Some(c) => Some(c),
        None => match tool_call_spec(trim(text)) {
            Ok(c) => Some(c),
            Err(_) => None,
        },
    }
}

/// The view of an optional tool call.
pub open spec fn opt_tool_call_view(c: Option<ToolCall>) -> Option<ToolCallModel> {
    match c {
        Some(c) => Some(c@),
        None => None,
    }
}

/// The tool call that a model's reply asks for, if any. It never fails.
pub fn extract_tool_call(text: &str) -> (r: Result<Option<ToolCall>, ToolCallError>)
    ensures
        r matches Ok(c) && opt_tool_call_view(c) == requested_tool_call(text@),
{
    let blocks = fenced_json_blocks(text);
    let ghost bs = blocks@.map_values(|b: String| b@);
    let mut i: usize = 0;
    assert(bs.skip(0) =~= bs);
    while i < blocks.len()
        invariant
            i <= blocks@.len(),
            bs == blocks@.map_values(|b: String| b@),
            bs == fenced_blocks(text@),
            first_tool_call(bs) == first_tool_call(bs.skip(i as int)),
        decreases blocks.len() - i,
    {
        assert(bs.skip(i as int)[0] == blocks@[i as int]@);
        match ToolCall::from_json(blocks[i].as_str()) {
            Ok(call) => {
                return Ok(Some(call));
            },
            Err(_) => {},
        }
        assert(bs.skip(i as int).drop_first() =~= bs.skip(i + 1));
        i = i + 1;
    }
    let trimmed = trim_str(text);
    match ToolCall::from_json(trimmed.as_str()) {
        Ok(call) => Ok(Some(call)),
        Err(_) => Ok(None),
    }
}

// ---------------------------------------------------------------------------
// apply_patch-style patches
// ---------------------------------------------------------------------------
/// One file operation of a patch.
#[derive(Debug, Clone, PartialEq, Eq)]
pub enum PatchOp {
    /// Write a new file with `content`.
    Add { path: String, content: String },
    /// Remove a file.
    Delete { path: String },
    /// Replace the text of the `old` lines by that of the `new` lines.
    Update { path: String, old: Vec<String>, new: Vec<String> },
}

/// The mathematical value of a [`PatchOp`].
pub enum PatchOpModel {
    Add { path: Seq<char>, content: Seq<char> },
    Delete { path: Seq<char> },
    Update { path: Seq<char>, old: Seq<Seq<char>>, new: Seq<Seq<char>> },
}

impl View for PatchOp {
    type V = PatchOpModel;

    open spec fn view(&self) -> PatchOpModel {
        match self {
            PatchOp::Add { path, content } => PatchOpModel::Add { path: path@, content: content@ },
            PatchOp::Delete { path } => PatchOpModel::Delete { path: path@ },
            PatchOp::Update { path, old, new } => PatchOpModel::Update {
                path: path@,
                old: old.deep_view(),
                new: new.deep_view(),
            },
        }
    }
}

/// Why a patch stops.
#[derive(Debug, Clone, Copy, PartialEq, Eq)]
pub enum PatchError {
    /// The text lacks `*** Begin Patch` or `*** End Patch`.
    NotPatchFormat,
    /// A line of an added file does not start with `+`.
    AddLineWithoutPlus,
    /// A line of an update hunk starts with none of space, `-`, `+`, `@@`.
    BadUpdateLine,
    /// The patch holds no file operation.
    NoOperations,
}

/// The message shown for a patch error.
pub open spec fn patch_error_text(e: PatchError) -> Seq<char> {
    match e {
        PatchError::NotPatchFormat => "patch must use apply_patch format"@,
        PatchError::AddLineWithoutPlus => "add file lines must start with +"@,
        PatchError::BadUpdateLine => "update lines must start with space, -, +, or @@"@,
        PatchError::NoOperations => "patch did not contain any supported file operations"@,
    }
}

impl PatchError {
    /// The message shown for the error.
    pub fn message(&self) -> (r: String)
        ensures
            r@ == patch_error_text(*self),
    {
        match self {
            PatchError::NotPatchFormat => "patch must use apply_patch format".to_string(),
            PatchError::AddLineWithoutPlus => "add file lines must start with +".to_string(),
            PatchError::BadUpdateLine => "update lines must start with space, -, +, or @@".to_string(),
            PatchError::NoOperations => "patch did not contain any supported file operations".to_string(),
        }
    }
}

/// Number of leading lines of `ls` that do not start with `*** `.
pub open spec fn body_len(ls: Seq<Seq<char>>) -> nat
    decreases ls.len(),
{
    if ls.len() == 0 || starts_with(ls[0], "*** "@) {
        0
    } else {
        1 + body_len(ls.drop_first())
    }
}

/// A body is never longer than the lines it starts.
pub proof fn lemma_body_len(ls: Seq<Seq<char>>)
    ensures
        body_len(ls) <= ls.len(),
    decreases ls.len(),
{
    if ls.len() > 0 && !starts_with(ls[0], "*** "@) {
        lemma_body_len(ls.drop_first());
    }
}

/// The content of an added file: each `+` line without its `+`, plus a
/// newline; `None` when a line lacks the `+`.
pub open spec fn add_body(body: Seq<Seq<char>>) -> Option<Seq<char>>
    decreases body.len(),
{
    if body.len() == 0 {
        Some(Seq::empty())
    } else if starts_with(body[0], "+"@) {
        match add_body(body.drop_first()) {
            Some(rest) => Some(body[0].drop_first() + seq!['\n'] + rest),
            None => None,
        }
    } else {
        None
    }
}

/// The old and new lines of an update hunk; `@@` lines are skipped, and
/// `None` marks a line that starts with none of space, `-`, `+`, `@@`.
pub open spec fn update_body(body: Seq<Seq<char>>) -> Option<(Seq<Seq<char>>, Seq<Seq<char>>)>
    decreases body.len(),
{
    if body.len() == 0 {
        Some((Seq::empty(), Seq::empty()))
    } else {
        let l = body[0];
        match update_body(body.drop_first()) {
            None => None,
            Some((o, n)) => if starts_with(l, "@@"@) {
                Some((o, n))
            } else if l.len() > 0 && l[0] == ' ' {
                Some((seq![l.drop_first()] + o, seq![l.drop_first()] + n))
            } else if l.len() > 0 && l[0] == '-' {
                Some((seq![l.drop_first()] + o, n))
            } else if l.len() > 0 && l[0] == '+' {
                Some((o, seq![l.drop_first()] + n))
            } else {
                None
            },
        }
    }
}

/// The file operations of the patch lines `ls`, in order, and the error
/// that stops the reading, if any.
pub open spec fn parse_ops(ls: Seq<Seq<char>>) -> (Seq<PatchOpModel>, Option<PatchError>)
    decreases ls.len(),
{
    if ls.len() == 0 {
        (Seq::empty(), None)
    } else {
        let line = ls[0];
        let rest = ls.drop_first();
        let n = body_len(rest);
        proof {
            lemma_body_len(rest);
        }
        let body = rest.take(n as int);
        let after = rest.skip(n as int);
        if starts_with(line, "*** Add File: "@) {
            match add_body(body) {
                None => (Seq::empty(), Some(PatchError::AddLineWithoutPlus)),
                Some(c) => {
                    let next = parse_ops(after);
                    (
                        seq![PatchOpModel::Add { path: line.skip("*** Add File: "@.len() as int), content: c }]
                            + next.0,
                        next.1,
                    )
                },
            }
        } else if starts_with(line, "*** Delete File: "@) {
            let next = parse_ops(rest);
            (seq![PatchOpModel::Delete { path: line.skip("*** Delete File: "@.len() as int) }] + next.0, next.1)
        } else if starts_with(line, "*** Update File: "@) {
            match update_body(body) {
                None => (Seq::empty(), Some(PatchError::BadUpdateLine)),
                Some((o, nw)) => {
                    let next = parse_ops(after);
                    (
                        seq![
                            PatchOpModel::Update {
                                path: line.skip("*** Update File: "@.len() as int),
                                old: o,
                                new: nw,
                            },
                        ] + next.0,
                        next.1,
                    )
                },
            }
        } else {
            parse_ops(rest)
        }
    }
}

/// What a patch asks for: the operations to carry out in order, and the
/// error to report once they are done (`None` when the patch is sound).
pub open spec fn patch_plan(p: Seq<char>) -> (Seq<PatchOpModel>, Option<PatchError>) {
    if !crate::text::contains(p, "*** Begin Patch"@) || !crate::text::contains(p, "*** End Patch"@) {
        (Seq::empty(), Some(PatchError::NotPatchFormat))
    } else {
        let r = parse_ops(lines(p));
        if r.0.len() == 0 && r.1 is None {
            (r.0, Some(PatchError::NoOperations))
        } else {
            r
        }
    }
}

/// The operations of a patch and the error, if any, that follows them.
#[derive(Debug, Clone, PartialEq, Eq)]
pub struct PatchPlan {
    pub ops: Vec<PatchOp>,
    pub error: Option<PatchError>,
}

fn body_end(ls: &Vec<Vec<char>>, start: usize, marker: &Vec<char>) -> (e: usize)
    requires
        start <= ls@.len(),
        marker@ == "*** "@,
    ensures
        e == start + body_len(ls.deep_view().skip(start as int)),
        e <= ls@.len(),
{
    let ghost lv = ls.deep_view();
    let mut e: usize = start;
    proof {
        lemma_body_len(lv.skip(start as int));
    }
    while e < ls.len() && !chars_starts_with(ls[e].as_slice(), marker.as_slice())
        invariant
            start <= e <= ls@.len(),
            lv == ls.deep_view(),
            marker@ == "*** "@,
            body_len(lv.skip(start as int)) == (e - start) + body_len(lv.skip(e as int)),
        decreases ls.len() - e,
    {
        assert(lv.skip(e as int)[0] == ls@[e as int]@);
        assert(lv.skip(e as int).drop_first() =~= lv.skip(e + 1));
        e = e + 1;
    }
    assert(e < ls@.len() ==> lv.skip(e as int)[0] == ls@[e as int]@);
    e
}

fn add_content(ls: &Vec<Vec<char>>, start: usize, end: usize) -> (r: Option<String>)
    requires
        start <= end <= ls@.len(),
    ensures
        match r {
            Some(c) => add_body(ls.deep_view().subrange(start as int, end as int)) == Some(c@),
            None => add_body(ls.deep_view().subrange(start as int, end as int)) is None,
        },
{
    let ghost body = ls.deep_view().subrange(start as int, end as int);
    let plus = chars_of("+");
    let mut acc: Vec<char> = Vec::new();
    let mut i: usize = start;
    assert(body.skip(0) =~= body);
    while i < end
        invariant
            start <= i <= end <= ls@.len(),
            body == ls.deep_view().subrange(start as int, end as int),
            plus@ == "+"@,
            add_body(body) == (match add_body(body.skip(i - start)) {
                Some(r) => Some(acc@ + r),
                None => None,
            }),
        decreases end - i,
    {
        let ghost t = body.skip(i - start);
        assert(t[0] == ls@[i as int]@);
        assert(t.drop_first() =~= body.skip(i + 1 - start));
        if !chars_starts_with(ls[i].as_slice(), plus.as_slice()) {
            return None;
        }
        let line = &ls[i];
        proof {
            reveal_strlit("+");
        }
        assert(line@.len() >= 1);
        let mut k: usize = 1;
        let ghost before = acc@;
        assert(acc@ =~= before + line@.subrange(1, 1));
        while k < line.len()
            invariant
                1 <= k <= line@.len(),
                acc@ == before + line@.subrange(1, k as int),
            decreases line.len() - k,
        {
            acc.push(line[k]);
            assert(line@.subrange(1, k + 1) =~= line@.subrange(1, k as int).push(line@[k as int]));
            k = k + 1;
        }
        acc.push('\n');
        assert(line@.drop_first() =~= line@.subrange(1, line@.len() as int));
        assert(acc@ =~= before + (line@.drop_first() + seq!['\n']));
        i = i + 1;
        proof {
            match add_body(body.skip(i - start)) {
                Some(r) => {
                    assert(acc@ + r =~= before + (line@.drop_first() + seq!['\n'] + r));
                },
                None => {},
            }
        }
    }
    assert(body.skip(i - start) =~= Seq::<Seq<char>>::empty());
    Some(string_from_chars(acc.as_slice()))
}

fn tail_string(line: &Vec<char>, from: usize) -> (r: String)
    requires
        from <= line@.len(),
    ensures
        r@ == line@.skip(from as int),
{
    let r = crate::text::string_from_range(line.as_slice(), from, line.len());
    assert(line@.skip(from as int) =~= line@.subrange(from as int, line@.len() as int));
    r
}

fn update_lines(ls: &Vec<Vec<char>>, start: usize, end: usize) -> (r: Option<(Vec<String>, Vec<String>)>)
    requires
        start <= end <= ls@.len(),
    ensures
        match r {
            Some((o, n)) => update_body(ls.deep_view().subrange(start as int, end as int)) == Some(
                (o.deep_view(), n.deep_view()),
            ),
            None => update_body(ls.deep_view().subrange(start as int, end as int)) is None,
        },
{
    let ghost body = ls.deep_view().subrange(start as int, end as int);
    let at = chars_of("@@");
    let mut old: Vec<String> = Vec::new();
    let mut new: Vec<String> = Vec::new();
    let mut i: usize = start;
    assert(body.skip(0) =~= body);
    while i < end
        invariant
            start <= i <= end <= ls@.len(),
            body == ls.deep_view().subrange(start as int, end as int),
            at@ == "@@"@,
            update_body(body) == (match update_body(body.skip(i - start)) {
                Some((o, n)) => Some((old.deep_view() + o, new.deep_view() + n)),
                None => None,
            }),
        decreases end - i,
    {
        let ghost t = body.skip(i - start);
        assert(t[0] == ls@[i as int]@);
        assert(t.drop_first() =~= body.skip(i + 1 - start));
        let line = &ls[i];
        let ghost old0 = old.deep_view();
        let ghost new0 = new.deep_view();
        if chars_starts_with(line.as_slice(), at.as_slice()) {
        } else if line.len() > 0 && line[0] == ' ' {
            let a = tail_string(line, 1);
            let b = tail_string(line, 1);
            old.push(a);
            new.push(b);
            assert(old.deep_view() =~= old0.push(line@.drop_first()));
            assert(new.deep_view() =~= new0.push(line@.drop_first()));
        } else if line.len() > 0 && line[0] == '-' {
            let a = tail_string(line, 1);
            old.push(a);
            assert(old.deep_view() =~= old0.push(line@.drop_first()));
        } else if line.len() > 0 && line[0] == '+' {
            let b = tail_string(line, 1);
            new.push(b);
            assert(new.deep_view() =~= new0.push(line@.drop_first()));
        } else {
            return None;
        }
        i = i + 1;
        proof {
            match update_body(body.skip(i - start)) {
                Some((o, n)) => {
                    assert(old0 + (seq![line@.drop_first()] + o) =~= old0.push(line@.drop_first())
                        + o);
                    assert(new0 + (seq![line@.drop_first()] + n) =~= new0.push(line@.drop_first())
                        + n);
                },
                None => {},
            }
        }
    }
    assert(body.skip(i - start) =~= Seq::<Seq<char>>::empty());
    assert(old.deep_view() + Seq::<Seq<char>>::empty() =~= old.deep_view());
    assert(new.deep_view() + Seq::<Seq<char>>::empty() =~= new.deep_view());
    Some((old, new))
}

/// The lines of `text`, as char buffers.
pub fn line_vecs(text: &[char]) -> (r: Vec<Vec<char>>)
    ensures
        r.deep_view() == lines(text@),
{
    let lb = line_bounds(text);
    let mut r: Vec<Vec<char>> = Vec::new();
    let mut k: usize = 0;
    while k < lb.len()
        invariant
            k <= lb@.len(),
            lb@.len() == lines(text@).len(),
            forall|q: int| 0 <= q < lb@.len() ==> #[trigger] lb@[q].0 <= lb@[q].1 <= text@.len(),
            forall|q: int|
                0 <= q < lb@.len() ==> text@.subrange(#[trigger] lb@[q].0 as int, lb@[q].1 as int)
                    == lines(text@)[q],
            r.deep_view() == lines(text@).take(k as int),
        decreases lb.len() - k,
    {
        let (a, b) = lb[k];
        assert(a == lb@[k as int].0 && b == lb@[k as int].1);
        let line = copy_range(text, a, b);
        let ghost old_r = r.deep_view();
        assert(line.deep_view() =~= line@);
        r.push(line);
        assert(r.deep_view() =~= old_r.push(line@));
        assert(lines(text@).take(k + 1) =~= lines(text@).take(k as int).push(lines(text@)[k as int]));
        k = k + 1;
    }
    assert(lines(text@).take(k as int) =~= lines(text@));
    r
}

/// The view of a list of operations.
pub open spec fn ops_view(ops: Seq<PatchOp>) -> Seq<PatchOpModel> {
    ops.map_values(|op: PatchOp| op@)
}

fn parse_patch_ops(ls: &Vec<Vec<char>>) -> (r: (Vec<PatchOp>, Option<PatchError>))
    ensures
        ops_view(r.0@) == parse_ops(ls.deep_view()).0,
        r.1 == parse_ops(ls.deep_view()).1,
{
    let ghost lv = ls.deep_view();
    let add = chars_of("*** Add File: ");
    let del = chars_of("*** Delete File: ");
    let upd = chars_of("*** Update File: ");
    let marker = chars_of("*** ");
    let mut ops: Vec<PatchOp> = Vec::new();
    let mut idx: usize = 0;
    assert(lv.skip(0) =~= lv);
    assert(ops_view(ops@) =~= Seq::<PatchOpModel>::empty());
    while idx < ls.len()
        invariant
            idx <= ls@.len(),
            lv == ls.deep_view(),
            add@ == "*** Add File: "@,
            del@ == "*** Delete File: "@,
            upd@ == "*** Update File: "@,
            marker@ == "*** "@,
            parse_ops(lv) == (ops_view(ops@) + parse_ops(lv.skip(idx as int)).0, parse_ops(
                lv.skip(idx as int),
            ).1),
        decreases ls.len() - idx,
    {
        let ghost cur = lv.skip(idx as int);
        let ghost rest = cur.drop_first();
        assert(cur[0] == ls@[idx as int]@);
        assert(rest =~= lv.skip(idx + 1));
        let line = &ls[idx];
        let end = body_end(ls, idx + 1, &marker);
        proof {
            lemma_body_len(rest);
        }
        assert(rest.take(end - idx - 1) =~= lv.subrange(idx + 1, end as int));
        assert(rest.skip(end - idx - 1) =~= lv.skip(end as int));
        let ghost old_ops = ops@;
        if chars_starts_with(line.as_slice(), add.as_slice()) {
            match add_content(ls, idx + 1, end) {
                None => {
                    return (ops, Some(PatchError::AddLineWithoutPlus));
                },
                Some(content) => {
                    let path = tail_string(line, add.len());
                    let op = PatchOp::Add { path, content };
                    ops.push(op);
                    assert(ops_view(ops@) =~= ops_view(old_ops) + seq![op@]);
                    idx = end;
                },
            }
        } else if chars_starts_with(line.as_slice(), del.as_slice()) {
            let path = tail_string(line, del.len());
            let op = PatchOp::Delete { path };
            ops.push(op);
            assert(ops_view(ops@) =~= ops_view(old_ops) + seq![op@]);
            idx = idx + 1;
        } else if chars_starts_with(line.as_slice(), upd.as_slice()) {
            match update_lines(ls, idx + 1, end) {
                None => {
                    return (ops, Some(PatchError::BadUpdateLine));
                },
                Some((old, new)) => {
                    let path = tail_string(line, upd.len());
                    let op = PatchOp::Update { path, old, new };
                    ops.push(op);
                    assert(ops_view(ops@) =~= ops_view(old_ops) + seq![op@]);
                    idx = end;
                },
            }
        } else {
            idx = idx + 1;
        }
    }
    assert(lv.skip(idx as int) =~= Seq::<Seq<char>>::empty());
    assert(ops_view(ops@) + Seq::<PatchOpModel>::empty() =~= ops_view(ops@));
    (ops, None)
}

/// Reads a patch into the operations to carry out and the error to report
/// after them, as `apply_patch` works through it.
pub fn plan_patch(patch: &str) -> (r: PatchPlan)
    ensures
        ops_view(r.ops@) == patch_plan(patch@).0,
        r.error == patch_plan(patch@).1,
{
    if !crate::text::str_contains(patch, "*** Begin Patch") || !crate::text::str_contains(
        patch,
        "*** End Patch",
    ) {
        let ops: Vec<PatchOp> = Vec::new();
        assert(ops_view(ops@) =~= Seq::<PatchOpModel>::empty());
        return PatchPlan { ops, error: Some(PatchError::NotPatchFormat) };
    }
    let v = chars_of(patch);
    let ls = line_vecs(v.as_slice());
    let (ops, error) = parse_patch_ops(&ls);
    if ops.len() == 0 && error.is_none() {
        PatchPlan { ops, error: Some(PatchError::NoOperations) }
    } else {
        PatchPlan { ops, error }
    }
}

// ---------------------------------------------------------------------------
// Edits and update hunks
// ---------------------------------------------------------------------------
/// `s` with its first occurrence of `old` replaced by `new`; `None` when `old` does not occur.
pub fn replace_first_chars(s: &[char], old: &[char], new: &[char]) -> (r: Option<Vec<char>>)
    ensures
        match r {
            Some(t) => crate::text::contains(s@, old@) && t@ == crate::text::replace_first(
                s@,
                old@,
                new@,
            ),
            None => !crate::text::contains(s@, old@),
        },
{
    match crate::text::find_chars(s, old, 0) {
        None => None,
        Some(i) => {
            proof {
                crate::text::lemma_find_from(s@, old@, 0);
            }
            assert(crate::text::matches_at(s@, old@, i as int));
            let olen = old.len();
            let slen = s.len();
            assert(i + olen <= slen);
            let mut t = copy_range(s, 0, i);
            crate::text::append_chars(&mut t, new);
            let tail = copy_range(s, i + olen, slen);
            crate::text::append_chars(&mut t, tail.as_slice());
            assert(s@.take(i as int) =~= s@.subrange(0, i as int));
            assert(s@.skip(i + old@.len()) =~= s@.subrange(i + old@.len(), s@.len() as int));
            Some(t)
        },
    }
}

/// Replaces the first occurrence of `old` in `content` by `new`
/// (`replacen(old, new, 1)`); `None` when `old` does not occur.
pub fn replace_once(content: &str, old: &str, new: &str) -> (r: Option<String>)
    ensures
        match r {
            Some(t) => crate::text::contains(content@, old@) && t@ == crate::text::replace_first(
                content@,
                old@,
                new@,
            ),
            None => !crate::text::contains(content@, old@),
        },
{
    let c = chars_of(content);
    let o = chars_of(old);
    let n = chars_of(new);
    match replace_first_chars(c.as_slice(), o.as_slice(), n.as_slice()) {
        Some(t) => Some(string_from_chars(t.as_slice())),
        None => None,
    }
}

/// Why an `edit` tool call fails before or after reading the file.
#[derive(Debug, Clone, PartialEq, Eq)]
pub enum EditError {
    /// The text to replace is empty.
    EmptyOld,
    /// The path is not a workspace path.
    Path(WorkspacePathError),
    /// The text to replace does not occur in the file.
    NotFound,
}

impl EditError {
    /// The message shown for the error about `path`.
    pub fn message(&self, path: &str) -> (r: String)
        ensures
            r@ == (match self {
                EditError::EmptyOld => "old text cannot be empty"@,
                EditError::Path(WorkspacePathError::Absolute) => "absolute paths are not allowed"@,
                EditError::Path(WorkspacePathError::Escapes) => "path escapes workspace"@,
                EditError::NotFound => "old text was not found in "@ + path@,
            }),
    {
        match self {
            EditError::EmptyOld => "old text cannot be empty".to_string(),
            EditError::Path(e) => e.message(),
            EditError::NotFound => crate::text::concat2("old text was not found in ", path),
        }
    }
}

impl ToolRunner {
    /// The file that an `edit` of `path` replacing `old` works on: refused
    /// when `old` is empty, then when `path` is not a workspace path.
    pub fn edit_target(&self, path: &str, old: &str) -> (r: Result<String, EditError>)
        ensures
            old@.len() == 0 ==> r == Err::<String, EditError>(EditError::EmptyOld),
            old@.len() > 0 ==> (r is Ok <==> workspace_check(path@) is Ok),
            r matches Ok(p) ==> p@ == join_text(self.root_text(), path@),
            old@.len() > 0 ==> (r matches Err(e) ==> (e matches EditError::Path(pe)
                && workspace_check(path@) == Err::<(), WorkspacePathError>(pe))),
    {
        let o = chars_of(old);
        if o.len() == 0 {
            return Err(EditError::EmptyOld);
        }
        match self.workspace_path(path) {
            Ok(p) => Ok(p),
            Err(e) => Err(EditError::Path(e)),
        }
    }
}

/// The new content of a file after an update hunk with lines `old` and
/// `new`: the hunk texts end in a newline when the file does, and the first
/// occurrence of the old text is replaced; `None` when it does not occur.
pub open spec fn updated_content(content: Seq<char>, old: Seq<Seq<char>>, new: Seq<Seq<char>>) -> Option<
    Seq<char>,
> {
    let trailing = crate::text::ends_with(content, seq!['\n']);
    let o = joined_patch_text(old, trailing);
    let n = joined_patch_text(new, trailing);
    if crate::text::contains(content, o) {
        Some(crate::text::replace_first(content, o, n))
    } else {
        None
    }
}

/// Applies an update hunk to the content of a file.
pub fn apply_update_content(content: &str, old: &Vec<String>, new: &Vec<String>) -> (r: Option<
    String,
>)
    ensures
        match r {
            Some(t) => updated_content(content@, old.deep_view(), new.deep_view()) == Some(t@),
            None => updated_content(content@, old.deep_view(), new.deep_view()) is None,
        },
{
    let c = chars_of(content);
    let trailing = c.len() > 0 && c[c.len() - 1] == '\n';
    assert(trailing == crate::text::ends_with(content@, seq!['\n'])) by {
        if c@.len() > 0 {
            assert(c@.skip(c@.len() - 1) =~= seq![c@[c@.len() - 1]]);
            if crate::text::ends_with(content@, seq!['\n']) {
                assert(c@.skip(c@.len() - 1)[0] == '\n');
            }
        }
    }
    assert(old@.map_values(|l: String| l@) =~= old.deep_view());
    assert(new@.map_values(|l: String| l@) =~= new.deep_view());
    let old_text = join_patch_lines(old, trailing);
    let new_text = join_patch_lines(new, trailing);
    replace_once(content, old_text.as_str(), new_text.as_str())
}

/// What a patch operation reports once done: `added`, `deleted` or
/// `updated`, then the path.
pub open spec fn op_summary(op: PatchOpModel) -> Seq<char> {
    match op {
        PatchOpModel::Add { path, .. } => "added "@ + path,
        PatchOpModel::Delete { path } => "deleted "@ + path,
        PatchOpModel::Update { path, .. } => "updated "@ + path,
    }
}

impl PatchOp {
    /// What the operation reports once done.
    pub fn summary(&self) -> (r: String)
        ensures
            r@ == op_summary(self@),
    {
        match self {
            PatchOp::Add { path, .. } => crate::text::concat2("added ", path.as_str()),
            PatchOp::Delete { path } => crate::text::concat2("deleted ", path.as_str()),
            PatchOp::Update { path, .. } => crate::text::concat2("updated ", path.as_str()),
        }
    }
}

// ---------------------------------------------------------------------------
// Results
// ---------------------------------------------------------------------------
impl ToolResult {
    /// The result of a tool run: `ok` with its output, or not `ok` with the error text.
    pub fn from_outcome(outcome: Result<String, String>) -> (r: ToolResult)
        ensures
            match outcome {
                Ok(o) => r.ok && r.output@ == o@,
                Err(e) => !r.ok && r.output@ == e@,
            },
    {
        match outcome {
            Ok(output) => ToolResult { ok: true, output },
            Err(output) => ToolResult { ok: false, output },
        }
    }
}

/// The text a `/bash` or `/read` command reports: `ok` or `error`, a newline, the output.
pub fn command_result_text(result: &ToolResult) -> (r: String)
    ensures
        r@ == (if result.ok {
            "ok"@
        } else {
            "error"@
        }) + seq!['\n'] + result.output@,
{
    let prefix = if result.ok {
        "ok"
    } else {
        "error"
    };
    let r = crate::text::concat3(prefix, "\n", result.output.as_str());
    proof {
        reveal_strlit("\n");
    }
    r
}

/// Why a search cannot start.
#[derive(Debug, Clone, PartialEq, Eq)]
pub enum SearchError {
    /// The query is empty or only whitespace.
    EmptyQuery,
    /// The path is not a workspace path.
    Path(WorkspacePathError),
}

impl SearchError {
    /// The message shown for the error.
    pub fn message(&self) -> (r: String)
        ensures
            r@ == (match self {
                SearchError::EmptyQuery => "query cannot be empty"@,
                SearchError::Path(WorkspacePathError::Absolute) => "absolute paths are not allowed"@,
                SearchError::Path(WorkspacePathError::Escapes) => "path escapes workspace"@,
            }),
    {
        match self {
            SearchError::EmptyQuery => "query cannot be empty".to_string(),
            SearchError::Path(e) => e.message(),
        }
    }
}

impl ToolRunner {
    /// The path a search runs over (`.` when none is given), once the query
    /// is known not to be blank.
    pub fn search_target(&self, query: &str, path: Option<&str>) -> (r: Result<String, SearchError>)
        ensures
            trim(query@).len() == 0 ==> r == Err::<String, SearchError>(SearchError::EmptyQuery),
            trim(query@).len() > 0 ==> (r is Ok <==> workspace_check(
                match path {
                    Some(p) => p@,
                    None => "."@,
                },
            ) is Ok),
            trim(query@).len() > 0 ==> (r matches Err(e) ==> (e matches SearchError::Path(pe)
                && workspace_check(
                match path {
                    Some(p) => p@,
                    None => "."@,
                },
            ) == Err::<(), WorkspacePathError>(pe))),
            r matches Ok(t) ==> t@ == join_text(
                self.root_text(),
                match path {
                    Some(p) => p@,
                    None => "."@,
                },
            ),
    {
        let q = chars_of(query);
        if crate::text::is_blank(q.as_slice()) {
            return Err(SearchError::EmptyQuery);
        }
        let p = match path {
            Some(p) => p,
            None => ".",
        };
        match self.workspace_path(p) {
            Ok(t) => Ok(t),
            Err(e) => Err(SearchError::Path(e)),
        }
    }
}

/// What a finished `rg` run reports: exit code 1 means no match; another
/// failure is an error with the output; success gives the output. The output
/// bytes are decoded with malformed sequences replaced.
pub fn search_outcome(code: Option<i32>, success: bool, stdout: &[u8], stderr: &[u8]) -> (r: Result<
    String,
    String,
>)
    ensures
        code == Some(1i32) ==> (r matches Ok(t) && t@ == "no matches"@),
        code != Some(1i32) && !success ==> (r matches Err(t) && t@ == "search failed\n"@
            + utf8_lossy(stdout@) + utf8_lossy(stderr@)),
        code != Some(1i32) && success ==> (r matches Ok(t) && t@ == utf8_lossy(stdout@)),
        code != Some(1i32) && success && vstd::utf8::valid_utf8(stdout@) ==> (r matches Ok(t)
            && t@ == vstd::utf8::decode_utf8(stdout@)),
{
    if code == Some(1i32) {
        return Ok("no matches".to_string());
    }
    let out = decode_utf8_lossy(stdout);
    if !success {
        let err = decode_utf8_lossy(stderr);
        return Err(crate::text::concat3("search failed\n", out.as_str(), err.as_str()));
    }
    Ok(out)
}

/// What a finished shell command reports: its exit status, a newline, then
/// its output and error output, decoded with malformed sequences replaced; an
/// error when the command failed.
pub fn command_outcome(status: &str, success: bool, stdout: &[u8], stderr: &[u8]) -> (r: Result<
    String,
    String,
>)
    ensures
        success ==> (r matches Ok(t) && t@ == "status: "@ + status@ + "\n"@ + utf8_lossy(stdout@)
            + utf8_lossy(stderr@)),
        !success ==> (r matches Err(t) && t@ == "status: "@ + status@ + "\n"@ + utf8_lossy(
            stdout@,
        ) + utf8_lossy(stderr@)),
        vstd::utf8::valid_utf8(stdout@) && vstd::utf8::valid_utf8(stderr@) ==> (match r {
            Ok(t) => t@,
            Err(t) => t@,
        }) == "status: "@ + status@ + "\n"@ + vstd::utf8::decode_utf8(stdout@)
            + vstd::utf8::decode_utf8(stderr@),
{
    let out = decode_utf8_lossy(stdout);
    let err = decode_utf8_lossy(stderr);
    let mut text = crate::text::concat3("status: ", status, "\n");
    crate::text::append_str(&mut text, out.as_str());
    crate::text::append_str(&mut text, err.as_str());
    if success {
        Ok(text)
    } else {
        Err(text)
    }
}

/// The line that lists one directory entry: its name, with `/` after a directory.
pub open spec fn entry_line(e: (String, bool)) -> Seq<char> {
    e.0@ + if e.1 {
        "/"@
    } else {
        Seq::<char>::empty()
    }
}

/// The listing of a directory: one line per entry, in code-point order.
pub fn directory_listing(entries: &Vec<(String, bool)>) -> (r: String)
    ensures
        exists|lines: Seq<Seq<char>>|
            {
                &&& crate::text::sorted_lex(lines)
                &&& lines.to_multiset() == entries@.map_values(|e: (String, bool)| entry_line(e)).to_multiset()
                &&& r@ == crate::text::join(lines, "\n"@)
            },
{
    let ghost f = |e: (String, bool)| entry_line(e);
    let mut lines: Vec<String> = Vec::new();
    let mut i: usize = 0;
    while i < entries.len()
        invariant
            i <= entries@.len(),
            f == (|e: (String, bool)| entry_line(e)),
            strings_view(lines@) == entries@.take(i as int).map_values(f),
        decreases entries.len() - i,
    {
        let (name, is_dir) = (&entries[i].0, entries[i].1);
        let line = if is_dir {
            crate::text::concat2(name.as_str(), "/")
        } else {
            crate::text::concat2(name.as_str(), "")
        };
        proof {
            reveal_strlit("");
            assert(line@ == f(entries@[i as int]));
        }
        lines.push(line);
        assert(entries@.take(i + 1).map_values(f) =~= entries@.take(i as int).map_values(f).push(
            f(entries@[i as int]),
        ));
        assert(strings_view(lines@) =~= entries@.take(i + 1).map_values(f));
        i = i + 1;
    }
    assert(entries@.take(i as int) =~= entries@);
    let sorted = crate::text::sort_strings(lines);
    let r = crate::text::join_strings(&sorted, "\n");
    assert(sorted@.map_values(|l: String| l@) =~= strings_view(sorted@));
    r
}

/// What a whole patch reports once every operation is done: one line per operation.
pub fn patch_report(ops: &Vec<PatchOp>) -> (r: String)
    ensures
        r@ == crate::text::join(ops_view(ops@).map_values(|op: PatchOpModel| op_summary(op)), "\n"@),
{
    let ghost f = |op: PatchOpModel| op_summary(op);
    let mut lines: Vec<String> = Vec::new();
    let mut i: usize = 0;
    while i < ops.len()
        invariant
            i <= ops@.len(),
            f == (|op: PatchOpModel| op_summary(op)),
            strings_view(lines@) == ops_view(ops@).take(i as int).map_values(f),
        decreases ops.len() - i,
    {
        let line = ops[i].summary();
        lines.push(line);
        assert(ops_view(ops@).take(i + 1).map_values(f) =~= ops_view(ops@).take(i as int).map_values(
            f,
        ).push(f(ops@[i as int]@)));
        assert(strings_view(lines@) =~= ops_view(ops@).take(i + 1).map_values(f));
        i = i + 1;
    }
    assert(ops_view(ops@).take(i as int) =~= ops_view(ops@));
    assert(lines@.map_values(|l: String| l@) =~= strings_view(lines@));
    crate::text::join_strings(&lines, "\n")
}

/// What applying a patch reports, once its operations were carried out in
/// order up to the first that failed (`first_failure`, its error text): that
/// failure; else the patch's own error, reported after the operations before
/// it; else one line per operation.
pub fn patch_result(plan: &PatchPlan, first_failure: Option<String>) -> (r: Result<String, String>)
    ensures
        match first_failure {
            Some(e) => r matches Err(t) && t@ == e@,
            None => match plan.error {
                Some(err) => r matches Err(t) && t@ == patch_error_text(err),
                None => r matches Ok(t) && t@ == crate::text::join(
                    ops_view(plan.ops@).map_values(|op: PatchOpModel| op_summary(op)),
                    "\n"@,
                ),
            },
        },
{
    if let Some(e) = first_failure {
        return Err(e);
    }
    match plan.error {
        Some(err) => Err(err.message()),
        None => Ok(patch_report(&plan.ops)),
    }
}

/// The new content of `path` after an update hunk, or the error that the hunk
/// does not match.
pub fn update_outcome(path: &str, content: &str, old: &Vec<String>, new: &Vec<String>) -> (r: Result<
    String,
    String,
>)
    ensures
        match updated_content(content@, old.deep_view(), new.deep_view()) {
            Some(t) => r matches Ok(u) && u@ == t,
            None => r matches Err(e) && e@ == "update hunk did not match "@ + path@,
        },
{
    match apply_update_content(content, old, new) {
        Some(t) => Ok(t),
        None => Err(crate::text::concat2("update hunk did not match ", path)),
    }
}

} // verus!
