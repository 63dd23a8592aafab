//! Messages and models of the Ollama chat API, and the pure parts of talking
//! to it: the system prompt, tool descriptions, model lists, and decoding of
//! the streamed reply.
use vstd::prelude::*;

use crate::text::{
    chars_of, concat2, concat3, contains, eq_ignore_ascii_case, str_contains,
    str_eq_ignore_ascii_case, strings_view, trim, trim_str,
};

verus! {

/// Size details that Ollama reports for a model.
#[derive(Debug, Clone, PartialEq, Eq)]
pub struct ModelDetails {
    pub parameter_size: Option<String>,
    pub quantization_level: Option<String>,
}

/// A model that Ollama serves.
#[derive(Debug, Clone, PartialEq, Eq)]
pub struct Model {
    pub name: String,
    pub size: Option<u64>,
    pub modified_at: Option<String>,
    pub details: Option<ModelDetails>,
    pub capabilities: Vec<String>,
}

/// What a model is, as plain values: its name, size, modification time,
/// size details and capabilities.
pub struct ModelView {
    pub name: Seq<char>,
    pub size: Option<u64>,
    pub modified_at: Option<Seq<char>>,
    pub details: Option<(Option<Seq<char>>, Option<Seq<char>>)>,
    pub capabilities: Seq<Seq<char>>,
}

/// An optional string as an optional sequence of characters.
pub open spec fn opt_view(s: Option<String>) -> Option<Seq<char>> {
    match s {
        Some(t) => Some(t@),
        None => None,
    }
}

impl View for Model {
    type V = ModelView;

    open spec fn view(&self) -> ModelView {
        ModelView {
            name: self.name@,
            size: self.size,
            modified_at: opt_view(self.modified_at),
            details: match self.details {
                Some(d) => Some((opt_view(d.parameter_size), opt_view(d.quantization_level))),
                None => None,
            },
            capabilities: strings_view(self.capabilities@),
        }
    }
}

/// A capability that announces tool use: `tools` in any ASCII case, or any
/// capability containing `tool`.
pub open spec fn is_tool_capability(c: Seq<char>) -> bool {
    eq_ignore_ascii_case(c, "tools"@) || contains(c, "tool"@)
}

/// Some capability announces tool use.
pub open spec fn caps_support_tools(caps: Seq<Seq<char>>) -> bool {
    exists|i: int| 0 <= i < caps.len() && is_tool_capability(#[trigger] caps[i])
}

/// The model announces tool use among its capabilities.
pub open spec fn model_supports_tools(m: Model) -> bool {
    caps_support_tools(m@.capabilities)
}

impl Model {
    /// Whether the model can call tools.
    pub fn supports_tools(&self) -> (r: bool)
        ensures
            r == model_supports_tools(*self),
    {
        let mut i: usize = 0;
        while i < self.capabilities.len()
            invariant
                i <= self.capabilities@.len(),
                forall|j: int| 0 <= j < i ==> !is_tool_capability(#[trigger] self.capabilities@[j]@),
            decreases self.capabilities.len() - i,
        {
            let c = self.capabilities[i].as_str();
            if str_eq_ignore_ascii_case(c, "tools") || str_contains(c, "tool") {
                assert(is_tool_capability(self@.capabilities[i as int]));
                return true;
            }
            i = i + 1;
        }
        assert forall|j: int| 0 <= j < self@.capabilities.len() implies !is_tool_capability(
            #[trigger] self@.capabilities[j],
        ) by {
            assert(self@.capabilities[j] == self.capabilities@[j]@);
        }
        false
    }
}

/// The function that a model asks to call, with its arguments as compact JSON text.
#[derive(Debug, Clone, PartialEq, Eq)]
pub struct OllamaToolCallFunction {
    pub index: Option<u64>,
    pub name: String,
    /// The arguments, as the compact JSON text of the value (`null` when absent).
    pub arguments: String,
}

/// A tool call in a chat message.
#[derive(Debug, Clone, PartialEq, Eq)]
pub struct OllamaToolCall {
    pub id: Option<String>,
    pub kind: Option<String>,
    pub function: OllamaToolCallFunction,
}

/// The description of a tool offered to the model.
#[derive(Debug, Clone, PartialEq, Eq)]
pub struct OllamaToolFunction {
    pub name: String,
    pub description: String,
    /// The JSON schema of the parameters, as compact JSON text.
    pub parameters: String,
}

/// A tool offered to the model.
#[derive(Debug, Clone, PartialEq, Eq)]
pub struct OllamaToolSpec {
    pub kind: String,
    pub function: OllamaToolFunction,
}

/// A chat message.
#[derive(Debug, Clone, PartialEq, Eq)]
pub struct ChatMessage {
    pub role: String,
    pub content: String,
    pub thinking: Option<String>,
    pub tool_calls: Vec<OllamaToolCall>,
    pub tool_name: Option<String>,
}

impl ChatMessage {
    /// A plain message with a role and content.
    pub fn new(role: &str, content: String) -> (r: ChatMessage)
        ensures
            r.role@ == role@,
            r.content@ == content@,
            r.thinking is None,
            r.tool_calls@.len() == 0,
            r.tool_name is None,
    {
        ChatMessage {
            role: role.to_string(),
            content,
            thinking: None,
            tool_calls: Vec::new(),
            tool_name: None,
        }
    }
}

/// A piece of a streamed reply.
#[derive(Debug, Clone, PartialEq, Eq)]
pub enum ChatDelta {
    Content(String),
    Thinking(String),
}

/// The fixed part of the system prompt.
pub const SYSTEM_PROMPT: &'static str = "You are ollo-code, a local autonomous coding agent running in a terminal.

The full conversation history in this chat is your memory. Use previous user and assistant messages when answering. If the user asks what they just said or refers to earlier messages, answer from the messages already in this conversation instead of claiming you cannot remember.
Do not output evaluation JSON, benchmark metadata, or self-critique wrappers. Reply in plain language unless you are emitting a tool response.
Use the provided native tools when you need to inspect or change the workspace. Do not invent your own tool syntax in assistant content.
Prefer the smallest useful tool call, and continue from tool results until the task is complete.
When you receive a tool result, either answer the user directly or request a different tool if it adds new information. Do not repeat the same tool call with the same arguments, and do not keep calling tools once the task is already answered.
";

/// Opens the AGENTS.md section of the system prompt.
pub const AGENTS_HEADER: &'static str = "\n\nProject instructions from AGENTS.md:\n---\n";

/// Closes the AGENTS.md section of the system prompt.
pub const AGENTS_FOOTER: &'static str = "\n---";

/// Ends the system prompt when there is no AGENTS.md.
pub const NO_AGENTS_NOTE: &'static str = "\n\nNo AGENTS.md was found. The user can run /init to create one.";

/// The system prompt text for the given AGENTS.md content.
pub open spec fn system_prompt_text(agents_md: Option<Seq<char>>) -> Seq<char> {
    SYSTEM_PROMPT@ + match agents_md {
        Some(c) => AGENTS_HEADER@ + trim(c) + AGENTS_FOOTER@,
        None => NO_AGENTS_NOTE@,
    }
}

/// The system message, with the trimmed AGENTS.md instructions when there are any.
pub fn system_prompt(agents_md: Option<&str>) -> (r: ChatMessage)
    ensures
        r.role@ == "system"@,
        r.content@ == system_prompt_text(
            match agents_md {
                Some(c) => Some(c@),
                None => None,
            },
        ),
        r.thinking is None,
        r.tool_calls@.len() == 0,
        r.tool_name is None,
{
    let section = match agents_md {
        Some(content) => {
            let t = trim_str(content);
            concat3(AGENTS_HEADER, t.as_str(), AGENTS_FOOTER)
        },
        None => NO_AGENTS_NOTE.to_string(),
    };
    let content = concat2(SYSTEM_PROMPT, section.as_str());
    ChatMessage::new("system", content)
}

// ---------------------------------------------------------------------------
// Client URL, model lists
// ---------------------------------------------------------------------------
/// The base URL of the Ollama API: the host without trailing slashes.
pub fn base_url(host: &str) -> (r: String)
    ensures
        r@ == crate::text::strip_trailing(host@, '/'),
{
    crate::text::strip_trailing_str(host, '/')
}

/// Capabilities reported for the first listed name equal to `name`.
pub open spec fn capabilities_for(caps: Seq<(String, Vec<String>)>, name: Seq<char>) -> Option<
    Vec<String>,
>
    decreases caps.len(),
{
    if caps.len() == 0 {
        None
    } else if caps[0].0@ == name {
        Some(caps[0].1)
    } else {
        capabilities_for(caps.drop_first(), name)
    }
}

/// The model with the capabilities reported for its name, if any.
pub open spec fn with_capabilities(m: ModelView, caps: Seq<(String, Vec<String>)>) -> ModelView {
    match capabilities_for(caps, m.name) {
        Some(c) => ModelView { capabilities: strings_view(c@), ..m },
        None => m,
    }
}

/// Models ordered by name (code-point order, as `String` orders).
pub open spec fn sorted_by_name(ms: Seq<Model>) -> bool {
    forall|i: int, j: int|
        0 <= i < j < ms.len() ==> crate::text::lex_le(#[trigger] ms[i].name@, #[trigger] ms[j].name@)
}

/// The models that can call tools, each with its reported capabilities.
pub open spec fn tool_models(models: Seq<Model>, caps: Seq<(String, Vec<String>)>) -> Seq<ModelView> {
    models.map_values(|m: Model| with_capabilities(m@, caps)).filter(
        |v: ModelView| caps_support_tools(v.capabilities),
    )
}

/// The views of a list of models.
pub open spec fn models_view(ms: Seq<Model>) -> Seq<ModelView> {
    ms.map_values(|m: Model| m@)
}

fn lookup_capabilities(caps: &Vec<(String, Vec<String>)>, name: &str) -> (r: Option<Vec<String>>)
    ensures
        match capabilities_for(caps@, name@) {
            Some(c) => r matches Some(v) && v@ == c@,
            None => r is None,
        },
{
    let mut i: usize = 0;
    assert(caps@.skip(0) =~= caps@);
    while i < caps.len()
        invariant
            i <= caps@.len(),
            capabilities_for(caps@, name@) == capabilities_for(caps@.skip(i as int), name@),
        decreases caps.len() - i,
    {
        assert(caps@.skip(i as int)[0] == caps@[i as int]);
        if crate::text::str_eq(caps[i].0.as_str(), name) {
            return Some(crate::text::clone_strings(&caps[i].1));
        }
        assert(caps@.skip(i as int).drop_first() =~= caps@.skip(i + 1));
        i = i + 1;
    }
    None
}

/// Whether a model is named `n`.
pub open spec fn name_is(n: Seq<char>) -> spec_fn(ModelView) -> bool {
    |v: ModelView| v.name == n
}

/// The models of `vs` named `n`, in their order.
pub open spec fn named(vs: Seq<ModelView>, n: Seq<char>) -> Seq<ModelView> {
    vs.filter(name_is(n))
}

/// Inserting `x` where no later model shares its name puts it last among
/// the models of its name, and leaves those of other names alone.
proof fn lemma_named_insert(vs: Seq<ModelView>, p: int, x: ModelView)
    requires
        0 <= p <= vs.len(),
        forall|j: int| p <= j < vs.len() ==> #[trigger] vs[j].name != x.name,
    ensures
        forall|n: Seq<char>|
            #[trigger] named(vs.insert(p, x), n) == if x.name == n {
                named(vs, n).push(x)
            } else {
                named(vs, n)
            },
{
    assert forall|n: Seq<char>|
        #[trigger] named(vs.insert(p, x), n) == if x.name == n {
            named(vs, n).push(x)
        } else {
            named(vs, n)
        } by {
        let pred = name_is(n);
        let a = vs.take(p);
        let b = vs.skip(p);
        assert(vs.insert(p, x) =~= a + seq![x] + b);
        assert(vs =~= a + b);
        Seq::filter_distributes_over_add(a + seq![x], b, pred);
        Seq::filter_distributes_over_add(a, seq![x], pred);
        Seq::filter_distributes_over_add(a, b, pred);
        assert(seq![x].drop_last() =~= Seq::<ModelView>::empty());
        assert(seq![x].filter(pred) == if pred(x) {
            seq![x]
        } else {
            Seq::<ModelView>::empty()
        }) by {
            reveal_with_fuel(Seq::<ModelView>::filter, 2);
        }
        if x.name == n {
            assert(b.all(|y: ModelView| !pred(y))) by {
                assert forall|i: int| 0 <= i < b.len() implies !pred(b[i]) by {
                    assert(b[i] == vs[p + i]);
                }
            }
            b.lemma_all_neg_filter_empty(pred);
            assert(b.filter(pred) =~= Seq::<ModelView>::empty());
            assert(a.filter(pred) + seq![x] + b.filter(pred) =~= (a.filter(pred) + b.filter(
                pred,
            )).push(x));
        } else {
            assert(a.filter(pred) + Seq::<ModelView>::empty() + b.filter(pred) =~= a.filter(pred)
                + b.filter(pred));
        }
    }
}

fn insert_by_name(out: &mut Vec<Model>, m: Model)
    requires
        sorted_by_name(old(out)@),
    ensures
        sorted_by_name(final(out)@),
        models_view(final(out)@).to_multiset() == models_view(old(out)@).to_multiset().insert(m@),
        forall|n: Seq<char>|
            #[trigger] named(models_view(final(out)@), n) == if m@.name == n {
                named(models_view(old(out)@), n).push(m@)
            } else {
                named(models_view(old(out)@), n)
            },
{
    let key = chars_of(m.name.as_str());
    let mut p: usize = 0;
    while p < out.len() && crate::text::lex_le_chars(
        chars_of(out[p].name.as_str()).as_slice(),
        key.as_slice(),
    )
        invariant
            p <= out@.len(),
            key@ == m.name@,
            forall|j: int| 0 <= j < p ==> crate::text::lex_le(#[trigger] out@[j].name@, m.name@),
        decreases out.len() - p,
    {
        p = p + 1;
    }
    let ghost before = out@;
    proof {
        broadcast use vstd::seq_lib::group_to_multiset_ensures;

        if p < before.len() {
            crate::text::lemma_lex_total(before[p as int].name@, m.name@);
        }
        assert forall|j: int| p <= j < before.len() implies crate::text::lex_le(
            m.name@,
            #[trigger] before[j].name@,
        ) by {
            if j > p {
                crate::text::lemma_lex_trans(m.name@, before[p as int].name@, before[j].name@);
            }
        }
        assert(models_view(before.insert(p as int, m)) =~= models_view(before).insert(p as int, m@));
        assert forall|j: int| p <= j < before.len() implies #[trigger] models_view(before)[j].name
            != m@.name by {
            crate::text::lemma_lex_total(m.name@, m.name@);
            if j > p && before[j].name@ == m.name@ {
                assert(crate::text::lex_le(before[p as int].name@, before[j].name@));
            }
        }
        lemma_named_insert(models_view(before), p as int, m@);
        assert(models_view(before).insert(p as int, m@).to_multiset() == models_view(before).to_multiset().insert(m@));
    }
    out.insert(p, m);
    proof {
        let after = out@;
        assert forall|i: int, j: int| 0 <= i < j < after.len() implies crate::text::lex_le(
            #[trigger] after[i].name@,
            #[trigger] after[j].name@,
        ) by {
            if j < p {
                assert(after[i] == before[i] && after[j] == before[j]);
            } else if j == p {
                assert(after[i] == before[i]);
            } else if i < p {
                assert(after[i] == before[i] && after[j] == before[j - 1]);
                crate::text::lemma_lex_trans(before[i].name@, m.name@, before[j - 1].name@);
            } else if i == p {
                assert(after[j] == before[j - 1]);
            } else {
                assert(after[i] == before[i - 1] && after[j] == before[j - 1]);
            }
        }
    }
}

/// The models that can call tools, given the capabilities reported for
/// each name, ordered by name.
pub fn finalize_models(models: Vec<Model>, capabilities: &Vec<(String, Vec<String>)>) -> (r: Vec<
    Model,
>)
    ensures
        sorted_by_name(r@),
        models_view(r@).to_multiset() == tool_models(models@, capabilities@).to_multiset(),
        forall|n: Seq<char>|
            #[trigger] named(models_view(r@), n) == named(tool_models(models@, capabilities@), n),
{
    let ghost all = models@;
    let ghost merged = all.map_values(|m: Model| with_capabilities(m@, capabilities@));
    let ghost keep = |v: ModelView| caps_support_tools(v.capabilities);
    let mut rest = models;
    let mut out: Vec<Model> = Vec::new();
    assert(merged.take(0).filter(keep) =~= Seq::<ModelView>::empty()) by {
        reveal_with_fuel(Seq::<ModelView>::filter, 1);
    }
    assert(models_view(out@) =~= Seq::<ModelView>::empty());
    assert(all.skip(0) =~= all);
    assert forall|n: Seq<char>| #[trigger] named(models_view(out@), n) == named(
        merged.take(0).filter(keep),
        n,
    ) by {
        reveal_with_fuel(Seq::<ModelView>::filter, 1);
    }
    while rest.len() > 0
        invariant
            rest@.len() <= all.len(),
            rest@ == all.skip(all.len() - rest@.len()),
            merged == all.map_values(|m: Model| with_capabilities(m@, capabilities@)),
            keep == (|v: ModelView| caps_support_tools(v.capabilities)),
            sorted_by_name(out@),
            models_view(out@).to_multiset() == merged.take(all.len() - rest@.len()).filter(
                keep,
            ).to_multiset(),
            forall|n: Seq<char>|
                #[trigger] named(models_view(out@), n) == named(
                    merged.take(all.len() - rest@.len()).filter(keep),
                    n,
                ),
        decreases rest.len(),
    {
        let ghost i = all.len() - rest@.len();
        let mut m = rest.remove(0);
        assert(m == all[i]);
        assert(rest@ =~= all.skip(i + 1));
        if let Some(c) = lookup_capabilities(capabilities, m.name.as_str()) {
            m.capabilities = c;
        }
        assert(m@ == merged[i]) by {
            match capabilities_for(capabilities@, all[i].name@) {
                Some(c) => {
                    assert(m@.capabilities =~= strings_view(c@));
                },
                None => {},
            }
        }
        proof {
            reveal_with_fuel(Seq::<ModelView>::filter, 1);
            assert(merged.take(i + 1).drop_last() =~= merged.take(i));
        }
        if m.supports_tools() {
            proof {
                assert(merged.take(i + 1).filter(keep) == merged.take(i).filter(keep).push(m@));
                vstd::seq_lib::to_multiset_build(merged.take(i).filter(keep), m@);
                let prev = merged.take(i).filter(keep);
                assert(prev.insert(prev.len() as int, m@) =~= prev.push(m@));
                lemma_named_insert(prev, prev.len() as int, m@);
            }
            insert_by_name(&mut out, m);
        }
    }
    assert(merged.take(all.len() as int) =~= merged);
    out
}

// ---------------------------------------------------------------------------
// Tool descriptions
// ---------------------------------------------------------------------------
/// The line that reports one tool call of a reply.
pub open spec fn tool_call_line(c: OllamaToolCall) -> Seq<char> {
    "Requested tool: "@ + c.function.name@ + if c.function.arguments@ == "null"@ {
        Seq::<char>::empty()
    } else {
        " "@ + c.function.arguments@
    }
}

/// The tool calls of a reply, one line each.
pub fn assistant_tool_call_summary(tool_calls: &Vec<OllamaToolCall>) -> (r: String)
    ensures
        r@ == crate::text::join(tool_calls@.map_values(|c: OllamaToolCall| tool_call_line(c)), "\n"@),
{
    let ghost f = |c: OllamaToolCall| tool_call_line(c);
    let mut lines: Vec<String> = Vec::new();
    let mut i: usize = 0;
    assert(lines@.map_values(|l: String| l@) =~= tool_calls@.take(0).map_values(f));
    while i < tool_calls.len()
        invariant
            i <= tool_calls@.len(),
            f == (|c: OllamaToolCall| tool_call_line(c)),
            lines@.map_values(|l: String| l@) == tool_calls@.take(i as int).map_values(f),
        decreases tool_calls.len() - i,
    {
        let call = &tool_calls[i];
        let args = if crate::text::str_eq(call.function.arguments.as_str(), "null") {
            String::new()
        } else {
            concat2(" ", call.function.arguments.as_str())
        };
        let line = concat3("Requested tool: ", call.function.name.as_str(), args.as_str());
        let ghost before = lines@;
        lines.push(line);
        assert(tool_calls@.take(i + 1).map_values(f) =~= tool_calls@.take(i as int).map_values(
            f,
        ).push(f(tool_calls@[i as int])));
        assert(lines@.map_values(|l: String| l@) =~= before.map_values(|l: String| l@).push(
            line@,
        ));
        i = i + 1;
    }
    assert(tool_calls@.take(i as int) =~= tool_calls@);
    crate::text::join_strings(&lines, "\n")
}

/// `s` between double quotes.
pub open spec fn quoted(s: Seq<char>) -> Seq<char> {
    seq!['"'] + s + seq!['"']
}

/// One string property of a schema, with its description, as JSON text.
pub open spec fn property_json(p: (Seq<char>, Seq<char>)) -> Seq<char> {
    quoted(p.0) + ":{\"description\":"@ + quoted(p.1) + ",\"type\":\"string\"}"@
}

/// The compact JSON text of an object schema with the string properties
/// `props` (name and description), of which `required` must be given.
pub open spec fn schema_text(props: Seq<(Seq<char>, Seq<char>)>, required: Seq<Seq<char>>) -> Seq<
    char,
> {
    "{\"properties\":{"@ + crate::text::join(
        props.map_values(|p: (Seq<char>, Seq<char>)| property_json(p)),
        ","@,
    ) + "},\"required\":["@ + crate::text::join(
        required.map_values(|n: Seq<char>| quoted(n)),
        ","@,
    ) + "],\"type\":\"object\"}"@
}

/// The properties of each tool's parameters (name and description), in key order.
pub open spec fn standard_properties() -> Seq<Seq<(Seq<char>, Seq<char>)>> {
    seq![
        seq![("command"@, "Shell command to run"@)],
        seq![("path"@, "Workspace-relative file or directory path"@)],
        seq![("content"@, "Full file content to write"@), ("path"@, "Workspace-relative file path"@)],
        seq![
            ("new"@, "Replacement text"@),
            ("old"@, "Exact text to replace"@),
            ("path"@, "Workspace-relative file path"@),
        ],
        seq![("path"@, "Workspace-relative directory path"@)],
        seq![
            ("path"@, "Optional workspace-relative path to limit the search"@),
            ("query"@, "Search query"@),
        ],
        seq![("patch"@, "Patch text in apply_patch format"@)],
    ]
}

/// The parameters each tool requires, in order.
pub open spec fn standard_required_fields() -> Seq<Seq<Seq<char>>> {
    seq![
        seq!["command"@],
        seq!["path"@],
        seq!["path"@, "content"@],
        seq!["path"@, "old"@, "new"@],
        seq!["path"@],
        seq!["query"@],
        seq!["patch"@],
    ]
}

/// Name and description of each tool offered to the model, in order.
pub open spec fn standard_tool_names() -> Seq<(Seq<char>, Seq<char>)> {
    seq![
        ("bash"@, "Run a shell command in the workspace root."@),
        ("read"@, "Read a file or list a directory in the workspace."@),
        ("write"@, "Write full file contents to a workspace path."@),
        ("edit"@, "Replace exact text once in a workspace file."@),
        ("list"@, "List the contents of a directory in the workspace."@),
        ("search"@, "Search for text in the workspace with ripgrep."@),
        ("patch"@, "Apply an apply_patch-style patch."@),
    ]
}

/// Name, description and JSON schema (compact JSON text) of each tool
/// offered to the model, in order.
pub open spec fn standard_tool_table() -> Seq<(Seq<char>, Seq<char>, Seq<char>)> {
    Seq::new(
        7,
        |i: int|
            (
                standard_tool_names()[i].0,
                standard_tool_names()[i].1,
                schema_text(standard_properties()[i], standard_required_fields()[i]),
            ),
    )
}

/// `s` between double quotes.
fn quote(s: &str) -> (r: String)
    ensures
        r@ == quoted(s@),
{
    let r = concat3("\"", s, "\"");
    proof {
        reveal_strlit("\"");
    }
    r
}

/// The compact JSON text of an object schema with the string properties
/// `props`, of which `required` must be given.
fn schema_json(props: &Vec<(&str, &str)>, required: &Vec<&str>) -> (r: String)
    ensures
        r@ == schema_text(
            props@.map_values(|p: (&str, &str)| (p.0@, p.1@)),
            required@.map_values(|n: &str| n@),
        ),
{
    let ghost pv = props@.map_values(|p: (&str, &str)| (p.0@, p.1@));
    let ghost rv = required@.map_values(|n: &str| n@);
    let mut parts: Vec<String> = Vec::new();
    let mut i: usize = 0;
    while i < props.len()
        invariant
            i <= props@.len(),
            pv == props@.map_values(|p: (&str, &str)| (p.0@, p.1@)),
            parts@.map_values(|x: String| x@) == pv.take(i as int).map_values(
                |p: (Seq<char>, Seq<char>)| property_json(p),
            ),
        decreases props.len() - i,
    {
        let (name, description) = props[i];
        let mut part = quote(name);
        crate::text::append_str(&mut part, ":{\"description\":");
        let q = quote(description);
        crate::text::append_str(&mut part, q.as_str());
        crate::text::append_str(&mut part, ",\"type\":\"string\"}");
        let ghost before = parts@;
        parts.push(part);
        assert(pv.take(i + 1).map_values(|p: (Seq<char>, Seq<char>)| property_json(p))
            =~= pv.take(i as int).map_values(|p: (Seq<char>, Seq<char>)| property_json(p)).push(
            property_json(pv[i as int]),
        ));
        assert(parts@.map_values(|x: String| x@) =~= before.map_values(|x: String| x@).push(
            part@,
        ));
        i = i + 1;
    }
    assert(pv.take(i as int) =~= pv);
    let mut names: Vec<String> = Vec::new();
    let mut j: usize = 0;
    while j < required.len()
        invariant
            j <= required@.len(),
            rv == required@.map_values(|n: &str| n@),
            names@.map_values(|x: String| x@) == rv.take(j as int).map_values(
                |n: Seq<char>| quoted(n),
            ),
        decreases required.len() - j,
    {
        let q = quote(required[j]);
        let ghost before = names@;
        names.push(q);
        assert(rv.take(j + 1).map_values(|n: Seq<char>| quoted(n)) =~= rv.take(
            j as int,
        ).map_values(|n: Seq<char>| quoted(n)).push(quoted(rv[j as int])));
        assert(names@.map_values(|x: String| x@) =~= before.map_values(|x: String| x@).push(
            quoted(rv[j as int]),
        ));
        j = j + 1;
    }
    assert(rv.take(j as int) =~= rv);
    let props_text = crate::text::join_strings(&parts, ",");
    let required_text = crate::text::join_strings(&names, ",");
    let mut r = concat3("{\"properties\":{", props_text.as_str(), "},\"required\":[");
    crate::text::append_str(&mut r, required_text.as_str());
    crate::text::append_str(&mut r, "],\"type\":\"object\"}");
    r
}

fn tool_spec(name: &str, description: &str, props: Vec<(&str, &str)>, required: Vec<&str>) -> (r:
    OllamaToolSpec)
    ensures
        r.kind@ == "function"@,
        r.function.name@ == name@,
        r.function.description@ == description@,
        r.function.parameters@ == schema_text(
            props@.map_values(|p: (&str, &str)| (p.0@, p.1@)),
            required@.map_values(|n: &str| n@),
        ),
{
    OllamaToolSpec {
        kind: "function".to_string(),
        function: OllamaToolFunction {
            name: name.to_string(),
            description: description.to_string(),
            parameters: schema_json(&props, &required),
        },
    }
}

/// The tools offered to the model.
pub fn standard_tools() -> (r: Vec<OllamaToolSpec>)
    ensures
        r@.map_values(
            |t: OllamaToolSpec| (t.function.name@, t.function.description@, t.function.parameters@),
        ) == standard_tool_table(),
        forall|i: int| 0 <= i < r@.len() ==> (#[trigger] r@[i]).kind@ == "function"@,
{
    let p0 = vec![("command", "Shell command to run")];
    let q0 = vec!["command"];
    assert(p0@.map_values(|p: (&str, &str)| (p.0@, p.1@)) =~= standard_properties()[0]);
    assert(q0@.map_values(|n: &str| n@) =~= standard_required_fields()[0]);
    let t0 = tool_spec("bash", "Run a shell command in the workspace root.", p0, q0);
    let p1 = vec![("path", "Workspace-relative file or directory path")];
    let q1 = vec!["path"];
    assert(p1@.map_values(|p: (&str, &str)| (p.0@, p.1@)) =~= standard_properties()[1]);
    assert(q1@.map_values(|n: &str| n@) =~= standard_required_fields()[1]);
    let t1 = tool_spec("read", "Read a file or list a directory in the workspace.", p1, q1);
    let p2 = vec![("content", "Full file content to write"), ("path", "Workspace-relative file path")];
    let q2 = vec!["path", "content"];
    assert(p2@.map_values(|p: (&str, &str)| (p.0@, p.1@)) =~= standard_properties()[2]);
    assert(q2@.map_values(|n: &str| n@) =~= standard_required_fields()[2]);
    let t2 = tool_spec("write", "Write full file contents to a workspace path.", p2, q2);
    let p3 = vec![("new", "Replacement text"), ("old", "Exact text to replace"), ("path", "Workspace-relative file path")];
    let q3 = vec!["path", "old", "new"];
    assert(p3@.map_values(|p: (&str, &str)| (p.0@, p.1@)) =~= standard_properties()[3]);
    assert(q3@.map_values(|n: &str| n@) =~= standard_required_fields()[3]);
    let t3 = tool_spec("edit", "Replace exact text once in a workspace file.", p3, q3);
    let p4 = vec![("path", "Workspace-relative directory path")];
    let q4 = vec!["path"];
    assert(p4@.map_values(|p: (&str, &str)| (p.0@, p.1@)) =~= standard_properties()[4]);
    assert(q4@.map_values(|n: &str| n@) =~= standard_required_fields()[4]);
    let t4 = tool_spec("list", "List the contents of a directory in the workspace.", p4, q4);
    let p5 = vec![("path", "Optional workspace-relative path to limit the search"), ("query", "Search query")];
    let q5 = vec!["query"];
    assert(p5@.map_values(|p: (&str, &str)| (p.0@, p.1@)) =~= standard_properties()[5]);
    assert(q5@.map_values(|n: &str| n@) =~= standard_required_fields()[5]);
    let t5 = tool_spec("search", "Search for text in the workspace with ripgrep.", p5, q5);
    let p6 = vec![("patch", "Patch text in apply_patch format")];
    let q6 = vec!["patch"];
    assert(p6@.map_values(|p: (&str, &str)| (p.0@, p.1@)) =~= standard_properties()[6]);
    assert(q6@.map_values(|n: &str| n@) =~= standard_required_fields()[6]);
    let t6 = tool_spec("patch", "Apply an apply_patch-style patch.", p6, q6);
    let r = vec![t0, t1, t2, t3, t4, t5, t6];
    assert(r@.map_values(
        |t: OllamaToolSpec| (t.function.name@, t.function.description@, t.function.parameters@),
    ) =~= standard_tool_table());
    r
}


// ---------------------------------------------------------------------------
// Decoding the streamed chat reply
// ---------------------------------------------------------------------------
/// One line of the reply stream, decoded: a piece of the message, whether
/// the reply is complete, and an error that Ollama reports.
#[derive(Debug, Clone, PartialEq, Eq)]
pub struct ChatChunk {
    pub message: Option<ChatMessage>,
    pub done: bool,
    pub error: Option<String>,
}

/// What a decoded line does to the reply.
#[derive(Debug, Clone, PartialEq, Eq)]
pub enum ChunkOutcome {
    /// Ollama reported this error; the reply ends with it.
    Failed(String),
    /// More lines follow.
    Continue,
    /// The reply is complete.
    Done,
}

/// The reply being received: text that is not yet a complete line, and
/// what the message has gathered so far.
pub struct ChatStream {
    pub pending: String,
    pub content: String,
    pub thinking: String,
    pub tool_calls: Vec<OllamaToolCall>,
}

/// The next non-empty line of `pending`, trimmed, and what stays pending
/// after it; lines that are empty once trimmed are dropped on the way. With no
/// complete non-empty line, no line, and the text after the dropped ones.
pub open spec fn split_next_line(pending: Seq<char>) -> (Option<Seq<char>>, Seq<char>)
    decreases pending.len(),
{
    match crate::text::find(pending, seq!['\n']) {
        Some(k) => if 0 <= k < pending.len() {
            let line = trim(pending.take(k));
            let rest = pending.skip(k + 1);
            if line.len() == 0 {
                split_next_line(rest)
            } else {
                (Some(line), rest)
            }
        } else {
            (None, pending)
        },
        None => (None, pending),
    }
}

/// The thinking text of a message when it is not empty.
pub open spec fn thinking_of(m: ChatMessage) -> Option<String> {
    match m.thinking {
        Some(t) => if t@.len() > 0 {
            Some(t)
        } else {
            None
        },
        None => None,
    }
}

/// The deltas that a message piece hands on: its thinking, then its content,
/// each when not empty.
pub open spec fn message_deltas(m: ChatMessage) -> Seq<ChatDelta> {
    (match thinking_of(m) {
        Some(t) => seq![ChatDelta::Thinking(t)],
        None => Seq::<ChatDelta>::empty(),
    }) + (if m.content@.len() > 0 {
        seq![ChatDelta::Content(m.content)]
    } else {
        Seq::<ChatDelta>::empty()
    })
}

/// What applying the decoded line `chunk` does: from `old` to `new`,
/// with this outcome and these deltas handed on.
pub open spec fn chunk_step(
    old: ChatStream,
    chunk: ChatChunk,
    new: ChatStream,
    outcome: ChunkOutcome,
    deltas: Seq<ChatDelta>,
) -> bool {
    match chunk.error {
        Some(e) => outcome == ChunkOutcome::Failed(e) && deltas.len() == 0 && new
            == old,
        None => {
            &&& outcome == (if chunk.done {
                ChunkOutcome::Done
            } else {
                ChunkOutcome::Continue
            })
            &&& new.pending == old.pending
            &&& match chunk.message {
                Some(m) => {
                    &&& deltas == message_deltas(m)
                    &&& new.content@ == old.content@ + m.content@
                    &&& new.thinking@ == old.thinking@ + match thinking_of(m) {
                        Some(t) => t@,
                        None => Seq::<char>::empty(),
                    }
                    &&& new.tool_calls@ == old.tool_calls@ + m.tool_calls@
                },
                None => {
                    &&& deltas.len() == 0
                    &&& new.content == old.content
                    &&& new.thinking == old.thinking
                    &&& new.tool_calls == old.tool_calls
                },
            }
        },
    }
}

impl ChatStream {
    /// A reply to receive from `model`; no model is an error.
    pub fn start(model: &str) -> (r: Result<ChatStream, String>)
        ensures
            model@.len() == 0 <==> r is Err,
            r matches Err(e) ==> e@ == "no model selected"@,
            r matches Ok(s) ==> s.pending@.len() == 0 && s.content@.len() == 0
                && s.thinking@.len() == 0 && s.tool_calls@.len() == 0,
    {
        if model.is_empty() {
            return Err("no model selected".to_string());
        }
        Ok(ChatStream {
            pending: String::new(),
            content: String::new(),
            thinking: String::new(),
            tool_calls: Vec::new(),
        })
    }

    /// Adds received bytes, decoded with malformed sequences replaced.
    pub fn push_bytes(&mut self, bytes: &[u8])
        ensures
            final(self).pending@ == old(self).pending@ + crate::text::utf8_lossy(bytes@),
            vstd::utf8::valid_utf8(bytes@) ==> final(self).pending@ == old(self).pending@
                + vstd::utf8::decode_utf8(bytes@),
            final(self).content == old(self).content,
            final(self).thinking == old(self).thinking,
            final(self).tool_calls == old(self).tool_calls,
    {
        let text = crate::text::decode_utf8_lossy(bytes);
        crate::text::append_str(&mut self.pending, text.as_str());
    }

    /// Takes the next complete non-empty line, trimmed, dropping empty ones.
    pub fn next_line(&mut self) -> (r: Option<String>)
        ensures
            match split_next_line(old(self).pending@) {
                (Some(l), rest) => r matches Some(s) && s@ == l && final(self).pending@ == rest,
                (None, rest) => r is None && final(self).pending@ == rest,
            },
            final(self).content == old(self).content,
            final(self).thinking == old(self).thinking,
            final(self).tool_calls == old(self).tool_calls,
    {
        let nl = vec!['\n'];
        loop
            invariant
                split_next_line(old(self).pending@) == split_next_line(self.pending@),
                nl@ == seq!['\n'],
                self.content == old(self).content,
                self.thinking == old(self).thinking,
                self.tool_calls == old(self).tool_calls,
            decreases self.pending@.len(),
        {
            let chars = chars_of(self.pending.as_str());
            let n = chars.len();
            match crate::text::find_chars(chars.as_slice(), nl.as_slice(), 0) {
                None => {
                    return None;
                },
                Some(k) => {
                    proof {
                        crate::text::lemma_find_from(chars@, nl@, 0);
                        assert(k < n);
                    }
                    let head = crate::text::copy_range(chars.as_slice(), 0, k);
                    let (a, b) = crate::text::trim_bounds(head.as_slice());
                    let line = crate::text::string_from_range(head.as_slice(), a, b);
                    let rest = crate::text::string_from_range(chars.as_slice(), k + 1, n);
                    proof {
                        assert(head@ =~= chars@.take(k as int));
                        assert(rest@ =~= chars@.skip(k + 1));
                    }
                    self.pending = rest;
                    if a < b {
                        return Some(line);
                    }
                },
            }
        }
    }

    /// The text left once the stream has ended, trimmed, when it is not empty.
    pub fn remainder(&self) -> (r: Option<String>)
        ensures
            trim(self.pending@).len() == 0 <==> r is None,
            r matches Some(s) ==> s@ == trim(self.pending@),
    {
        let t = trim_str(self.pending.as_str());
        if t.as_str().is_empty() {
            None
        } else {
            Some(t)
        }
    }

    /// Applies one decoded line: a reported error ends the reply; otherwise the
    /// message piece's thinking, content and tool calls are gathered, and its
    /// non-empty thinking and content are handed on as deltas.
    pub fn apply_chunk(&mut self, chunk: ChatChunk) -> (r: (ChunkOutcome, Vec<ChatDelta>))
        ensures
            chunk_step(*old(self), chunk, *final(self), r.0, r.1@),
    {
        let ChatChunk { message, done, error } = chunk;
        if let Some(e) = error {
            return (ChunkOutcome::Failed(e), Vec::new());
        }
        let mut deltas: Vec<ChatDelta> = Vec::new();
        if let Some(m) = message {
            let ghost gm = m;
            let ChatMessage { role: _, content, thinking, tool_calls, tool_name: _ } = m;
            let mut tool_calls = tool_calls;
            if let Some(t) = thinking {
                if !t.as_str().is_empty() {
                    crate::text::append_str(&mut self.thinking, t.as_str());
                    deltas.push(ChatDelta::Thinking(t));
                } else {
                    assert(self.thinking@ =~= self.thinking@ + Seq::<char>::empty());
                }
            } else {
                assert(self.thinking@ =~= self.thinking@ + Seq::<char>::empty());
            }
            crate::text::append_str(&mut self.content, content.as_str());
            if !content.as_str().is_empty() {
                deltas.push(ChatDelta::Content(content));
            }
            self.tool_calls.append(&mut tool_calls);
            assert(deltas@ =~= message_deltas(gm));
        }
        if done {
            (ChunkOutcome::Done, deltas)
        } else {
            (ChunkOutcome::Continue, deltas)
        }
    }

    /// The assistant message gathered from the reply.
    pub fn into_message(self) -> (r: ChatMessage)
        ensures
            r.role@ == "assistant"@,
            r.content == self.content,
            r.thinking == (if self.thinking@.len() == 0 {
                None
            } else {
                Some(self.thinking)
            }),
            r.tool_calls == self.tool_calls,
            r.tool_name is None,
    {
        let ChatStream { pending: _, content, thinking, tool_calls } = self;
        let thinking = if thinking.as_str().is_empty() {
            None
        } else {
            Some(thinking)
        };
        ChatMessage { role: "assistant".to_string(), content, thinking, tool_calls, tool_name: None }
    }
}

} // verus!
