//! The state of the terminal agent and every decision it takes: prompt
//! editing, history, slash commands, model selection, transcript, and the
//! reaction to each event. Outside work (network, files, tools, the clock
//! for display) is asked for by the [`Effect`]s these functions return.
use vstd::prelude::*;

use crate::config::Config;
use crate::ollama::{ChatMessage, Model};
use crate::text::{
    byte_offset, char_index, char_index_of, char_len_utf8, char_width, chars_of, copy_range,
    is_boundary, lemma_byte_offset_len, lemma_byte_offset_mono, lemma_byte_offset_step,
    lemma_char_index, lemma_utf8_len_concat, starts_with, string_from_chars, string_len,
    utf8_len, words,
};

verus! {

/// A slash command of the prompt.
#[derive(Debug, Clone, Copy)]
pub struct CommandSpec {
    pub name: &'static str,
    pub usage: &'static str,
    pub description: &'static str,
}

/// Name, usage and description of a command, as text.
pub type CommandModel = (Seq<char>, Seq<char>, Seq<char>);

impl CommandSpec {
    /// The command as text.
    pub open spec fn model(self) -> CommandModel {
        (self.name@, self.usage@, self.description@)
    }
}

/// The slash commands, in the order they are listed.
pub open spec fn command_table() -> Seq<CommandModel> {
    seq![
        ("/help"@, "/help"@, "show commands"@),
        ("/init"@, "/init"@, "create AGENTS.md"@),
        ("/agents"@, "/agents"@, "reload AGENTS.md"@),
        ("/tools"@, "/tools"@, "show model-callable tools"@),
        ("/model"@, "/model <name>"@, "switch model"@),
        ("/models"@, "/models"@, "list Ollama models"@),
        ("/bash"@, "/bash <command>"@, "run shell command"@),
        ("/read"@, "/read <path>"@, "read file or list directory"@),
        ("/clear"@, "/clear"@, "clear transcript"@),
        ("/context"@, "/context"@, "show restored context usage"@),
        ("/pwd"@, "/pwd"@, "show workspace path"@),
    ]
}

/// The view of a list of commands.
pub open spec fn commands_view(cs: Seq<CommandSpec>) -> Seq<CommandModel> {
    cs.map_values(|c: CommandSpec| c.model())
}

/// The slash commands, in the order they are listed.
pub fn commands() -> (r: Vec<CommandSpec>)
    ensures
        commands_view(r@) == command_table(),
{
    let r = vec![
        CommandSpec { name: "/help", usage: "/help", description: "show commands" },
        CommandSpec { name: "/init", usage: "/init", description: "create AGENTS.md" },
        CommandSpec { name: "/agents", usage: "/agents", description: "reload AGENTS.md" },
        CommandSpec { name: "/tools", usage: "/tools", description: "show model-callable tools" },
        CommandSpec { name: "/model", usage: "/model <name>", description: "switch model" },
        CommandSpec { name: "/models", usage: "/models", description: "list Ollama models" },
        CommandSpec { name: "/bash", usage: "/bash <command>", description: "run shell command" },
        CommandSpec { name: "/read", usage: "/read <path>", description: "read file or list directory" },
        CommandSpec { name: "/clear", usage: "/clear", description: "clear transcript" },
        CommandSpec {
            name: "/context",
            usage: "/context",
            description: "show restored context usage",
        },
        CommandSpec { name: "/pwd", usage: "/pwd", description: "show workspace path" },
    ];
    assert(commands_view(r@) =~= command_table());
    r
}

/// The first word of `input`, or `input` itself when it has no word.
pub open spec fn command_prefix(input: Seq<char>) -> Seq<char> {
    if words(input).len() > 0 {
        words(input)[0]
    } else {
        input
    }
}

/// The commands of `cmds` whose name starts with `prefix`, in order.
pub open spec fn prefix_matches(cmds: Seq<CommandModel>, prefix: Seq<char>) -> Seq<CommandModel>
    decreases cmds.len(),
{
    if cmds.len() == 0 {
        Seq::empty()
    } else {
        (if starts_with(cmds[0].0, prefix) {
            seq![cmds[0]]
        } else {
            Seq::empty()
        }) + prefix_matches(cmds.drop_first(), prefix)
    }
}

/// The commands suggested for the prompt `input`: none unless it starts
/// with `/`; else those whose name starts with its first word (all of them
/// for a bare `/` that matches none).
pub open spec fn suggestions_for(input: Seq<char>) -> Seq<CommandModel> {
    if !starts_with(input, "/"@) {
        Seq::empty()
    } else {
        let p = command_prefix(input);
        let m = prefix_matches(command_table(), p);
        if m.len() == 0 && p == "/"@ {
            command_table()
        } else {
            m
        }
    }
}

/// The command cursor kept within the suggestions for `input`.
pub open spec fn clamped_command_cursor(c: usize, input: Seq<char>) -> usize {
    let n = suggestions_for(input).len();
    if n == 0 {
        0
    } else if c < n - 1 {
        c
    } else {
        (n - 1) as usize
    }
}

/// The first word of `s`, or `s` itself when it has none.
pub fn first_word_or_all(s: &str) -> (r: String)
    ensures
        r@ == command_prefix(s@),
{
    let v = chars_of(s);
    let b = crate::text::word_bounds(v.as_slice());
    if b.len() > 0 {
        let (x, y) = b[0];
        assert(x == b@[0].0 && y == b@[0].1);
        crate::text::string_from_range(v.as_slice(), x, y)
    } else {
        string_from_chars(v.as_slice())
    }
}

/// The commands suggested for the prompt `input`.
pub fn suggestions(input: &str) -> (r: Vec<CommandSpec>)
    ensures
        commands_view(r@) == suggestions_for(input@),
{
    let mut r: Vec<CommandSpec> = Vec::new();
    if !crate::text::str_starts_with(input, "/") {
        assert(commands_view(r@) =~= Seq::<CommandModel>::empty());
        return r;
    }
    let all = commands();
    let prefix = first_word_or_all(input);
    let pv = chars_of(prefix.as_str());
    let mut i: usize = 0;
    let ghost table = command_table();
    assert(table.skip(0) =~= table);
    assert(commands_view(r@) =~= Seq::<CommandModel>::empty());
    while i < all.len()
        invariant
            i <= all@.len(),
            commands_view(all@) == table,
            table == command_table(),
            pv@ == command_prefix(input@),
            prefix_matches(table, pv@) == commands_view(r@) + prefix_matches(table.skip(i as int), pv@),
        decreases all.len() - i,
    {
        let c = all[i];
        assert(table.skip(i as int)[0] == c.model());
        assert(table.skip(i as int).drop_first() =~= table.skip(i + 1));
        let nv = chars_of(c.name);
        let ghost before = commands_view(r@);
        if crate::text::chars_starts_with(nv.as_slice(), pv.as_slice()) {
            r.push(c);
            assert(commands_view(r@) =~= before + seq![c.model()]);
        }
        i = i + 1;
    }
    assert(table.skip(i as int) =~= Seq::<CommandModel>::empty());
    assert(commands_view(r@) + Seq::<CommandModel>::empty() =~= commands_view(r@));
    if r.len() == 0 && crate::text::str_eq(prefix.as_str(), "/") {
        return all;
    }
    r
}

/// An entry of the transcript shown to the user.
#[derive(Debug, Clone)]
pub struct TranscriptItem {
    pub role: String,
    pub content: String,
    /// When the entry was made, in seconds since the Unix epoch.
    pub timestamp: i64,
}

/// Role and content of each transcript entry.
pub open spec fn transcript_view(t: Seq<TranscriptItem>) -> Seq<(Seq<char>, Seq<char>)> {
    t.map_values(|i: TranscriptItem| (i.role@, i.content@))
}

/// The first `n` entries of `new` carry the times of the first `n` entries
/// of `old`, and the entries after them carry the time `clock`.
pub open spec fn keeps_stamps(old: Seq<TranscriptItem>, new: Seq<TranscriptItem>, n: int, clock: i64) -> bool {
    &&& 0 <= n <= old.len()
    &&& n <= new.len()
    &&& forall|i: int| 0 <= i < n ==> #[trigger] new[i].timestamp == old[i].timestamp
    &&& forall|i: int| n <= i < new.len() ==> #[trigger] new[i].timestamp == clock
}

/// What the outside world tells the agent.
#[derive(Debug)]
pub enum AppEvent {
    ModelsLoaded(Result<Vec<Model>, String>),
    AssistantDelta(String),
    AssistantThinkingDelta(String),
    AssistantDone(Result<String, String>),
    ToolDone(String),
    CommandDone(String),
}

/// Outside work that a step of the agent asks for, to be done in order.
#[derive(Debug, Clone)]
pub enum Effect {
    /// Write the settings to disk.
    SaveConfig,
    /// Write the conversation (`App::messages`) to disk.
    SaveConversation,
    /// Remove the saved conversation.
    ClearConversation,
    /// Load the model list; its result comes back as `ModelsLoaded`.
    RefreshModels,
    /// Stream a reply of `model` to `App::messages`; it comes back as deltas
    /// and `AssistantDone`.
    StartChat { model: String },
    /// Run a tool; its result comes back as `CommandDone` when a command
    /// asked for it, else as `ToolDone`.
    RunTool { call: crate::tools::ToolCall, from_command: bool },
    /// Create AGENTS.md, then call `App::finish_init`.
    InitAgents,
    /// Read AGENTS.md again, then call `App::finish_agents`.
    ReloadAgents,
}

/// The state of the agent.
pub struct App {
    /// The workspace path, as displayed.
    pub cwd: String,
    pub config: Config,
    pub models: Vec<Model>,
    pub selected_model: Option<String>,
    pub input: String,
    /// Byte offset of the cursor in `input`.
    pub input_cursor: usize,
    pub command_cursor: usize,
    pub history_cursor: Option<usize>,
    pub transcript: Vec<TranscriptItem>,
    pub transcript_scroll: usize,
    pub status: String,
    pub busy: bool,
    pub should_quit: bool,
    /// The conversation sent to the model; the first message is the system prompt.
    pub messages: Vec<ChatMessage>,
    pub pending_assistant: String,
    pub response_start: Option<usize>,
    pub stream_role: Option<String>,
    pub agents_md: Option<String>,
    /// The current time in seconds since the Unix epoch, as the front end
    /// last set it; new transcript entries carry it.
    pub clock: i64,
}

/// The conversation opens with the system prompt.
pub open spec fn system_first(msgs: Seq<ChatMessage>) -> bool {
    msgs.len() > 0 && msgs[0].role@ == "system"@
}

/// `a` and `b` agree on everything but the prompt line and its cursors.
pub open spec fn same_session(a: App, b: App) -> bool {
    &&& a.cwd == b.cwd
    &&& a.config == b.config
    &&& a.models == b.models
    &&& a.selected_model == b.selected_model
    &&& a.transcript == b.transcript
    &&& a.transcript_scroll == b.transcript_scroll
    &&& a.status == b.status
    &&& a.busy == b.busy
    &&& a.should_quit == b.should_quit
    &&& a.messages == b.messages
    &&& a.pending_assistant == b.pending_assistant
    &&& a.response_start == b.response_start
    &&& a.stream_role == b.stream_role
    &&& a.agents_md == b.agents_md
}

/// `a` and `b` agree on everything but the prompt cursor.
pub open spec fn same_but_cursor(a: App, b: App) -> bool {
    &&& same_session(a, b)
    &&& a.input == b.input
    &&& a.command_cursor == b.command_cursor
    &&& a.history_cursor == b.history_cursor
}

/// Byte offset of the char before the one at byte `cursor` (`None` at the start).
pub open spec fn previous_boundary_spec(text: Seq<char>, cursor: int) -> Option<int> {
    if cursor == 0 {
        None
    } else {
        Some(byte_offset(text, char_index(text, cursor) - 1) as int)
    }
}

/// Byte offset of the char after the one at byte `cursor` (`None` at or past the end).
pub open spec fn next_boundary_spec(text: Seq<char>, cursor: int) -> Option<int> {
    if cursor >= utf8_len(text) {
        None
    } else {
        Some(byte_offset(text, char_index(text, cursor) + 1) as int)
    }
}

/// The byte offset of the char before byte `cursor` of `text`.
pub fn previous_boundary(text: &str, cursor: usize) -> (r: Option<usize>)
    requires
        is_boundary(text@, cursor as int),
    ensures
        match r {
            Some(b) => previous_boundary_spec(text@, cursor as int) == Some(b as int),
            None => previous_boundary_spec(text@, cursor as int) is None,
        },
{
    if cursor == 0 {
        return None;
    }
    let v = chars_of(text);
    let k = char_index_of(v.as_slice(), cursor);
    assert(k > 0) by {
        if k == 0 {
            assert(v@.take(0) =~= Seq::<char>::empty());
        }
    }
    proof {
        lemma_byte_offset_step(v@, k - 1);
    }
    Some(cursor - char_len_utf8(v[k - 1]))
}

/// The byte offset of the char after byte `cursor` of `text`.
pub fn next_boundary(text: &str, cursor: usize) -> (r: Option<usize>)
    requires
        cursor >= utf8_len(text@) || is_boundary(text@, cursor as int),
    ensures
        match r {
            Some(b) => next_boundary_spec(text@, cursor as int) == Some(b as int),
            None => next_boundary_spec(text@, cursor as int) is None,
        },
{
    let total = crate::text::str_byte_len(text);
    if cursor >= total {
        return None;
    }
    let v = chars_of(text);
    let k = char_index_of(v.as_slice(), cursor);
    assert(k < v@.len()) by {
        if k == v@.len() {
            lemma_byte_offset_len(v@);
        }
    }
    proof {
        lemma_byte_offset_step(v@, k as int);
        lemma_byte_offset_mono(v@, k + 1, v@.len() as int);
        lemma_byte_offset_len(v@);
    }
    Some(cursor + char_len_utf8(v[k]))
}

impl App {
    /// The prompt cursor sits on a char boundary, and a history position
    /// points into the history.
    pub open spec fn wf(&self) -> bool {
        &&& is_boundary(self.input@, self.input_cursor as int)
        &&& (self.history_cursor matches Some(c) ==> c < self.config.prompt_history@.len())
    }

    /// Whether the state is well formed (see `wf`).
    pub fn is_well_formed(&self) -> (r: bool)
        ensures
            r == self.wf(),
    {
        let v = chars_of(self.input.as_str());
        let on_boundary = crate::text::is_boundary_at(v.as_slice(), self.input_cursor);
        let history_ok = match self.history_cursor {
            Some(c) => c < self.config.prompt_history.len(),
            None => true,
        };
        on_boundary && history_ok
    }

    /// The char index of the prompt cursor.
    pub open spec fn cursor_char(&self) -> int {
        char_index(self.input@, self.input_cursor as int)
    }

    /// A fresh state for the workspace `cwd`, before anything is restored.
    pub fn blank(cwd: String, config: Config) -> (r: App)
        ensures
            r.cwd == cwd,
            r.config == config,
            r.models@.len() == 0,
            r.selected_model == config.selected_model,
            r.input@.len() == 0,
            r.input_cursor == 0,
            r.command_cursor == 0,
            r.history_cursor is None,
            r.transcript@.len() == 0,
            r.transcript_scroll == 0,
            r.status@.len() == 0,
            !r.busy,
            !r.should_quit,
            r.messages@.len() == 0,
            r.pending_assistant@.len() == 0,
            r.response_start is None,
            r.stream_role is None,
            r.agents_md is None,
            r.clock == 0,
            r.wf(),
    {
        let selected_model = match &config.selected_model {
            Some(m) => Some(m.clone()),
            None => None,
        };
        let r = App {
            cwd,
            config,
            models: Vec::new(),
            selected_model,
            input: String::new(),
            input_cursor: 0,
            command_cursor: 0,
            history_cursor: None,
            transcript: Vec::new(),
            transcript_scroll: 0,
            status: String::new(),
            busy: false,
            should_quit: false,
            messages: Vec::new(),
            pending_assistant: String::new(),
            response_start: None,
            stream_role: None,
            agents_md: None,
            clock: 0,
        };
        proof {
            lemma_char_index(r.input@, 0);
            assert(r.input@.take(0) =~= Seq::<char>::empty());
        }
        r
    }

    /// Whether the prompt is a slash command.
    pub fn commands_active(&self) -> (r: bool)
        ensures
            r == starts_with(self.input@, "/"@),
    {
        crate::text::str_starts_with(self.input.as_str(), "/")
    }

    /// The commands suggested for the prompt.
    pub fn command_suggestions(&self) -> (r: Vec<CommandSpec>)
        ensures
            commands_view(r@) == suggestions_for(self.input@),
    {
        suggestions(self.input.as_str())
    }

    /// The index of the highlighted suggestion.
    pub fn selected_command_index(&self) -> (r: usize)
        ensures
            r == clamped_command_cursor(self.command_cursor, self.input@),
    {
        let len = self.command_suggestions().len();
        if len == 0 {
            0
        } else if self.command_cursor < len - 1 {
            self.command_cursor
        } else {
            len - 1
        }
    }

    fn clamp_command_cursor(&mut self)
        ensures
            final(self).clock == old(self).clock,
            final(self).command_cursor == clamped_command_cursor(old(self).command_cursor, old(self).input@),
            same_session(*final(self), *old(self)),
            final(self).input == old(self).input,
            final(self).input_cursor == old(self).input_cursor,
            final(self).history_cursor == old(self).history_cursor,
    {
        self.command_cursor = self.selected_command_index();
    }

    /// Moves the highlighted suggestion up, when the prompt is a command.
    pub fn command_selection_up(&mut self)
        ensures
            final(self).clock == old(self).clock,
            same_session(*final(self), *old(self)),
            final(self).input == old(self).input,
            final(self).input_cursor == old(self).input_cursor,
            final(self).history_cursor == old(self).history_cursor,
            final(self).command_cursor == (if !starts_with(old(self).input@, "/"@) {
                old(self).command_cursor as int
            } else if suggestions_for(old(self).input@).len() == 0 {
                0
            } else if old(self).command_cursor == 0 {
                0
            } else {
                old(self).command_cursor - 1
            }),
    {
        if !self.commands_active() {
            return;
        }
        let len = self.command_suggestions().len();
        if len == 0 {
            self.command_cursor = 0;
        } else if self.command_cursor > 0 {
            self.command_cursor = self.command_cursor - 1;
        }
    }

    /// Moves the highlighted suggestion down, when the prompt is a command.
    pub fn command_selection_down(&mut self)
        ensures
            final(self).clock == old(self).clock,
            same_session(*final(self), *old(self)),
            final(self).input == old(self).input,
            final(self).input_cursor == old(self).input_cursor,
            final(self).history_cursor == old(self).history_cursor,
            final(self).command_cursor == (if !starts_with(old(self).input@, "/"@) {
                old(self).command_cursor as int
            } else if suggestions_for(old(self).input@).len() == 0 {
                0
            } else if old(self).command_cursor + 1 < suggestions_for(old(self).input@).len() - 1 {
                old(self).command_cursor + 1
            } else {
                suggestions_for(old(self).input@).len() - 1
            }),
    {
        if !self.commands_active() {
            return;
        }
        let len = self.command_suggestions().len();
        if len == 0 {
            self.command_cursor = 0;
        } else if self.command_cursor < len - 1 && self.command_cursor + 1 < len - 1 {
            self.command_cursor = self.command_cursor + 1;
        } else {
            self.command_cursor = len - 1;
        }
    }

    /// Replaces the prompt text by `v`, keeping the cursor.
    fn set_input(&mut self, v: &Vec<char>)
        ensures
            final(self).clock == old(self).clock,
            final(self).input@ == v@,
            same_session(*final(self), *old(self)),
            final(self).input_cursor == old(self).input_cursor,
            final(self).command_cursor == old(self).command_cursor,
            final(self).history_cursor == old(self).history_cursor,
    {
        self.input = string_from_chars(v.as_slice());
    }

    /// Inserts `ch` at the cursor and moves the cursor past it.
    pub fn input_insert(&mut self, ch: char)
        requires
            old(self).wf(),
        ensures
            final(self).clock == old(self).clock,
            final(self).input@ == old(self).input@.insert(old(self).cursor_char(), ch),
            final(self).input_cursor == old(self).input_cursor + char_width(ch),
            final(self).history_cursor is None,
            final(self).command_cursor == clamped_command_cursor(
                old(self).command_cursor,
                final(self).input@,
            ),
            same_session(*final(self), *old(self)),
            final(self).wf(),
    {
        self.history_cursor = None;
        let v = chars_of(self.input.as_str());
        let k = char_index_of(v.as_slice(), self.input_cursor);
        let mut w = copy_range(v.as_slice(), 0, k);
        w.push(ch);
        let tail = copy_range(v.as_slice(), k, v.len());
        crate::text::append_chars(&mut w, tail.as_slice());
        assert(w@ =~= v@.insert(k as int, ch));
        self.set_input(&w);
        let n = string_len(&self.input);
        proof {
            assert(w@.take(k as int) =~= v@.take(k as int));
            assert(byte_offset(w@, k as int) == byte_offset(v@, k as int));
            lemma_byte_offset_step(w@, k as int);
            lemma_byte_offset_mono(w@, k + 1, w@.len() as int);
            lemma_byte_offset_len(w@);
            lemma_char_index(w@, k + 1);
        }
        self.input_cursor = self.input_cursor + char_len_utf8(ch);
        self.clamp_command_cursor();
    }

    /// Inserts `text` at the cursor and moves the cursor past it.
    pub fn input_insert_str(&mut self, text: &str)
        requires
            old(self).wf(),
        ensures
            final(self).clock == old(self).clock,
            final(self).input@ == old(self).input@.take(old(self).cursor_char()) + text@
                + old(self).input@.skip(old(self).cursor_char()),
            final(self).input_cursor == old(self).input_cursor + utf8_len(text@),
            final(self).history_cursor is None,
            final(self).command_cursor == clamped_command_cursor(
                old(self).command_cursor,
                final(self).input@,
            ),
            same_session(*final(self), *old(self)),
            final(self).wf(),
    {
        self.history_cursor = None;
        let v = chars_of(self.input.as_str());
        let t = chars_of(text);
        let k = char_index_of(v.as_slice(), self.input_cursor);
        let mut w = copy_range(v.as_slice(), 0, k);
        crate::text::append_chars(&mut w, t.as_slice());
        let tail = copy_range(v.as_slice(), k, v.len());
        crate::text::append_chars(&mut w, tail.as_slice());
        self.set_input(&w);
        let n = string_len(&self.input);
        let ghost head = v@.take(k as int);
        proof {
            assert(w@ =~= head + t@ + v@.skip(k as int));
            assert(w@.take(k + t@.len()) =~= head + t@);
            lemma_utf8_len_concat(head, t@);
            lemma_utf8_len_concat(head + t@, v@.skip(k as int));
            assert(head =~= v@.take(k as int));
            lemma_byte_offset_mono(w@, k + t@.len(), w@.len() as int);
            lemma_byte_offset_len(w@);
            lemma_char_index(w@, k + t@.len());
        }
        let tl = crate::text::str_byte_len(text);
        self.input_cursor = self.input_cursor + tl;
        self.clamp_command_cursor();
    }

    /// Removes the char before the cursor, if any.
    pub fn input_backspace(&mut self)
        requires
            old(self).wf(),
        ensures
            final(self).clock == old(self).clock,
            old(self).input_cursor == 0 ==> final(self).input == old(self).input
                && final(self).input_cursor == 0,
            old(self).input_cursor > 0 ==> final(self).input@ == old(self).input@.remove(
                old(self).cursor_char() - 1,
            ) && final(self).input_cursor == byte_offset(
                old(self).input@,
                old(self).cursor_char() - 1,
            ),
            final(self).history_cursor is None,
            final(self).command_cursor == clamped_command_cursor(
                old(self).command_cursor,
                final(self).input@,
            ),
            same_session(*final(self), *old(self)),
            final(self).wf(),
    {
        self.history_cursor = None;
        if self.input_cursor > 0 {
            let v = chars_of(self.input.as_str());
            let k = char_index_of(v.as_slice(), self.input_cursor);
            assert(k > 0) by {
                if k == 0 {
                    assert(v@.take(0) =~= Seq::<char>::empty());
                }
            }
            let mut w = copy_range(v.as_slice(), 0, k - 1);
            let tail = copy_range(v.as_slice(), k, v.len());
            crate::text::append_chars(&mut w, tail.as_slice());
            assert(w@ =~= v@.remove(k - 1));
            proof {
                lemma_byte_offset_step(v@, k - 1);
                assert(w@.take(k - 1) =~= v@.take(k - 1));
                lemma_char_index(w@, k - 1);
            }
            let width = char_len_utf8(v[k - 1]);
            self.set_input(&w);
            self.input_cursor = self.input_cursor - width;
        }
        self.clamp_command_cursor();
    }

    /// Removes the char at the cursor, if any.
    pub fn input_delete(&mut self)
        requires
            old(self).wf(),
        ensures
            final(self).clock == old(self).clock,
            old(self).cursor_char() < old(self).input@.len() ==> final(self).input@ == old(
                self,
            ).input@.remove(old(self).cursor_char()),
            old(self).cursor_char() >= old(self).input@.len() ==> final(self).input == old(
                self,
            ).input,
            final(self).input_cursor == old(self).input_cursor,
            final(self).history_cursor is None,
            final(self).command_cursor == clamped_command_cursor(
                old(self).command_cursor,
                final(self).input@,
            ),
            same_session(*final(self), *old(self)),
            final(self).wf(),
    {
        self.history_cursor = None;
        let v = chars_of(self.input.as_str());
        let k = char_index_of(v.as_slice(), self.input_cursor);
        if k < v.len() {
            let mut w = copy_range(v.as_slice(), 0, k);
            let tail = copy_range(v.as_slice(), k + 1, v.len());
            crate::text::append_chars(&mut w, tail.as_slice());
            assert(w@ =~= v@.remove(k as int));
            proof {
                assert(w@.take(k as int) =~= v@.take(k as int));
                lemma_char_index(w@, k as int);
            }
            self.set_input(&w);
        }
        self.clamp_command_cursor();
    }

    /// Moves the cursor one char left, if it can.
    pub fn input_left(&mut self)
        requires
            old(self).wf(),
        ensures
            final(self).clock == old(self).clock,
            same_but_cursor(*final(self), *old(self)),
            old(self).input_cursor == 0 ==> final(self).input_cursor == 0,
            old(self).input_cursor > 0 ==> final(self).input_cursor == byte_offset(
                old(self).input@,
                old(self).cursor_char() - 1,
            ),
            final(self).wf(),
    {
        if let Some(p) = previous_boundary(self.input.as_str(), self.input_cursor) {
            proof {
                lemma_char_index(self.input@, self.cursor_char() - 1);
            }
            self.input_cursor = p;
        }
    }

    /// Moves the cursor one char right, if it can.
    pub fn input_right(&mut self)
        requires
            old(self).wf(),
        ensures
            final(self).clock == old(self).clock,
            same_but_cursor(*final(self), *old(self)),
            old(self).cursor_char() >= old(self).input@.len() ==> final(self).input_cursor == old(
                self,
            ).input_cursor,
            old(self).cursor_char() < old(self).input@.len() ==> final(self).input_cursor
                == byte_offset(old(self).input@, old(self).cursor_char() + 1),
            final(self).wf(),
    {
        let n = string_len(&self.input);
        proof {
            let k = self.cursor_char();
            lemma_char_index(self.input@, 0);
            lemma_byte_offset_len(self.input@);
            if k < self.input@.len() {
                lemma_byte_offset_mono(self.input@, k, self.input@.len() as int);
            } else {
                lemma_char_index(self.input@, self.input@.len() as int);
            }
        }
        if let Some(p) = next_boundary(self.input.as_str(), self.input_cursor) {
            proof {
                lemma_char_index(self.input@, self.cursor_char() + 1);
            }
            self.input_cursor = p;
        }
    }

    /// Moves the cursor to the start of the prompt.
    pub fn input_home(&mut self)
        ensures
            final(self).clock == old(self).clock,
            same_but_cursor(*final(self), *old(self)),
            final(self).input_cursor == 0,
            is_boundary(final(self).input@, 0),
            old(self).wf() ==> final(self).wf(),
    {
        proof {
            lemma_char_index(self.input@, 0);
            assert(self.input@.take(0) =~= Seq::<char>::empty());
        }
        self.input_cursor = 0;
    }

    /// Moves the cursor to the end of the prompt.
    pub fn input_end(&mut self)
        ensures
            final(self).clock == old(self).clock,
            same_but_cursor(*final(self), *old(self)),
            final(self).input_cursor == utf8_len(old(self).input@),
            is_boundary(final(self).input@, final(self).input_cursor as int),
            old(self).wf() ==> final(self).wf(),
    {
        let n = string_len(&self.input);
        proof {
            lemma_byte_offset_len(self.input@);
            lemma_char_index(self.input@, self.input@.len() as int);
        }
        self.input_cursor = n;
    }
}

// ---------------------------------------------------------------------------
// Prompt history and transcript scrolling
// ---------------------------------------------------------------------------
impl App {
    /// Recalls the previous prompt of the history (the newest one first).
    pub fn history_previous(&mut self)
        requires
            old(self).config.prompt_history@.len() > 0 ==> (old(self).history_cursor matches Some(
                c,
            ) ==> (if c == 0 {
                0
            } else {
                c - 1
            }) < old(self).config.prompt_history@.len()),
        ensures
            final(self).clock == old(self).clock,
            old(self).config.prompt_history@.len() == 0 ==> *final(self) == *old(self),
            old(self).config.prompt_history@.len() > 0 ==> {
                let next = match old(self).history_cursor {
                    Some(c) => if c == 0 {
                        0
                    } else {
                        c - 1
                    },
                    None => old(self).config.prompt_history@.len() - 1,
                };
                &&& final(self).history_cursor == Some(next as usize)
                &&& final(self).input@ == old(self).config.prompt_history@[next]@
                &&& final(self).input_cursor == utf8_len(final(self).input@)
            },
            same_session(*final(self), *old(self)),
            final(self).command_cursor == old(self).command_cursor,
            old(self).config.prompt_history@.len() > 0 ==> final(self).wf(),
            old(self).wf() ==> final(self).wf(),
    {
        let len = self.config.prompt_history.len();
        if len == 0 {
            return;
        }
        let next = match self.history_cursor {
            Some(c) => if c == 0 {
                0
            } else {
                c - 1
            },
            None => len - 1,
        };
        self.history_cursor = Some(next);
        self.input = self.config.prompt_history[next].clone();
        self.input_end();
    }

    /// Moves forward in the history; past the newest prompt the line is cleared.
    pub fn history_next(&mut self)
        ensures
            final(self).clock == old(self).clock,
            old(self).history_cursor is None ==> *final(self) == *old(self),
            old(self).history_cursor matches Some(c) ==> {
                if c + 1 >= old(self).config.prompt_history@.len() {
                    &&& final(self).history_cursor is None
                    &&& final(self).input@.len() == 0
                } else {
                    &&& final(self).history_cursor == Some((c + 1) as usize)
                    &&& final(self).input@ == old(self).config.prompt_history@[c + 1]@
                }
            },
            old(self).history_cursor is Some ==> final(self).input_cursor == utf8_len(
                final(self).input@,
            ),
            same_session(*final(self), *old(self)),
            final(self).command_cursor == old(self).command_cursor,
            old(self).history_cursor is Some ==> final(self).wf(),
            old(self).wf() ==> final(self).wf(),
    {
        let cursor = match self.history_cursor {
            Some(c) => c,
            None => {
                return;
            },
        };
        let len = self.config.prompt_history.len();
        if len == 0 || cursor >= len - 1 {
            self.history_cursor = None;
            self.input = String::new();
        } else {
            self.history_cursor = Some(cursor + 1);
            self.input = self.config.prompt_history[cursor + 1].clone();
        }
        self.input_end();
    }

    /// Scrolls the transcript by `delta` lines (up is positive), between 0
    /// and six lines per entry.
    pub fn scroll_transcript(&mut self, delta: isize)
        ensures
            final(self).clock == old(self).clock,
            old(self).wf() ==> final(self).wf(),
            final(self).transcript_scroll == (if delta < 0 {
                if old(self).transcript_scroll + delta < 0 {
                    0
                } else {
                    old(self).transcript_scroll + delta
                }
            } else {
                let max_scroll = if old(self).transcript@.len() * 6 > usize::MAX {
                    usize::MAX as int
                } else {
                    (old(self).transcript@.len() * 6) as int
                };
                if old(self).transcript_scroll + delta < max_scroll {
                    old(self).transcript_scroll + delta
                } else {
                    max_scroll
                }
            }),
            final(self).transcript == old(self).transcript,
            final(self).status == old(self).status,
            final(self).input == old(self).input,
            final(self).input_cursor == old(self).input_cursor,
            final(self).config == old(self).config,
            final(self).history_cursor == old(self).history_cursor,
    {
        let n = self.transcript.len();
        let max_scroll: usize = if n > usize::MAX / 6 {
            usize::MAX
        } else {
            n * 6
        };
        if delta < 0 {
            let d: usize = if delta == isize::MIN {
                (isize::MAX as usize) + 1
            } else {
                (-delta) as usize
            };
            if self.transcript_scroll < d {
                self.transcript_scroll = 0;
            } else {
                self.transcript_scroll = self.transcript_scroll - d;
            }
        } else {
            let d = delta as usize;
            if self.transcript_scroll < max_scroll && d < max_scroll - self.transcript_scroll {
                self.transcript_scroll = self.transcript_scroll + d;
            } else {
                self.transcript_scroll = max_scroll;
            }
        }
    }
}

// ---------------------------------------------------------------------------
// Model selection
// ---------------------------------------------------------------------------
/// The index of the first model named `name`.
pub open spec fn model_index(models: Seq<Model>, name: Seq<char>) -> Option<int>
    decreases models.len(),
{
    if models.len() == 0 {
        None
    } else if models[0].name@ == name {
        Some(0)
    } else {
        match model_index(models.drop_first(), name) {
            Some(i) => Some(i + 1),
            None => None,
        }
    }
}

/// The index of the selected model in the list, 0 when it is not listed.
pub open spec fn current_model_index(models: Seq<Model>, selected: Option<String>) -> int {
    match selected {
        Some(n) => match model_index(models, n@) {
            Some(i) => i,
            None => 0,
        },
        None => 0,
    }
}

/// Where `model_index` points.
pub proof fn lemma_model_index(models: Seq<Model>, name: Seq<char>)
    ensures
        model_index(models, name) matches Some(i) ==> 0 <= i < models.len() && models[i].name@
            == name && forall|j: int| 0 <= j < i ==> models[j].name@ != name,
        model_index(models, name) is None ==> forall|j: int|
            0 <= j < models.len() ==> models[j].name@ != name,
    decreases models.len(),
{
    if models.len() > 0 && models[0].name@ != name {
        lemma_model_index(models.drop_first(), name);
        assert forall|j: int| 0 < j < models.len() implies models[j].name@ == models.drop_first()[j
            - 1].name@ by {}
    }
}

/// The index of the first model named `name`.
pub fn find_model(models: &Vec<Model>, name: &str) -> (r: Option<usize>)
    ensures
        match r {
            Some(i) => model_index(models@, name@) == Some(i as int),
            None => model_index(models@, name@) is None,
        },
{
    let mut i: usize = 0;
    assert(models@.skip(0) =~= models@);
    while i < models.len()
        invariant
            i <= models@.len(),
            model_index(models@, name@) == match model_index(models@.skip(i as int), name@) {
                Some(j) => Some(j + i),
                None => None,
            },
        decreases models.len() - i,
    {
        assert(models@.skip(i as int)[0] == models@[i as int]);
        if crate::text::str_eq(models[i].name.as_str(), name) {
            return Some(i);
        }
        assert(models@.skip(i as int).drop_first() =~= models@.skip(i + 1));
        i = i + 1;
    }
    None
}

impl App {
    fn current_model_position(&self) -> (r: usize)
        ensures
            r == current_model_index(self.models@, self.selected_model),
            self.models@.len() > 0 ==> r < self.models@.len(),
    {
        proof {
            if self.selected_model is Some {
                lemma_model_index(self.models@, self.selected_model->0@);
            }
        }
        match &self.selected_model {
            Some(name) => match find_model(&self.models, name.as_str()) {
                Some(i) => i,
                None => 0,
            },
            None => 0,
        }
    }

    /// Selects the model at `index` of the list; nothing happens past its end.
    pub fn select_model_index(&mut self, index: usize) -> (effects: Vec<Effect>)
        ensures
            final(self).clock == old(self).clock,
            index >= old(self).models@.len() ==> *final(self) == *old(self) && effects@.len() == 0,
            index < old(self).models@.len() ==> {
                let name = old(self).models@[index as int].name@;
                &&& final(self).selected_model matches Some(s) && s@ == name
                &&& final(self).config.selected_model matches Some(s) && s@ == name
                &&& final(self).status@ == "Selected "@ + name
                &&& effects@.len() == 1 && effects@[0] is SaveConfig
                &&& final(self).config.ollama_host == old(self).config.ollama_host
                &&& final(self).config.prompt_history == old(self).config.prompt_history
            },
            final(self).models == old(self).models,
            final(self).transcript == old(self).transcript,
            final(self).messages == old(self).messages,
            final(self).cwd == old(self).cwd,
            final(self).agents_md == old(self).agents_md,
            final(self).busy == old(self).busy,
            final(self).config.ollama_host == old(self).config.ollama_host,
            same_prompt(*final(self), *old(self)),
            old(self).wf() ==> final(self).wf(),
    {
        let mut effects: Vec<Effect> = Vec::new();
        if index < self.models.len() {
            let name = self.models[index].name.clone();
            self.selected_model = Some(name.clone());
            self.config.selected_model = Some(name.clone());
            self.status = crate::text::concat2("Selected ", name.as_str());
            effects.push(Effect::SaveConfig);
        }
        effects
    }

    /// Selects the next model of the list, after the selected one (wrapping around).
    pub fn select_next_model(&mut self) -> (effects: Vec<Effect>)
        ensures
            final(self).clock == old(self).clock,
            old(self).models@.len() == 0 ==> final(self).status@ == "No Ollama models available"@
                && effects@.len() == 0 && final(self).selected_model == old(self).selected_model,
            old(self).models@.len() > 0 ==> {
                let next = (current_model_index(old(self).models@, old(self).selected_model) + 1)
                    % (old(self).models@.len() as int);
                let name = old(self).models@[next].name@;
                &&& final(self).selected_model matches Some(s) && s@ == name
                &&& final(self).config.selected_model matches Some(s) && s@ == name
                &&& final(self).status@ == "Selected "@ + name
                &&& effects@.len() == 1 && effects@[0] is SaveConfig
            },
            final(self).models == old(self).models,
            final(self).transcript == old(self).transcript,
            final(self).messages == old(self).messages,
            final(self).input == old(self).input,
            final(self).input_cursor == old(self).input_cursor,
            final(self).config.prompt_history == old(self).config.prompt_history,
            final(self).history_cursor == old(self).history_cursor,
            old(self).wf() ==> final(self).wf(),
    {
        let len = self.models.len();
        if len == 0 {
            self.status = "No Ollama models available".to_string();
            return Vec::new();
        }
        let current = self.current_model_position();
        let next = if current + 1 == len {
            0
        } else {
            current + 1
        };
        assert(next as int == (current + 1) % (len as int)) by (nonlinear_arith)
            requires
                current < len,
                next == (if current + 1 == len {
                    0
                } else {
                    current + 1
                }),
        ;
        self.select_model_index(next)
    }

    /// Selects the model before the selected one (wrapping around).
    pub fn select_previous_model(&mut self) -> (effects: Vec<Effect>)
        ensures
            final(self).clock == old(self).clock,
            old(self).models@.len() == 0 ==> final(self).status@ == "No Ollama models available"@
                && effects@.len() == 0 && final(self).selected_model == old(self).selected_model,
            old(self).models@.len() > 0 ==> {
                let next = (current_model_index(old(self).models@, old(self).selected_model) - 1)
                    % (old(self).models@.len() as int);
                let name = old(self).models@[next].name@;
                &&& final(self).selected_model matches Some(s) && s@ == name
                &&& final(self).config.selected_model matches Some(s) && s@ == name
                &&& final(self).status@ == "Selected "@ + name
                &&& effects@.len() == 1 && effects@[0] is SaveConfig
            },
            final(self).models == old(self).models,
            final(self).transcript == old(self).transcript,
            final(self).messages == old(self).messages,
            final(self).input == old(self).input,
            final(self).input_cursor == old(self).input_cursor,
            final(self).config.prompt_history == old(self).config.prompt_history,
            final(self).history_cursor == old(self).history_cursor,
            old(self).wf() ==> final(self).wf(),
    {
        let len = self.models.len();
        if len == 0 {
            self.status = "No Ollama models available".to_string();
            return Vec::new();
        }
        let current = self.current_model_position();
        let next = if current == 0 {
            len - 1
        } else {
            current - 1
        };
        assert(next as int == (current - 1) % (len as int)) by (nonlinear_arith)
            requires
                current < len,
                next == (if current == 0 {
                    len - 1
                } else {
                    current - 1
                }),
        ;
        self.select_model_index(next)
    }
}

// ---------------------------------------------------------------------------
// Context usage
// ---------------------------------------------------------------------------
/// A rough token count: a quarter of the chars, at least one.
pub open spec fn approx_tokens(text: Seq<char>) -> nat {
    if text.len() / 4 > 1 {
        text.len() / 4
    } else {
        1
    }
}

/// Approximate tokens of `text`.
pub fn approximate_tokens(text: &str) -> (r: usize)
    ensures
        r == approx_tokens(text@),
{
    let n = chars_of(text).len();
    if n / 4 > 1 {
        n / 4
    } else {
        1
    }
}

/// Approximate tokens of a conversation: each message counts its content
/// plus four.
pub open spec fn conversation_tokens(messages: Seq<ChatMessage>) -> nat
    decreases messages.len(),
{
    if messages.len() == 0 {
        0
    } else {
        conversation_tokens(messages.drop_last()) + approx_tokens(messages.last().content@) + 4
    }
}

/// `n`, or `usize::MAX` when larger.
pub open spec fn cap_usize(n: int) -> int {
    if n > usize::MAX {
        usize::MAX as int
    } else {
        n
    }
}

/// The context window of a model, guessed from its name and parameter size.
pub open spec fn context_limit_for(lower: Seq<char>, params: Seq<char>) -> usize {
    if crate::text::contains(lower, "granite4"@) || crate::text::contains(lower, "qwen3.5"@)
        || crate::text::contains(lower, "gemma4"@) {
        32768
    } else if crate::text::contains(lower, "nemotron"@) {
        128000
    } else if crate::text::contains(params, "0.4b"@) || crate::text::contains(params, "350m"@) {
        8192
    } else if crate::text::contains(params, "0.8b"@) || crate::text::contains(params, "2b"@)
        || crate::text::contains(params, "4b"@) {
        32768
    } else {
        8192
    }
}

/// The parameter size that Ollama reports for the listed model named `name`.
pub open spec fn reported_parameter_size(models: Seq<Model>, name: Seq<char>) -> Option<Seq<char>> {
    match model_index(models, name) {
        Some(i) => match models[i].details {
            Some(d) => match d.parameter_size {
                Some(p) => Some(p@),
                None => None,
            },
            None => None,
        },
        None => None,
    }
}

/// The context window of the selected model: decided on its lower-cased
/// name and on its lower-cased parameter size (the lower-cased name when
/// Ollama reports none); `None` without a selected model.
pub open spec fn context_limit_spec(models: Seq<Model>, selected: Option<String>) -> Option<usize> {
    match selected {
        None => None,
        Some(name) => {
            let lower = crate::text::unicode_lowercase(name@);
            let params = crate::text::unicode_lowercase(
                match reported_parameter_size(models, name@) {
                    Some(p) => p,
                    None => lower,
                },
            );
            Some(context_limit_for(lower, params))
        },
    }
}

/// The context usage in percent of the window, at most 999.
pub open spec fn context_percent_spec(used: int, limit: int) -> int {
    let scaled = cap_usize(used * 100);
    if scaled / limit < 999 {
        scaled / limit
    } else {
        999
    }
}

impl App {
    /// Approximate tokens of the conversation (`usize::MAX` if larger).
    pub fn approx_context_tokens(&self) -> (r: usize)
        ensures
            r == cap_usize(conversation_tokens(self.messages@) as int),
    {
        let mut total: usize = 0;
        let mut i: usize = 0;
        assert(self.messages@.take(0) =~= Seq::<ChatMessage>::empty());
        while i < self.messages.len()
            invariant
                i <= self.messages@.len(),
                total == cap_usize(conversation_tokens(self.messages@.take(i as int)) as int),
            decreases self.messages.len() - i,
        {
            let t = approximate_tokens(self.messages[i].content.as_str());
            assert(self.messages@.take(i + 1).drop_last() =~= self.messages@.take(i as int));
            let add: usize = if t > usize::MAX - 4 {
                usize::MAX
            } else {
                t + 4
            };
            if total > usize::MAX - add {
                total = usize::MAX;
            } else {
                total = total + add;
            }
            i = i + 1;
        }
        assert(self.messages@.take(i as int) =~= self.messages@);
        total
    }

    /// The context window of the selected model.
    pub fn selected_model_context_limit(&self) -> (r: Option<usize>)
        ensures
            r == context_limit_spec(self.models@, self.selected_model),
    {
        let name = match &self.selected_model {
            Some(n) => n,
            None => {
                return None;
            },
        };
        let lower = crate::text::to_lowercase(name.as_str());
        proof {
            lemma_model_index(self.models@, name@);
        }
        let reported: Option<String> = match find_model(&self.models, name.as_str()) {
            Some(i) => match &self.models[i].details {
                Some(d) => match &d.parameter_size {
                    Some(p) => Some(p.clone()),
                    None => None,
                },
                None => None,
            },
            None => None,
        };
        let params = match &reported {
            Some(p) => crate::text::to_lowercase(p.as_str()),
            None => crate::text::to_lowercase(lower.as_str()),
        };
        let l = lower.as_str();
        let p = params.as_str();
        let limit: usize = if crate::text::str_contains(l, "granite4") || crate::text::str_contains(
            l,
            "qwen3.5",
        ) || crate::text::str_contains(l, "gemma4") {
            32768
        } else if crate::text::str_contains(l, "nemotron") {
            128000
        } else if crate::text::str_contains(p, "0.4b") || crate::text::str_contains(p, "350m") {
            8192
        } else if crate::text::str_contains(p, "0.8b") || crate::text::str_contains(p, "2b")
            || crate::text::str_contains(p, "4b") {
            32768
        } else {
            8192
        };
        Some(limit)
    }

    /// The share of the context window in use, in percent (at most 999).
    pub fn context_percent(&self) -> (r: Option<u16>)
        ensures
            match context_limit_spec(self.models@, self.selected_model) {
                None => r is None,
                Some(limit) => r == Some(
                    context_percent_spec(
                        cap_usize(conversation_tokens(self.messages@) as int),
                        limit as int,
                    ) as u16,
                ),
            },
    {
        let limit = match self.selected_model_context_limit() {
            Some(l) => l,
            None => {
                return None;
            },
        };
        let used = self.approx_context_tokens();
        let scaled: usize = if used > usize::MAX / 100 {
            usize::MAX
        } else {
            used * 100
        };
        assert(scaled == cap_usize(used * 100)) by (nonlinear_arith)
            requires
                scaled == (if used > usize::MAX / 100 {
                    usize::MAX as int
                } else {
                    used * 100
                }),
        ;
        let q = scaled / limit;
        let p: usize = if q < 999 {
            q
        } else {
            999
        };
        Some(p as u16)
    }

    /// The context line: `ctx P% ~USED/LIMIT`, or `ctx ~USED tokens`
    /// without a selected model.
    pub fn context_label(&self) -> (r: String)
        ensures
            ({
                let used = cap_usize(conversation_tokens(self.messages@) as int);
                match context_limit_spec(self.models@, self.selected_model) {
                    Some(limit) => r@ == "ctx "@ + crate::text::decimal(
                        context_percent_spec(used, limit as int) as nat,
                    ) + "% ~"@ + crate::text::decimal(used as nat) + "/"@ + crate::text::decimal(
                        limit as nat,
                    ),
                    None => r@ == "ctx ~"@ + crate::text::decimal(used as nat) + " tokens"@,
                }
            }),
    {
        let used = self.approx_context_tokens();
        let used_text = crate::text::decimal_string(used);
        match (self.context_percent(), self.selected_model_context_limit()) {
            (Some(percent), Some(limit)) => {
                let mut r = crate::text::concat3(
                    "ctx ",
                    crate::text::decimal_string(percent as usize).as_str(),
                    "% ~",
                );
                crate::text::append_str(&mut r, used_text.as_str());
                crate::text::append_str(&mut r, "/");
                crate::text::append_str(&mut r, crate::text::decimal_string(limit).as_str());
                r
            },
            _ => crate::text::concat3("ctx ~", used_text.as_str(), " tokens"),
        }
    }
}

// ---------------------------------------------------------------------------
// Thinking blocks
// ---------------------------------------------------------------------------
/// `acc` with the trimmed `piece` appended on a line of its own, unless the
/// piece is blank.
pub open spec fn add_part(acc: Seq<char>, piece: Seq<char>) -> Seq<char> {
    if crate::text::trim(piece).len() == 0 {
        acc
    } else if acc.len() > 0 {
        acc.push('\n') + crate::text::trim(piece)
    } else {
        crate::text::trim(piece)
    }
}

/// Splits `rest` into thinking and reply text, after `thinking` and
/// `assistant` were gathered: text inside `<think>`..`</think>` (or after an
/// unclosed `<think>`) is thinking, the rest is reply; each piece is trimmed,
/// blank pieces are dropped, and pieces are joined by newlines.
pub open spec fn split_from(rest: Seq<char>, thinking: Seq<char>, assistant: Seq<char>) -> (
    Seq<char>,
    Seq<char>,
)
    decreases rest.len(),
{
    match crate::text::find(rest, "<think>"@) {
        None => (thinking, add_part(assistant, rest)),
        Some(start) => {
            proof {
                crate::text::lemma_find_from(rest, "<think>"@, 0);
            }
            let a2 = add_part(assistant, rest.take(start));
            let tail = rest.skip(start + "<think>"@.len());
            match crate::text::find(tail, "</think>"@) {
                Some(end) => {
                    proof {
                        crate::text::lemma_find_from(tail, "</think>"@, 0);
                        reveal_strlit("<think>");
                        reveal_strlit("</think>");
                    }
                    split_from(
                        tail.skip(end + "</think>"@.len()),
                        add_part(thinking, tail.take(end)),
                        a2,
                    )
                },
                None => (add_part(thinking, tail), a2),
            }
        },
    }
}

/// The thinking and the reply text of a model's reply.
pub open spec fn split_thinking_spec(content: Seq<char>) -> (Seq<char>, Seq<char>) {
    split_from(content, Seq::empty(), Seq::empty())
}

fn add_part_exec(acc: &mut Vec<char>, v: &[char], a: usize, b: usize)
    requires
        a <= b <= v@.len(),
    ensures
        final(acc)@ == add_part(old(acc)@, v@.subrange(a as int, b as int)),
{
    let piece = copy_range(v, a, b);
    let (x, y) = crate::text::trim_bounds(piece.as_slice());
    if x == y {
        return;
    }
    if acc.len() > 0 {
        acc.push('\n');
    }
    let t = copy_range(piece.as_slice(), x, y);
    crate::text::append_chars(acc, t.as_slice());
}

/// Separates the `<think>` blocks of a reply from its text.
pub fn split_thinking(content: &str) -> (r: (String, String))
    ensures
        (r.0@, r.1@) == split_thinking_spec(content@),
{
    let v = chars_of(content);
    let open = chars_of("<think>");
    let close = chars_of("</think>");
    let mut thinking: Vec<char> = Vec::new();
    let mut assistant: Vec<char> = Vec::new();
    let mut pos: usize = 0;
    assert(v@.skip(0) =~= v@);
    loop
        invariant_except_break
            pos <= v@.len(),
            v@ == content@,
            open@ == "<think>"@,
            close@ == "</think>"@,
            split_thinking_spec(content@) == split_from(v@.skip(pos as int), thinking@, assistant@),
        ensures
            split_thinking_spec(content@) == (thinking@, assistant@),
        decreases v@.len() - pos,
    {
        let ghost rest = v@.skip(pos as int);
        proof {
            crate::text::lemma_find_shift(v@, open@, pos as int, 0);
            crate::text::lemma_find_from(v@, open@, pos as int);
        }
        match crate::text::find_chars(v.as_slice(), open.as_slice(), pos) {
            None => {
                assert(rest =~= v@.subrange(pos as int, v@.len() as int));
                add_part_exec(&mut assistant, v.as_slice(), pos, v.len());
                break;
            },
            Some(s) => {
                assert(rest.take(s - pos) =~= v@.subrange(pos as int, s as int));
                add_part_exec(&mut assistant, v.as_slice(), pos, s);
                assert(crate::text::matches_at(v@, open@, s as int));
                let vlen = v.len();
                let olen = open.len();
                assert(s + olen <= vlen);
                let ts = s + olen;
                assert(rest.skip(s - pos + open@.len()) =~= v@.skip(ts as int));
                let ghost tail = v@.skip(ts as int);
                proof {
                    crate::text::lemma_find_shift(v@, close@, ts as int, 0);
                    crate::text::lemma_find_from(v@, close@, ts as int);
                }
                match crate::text::find_chars(v.as_slice(), close.as_slice(), ts) {
                    Some(e) => {
                        assert(tail.take(e - ts) =~= v@.subrange(ts as int, e as int));
                        add_part_exec(&mut thinking, v.as_slice(), ts, e);
                        proof {
                            reveal_strlit("</think>");
                        }
                        assert(crate::text::matches_at(v@, close@, e as int));
                        let clen = close.len();
                        assert(e + clen <= vlen);
                        let next = e + clen;
                        assert(tail.skip(e - ts + close@.len()) =~= v@.skip(next as int));
                        pos = next;
                    },
                    None => {
                        assert(tail =~= v@.subrange(ts as int, v@.len() as int));
                        add_part_exec(&mut thinking, v.as_slice(), ts, v.len());
                        break;
                    },
                }
            },
        }
    }
    (string_from_chars(thinking.as_slice()), string_from_chars(assistant.as_slice()))
}

// ---------------------------------------------------------------------------
// Transcript
// ---------------------------------------------------------------------------
/// How a tool result is introduced to the model.
pub const TOOL_RESULT_PREFIX: &'static str = "Tool result for your previous tool call:";

/// What the model is told after a tool result.
pub const TOOL_RESULT_SUFFIX: &'static str = "Continue from this result. If ok is false, recover by using another supported tool or explain the failure.";

/// The transcript entries of a model reply: its thinking and its text, each
/// only when not blank.
pub open spec fn reply_entries(content: Seq<char>) -> Seq<(Seq<char>, Seq<char>)> {
    let parts = split_thinking_spec(content);
    (if crate::text::trim(parts.0).len() > 0 {
        seq![("thinking"@, parts.0)]
    } else {
        Seq::empty()
    }) + (if crate::text::trim(parts.1).len() > 0 {
        seq![("assistant"@, parts.1)]
    } else {
        Seq::empty()
    })
}

/// The role a saved message is shown with: `tool` for a tool result.
pub open spec fn display_role(m: ChatMessage) -> Seq<char> {
    if starts_with(m.content@, TOOL_RESULT_PREFIX@) {
        "tool"@
    } else {
        m.role@
    }
}

/// The transcript entries of a saved message: none for the system prompt,
/// the parts of a reply, else the message itself.
pub open spec fn message_entries(m: ChatMessage) -> Seq<(Seq<char>, Seq<char>)> {
    if m.role@ == "system"@ {
        Seq::empty()
    } else if display_role(m) == "assistant"@ {
        reply_entries(m.content@)
    } else {
        seq![(display_role(m), m.content@)]
    }
}

/// The transcript entries of a saved conversation.
pub open spec fn restored_entries(ms: Seq<ChatMessage>) -> Seq<(Seq<char>, Seq<char>)>
    decreases ms.len(),
{
    if ms.len() == 0 {
        Seq::empty()
    } else {
        restored_entries(ms.drop_last()) + message_entries(ms.last())
    }
}

/// `a` and `b` agree on all but the transcript and its scrolling.
pub open spec fn same_but_transcript(a: App, b: App) -> bool {
    &&& a.cwd == b.cwd
    &&& a.config == b.config
    &&& a.models == b.models
    &&& a.selected_model == b.selected_model
    &&& a.input == b.input
    &&& a.input_cursor == b.input_cursor
    &&& a.command_cursor == b.command_cursor
    &&& a.history_cursor == b.history_cursor
    &&& a.status == b.status
    &&& a.busy == b.busy
    &&& a.should_quit == b.should_quit
    &&& a.messages == b.messages
    &&& a.pending_assistant == b.pending_assistant
    &&& a.response_start == b.response_start
    &&& a.stream_role == b.stream_role
    &&& a.agents_md == b.agents_md
}

impl App {
    fn push_transcript(&mut self, role: &str, content: String)
        ensures
            final(self).clock == old(self).clock,
            keeps_stamps(old(self).transcript@, final(self).transcript@, old(self).transcript@.len() as int, old(self).clock),
            transcript_view(final(self).transcript@) == transcript_view(old(self).transcript@).push(
                (role@, content@),
            ),
            final(self).transcript_scroll == 0,
            same_but_transcript(*final(self), *old(self)),
    {
        self.transcript_scroll = 0;
        let item = TranscriptItem { role: role.to_string(), content, timestamp: self.clock };
        let ghost before = self.transcript@;
        self.transcript.push(item);
        assert(transcript_view(self.transcript@) =~= transcript_view(before).push((role@, content@)));
    }

    fn push_reply_entries(&mut self, content: &str)
        ensures
            final(self).clock == old(self).clock,
            keeps_stamps(old(self).transcript@, final(self).transcript@, old(self).transcript@.len() as int, old(self).clock),
            transcript_view(final(self).transcript@) == transcript_view(old(self).transcript@)
                + reply_entries(content@),
            final(self).transcript_scroll == 0 || final(self).transcript_scroll == old(
                self,
            ).transcript_scroll,
            reply_entries(content@).len() > 0 ==> final(self).transcript_scroll == 0,
            same_but_transcript(*final(self), *old(self)),
    {
        let (thinking, assistant) = split_thinking(content);
        let ghost before = transcript_view(self.transcript@);
        let tv = chars_of(thinking.as_str());
        let av = chars_of(assistant.as_str());
        let t_blank = crate::text::is_blank(tv.as_slice());
        let a_blank = crate::text::is_blank(av.as_slice());
        if !t_blank {
            self.push_transcript("thinking", thinking);
        }
        if !a_blank {
            self.push_transcript("assistant", assistant);
        }
        assert(transcript_view(self.transcript@) =~= before + reply_entries(content@));
    }

    /// Shows the saved conversation in the transcript.
    fn restore_transcript_from_messages(&mut self)
        ensures
            keeps_stamps(old(self).transcript@, final(self).transcript@, old(self).transcript@.len() as int, old(self).clock),
            final(self).clock == old(self).clock,
            transcript_view(final(self).transcript@) == transcript_view(old(self).transcript@)
                + restored_entries(old(self).messages@),
            final(self).transcript@.len() > 0 ==> final(self).status@ == "Restored "@
                + crate::text::decimal(final(self).transcript@.len()) + " conversation messages"@,
            final(self).transcript@.len() == 0 ==> final(self).status == old(self).status,
            final(self).cwd == old(self).cwd,
            final(self).messages == old(self).messages,
            final(self).input == old(self).input,
            final(self).input_cursor == old(self).input_cursor,
            final(self).history_cursor == old(self).history_cursor,
            final(self).config == old(self).config,
            final(self).models == old(self).models,
            final(self).selected_model == old(self).selected_model,
            final(self).agents_md == old(self).agents_md,
            final(self).busy == old(self).busy,
    {
        let ghost start = transcript_view(self.transcript@);
        let mut i: usize = 0;
        assert(self.messages@.take(0) =~= Seq::<ChatMessage>::empty());
        while i < self.messages.len()
            invariant
                i <= self.messages@.len(),
                self.messages == old(self).messages,
                self.cwd == old(self).cwd,
                self.input == old(self).input,
                self.input_cursor == old(self).input_cursor,
                self.history_cursor == old(self).history_cursor,
                self.config == old(self).config,
                self.models == old(self).models,
                self.selected_model == old(self).selected_model,
                self.agents_md == old(self).agents_md,
                self.busy == old(self).busy,
                self.clock == old(self).clock,
                keeps_stamps(old(self).transcript@, self.transcript@, old(self).transcript@.len() as int, old(self).clock),
                self.status == old(self).status,
                transcript_view(self.transcript@) == start + restored_entries(
                    self.messages@.take(i as int),
                ),
            decreases self.messages.len() - i,
        {
            let m = &self.messages[i];
            let ghost mv = self.messages@[i as int];
            assert(self.messages@.take(i + 1).drop_last() =~= self.messages@.take(i as int));
            assert(self.messages@.take(i + 1).last() == mv);
            let ghost before = transcript_view(self.transcript@);
            if !crate::text::str_eq(m.role.as_str(), "system") {
                let is_tool = crate::text::str_starts_with(m.content.as_str(), TOOL_RESULT_PREFIX);
                let content = m.content.clone();
                if is_tool {
                    assert(display_role(mv) == "tool"@);
                    proof {
                        reveal_strlit("tool");
                        reveal_strlit("assistant");
                    }
                    self.push_transcript("tool", content);
                    assert(transcript_view(self.transcript@) =~= before + seq![("tool"@, mv.content@)]);
                } else if crate::text::str_eq(m.role.as_str(), "assistant") {
                    assert(display_role(mv) == "assistant"@);
                    self.push_reply_entries(content.as_str());
                } else {
                    let role = m.role.clone();
                    assert(display_role(mv) == m.role@);
                    self.push_transcript(role.as_str(), content);
                    assert(transcript_view(self.transcript@) =~= before + seq![(mv.role@, mv.content@)]);
                }
            } else {
                assert(transcript_view(self.transcript@) =~= before + Seq::<(Seq<char>, Seq<char>)>::empty());
            }
            assert(transcript_view(self.transcript@) =~= before + message_entries(mv));
            i = i + 1;
        }
        assert(self.messages@.take(i as int) =~= self.messages@);
        let n = self.transcript.len();
        if n > 0 {
            self.status = crate::text::concat3(
                "Restored ",
                crate::text::decimal_string(n).as_str(),
                " conversation messages",
            );
        }
    }

    fn report_agents_status(&mut self)
        ensures
            keeps_stamps(old(self).transcript@, final(self).transcript@, old(self).transcript@.len() as int, old(self).clock),
            final(self).clock == old(self).clock,
            transcript_view(final(self).transcript@) == transcript_view(old(self).transcript@).push(
                (
                    "system"@,
                    if old(self).agents_md is Some {
                        "Loaded AGENTS.md instructions."@
                    } else {
                        "No AGENTS.md found. Run /init to create one."@
                    },
                ),
            ),
            same_but_transcript(*final(self), *old(self)),
    {
        if self.agents_md.is_some() {
            self.push_transcript("system", "Loaded AGENTS.md instructions.".to_string());
        } else {
            self.push_transcript(
                "system",
                "No AGENTS.md found. Run /init to create one.".to_string(),
            );
        }
    }

    /// Starts loading the model list.
    pub fn refresh_models(&mut self) -> (effect: Effect)
        ensures
            final(self).clock == old(self).clock,
            old(self).wf() ==> final(self).wf(),
            final(self).status@ == "Refreshing Ollama models"@,
            effect is RefreshModels,
            final(self).cwd == old(self).cwd,
            final(self).transcript == old(self).transcript,
            final(self).messages == old(self).messages,
            final(self).input == old(self).input,
            final(self).input_cursor == old(self).input_cursor,
            final(self).history_cursor == old(self).history_cursor,
            final(self).config == old(self).config,
            final(self).models == old(self).models,
            final(self).selected_model == old(self).selected_model,
            final(self).busy == old(self).busy,
            final(self).agents_md == old(self).agents_md,
    {
        self.status = "Refreshing Ollama models".to_string();
        Effect::RefreshModels
    }

    /// The agent for workspace `cwd`, with the AGENTS.md text found there and
    /// the saved conversation `restored`; it asks for the model list.
    pub fn new(
        cwd: String,
        config: Config,
        agents_md: Option<String>,
        restored: Vec<ChatMessage>,
        clock: i64,
    ) -> (r: (
        App,
        Vec<Effect>,
    ))
        ensures
            r.0.clock == clock,
            forall|k: int| 0 <= k < r.0.transcript@.len() ==> #[trigger] r.0.transcript@[k].timestamp == clock,
            system_first(r.0.messages@),
            r.0.messages@.len() >= 1,
            r.0.messages@[0].role@ == "system"@,
            r.0.messages@[0].content@ == crate::ollama::system_prompt_text(
                match agents_md {
                    Some(a) => Some(a@),
                    None => None,
                },
            ),
            r.0.messages@.drop_first() == restored@.filter(|m: ChatMessage| m.role@ != "system"@),
            transcript_view(r.0.transcript@) == restored_entries(r.0.messages@).push(
                (
                    "system"@,
                    if agents_md is Some {
                        "Loaded AGENTS.md instructions."@
                    } else {
                        "No AGENTS.md found. Run /init to create one."@
                    },
                ),
            ),
            r.0.status@ == "Refreshing Ollama models"@,
            r.0.cwd == cwd,
            r.0.config == config,
            r.0.agents_md == agents_md,
            r.0.selected_model == config.selected_model,
            r.0.models@.len() == 0,
            r.0.input@.len() == 0,
            r.0.wf(),
            !r.0.busy,
            r.1@.len() == 1 && r.1@[0] is RefreshModels,
    {
        let mut app = App::blank(cwd, config);
        app.clock = clock;
        let system = match &agents_md {
            Some(a) => crate::ollama::system_prompt(Some(a.as_str())),
            None => crate::ollama::system_prompt(None),
        };
        let mut messages: Vec<ChatMessage> = Vec::new();
        messages.push(system);
        let mut rest = restored;
        let ghost all = rest@;
        let ghost keep = |m: ChatMessage| m.role@ != "system"@;
        assert(all.take(0).filter(keep) =~= Seq::<ChatMessage>::empty()) by {
            reveal_with_fuel(Seq::<ChatMessage>::filter, 1);
        }
        assert(messages@.drop_first() =~= Seq::<ChatMessage>::empty());
        assert(all.skip(0) =~= all);
        while rest.len() > 0
            invariant
                rest@.len() <= all.len(),
                rest@ == all.skip(all.len() - rest@.len()),
                keep == (|m: ChatMessage| m.role@ != "system"@),
                messages@.len() >= 1,
                messages@[0] == system,
                messages@.drop_first() == all.take(all.len() - rest@.len()).filter(keep),
            decreases rest.len(),
        {
            let ghost i = all.len() - rest@.len();
            let m = rest.remove(0);
            assert(m == all[i]);
            assert(rest@ =~= all.skip(i + 1));
            proof {
                reveal_with_fuel(Seq::<ChatMessage>::filter, 1);
                assert(all.take(i + 1).drop_last() =~= all.take(i));
            }
            let ghost before = messages@;
            if !crate::text::str_eq(m.role.as_str(), "system") {
                messages.push(m);
                assert(messages@.drop_first() =~= before.drop_first().push(all[i]));
            }
        }
        assert(all.take(all.len() as int) =~= all);
        app.messages = messages;
        app.agents_md = agents_md;
        app.status = "Loading Ollama models".to_string();
        app.restore_transcript_from_messages();
        let effect = app.refresh_models();
        app.report_agents_status();
        let mut effects: Vec<Effect> = Vec::new();
        effects.push(effect);
        (app, effects)
    }
}

// ---------------------------------------------------------------------------
// Slash commands
// ---------------------------------------------------------------------------
/// What `/tools` shows.
pub const TOOLS_HELP: &'static str = "Model tools:
bash { command } - run a shell command
read { path } - read a file
write { path, content } - write a full file
edit { path, old, new } - replace exact text once
list { path } - list a directory
search { query, path? } - search text with rg
patch { patch } - apply an apply_patch-style patch

Core tools guaranteed here: bash, read, write, edit.";

/// What `/help` shows: a heading, then `usage - description` per command.
pub open spec fn help_text() -> Seq<char> {
    crate::text::join(
        seq!["Commands:"@] + command_table().map_values(|c: CommandModel| c.1 + " - "@ + c.2),
        "\n"@,
    )
}

/// The line of `/models` for one model: marked with `> ` when selected.
pub open spec fn model_line(m: Model, selected: Option<String>) -> Seq<char> {
    (if selected matches Some(s) && s@ == m.name@ {
        "> "@
    } else {
        "  "@
    }) + m.name@
}

/// What `/models` shows.
pub open spec fn models_listing(models: Seq<Model>, selected: Option<String>) -> Seq<char> {
    if models.len() == 0 {
        "No models loaded. Run Ctrl+M to refresh Ollama models."@
    } else {
        crate::text::join(models.map_values(|m: Model| model_line(m, selected)), "\n"@)
    }
}

/// Number of messages that are not the system prompt.
pub open spec fn non_system_count(ms: Seq<ChatMessage>) -> nat
    decreases ms.len(),
{
    if ms.len() == 0 {
        0
    } else {
        non_system_count(ms.drop_last()) + if ms.last().role@ == "system"@ {
            0nat
        } else {
            1nat
        }
    }
}

/// The context line of the state `a`.
pub open spec fn context_label_spec(a: App) -> Seq<char> {
    let used = cap_usize(conversation_tokens(a.messages@) as int);
    match context_limit_spec(a.models@, a.selected_model) {
        Some(limit) => "ctx "@ + crate::text::decimal(context_percent_spec(used, limit as int) as nat)
            + "% ~"@ + crate::text::decimal(used as nat) + "/"@ + crate::text::decimal(limit as nat),
        None => "ctx ~"@ + crate::text::decimal(used as nat) + " tokens"@,
    }
}

/// What `/context` shows.
pub open spec fn context_status_text(a: App) -> Seq<char> {
    context_label_spec(a) + "\n"@ + crate::text::decimal(non_system_count(a.messages@))
        + " persisted conversation messages"@
}

/// The name of a command line: its first word (empty when it has none).
pub open spec fn command_name(cmd: Seq<char>) -> Seq<char> {
    if words(cmd).len() > 0 {
        words(cmd)[0]
    } else {
        Seq::empty()
    }
}

/// The argument of a command line: its other words joined by spaces.
pub open spec fn command_args(cmd: Seq<char>) -> Seq<char> {
    if words(cmd).len() > 1 {
        crate::text::join(words(cmd).skip(1), " "@)
    } else {
        Seq::empty()
    }
}

/// What `/model NAME` shows.
pub open spec fn model_output(models: Seq<Model>, args: Seq<char>) -> Seq<char> {
    if crate::text::trim(args).len() == 0 {
        "Usage: /model <exact model name>"@
    } else if model_index(models, args) is Some {
        "Selected "@ + args
    } else {
        "Model `"@ + args + "` is not loaded. Run /models to see available models."@
    }
}

/// `/model NAME` selects a model: the name is not blank and is listed.
pub open spec fn model_command_selects(models: Seq<Model>, args: Seq<char>) -> bool {
    crate::text::trim(args).len() > 0 && model_index(models, args) is Some
}

/// What a command that answers at once shows, in the state `b`.
pub open spec fn command_output(b: App, name: Seq<char>, args: Seq<char>) -> Seq<char> {
    if name == "/help"@ || name == "/"@ {
        help_text()
    } else if name == "/tools"@ {
        TOOLS_HELP@
    } else if name == "/model"@ {
        model_output(b.models@, args)
    } else if name == "/models"@ {
        models_listing(b.models@, b.selected_model)
    } else if name == "/bash"@ {
        "Running bash command"@
    } else if name == "/read"@ {
        "Reading file"@
    } else if name == "/context"@ {
        context_status_text(b)
    } else if name == "/pwd"@ {
        b.cwd@
    } else {
        "Unknown command `"@ + name + "`. Run /help for commands."@
    }
}

/// The status line after showing `out`: its first line.
pub open spec fn status_after(out: Seq<char>) -> Seq<char> {
    crate::text::first_line_or(out, "Command complete"@)
}

/// What running the command line `cmd` in state `b` gives in state `a`,
/// asking for `effects`. The command line is shown first; `/init` and
/// `/agents` wait for their file work; `/clear` empties the transcript and
/// the conversation but for the system prompt; the others show their
/// output and take its first line as status.
pub open spec fn handled_command(b: App, a: App, cmd: Seq<char>, effects: Seq<Effect>) -> bool {
    let name = command_name(cmd);
    let args = command_args(cmd);
    let shown = transcript_view(b.transcript@).push(("command"@, cmd));
    &&& a.cwd == b.cwd
    &&& a.models == b.models
    &&& a.busy == b.busy
    &&& a.config.ollama_host == b.config.ollama_host
    &&& if name == "/clear"@ {
        &&& a.transcript@.len() == 0
        &&& a.messages@ == b.messages@.take(if b.messages@.len() > 0 { 1int } else { 0int })
        &&& a.status@ == "Transcript cleared"@
        &&& effects.len() == 1 && effects[0] is ClearConversation
        &&& a.selected_model == b.selected_model
        &&& a.config.selected_model == b.config.selected_model
        &&& a.agents_md == b.agents_md
    } else if name == "/init"@ || name == "/agents"@ {
        &&& transcript_view(a.transcript@) == shown
        &&& a.status == b.status
        &&& a.messages == b.messages
        &&& effects.len() == 1
        &&& if name == "/init"@ {
            effects[0] is InitAgents
        } else {
            effects[0] is ReloadAgents
        }
        &&& a.selected_model == b.selected_model
        &&& a.config.selected_model == b.config.selected_model
        &&& a.agents_md == b.agents_md
    } else {
        let out = command_output(b, name, args);
        let unchanged_selection = a.selected_model == b.selected_model && a.config.selected_model
            == b.config.selected_model;
        &&& transcript_view(a.transcript@) == shown.push(("system"@, out))
        &&& a.status@ == status_after(out)
        &&& a.messages == b.messages
        &&& a.agents_md == b.agents_md
        &&& if name == "/help"@ || name == "/"@ || name == "/tools"@ {
            effects.len() == 0 && unchanged_selection
        } else if name == "/model"@ {
            if model_command_selects(b.models@, args) {
                &&& a.selected_model matches Some(s) && s@ == args
                &&& a.config.selected_model matches Some(s) && s@ == args
                &&& effects.len() == 1 && effects[0] is SaveConfig
            } else {
                effects.len() == 0 && unchanged_selection
            }
        } else if name == "/models"@ {
            effects.len() == 0 && unchanged_selection
        } else if name == "/bash"@ {
            &&& unchanged_selection
            &&& effects.len() == 1
            &&& effects[0] matches Effect::RunTool { call, from_command }
            &&& from_command
            &&& call@ == crate::tools::ToolCallModel::Bash { command: args }
        } else if name == "/read"@ {
            &&& unchanged_selection
            &&& effects.len() == 1
            &&& effects[0] matches Effect::RunTool { call, from_command }
            &&& from_command
            &&& call@ == crate::tools::ToolCallModel::Read { path: args }
        } else {
            effects.len() == 0 && unchanged_selection
        }
    }
}

/// The first line of `s`, or `default` when it has none.
pub fn first_line(s: &str, default: &str) -> (r: String)
    ensures
        r@ == crate::text::first_line_or(s@, default@),
{
    let v = chars_of(s);
    let b = crate::text::line_bounds(v.as_slice());
    if b.len() > 0 {
        let (x, y) = b[0];
        assert(x == b@[0].0 && y == b@[0].1);
        crate::text::string_from_range(v.as_slice(), x, y)
    } else {
        default.to_string()
    }
}

impl App {
    /// What `/help` shows.
    pub fn command_help(&self) -> (r: String)
        ensures
            r@ == help_text(),
    {
        let all = commands();
        let mut lines: Vec<String> = Vec::new();
        lines.push("Commands:".to_string());
        let ghost table = command_table();
        let ghost f = |c: CommandModel| c.1 + " - "@ + c.2;
        let mut i: usize = 0;
        assert(lines@.map_values(|l: String| l@) =~= seq!["Commands:"@] + table.take(0).map_values(f));
        while i < all.len()
            invariant
                i <= all@.len(),
                commands_view(all@) == table,
                table == command_table(),
                f == (|c: CommandModel| c.1 + " - "@ + c.2),
                lines@.map_values(|l: String| l@) == seq!["Commands:"@] + table.take(i as int).map_values(
                    f,
                ),
            decreases all.len() - i,
        {
            let c = all[i];
            assert(table[i as int] == c.model());
            let line = crate::text::concat3(c.usage, " - ", c.description);
            let ghost before = lines@;
            lines.push(line);
            assert(table.take(i + 1).map_values(f) =~= table.take(i as int).map_values(f).push(
                f(table[i as int]),
            ));
            assert(lines@.map_values(|l: String| l@) =~= before.map_values(|l: String| l@).push(
                line@,
            ));
            i = i + 1;
        }
        assert(table.take(i as int) =~= table);
        crate::text::join_strings(&lines, "\n")
    }

    /// What `/tools` shows.
    pub fn command_tools(&self) -> (r: String)
        ensures
            r@ == TOOLS_HELP@,
    {
        TOOLS_HELP.to_string()
    }

    /// What `/models` shows.
    pub fn command_models(&self) -> (r: String)
        ensures
            r@ == models_listing(self.models@, self.selected_model),
    {
        if self.models.len() == 0 {
            return "No models loaded. Run Ctrl+M to refresh Ollama models.".to_string();
        }
        let ghost f = |m: Model| model_line(m, self.selected_model);
        let mut lines: Vec<String> = Vec::new();
        let mut i: usize = 0;
        assert(lines@.map_values(|l: String| l@) =~= self.models@.take(0).map_values(f));
        while i < self.models.len()
            invariant
                i <= self.models@.len(),
                f == (|m: Model| model_line(m, self.selected_model)),
                lines@.map_values(|l: String| l@) == self.models@.take(i as int).map_values(f),
            decreases self.models.len() - i,
        {
            let m = &self.models[i];
            let selected = match &self.selected_model {
                Some(s) => crate::text::str_eq(s.as_str(), m.name.as_str()),
                None => false,
            };
            let line = if selected {
                crate::text::concat2("> ", m.name.as_str())
            } else {
                crate::text::concat2("  ", m.name.as_str())
            };
            let ghost before = lines@;
            lines.push(line);
            assert(self.models@.take(i + 1).map_values(f) =~= self.models@.take(i as int).map_values(
                f,
            ).push(f(self.models@[i as int])));
            assert(lines@.map_values(|l: String| l@) =~= before.map_values(|l: String| l@).push(
                line@,
            ));
            i = i + 1;
        }
        assert(self.models@.take(i as int) =~= self.models@);
        crate::text::join_strings(&lines, "\n")
    }

    /// What `/context` shows.
    pub fn context_status(&self) -> (r: String)
        ensures
            r@ == context_status_text(*self),
    {
        let label = self.context_label();
        let mut count: usize = 0;
        let mut i: usize = 0;
        assert(self.messages@.take(0) =~= Seq::<ChatMessage>::empty());
        while i < self.messages.len()
            invariant
                i <= self.messages@.len(),
                count == non_system_count(self.messages@.take(i as int)),
                count <= i,
            decreases self.messages.len() - i,
        {
            assert(self.messages@.take(i + 1).drop_last() =~= self.messages@.take(i as int));
            if !crate::text::str_eq(self.messages[i].role.as_str(), "system") {
                count = count + 1;
            }
            i = i + 1;
        }
        assert(self.messages@.take(i as int) =~= self.messages@);
        let mut r = crate::text::concat3(label.as_str(), "\n", crate::text::decimal_string(count).as_str());
        crate::text::append_str(&mut r, " persisted conversation messages");
        r
    }
}

/// `a` and `b` agree on the prompt line, its cursors and the history.
pub open spec fn same_prompt(a: App, b: App) -> bool {
    &&& a.input == b.input
    &&& a.input_cursor == b.input_cursor
    &&& a.command_cursor == b.command_cursor
    &&& a.history_cursor == b.history_cursor
    &&& a.config.prompt_history == b.config.prompt_history
    &&& a.should_quit == b.should_quit
    &&& a.pending_assistant == b.pending_assistant
    &&& a.response_start == b.response_start
    &&& a.stream_role == b.stream_role
}

fn words_after_first(ws: &Vec<String>) -> (r: Vec<String>)
    ensures
        ws@.len() > 0 ==> r@.map_values(|w: String| w@) == ws@.map_values(|w: String| w@).skip(1),
        ws@.len() == 0 ==> r@.len() == 0,
{
    let mut r: Vec<String> = Vec::new();
    if ws.len() == 0 {
        return r;
    }
    let ghost wv = ws@.map_values(|w: String| w@);
    let mut i: usize = 1;
    assert(r@.map_values(|w: String| w@) =~= wv.subrange(1, 1));
    while i < ws.len()
        invariant
            1 <= i <= ws@.len(),
            wv == ws@.map_values(|w: String| w@),
            r@.map_values(|w: String| w@) == wv.subrange(1, i as int),
        decreases ws.len() - i,
    {
        let ghost before = r@;
        r.push(ws[i].clone());
        assert(r@.map_values(|w: String| w@) =~= before.map_values(|w: String| w@).push(wv[i as int]));
        assert(wv.subrange(1, i + 1) =~= wv.subrange(1, i as int).push(wv[i as int]));
        i = i + 1;
    }
    assert(wv.subrange(1, i as int) =~= wv.skip(1));
    r
}

impl App {
    fn command_model(&mut self, model: &str) -> (r: (String, Vec<Effect>))
        ensures
            final(self).clock == old(self).clock,
            r.0@ == model_output(old(self).models@, model@),
            ({
                let selects = model_command_selects(old(self).models@, model@);
                &&& (selects ==> {
                    &&& final(self).selected_model matches Some(s) && s@ == model@
                    &&& final(self).config.selected_model matches Some(s) && s@ == model@
                    &&& r.1@.len() == 1 && r.1@[0] is SaveConfig
                })
                &&& (!selects ==> final(self).selected_model == old(self).selected_model
                    && final(self).config.selected_model == old(self).config.selected_model
                    && r.1@.len() == 0)
            }),
            final(self).cwd == old(self).cwd,
            final(self).models == old(self).models,
            final(self).transcript == old(self).transcript,
            final(self).messages == old(self).messages,
            final(self).agents_md == old(self).agents_md,
            final(self).busy == old(self).busy,
            final(self).config.ollama_host == old(self).config.ollama_host,
            same_prompt(*final(self), *old(self)),
    {
        let mv = chars_of(model);
        if crate::text::is_blank(mv.as_slice()) {
            return ("Usage: /model <exact model name>".to_string(), Vec::new());
        }
        proof {
            lemma_model_index(self.models@, model@);
        }
        match find_model(&self.models, model) {
            Some(i) => {
                let effects = self.select_model_index(i);
                (crate::text::concat2("Selected ", model), effects)
            },
            None => (
                crate::text::concat3(
                    "Model `",
                    model,
                    "` is not loaded. Run /models to see available models.",
                ),
                Vec::new(),
            ),
        }
    }

    fn show_output(&mut self, out: String)
        ensures
            final(self).clock == old(self).clock,
            keeps_stamps(old(self).transcript@, final(self).transcript@, old(self).transcript@.len() as int, old(self).clock),
            transcript_view(final(self).transcript@) == transcript_view(old(self).transcript@).push(
                ("system"@, out@),
            ),
            final(self).status@ == status_after(out@),
            final(self).transcript_scroll == 0,
            final(self).cwd == old(self).cwd,
            final(self).config == old(self).config,
            final(self).models == old(self).models,
            final(self).selected_model == old(self).selected_model,
            final(self).busy == old(self).busy,
            final(self).messages == old(self).messages,
            final(self).agents_md == old(self).agents_md,
            same_prompt(*final(self), *old(self)),
    {
        let status = first_line(out.as_str(), "Command complete");
        self.push_transcript("system", out);
        self.status = status;
    }

    /// Runs the command line `command`.
    pub fn handle_command(&mut self, command: &str) -> (effects: Vec<Effect>)
        ensures
            final(self).clock == old(self).clock,
            final(self).transcript@.len() > 0 ==> keeps_stamps(old(self).transcript@, final(self).transcript@, old(self).transcript@.len() as int, old(self).clock),
            system_first(old(self).messages@) ==> system_first(final(self).messages@),
            old(self).wf() ==> final(self).wf(),
            handled_command(*old(self), *final(self), command@, effects@),
            same_prompt(*final(self), *old(self)),
    {
        let ghost b = *self;
        self.push_transcript("command", command.to_string());
        let cv = chars_of(command);
        let ws = crate::text::split_words(cv.as_slice());
        let name: String = if ws.len() > 0 {
            ws[0].clone()
        } else {
            String::new()
        };
        let rest = words_after_first(&ws);
        let args = crate::text::join_strings(&rest, " ");
        assert(name@ == command_name(command@));
        assert(args@ == command_args(command@)) by {
            if ws@.len() <= 1 {
                assert(rest@.map_values(|w: String| w@) =~= Seq::<Seq<char>>::empty());
            }
        }
        let n = name.as_str();
        let mut effects: Vec<Effect> = Vec::new();
        if crate::text::str_eq(n, "/clear") {
            self.transcript = Vec::new();
            self.messages.truncate(1);
            assert(self.messages@ =~= b.messages@.take(if b.messages@.len() > 0 { 1int } else { 0int }));
            self.status = "Transcript cleared".to_string();
            effects.push(Effect::ClearConversation);
            return effects;
        }
        if crate::text::str_eq(n, "/init") {
            effects.push(Effect::InitAgents);
            return effects;
        }
        if crate::text::str_eq(n, "/agents") {
            effects.push(Effect::ReloadAgents);
            return effects;
        }
        let out = if crate::text::str_eq(n, "/help") || crate::text::str_eq(n, "/") {
            self.command_help()
        } else if crate::text::str_eq(n, "/tools") {
            self.command_tools()
        } else if crate::text::str_eq(n, "/model") {
            let (out, e) = self.command_model(args.as_str());
            effects = e;
            out
        } else if crate::text::str_eq(n, "/models") {
            self.command_models()
        } else if crate::text::str_eq(n, "/bash") {
            effects.push(
                Effect::RunTool {
                    call: crate::tools::ToolCall::Bash { command: args.clone() },
                    from_command: true,
                },
            );
            "Running bash command".to_string()
        } else if crate::text::str_eq(n, "/read") {
            effects.push(
                Effect::RunTool {
                    call: crate::tools::ToolCall::Read { path: args.clone() },
                    from_command: true,
                },
            );
            "Reading file".to_string()
        } else if crate::text::str_eq(n, "/context") {
            self.context_status()
        } else if crate::text::str_eq(n, "/pwd") {
            self.cwd.clone()
        } else {
            crate::text::concat3("Unknown command `", n, "`. Run /help for commands.")
        };
        assert(out@ == command_output(b, name@, args@));
        self.show_output(out);
        effects
    }
}

// ---------------------------------------------------------------------------
// AGENTS.md, completion, prompts
// ---------------------------------------------------------------------------
/// What `/agents` shows once AGENTS.md was read again.
pub open spec fn agents_output(agents_md: Option<String>) -> Seq<char> {
    match agents_md {
        Some(c) => "Loaded AGENTS.md ("@ + crate::text::decimal(utf8_len(c@))
            + " bytes). Its instructions are included in future prompts."@,
        None => "No AGENTS.md found. Run /init to create one."@,
    }
}

/// The prompt completes to a suggested command: it is a command, its first
/// word is no full command name, and some command is suggested.
pub open spec fn completes(a: App) -> bool {
    let p = command_prefix(a.input@);
    &&& starts_with(a.input@, "/"@)
    &&& !(exists|i: int| 0 <= i < command_table().len() && #[trigger] command_table()[i].0 == p)
    &&& clamped_command_cursor(a.command_cursor, a.input@) < suggestions_for(a.input@).len()
}

/// The prompt history after adding `p`: at most the newest hundred prompts.
pub open spec fn history_after(h: Seq<Seq<char>>, p: Seq<char>) -> Seq<Seq<char>> {
    if h.len() + 1 > 100 {
        h.push(p).drop_first()
    } else {
        h.push(p)
    }
}

/// The view of the prompt history.
pub open spec fn history_view(h: Seq<String>) -> Seq<Seq<char>> {
    h.map_values(|p: String| p@)
}

impl App {
    fn reload_agents(&mut self, loaded: Option<String>) -> (effect: Effect)
        ensures
            final(self).clock == old(self).clock,
            effect is SaveConversation,
            final(self).agents_md == loaded,
            final(self).messages@.len() == old(self).messages@.len(),
            old(self).messages@.len() > 0 ==> final(self).messages@.drop_first() == old(
                self,
            ).messages@.drop_first() && final(self).messages@[0].role@ == "system"@
                && final(self).messages@[0].content@ == crate::ollama::system_prompt_text(
                match loaded {
                    Some(a) => Some(a@),
                    None => None,
                },
            ),
            old(self).messages@.len() == 0 ==> final(self).messages == old(self).messages,
            final(self).transcript == old(self).transcript,
            final(self).status == old(self).status,
            final(self).cwd == old(self).cwd,
            final(self).config == old(self).config,
            final(self).models == old(self).models,
            final(self).selected_model == old(self).selected_model,
            final(self).busy == old(self).busy,
            same_prompt(*final(self), *old(self)),
    {
        let system = match &loaded {
            Some(a) => crate::ollama::system_prompt(Some(a.as_str())),
            None => crate::ollama::system_prompt(None),
        };
        self.agents_md = loaded;
        if self.messages.len() > 0 {
            let ghost before = self.messages@;
            self.messages.set(0, system);
            assert(self.messages@.drop_first() =~= before.drop_first());
        }
        Effect::SaveConversation
    }

    /// Finishes `/init` once AGENTS.md was written (`Ok` with its path as
    /// shown) or not (`Err` with the reason); `loaded` is the text read
    /// back after a successful write.
    pub fn finish_init(&mut self, result: Result<String, String>, loaded: Option<String>) -> (effects:
        Vec<Effect>)
        ensures
            final(self).clock == old(self).clock,
            keeps_stamps(old(self).transcript@, final(self).transcript@, old(self).transcript@.len() as int, old(self).clock),
            system_first(old(self).messages@) ==> system_first(final(self).messages@),
            old(self).wf() ==> final(self).wf(),
            ({
                let out = match result {
                    Ok(p) => "Created "@ + p@,
                    Err(e) => e@,
                };
                &&& transcript_view(final(self).transcript@) == transcript_view(
                    old(self).transcript@,
                ).push(("system"@, out))
                &&& final(self).status@ == status_after(out)
            }),
            result is Ok ==> final(self).agents_md == loaded && effects@.len() == 1
                && effects@[0] is SaveConversation && final(self).messages@.len() == old(
                self,
            ).messages@.len(),
            result is Err ==> final(self).agents_md == old(self).agents_md && effects@.len() == 0
                && final(self).messages == old(self).messages,
            final(self).cwd == old(self).cwd,
            final(self).config == old(self).config,
            final(self).models == old(self).models,
            final(self).selected_model == old(self).selected_model,
            final(self).busy == old(self).busy,
            same_prompt(*final(self), *old(self)),
    {
        let mut effects: Vec<Effect> = Vec::new();
        let out = match result {
            Ok(path) => {
                let e = self.reload_agents(loaded);
                effects.push(e);
                crate::text::concat2("Created ", path.as_str())
            },
            Err(error) => error,
        };
        self.show_output(out);
        effects
    }

    /// Finishes `/agents` once AGENTS.md was read again (`loaded`).
    pub fn finish_agents(&mut self, loaded: Option<String>) -> (effects: Vec<Effect>)
        ensures
            final(self).clock == old(self).clock,
            keeps_stamps(old(self).transcript@, final(self).transcript@, old(self).transcript@.len() as int, old(self).clock),
            system_first(old(self).messages@) ==> system_first(final(self).messages@),
            old(self).wf() ==> final(self).wf(),
            final(self).agents_md == loaded,
            transcript_view(final(self).transcript@) == transcript_view(old(self).transcript@).push(
                ("system"@, agents_output(loaded)),
            ),
            final(self).status@ == status_after(agents_output(loaded)),
            effects@.len() == 1 && effects@[0] is SaveConversation,
            final(self).messages@.len() == old(self).messages@.len(),
            final(self).cwd == old(self).cwd,
            final(self).config == old(self).config,
            final(self).models == old(self).models,
            final(self).selected_model == old(self).selected_model,
            final(self).busy == old(self).busy,
            same_prompt(*final(self), *old(self)),
    {
        let e = self.reload_agents(loaded);
        let out = match &self.agents_md {
            Some(content) => {
                let n = string_len(content);
                crate::text::concat3(
                    "Loaded AGENTS.md (",
                    crate::text::decimal_string(n).as_str(),
                    " bytes). Its instructions are included in future prompts.",
                )
            },
            None => "No AGENTS.md found. Run /init to create one.".to_string(),
        };
        self.show_output(out);
        let mut effects: Vec<Effect> = Vec::new();
        effects.push(e);
        effects
    }

    /// Completes the prompt to the highlighted suggestion, when it is a
    /// partial command; says whether it did.
    pub fn complete_selected_command(&mut self) -> (r: bool)
        ensures
            final(self).clock == old(self).clock,
            old(self).wf() ==> final(self).wf(),
            r == completes(*old(self)),
            !r ==> *final(self) == *old(self),
            r ==> {
                let name = suggestions_for(old(self).input@)[clamped_command_cursor(
                    old(self).command_cursor,
                    old(self).input@,
                ) as int].0;
                &&& final(self).input@ == name + " "@
                &&& final(self).input_cursor == utf8_len(final(self).input@)
                &&& final(self).command_cursor == 0
                &&& final(self).status@ == "Completed "@ + name
                &&& final(self).history_cursor == old(self).history_cursor
                &&& final(self).transcript == old(self).transcript
                &&& final(self).messages == old(self).messages
                &&& final(self).config == old(self).config
                &&& final(self).models == old(self).models
                &&& final(self).selected_model == old(self).selected_model
                &&& final(self).busy == old(self).busy
                &&& final(self).cwd == old(self).cwd
                &&& final(self).agents_md == old(self).agents_md
                &&& final(self).should_quit == old(self).should_quit
                &&& final(self).pending_assistant == old(self).pending_assistant
                &&& final(self).response_start == old(self).response_start
                &&& final(self).stream_role == old(self).stream_role
                &&& final(self).transcript_scroll == old(self).transcript_scroll
                &&& is_boundary(final(self).input@, final(self).input_cursor as int)
            },
    {
        if !self.commands_active() {
            return false;
        }
        let prefix = first_word_or_all(self.input.as_str());
        let all = commands();
        let mut i: usize = 0;
        while i < all.len()
            invariant
                i <= all@.len(),
                commands_view(all@) == command_table(),
                prefix@ == command_prefix(self.input@),
                forall|j: int| 0 <= j < i ==> #[trigger] command_table()[j].0 != prefix@,
            decreases all.len() - i,
        {
            assert(command_table()[i as int] == all@[i as int].model());
            if crate::text::str_eq(all[i].name, prefix.as_str()) {
                assert(command_table()[i as int].0 == prefix@);
                return false;
            }
            i = i + 1;
        }
        let suggestions = self.command_suggestions();
        let index = self.selected_command_index();
        if index >= suggestions.len() {
            return false;
        }
        let name = suggestions[index].name;
        assert(suggestions_for(self.input@)[index as int].0 == name@);
        self.input = crate::text::concat2(name, " ");
        self.input_end();
        self.command_cursor = 0;
        self.status = crate::text::concat2("Completed ", name);
        true
    }

    /// Starts streaming a reply of `model`.
    fn start_chat(&mut self, model: String) -> (effect: Effect)
        ensures
            final(self).clock == old(self).clock,
            final(self).busy,
            final(self).transcript_scroll == 0,
            final(self).pending_assistant@.len() == 0,
            final(self).response_start == Some(old(self).transcript@.len() as usize),
            final(self).stream_role is None,
            final(self).status@ == "Streaming from "@ + model@,
            effect matches Effect::StartChat { model: m } && m@ == model@,
            final(self).transcript == old(self).transcript,
            final(self).messages == old(self).messages,
            final(self).cwd == old(self).cwd,
            final(self).config == old(self).config,
            final(self).models == old(self).models,
            final(self).selected_model == old(self).selected_model,
            final(self).agents_md == old(self).agents_md,
            final(self).input == old(self).input,
            final(self).input_cursor == old(self).input_cursor,
            final(self).command_cursor == old(self).command_cursor,
            final(self).history_cursor == old(self).history_cursor,
            final(self).should_quit == old(self).should_quit,
    {
        self.busy = true;
        self.transcript_scroll = 0;
        self.pending_assistant = String::new();
        self.response_start = Some(self.transcript.len());
        self.stream_role = None;
        self.status = crate::text::concat2("Streaming from ", model.as_str());
        Effect::StartChat { model }
    }

    /// Submits the prompt: completes a partial command, or records the
    /// prompt in the history and runs it as a command or sends it to the
    /// selected model.
    pub fn submit_prompt(&mut self) -> (effects: Vec<Effect>)
        ensures
            final(self).clock == old(self).clock,
            final(self).transcript@.len() > 0 ==> keeps_stamps(old(self).transcript@, final(self).transcript@, old(self).transcript@.len() as int, old(self).clock),
            system_first(old(self).messages@) ==> system_first(final(self).messages@),
            old(self).wf() ==> final(self).wf(),
            old(self).busy ==> final(self).status@ == "Wait for the current request to finish"@
                && effects@.len() == 0 && final(self).input == old(self).input
                && final(self).input_cursor == old(self).input_cursor
                && final(self).command_cursor == old(self).command_cursor
                && final(self).history_cursor == old(self).history_cursor
                && final(self).busy
                && final(self).transcript == old(self).transcript
                && final(self).messages == old(self).messages && final(self).config == old(
                self,
            ).config,
            !old(self).busy && completes(*old(self)) ==> effects@.len() == 0
                && final(self).transcript == old(self).transcript
                && final(self).messages == old(self).messages && final(self).config == old(
                self,
            ).config,
            !old(self).busy && completes(*old(self)) ==> {
                let name = suggestions_for(old(self).input@)[clamped_command_cursor(
                    old(self).command_cursor,
                    old(self).input@,
                ) as int].0;
                &&& final(self).input@ == name + " "@
                &&& final(self).input_cursor == utf8_len(final(self).input@)
                &&& final(self).command_cursor == 0
                &&& final(self).status@ == "Completed "@ + name
                &&& final(self).history_cursor == old(self).history_cursor
                &&& final(self).busy == old(self).busy
            },
            !old(self).busy && !completes(*old(self)) && crate::text::trim(old(self).input@).len()
                == 0 ==> *final(self) == *old(self) && effects@.len() == 0,
            ({
                let p = crate::text::trim(old(self).input@);
                !old(self).busy && !completes(*old(self)) && p.len() > 0 ==> {
                    &&& final(self).input@.len() == 0
                    &&& final(self).input_cursor == 0
                    &&& final(self).command_cursor == 0
                    &&& final(self).history_cursor is None
                    &&& history_view(final(self).config.prompt_history@) == history_after(
                        history_view(old(self).config.prompt_history@),
                        p,
                    )
                    &&& effects@.len() >= 1 && effects@[0] is SaveConfig
                    &&& if starts_with(p, "/"@) {
                        handled_command(*old(self), *final(self), p, effects@.drop_first())
                    } else if old(self).selected_model is None {
                        &&& final(self).status@ == "Select an Ollama model first"@
                        &&& effects@.len() == 1
                        &&& final(self).transcript == old(self).transcript
                        &&& final(self).messages == old(self).messages
                    } else {
                        let model = old(self).selected_model->0;
                        &&& transcript_view(final(self).transcript@) == transcript_view(
                            old(self).transcript@,
                        ).push(("user"@, p))
                        &&& final(self).messages@.len() == old(self).messages@.len() + 1
                        &&& final(self).messages@.drop_last() == old(self).messages@
                        &&& final(self).messages@.last().role@ == "user"@
                        &&& final(self).messages@.last().content@ == p
                        &&& effects@.len() == 3
                        &&& effects@[1] is SaveConversation
                        &&& (effects@[2] matches Effect::StartChat { model: m } && m@ == model@)
                        &&& final(self).busy
                        &&& final(self).status@ == "Streaming from "@ + model@
                    }
                }
            }),
            final(self).cwd == old(self).cwd,
            final(self).models == old(self).models,
            final(self).should_quit == old(self).should_quit,
    {
        let mut effects: Vec<Effect> = Vec::new();
        if self.busy {
            self.status = "Wait for the current request to finish".to_string();
            return effects;
        }
        if self.complete_selected_command() {
            return effects;
        }
        let prompt = crate::text::trim_str(self.input.as_str());
        if chars_of(prompt.as_str()).len() == 0 {
            return effects;
        }
        let ghost h0 = history_view(self.config.prompt_history@);
        self.input = String::new();
        self.input_cursor = 0;
        self.command_cursor = 0;
        self.history_cursor = None;
        self.config.prompt_history.push(prompt.clone());
        assert(history_view(self.config.prompt_history@) =~= h0.push(prompt@));
        if self.config.prompt_history.len() > 100 {
            let ghost h1 = self.config.prompt_history@;
            self.config.prompt_history.remove(0);
            assert(history_view(self.config.prompt_history@) =~= history_view(h1).drop_first());
        }
        effects.push(Effect::SaveConfig);
        proof {
            lemma_char_index(self.input@, 0);
            assert(self.input@.take(0) =~= Seq::<char>::empty());
            assert(self.wf());
        }
        if crate::text::str_starts_with(prompt.as_str(), "/") {
            let ghost mid = *self;
            let mut more = self.handle_command(prompt.as_str());
            let ghost mv = more@;
            effects.append(&mut more);
            assert(effects@.drop_first() =~= mv);
            return effects;
        }
        let model = match &self.selected_model {
            Some(m) => m.clone(),
            None => {
                self.status = "Select an Ollama model first".to_string();
                return effects;
            },
        };
        self.push_transcript("user", prompt.clone());
        self.messages.push(ChatMessage::new("user", prompt));
        effects.push(Effect::SaveConversation);
        let e = self.start_chat(model);
        effects.push(e);
        effects
    }
}

// ---------------------------------------------------------------------------
// Events
// ---------------------------------------------------------------------------
/// The transcript before a finished reply is shown: cut back to where the
/// reply began, or without a trailing assistant entry.
pub open spec fn reply_base(t: Seq<(Seq<char>, Seq<char>)>, start: Option<usize>) -> Seq<
    (Seq<char>, Seq<char>),
> {
    match start {
        Some(s) => if s <= t.len() {
            t.take(s as int)
        } else {
            t
        },
        None => if t.len() > 0 && t.last().0 == "assistant"@ {
            t.drop_last()
        } else {
            t
        },
    }
}

/// The transcript after a streamed piece `delta` of kind `role`: appended
/// to the last entry while the stream stays of that kind, else a new entry.
pub open spec fn with_delta(
    t: Seq<(Seq<char>, Seq<char>)>,
    stream_role: Option<String>,
    role: Seq<char>,
    delta: Seq<char>,
) -> Seq<(Seq<char>, Seq<char>)> {
    if stream_role matches Some(r) && r@ == role && t.len() > 0 {
        t.drop_last().push((t.last().0, t.last().1 + delta))
    } else {
        t.push((role, delta))
    }
}

/// The message that hands a tool result to the model.
pub open spec fn tool_result_message(content: Seq<char>) -> Seq<char> {
    TOOL_RESULT_PREFIX@ + seq!['\n'] + content + seq!['\n'] + TOOL_RESULT_SUFFIX@
}

impl App {
    fn replace_latest_assistant_with_parts(&mut self, content: &str)
        ensures
            final(self).clock == old(self).clock,
            keeps_stamps(old(self).transcript@, final(self).transcript@, reply_base(transcript_view(old(self).transcript@), old(self).response_start).len() as int, old(self).clock),
            transcript_view(final(self).transcript@) == reply_base(
                transcript_view(old(self).transcript@),
                old(self).response_start,
            ) + reply_entries(content@),
            final(self).response_start is None,
            final(self).cwd == old(self).cwd,
            final(self).config == old(self).config,
            final(self).models == old(self).models,
            final(self).selected_model == old(self).selected_model,
            final(self).status == old(self).status,
            final(self).busy == old(self).busy,
            final(self).messages == old(self).messages,
            final(self).agents_md == old(self).agents_md,
            final(self).stream_role == old(self).stream_role,
            final(self).pending_assistant == old(self).pending_assistant,
            final(self).input == old(self).input,
            final(self).input_cursor == old(self).input_cursor,
            final(self).command_cursor == old(self).command_cursor,
            final(self).history_cursor == old(self).history_cursor,
            final(self).should_quit == old(self).should_quit,
    {
        let ghost tv = transcript_view(self.transcript@);
        let start = self.response_start;
        self.response_start = None;
        match start {
            Some(s) => {
                let ghost t0 = self.transcript@;
                self.transcript.truncate(s);
                assert(transcript_view(self.transcript@) =~= reply_base(tv, start));
            },
            None => {
                let n = self.transcript.len();
                if n > 0 && crate::text::str_eq(self.transcript[n - 1].role.as_str(), "assistant") {
                    let ghost t0 = self.transcript@;
                    self.transcript.pop();
                    assert(transcript_view(self.transcript@) =~= tv.drop_last());
                } else {
                    assert(transcript_view(self.transcript@) =~= reply_base(tv, start));
                }
            },
        }
        self.push_reply_entries(content);
    }

    fn append_stream_delta(&mut self, role: &str, delta: String)
        ensures
            final(self).clock == old(self).clock,
            keeps_stamps(old(self).transcript@, final(self).transcript@, old(self).transcript@.len() as int, old(self).clock),
            transcript_view(final(self).transcript@) == with_delta(
                transcript_view(old(self).transcript@),
                old(self).stream_role,
                role@,
                delta@,
            ),
            final(self).stream_role matches Some(r) && r@ == role@,
            old(self).transcript_scroll == 0 ==> final(self).transcript_scroll == 0,
            final(self).cwd == old(self).cwd,
            final(self).config == old(self).config,
            final(self).models == old(self).models,
            final(self).selected_model == old(self).selected_model,
            final(self).status == old(self).status,
            final(self).busy == old(self).busy,
            final(self).messages == old(self).messages,
            final(self).agents_md == old(self).agents_md,
            final(self).response_start == old(self).response_start,
            final(self).pending_assistant == old(self).pending_assistant,
            final(self).input == old(self).input,
            final(self).input_cursor == old(self).input_cursor,
            final(self).command_cursor == old(self).command_cursor,
            final(self).history_cursor == old(self).history_cursor,
            final(self).should_quit == old(self).should_quit,
    {
        let ghost tv = transcript_view(self.transcript@);
        let same = match &self.stream_role {
            Some(current) => crate::text::str_eq(current.as_str(), role),
            None => false,
        };
        if same && self.transcript.len() > 0 {
            let ghost t0 = self.transcript@;
            let mut item = self.transcript.pop().unwrap();
            crate::text::append_str(&mut item.content, delta.as_str());
            self.transcript.push(item);
            assert(transcript_view(self.transcript@) =~= tv.drop_last().push(
                (tv.last().0, tv.last().1 + delta@),
            ));
            return;
        }
        self.stream_role = Some(role.to_string());
        self.push_transcript(role, delta);
        assert(transcript_view(self.transcript@) == tv.push((role@, delta@)));
    }
}

/// What an event does to the state `b`, giving `a` and asking for `effects`.
pub open spec fn event_step(b: App, ev: AppEvent, a: App, effects: Seq<Effect>) -> bool {
    let tv = transcript_view(b.transcript@);
    match ev {
        AppEvent::ModelsLoaded(Ok(models)) => {
            &&& a.models == models
            &&& a.transcript == b.transcript
            &&& a.messages == b.messages
            &&& if models@.len() == 0 {
                &&& a.status@ == "No Ollama models found. Run `ollama pull <model>`."@
                &&& a.selected_model is None
                &&& a.config == b.config
                &&& effects.len() == 0
            } else if b.selected_model is None || model_index(models@, b.selected_model->0@) is None {
                let name = models@[0].name@;
                &&& a.selected_model matches Some(s) && s@ == name
                &&& a.config.selected_model matches Some(s) && s@ == name
                &&& a.status@ == "Selected "@ + name
                &&& effects.len() == 1 && effects[0] is SaveConfig
            } else {
                &&& a.status@ == "Loaded "@ + crate::text::decimal(models@.len())
                    + " Ollama models"@
                &&& a.selected_model == b.selected_model
                &&& a.config == b.config
                &&& effects.len() == 0
            }
        },
        AppEvent::ModelsLoaded(Err(e)) => {
            &&& a.status@ == "Ollama error: "@ + e@
            &&& a.models == b.models
            &&& a.selected_model == b.selected_model
            &&& a.transcript == b.transcript
            &&& a.messages == b.messages
            &&& effects.len() == 0
        },
        AppEvent::AssistantDelta(d) => {
            &&& a.transcript_scroll == 0
            &&& a.pending_assistant@ == b.pending_assistant@ + d@
            &&& transcript_view(a.transcript@) == with_delta(tv, b.stream_role, "assistant"@, d@)
            &&& a.stream_role matches Some(r) && r@ == "assistant"@
            &&& a.status == b.status
            &&& a.messages == b.messages
            &&& effects.len() == 0
        },
        AppEvent::AssistantThinkingDelta(d) => {
            &&& a.transcript_scroll == 0
            &&& a.pending_assistant == b.pending_assistant
            &&& transcript_view(a.transcript@) == with_delta(tv, b.stream_role, "thinking"@, d@)
            &&& a.stream_role matches Some(r) && r@ == "thinking"@
            &&& a.status == b.status
            &&& a.messages == b.messages
            &&& effects.len() == 0
        },
        AppEvent::AssistantDone(Ok(content)) => {
            &&& !a.busy
            &&& a.stream_role is None
            &&& a.response_start is None
            &&& a.messages@.drop_last() == b.messages@
            &&& a.messages@.len() == b.messages@.len() + 1
            &&& a.messages@.last().role@ == "assistant"@
            &&& a.messages@.last().content@ == content@
            &&& transcript_view(a.transcript@) == reply_base(tv, b.response_start) + reply_entries(
                content@,
            )
            &&& effects.len() >= 1 && effects[0] is SaveConversation
            &&& match crate::tools::requested_tool_call(content@) {
                Some(c) => {
                    &&& a.status@ == "Running requested tool"@
                    &&& effects.len() == 2
                    &&& effects[1] matches Effect::RunTool { call, from_command }
                    &&& !from_command && call@ == c
                },
                None => a.status@ == "Assistant response complete"@ && effects.len() == 1,
            }
        },
        AppEvent::AssistantDone(Err(e)) => {
            let status = "Chat error: "@ + e@;
            &&& !a.busy
            &&& a.response_start is None
            &&& a.stream_role is None
            &&& a.status@ == status
            &&& a.messages == b.messages
            &&& transcript_view(a.transcript@) == if tv.len() > 0 && tv.last().0 == "assistant"@
                && tv.last().1.len() == 0 {
                tv.drop_last().push(("assistant"@, status))
            } else {
                tv
            }
            &&& effects.len() == 0
        },
        AppEvent::ToolDone(content) => {
            &&& a.messages@.drop_last() == b.messages@
            &&& a.messages@.len() == b.messages@.len() + 1
            &&& a.messages@.last().role@ == "user"@
            &&& a.messages@.last().content@ == tool_result_message(content@)
            &&& transcript_view(a.transcript@) == tv.push(("tool"@, content@))
            &&& effects.len() >= 1 && effects[0] is SaveConversation
            &&& match b.selected_model {
                Some(m) => {
                    &&& effects.len() == 2
                    &&& effects[1] matches Effect::StartChat { model } && model@ == m@
                    &&& a.busy
                    &&& a.status@ == "Streaming from "@ + m@
                    &&& a.response_start == Some(a.transcript@.len() as usize)
                },
                None => effects.len() == 1 && a.busy == b.busy && a.status == b.status,
            }
        },
        AppEvent::CommandDone(content) => {
            &&& transcript_view(a.transcript@) == tv.push(("system"@, content@))
            &&& a.status@ == status_after(content@)
            &&& a.messages == b.messages
            &&& a.busy == b.busy
            &&& effects.len() == 0
        },
    }
}

/// How many entries of the transcript of `b` an event leaves in place: all,
/// but for a finished reply, which replaces the reply shown so far.
pub open spec fn kept_entries(b: App, ev: AppEvent) -> int {
    match ev {
        AppEvent::AssistantDone(Ok(_)) => reply_base(
            transcript_view(b.transcript@),
            b.response_start,
        ).len() as int,
        _ => b.transcript@.len() as int,
    }
}

impl App {
    /// Reacts to an event from the outside world.
    pub fn handle_event(&mut self, event: AppEvent) -> (effects: Vec<Effect>)
        ensures
            final(self).clock == old(self).clock,
            keeps_stamps(old(self).transcript@, final(self).transcript@, kept_entries(*old(self), event), old(self).clock),
            system_first(old(self).messages@) ==> system_first(final(self).messages@),
            old(self).wf() ==> final(self).wf(),
            event_step(*old(self), event, *final(self), effects@),
            final(self).cwd == old(self).cwd,
            final(self).input == old(self).input,
            final(self).input_cursor == old(self).input_cursor,
            final(self).command_cursor == old(self).command_cursor,
            final(self).history_cursor == old(self).history_cursor,
            final(self).config.prompt_history == old(self).config.prompt_history,
            final(self).config.ollama_host == old(self).config.ollama_host,
            final(self).should_quit == old(self).should_quit,
            final(self).agents_md == old(self).agents_md,
    {
        let ghost ev = event;
        let ghost b = *self;
        let mut effects: Vec<Effect> = Vec::new();
        match event {
            AppEvent::ModelsLoaded(Ok(models)) => {
                self.models = models;
                let n = self.models.len();
                if n == 0 {
                    self.status = "No Ollama models found. Run `ollama pull <model>`.".to_string();
                    self.selected_model = None;
                } else {
                    let listed = match &self.selected_model {
                        Some(name) => find_model(&self.models, name.as_str()).is_some(),
                        None => false,
                    };
                    if !listed {
                        let name = self.models[0].name.clone();
                        self.selected_model = Some(name.clone());
                        self.config.selected_model = Some(name.clone());
                        effects.push(Effect::SaveConfig);
                        self.status = crate::text::concat2("Selected ", name.as_str());
                    } else {
                        self.status = crate::text::concat3(
                            "Loaded ",
                            crate::text::decimal_string(n).as_str(),
                            " Ollama models",
                        );
                    }
                }
                assert(event_step(b, ev, *self, effects@));
            },
            AppEvent::ModelsLoaded(Err(error)) => {
                self.status = crate::text::concat2("Ollama error: ", error.as_str());
                assert(event_step(b, ev, *self, effects@));
            },
            AppEvent::AssistantDelta(delta) => {
                self.transcript_scroll = 0;
                crate::text::append_str(&mut self.pending_assistant, delta.as_str());
                self.append_stream_delta("assistant", delta);
                assert(event_step(b, ev, *self, effects@));
            },
            AppEvent::AssistantThinkingDelta(delta) => {
                self.transcript_scroll = 0;
                self.append_stream_delta("thinking", delta);
                assert(event_step(b, ev, *self, effects@));
            },
            AppEvent::AssistantDone(Ok(content)) => {
                self.busy = false;
                self.stream_role = None;
                let ghost m0 = self.messages@;
                self.messages.push(ChatMessage::new("assistant", content.clone()));
                assert(self.messages@.drop_last() =~= m0);
                effects.push(Effect::SaveConversation);
                self.replace_latest_assistant_with_parts(content.as_str());
                self.status = "Assistant response complete".to_string();
                match crate::tools::extract_tool_call(content.as_str()) {
                    Ok(Some(call)) => {
                        self.status = "Running requested tool".to_string();
                        effects.push(Effect::RunTool { call, from_command: false });
                    },
                    Ok(None) => {},
                    Err(_) => {},
                }
                assert(event_step(b, ev, *self, effects@));
            },
            AppEvent::AssistantDone(Err(error)) => {
                self.busy = false;
                self.response_start = None;
                self.stream_role = None;
                self.status = crate::text::concat2("Chat error: ", error.as_str());
                let n = self.transcript.len();
                if n > 0 {
                    let last_is_empty_reply = crate::text::str_eq(
                        self.transcript[n - 1].role.as_str(),
                        "assistant",
                    ) && chars_of(self.transcript[n - 1].content.as_str()).len() == 0;
                    if last_is_empty_reply {
                        let ghost tv = transcript_view(self.transcript@);
                        let mut item = self.transcript.pop().unwrap();
                        item.content = self.status.clone();
                        self.transcript.push(item);
                        assert(transcript_view(self.transcript@) =~= tv.drop_last().push(
                            ("assistant"@, self.status@),
                        ));
                    }
                }
                assert(event_step(b, ev, *self, effects@));
            },
            AppEvent::ToolDone(content) => {
                let ghost tv = transcript_view(self.transcript@);
                let mut text = crate::text::concat3(TOOL_RESULT_PREFIX, "\n", content.as_str());
                crate::text::append_str(&mut text, "\n");
                crate::text::append_str(&mut text, TOOL_RESULT_SUFFIX);
                proof {
                    reveal_strlit("\n");
                }
                assert(text@ =~= tool_result_message(content@));
                self.push_transcript("tool", content);
                let ghost m0 = self.messages@;
                self.messages.push(ChatMessage::new("user", text));
                assert(self.messages@.drop_last() =~= m0);
                effects.push(Effect::SaveConversation);
                let model = match &self.selected_model {
                    Some(m) => Some(m.clone()),
                    None => None,
                };
                if let Some(m) = model {
                    let e = self.start_chat(m);
                    effects.push(e);
                }
                assert(event_step(b, ev, *self, effects@));
            },
            AppEvent::CommandDone(content) => {
                self.show_output(content);
                assert(event_step(b, ev, *self, effects@));
            },
        }
        effects
    }
}

} // verus!
