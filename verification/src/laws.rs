//! Properties of the library that relate several calls or hold of every
//! input, stated over the same spec functions as the contracts they follow from.
use vstd::prelude::*;

use crate::app::{
    event_step, handled_command, AppEvent, Effect, next_boundary_spec, previous_boundary_spec,
    command_prefix, command_table, current_model_index, history_after, lemma_model_index,
    model_index, prefix_matches, suggestions_for, App,
};
use crate::ollama::{
    chunk_step, message_deltas, split_next_line, thinking_of, ChatChunk, ChatDelta, ChatMessage,
    ChatStream, ChunkOutcome, Model, OllamaToolCall,
};
use crate::text::{
    byte_offset, char_index, char_width, contains, find, find_from, is_boundary, is_ws,
    lemma_byte_offset_len, lemma_byte_offset_mono, lemma_byte_offset_step, lemma_char_index,
    lemma_find_from, matches_at, replace_first, starts_with, strip_trailing, trim, trim_end,
    trim_start, utf8_len, words, join, all_ws, lines,
};
use crate::tools::{
    field_lookup, has_parent_component, join_text, path_is_absolute, tool_call_from_fields,
    workspace_check, ToolCallErrorModel, ToolCallModel, add_body, body_len, parse_ops,
    patch_plan, PatchOpModel,
};
use crate::ollama::{schema_text, standard_properties, standard_required_fields, standard_tool_table};
use crate::ui::{prompt_window, sat_sub, visible_range};

verus! {

// ---------------------------------------------------------------------------
// Workspace paths
// ---------------------------------------------------------------------------
/// The components of a path: its text split at every `/`.
pub open spec fn path_components(p: Seq<char>) -> Seq<Seq<char>>
    decreases p.len(),
{
    match find(p, seq!['/']) {
        Some(i) => if 0 <= i < p.len() {
            seq![p.take(i)] + path_components(p.skip(i + 1))
        } else {
            seq![p]
        },
        None => seq![p],
    }
}

proof fn lemma_no_parent_component(p: Seq<char>)
    requires
        !has_parent_component(p),
    ensures
        forall|k: int|
            0 <= k < path_components(p).len() ==> #[trigger] path_components(p)[k] != seq![
                '.',
                '.',
            ],
    decreases p.len(),
{
    lemma_find_from(p, seq!['/'], 0);
    match find(p, seq!['/']) {
        Some(i) => {
            if 0 <= i < p.len() {
                let rest = p.skip(i + 1);
                assert(p[i] == '/') by {
                    assert(p.subrange(i, i + 1) == seq!['/']);
                    assert(p.subrange(i, i + 1)[0] == p[i]);
                }
                if p.take(i) == seq!['.', '.'] {
                    assert(p.take(i).len() == 2);
                    assert(p.take(i)[0] == p[0] && p.take(i)[1] == p[1]);
                    assert(p[0] == '.' && p[1] == '.' && p[2] == '/');
                    assert(has_parent_component(p));
                }
                assert(!has_parent_component(rest)) by {
                    if has_parent_component(rest) {
                        let j = choose|j: int|
                            0 <= j && j + 2 <= rest.len() && #[trigger] rest[j] == '.' && rest[j
                                + 1] == '.' && (j == 0 || rest[j - 1] == '/') && (j + 2
                                == rest.len() || rest[j + 2] == '/');
                        assert(p[j + i + 1] == '.');
                        assert(has_parent_component(p));
                    }
                }
                lemma_no_parent_component(rest);
                assert forall|k: int| 0 <= k < path_components(p).len() implies #[trigger] path_components(
                    p,
                )[k] != seq!['.', '.'] by {
                    if k > 0 {
                        assert(path_components(p)[k] == path_components(rest)[k - 1]);
                    }
                }
            } else {
            }
        },
        None => {
            if p == seq!['.', '.'] {
                assert(p[0] == '.' && p[1] == '.');
                assert(has_parent_component(p));
            }
        },
    }
}

/// A path that `workspace_path` accepts is relative and none of its
/// components is `..`; joined to a root, it begins with the root's text and
/// then, after one separator, comes the path itself, so it names a place
/// below the root.
pub proof fn law_accepted_paths_stay_inside(root: Seq<char>, p: Seq<char>)
    requires
        workspace_check(p) is Ok,
        root.len() > 0,
    ensures
        !path_is_absolute(p),
        forall|k: int|
            0 <= k < path_components(p).len() ==> #[trigger] path_components(p)[k] != seq![
                '.',
                '.',
            ],
        starts_with(join_text(root, p), root),
        join_text(root, p)[join_text(root, p).len() - p.len() - 1] == '/',
        join_text(root, p).skip(join_text(root, p).len() - p.len()) == p,
{
    lemma_no_parent_component(p);
    let q = join_text(root, p);
    assert(q.take(root.len() as int) =~= root);
    assert(q.skip(q.len() - p.len()) =~= p);
}

// ---------------------------------------------------------------------------
// Prompt editing
// ---------------------------------------------------------------------------
/// Backspace right after typing a char gives back the prompt and the
/// cursor as they were: `b` is what `input_insert` makes of `a`, and `c`
/// what `input_backspace` makes of `b`.
pub proof fn law_backspace_undoes_insert(a: App, b: App, c: App, ch: char)
    requires
        a.wf(),
        b.input@ == a.input@.insert(a.cursor_char(), ch),
        b.input_cursor == a.input_cursor + char_width(ch),
        b.input_cursor > 0 ==> c.input@ == b.input@.remove(b.cursor_char() - 1)
            && c.input_cursor == byte_offset(b.input@, b.cursor_char() - 1),
    ensures
        c.input@ == a.input@,
        c.input_cursor == a.input_cursor,
{
    let s = a.input@;
    let k = a.cursor_char();
    let t = b.input@;
    lemma_char_index(s, 0);
    assert(0 <= k <= s.len() && byte_offset(s, k) == a.input_cursor);
    assert(t.take(k) =~= s.take(k));
    lemma_byte_offset_step(t, k);
    assert(t[k] == ch);
    lemma_char_index(t, k + 1);
    assert(b.cursor_char() == k + 1);
    assert(t.remove(k) =~= s);
}

/// Moving the cursor left and then right puts it back where it was, when
/// it was not at the start: `b` is what `input_left` makes of `a`, `c` what
/// `input_right` makes of `b`.
pub proof fn law_right_undoes_left(a: App, b: App, c: App)
    requires
        a.wf(),
        a.input_cursor > 0,
        b.input@ == a.input@,
        b.input_cursor == byte_offset(a.input@, a.cursor_char() - 1),
        c.input@ == b.input@,
        b.cursor_char() < b.input@.len() ==> c.input_cursor == byte_offset(
            b.input@,
            b.cursor_char() + 1,
        ),
        b.cursor_char() >= b.input@.len() ==> c.input_cursor == b.input_cursor,
    ensures
        c.input_cursor == a.input_cursor,
{
    let s = a.input@;
    let k = a.cursor_char();
    lemma_char_index(s, 0);
    assert(0 <= k <= s.len() && byte_offset(s, k) == a.input_cursor);
    assert(k > 0) by {
        if k == 0 {
            assert(s.take(0) =~= Seq::<char>::empty());
        }
    }
    lemma_char_index(s, k - 1);
    assert(b.cursor_char() == k - 1);
}

/// From a char boundary before the end, the next boundary lies one char
/// further on, inside the text, and the boundary before it is where the step
/// began.
pub proof fn law_next_boundary_steps_one_char(text: Seq<char>, cursor: int)
    requires
        is_boundary(text, cursor),
        cursor < utf8_len(text),
    ensures
        next_boundary_spec(text, cursor) matches Some(n) && {
            &&& cursor < n <= utf8_len(text)
            &&& is_boundary(text, n)
            &&& char_index(text, n) == char_index(text, cursor) + 1
            &&& previous_boundary_spec(text, n) == Some(cursor)
        },
{
    let k = char_index(text, cursor);
    assert(0 <= k <= text.len() && byte_offset(text, k) == cursor);
    lemma_byte_offset_len(text);
    assert(k < text.len()) by {
        if k == text.len() {
        }
    }
    lemma_byte_offset_step(text, k);
    lemma_byte_offset_mono(text, k + 1, text.len() as int);
    lemma_char_index(text, k + 1);
}

// ---------------------------------------------------------------------------
// Model selection
// ---------------------------------------------------------------------------
/// No two models of the list have the same name.
pub open spec fn distinct_names(models: Seq<Model>) -> bool {
    forall|i: int, j: int|
        0 <= i < j < models.len() ==> #[trigger] models[i].name@ != #[trigger] models[j].name@
}

/// Choosing the previous model right after the next one comes back to the
/// model that was selected, when it is listed and names are distinct:
/// `picked` is the model `select_next_model` chose after `selected`.
pub proof fn law_previous_undoes_next(models: Seq<Model>, selected: String, picked: String)
    requires
        models.len() > 0,
        distinct_names(models),
        model_index(models, selected@) is Some,
        picked@ == models[(current_model_index(models, Some(selected)) + 1) % (
        models.len() as int)].name@,
    ensures
        models[(current_model_index(models, Some(picked)) - 1) % (models.len() as int)].name@
            == selected@,
{
    let len = models.len() as int;
    lemma_model_index(models, selected@);
    let cur = current_model_index(models, Some(selected));
    assert(0 <= cur < len);
    let next = (cur + 1) % len;
    assert(0 <= next < len && (next == cur + 1 || (cur == len - 1 && next == 0))) by (
    nonlinear_arith)
        requires
            0 <= cur < len,
            next == (cur + 1) % len,
    ;
    lemma_model_index(models, picked@);
    assert(model_index(models, picked@) == Some(next)) by {
        match model_index(models, picked@) {
            Some(j) => {
                if j != next {
                    assert(models[j].name@ == models[next].name@);
                }
            },
            None => {
                assert(models[next].name@ == picked@);
            },
        }
    }
    assert((next - 1) % len == cur) by (nonlinear_arith)
        requires
            0 <= cur < len,
            0 <= next < len,
            next == cur + 1 || (cur == len - 1 && next == 0),
    ;
}

// ---------------------------------------------------------------------------
// History
// ---------------------------------------------------------------------------
/// The prompt history never grows past a hundred prompts, and the prompt
/// just sent is its newest entry.
pub proof fn law_history_bounded(h: Seq<Seq<char>>, p: Seq<char>)
    requires
        h.len() <= 100,
    ensures
        history_after(h, p).len() <= 100,
        history_after(h, p).last() == p,
        h.len() < 100 ==> history_after(h, p).drop_last() == h,
{
}

// ---------------------------------------------------------------------------
// Edits
// ---------------------------------------------------------------------------
/// Replacing the first occurrence of `old` puts `new` into the text.
pub proof fn law_edit_inserts_new_text(s: Seq<char>, old: Seq<char>, new: Seq<char>)
    requires
        contains(s, old),
    ensures
        contains(replace_first(s, old, new), new),
{
    lemma_find_from(s, old, 0);
    let i = find(s, old)->0;
    let t = replace_first(s, old, new);
    assert(t == s.take(i) + new + s.skip(i + old.len()));
    assert(t.subrange(i, i + new.len()) =~= new);
    assert(matches_at(t, new, i));
    lemma_find_from(t, new, 0);
}

// ---------------------------------------------------------------------------
// Ollama host
// ---------------------------------------------------------------------------
/// The base URL never ends with `/`.
pub proof fn law_base_url_has_no_trailing_slash(host: Seq<char>)
    ensures
        !(strip_trailing(host, '/').len() > 0 && strip_trailing(host, '/').last() == '/'),
    decreases host.len(),
{
    if host.len() > 0 && host.last() == '/' {
        law_base_url_has_no_trailing_slash(host.drop_last());
    }
}

// ---------------------------------------------------------------------------
// Streamed replies
// ---------------------------------------------------------------------------
proof fn lemma_trim_start_shape(s: Seq<char>)
    ensures
        exists|j: int| 0 <= j <= s.len() && trim_start(s) == s.skip(j),
        trim_start(s).len() > 0 ==> !is_ws(trim_start(s)[0]),
    decreases s.len(),
{
    if s.len() > 0 && is_ws(s[0]) {
        lemma_trim_start_shape(s.drop_first());
        let j = choose|j: int|
            0 <= j <= s.drop_first().len() && trim_start(s.drop_first()) == s.drop_first().skip(j);
        assert(s.drop_first().skip(j) =~= s.skip(j + 1));
    } else {
        assert(s.skip(0) =~= s);
    }
}

proof fn lemma_trim_end_shape(s: Seq<char>)
    ensures
        exists|j: int| 0 <= j <= s.len() && trim_end(s) == s.take(j),
        trim_end(s).len() > 0 ==> !is_ws(trim_end(s).last()),
    decreases s.len(),
{
    if s.len() > 0 && is_ws(s.last()) {
        lemma_trim_end_shape(s.drop_last());
        let j = choose|j: int|
            0 <= j <= s.drop_last().len() && trim_end(s.drop_last()) == s.drop_last().take(j);
        assert(s.drop_last().take(j) =~= s.take(j));
    } else {
        assert(s.take(s.len() as int) =~= s);
    }
}

/// `trim` of a text is a piece of it with no whitespace at either end.
proof fn lemma_trim_shape(s: Seq<char>)
    ensures
        exists|a: int, b: int| 0 <= a <= b <= s.len() && trim(s) == s.subrange(a, b),
        trim(s).len() > 0 ==> !is_ws(trim(s)[0]) && !is_ws(trim(s).last()),
{
    let u = trim_start(s);
    lemma_trim_start_shape(s);
    lemma_trim_end_shape(u);
    let a = choose|j: int| 0 <= j <= s.len() && u == s.skip(j);
    let b = choose|j: int| 0 <= j <= u.len() && trim_end(u) == u.take(j);
    assert(trim(s) =~= s.subrange(a, a + b));
    if trim(s).len() > 0 {
        assert(trim(s)[0] == u[0]);
    }
}

/// A text trimmed once is trimmed.
proof fn lemma_trim_idempotent(s: Seq<char>)
    ensures
        trim(trim(s)) == trim(s),
{
    let t = trim(s);
    lemma_trim_shape(s);
    if t.len() > 0 {
        assert(trim_start(t) == t);
        assert(trim_end(t) == t);
    } else {
        assert(trim_start(t) == t);
    }
}

/// A line that the decoder hands out is a whole line of the stream: not
/// empty, trimmed, free of newlines; the text still pending after it is a
/// shorter tail of what was pending.
pub proof fn law_stream_lines_are_whole(pending: Seq<char>)
    ensures
        split_next_line(pending).0 matches Some(l) ==> {
            &&& l.len() > 0
            &&& trim(l) == l
            &&& forall|i: int| 0 <= i < l.len() ==> l[i] != '\n'
            &&& split_next_line(pending).1.len() < pending.len()
            &&& pending.skip(pending.len() - split_next_line(pending).1.len())
                == split_next_line(pending).1
        },
        split_next_line(pending).1.len() <= pending.len(),
        pending.skip(pending.len() - split_next_line(pending).1.len()) == split_next_line(
            pending,
        ).1,
    decreases pending.len(),
{
    lemma_find_from(pending, seq!['\n'], 0);
    match find(pending, seq!['\n']) {
        Some(k) => {
            if 0 <= k < pending.len() {
                let head = pending.take(k);
                let line = trim(head);
                let rest = pending.skip(k + 1);
                if line.len() == 0 {
                    law_stream_lines_are_whole(rest);
                    let r = split_next_line(rest).1;
                    assert(pending.skip(pending.len() - r.len()) =~= rest.skip(rest.len() - r.len()));
                } else {
                    lemma_trim_idempotent(head);
                    lemma_trim_shape(head);
                    let (a, b) = choose|a: int, b: int|
                        0 <= a <= b <= head.len() && line == head.subrange(a, b);
                    assert forall|i: int| 0 <= i < line.len() implies line[i] != '\n' by {
                        assert(line[i] == pending[a + i]);
                        assert(!matches_at(pending, seq!['\n'], a + i));
                        assert(pending.subrange(a + i, a + i + 1) =~= seq![pending[a + i]]);
                    }
                    assert(pending.skip(pending.len() - rest.len()) =~= rest);
                }
            } else {
                assert(pending.skip(0) =~= pending);
            }
        },
        None => {
            assert(pending.skip(0) =~= pending);
        },
    }
}

/// No character of `s` is a newline.
pub open spec fn newline_free(s: Seq<char>) -> bool {
    forall|i: int| 0 <= i < s.len() ==> s[i] != '\n'
}

proof fn lemma_trim_end_empty(s: Seq<char>)
    requires
        trim_end(s).len() == 0,
    ensures
        all_ws(s),
    decreases s.len(),
{
    if s.len() > 0 && is_ws(s.last()) {
        lemma_trim_end_empty(s.drop_last());
        assert forall|i: int| 0 <= i < s.len() implies is_ws(#[trigger] s[i]) by {
            if i < s.len() - 1 {
                assert(s[i] == s.drop_last()[i]);
            }
        }
    }
}

/// A text that trims to nothing is all whitespace.
proof fn lemma_trim_empty(s: Seq<char>)
    requires
        trim(s).len() == 0,
    ensures
        all_ws(s),
    decreases s.len(),
{
    if s.len() > 0 && is_ws(s[0]) {
        lemma_trim_empty(s.drop_first());
        assert forall|i: int| 0 <= i < s.len() implies is_ws(#[trigger] s[i]) by {
            if i > 0 {
                assert(s[i] == s.drop_first()[i - 1]);
            }
        }
    } else {
        lemma_trim_end_empty(s);
    }
}

/// The decoder hands out the lines of the stream in order, skipping none:
/// a line handed out is the first line, trimmed, that is not blank (all
/// before it is whitespace), and what stays pending is exactly the text after
/// that line's newline. With no such complete line, nothing is handed out and
/// what stays pending is the unfinished last line, after the blank ones.
pub proof fn law_stream_lines_come_in_order(p: Seq<char>)
    ensures
        split_next_line(p).0 matches Some(l) ==> exists|j: int, k: int|
            #![trigger p.subrange(j, k)]
            {
                &&& 0 <= j <= k < p.len()
                &&& p[k] == '\n'
                &&& newline_free(p.subrange(j, k))
                &&& all_ws(p.take(j))
                &&& l == trim(p.subrange(j, k))
                &&& split_next_line(p).1 == p.skip(k + 1)
            },
        split_next_line(p).0 is None ==> exists|j: int|
            #![trigger p.skip(j)]
            {
                &&& 0 <= j <= p.len()
                &&& all_ws(p.take(j))
                &&& newline_free(p.skip(j))
                &&& split_next_line(p).1 == p.skip(j)
            },
    decreases p.len(),
{
    let nl = seq!['\n'];
    lemma_find_from(p, nl, 0);
    assert forall|i: int| 0 <= i < p.len() && p[i] == '\n' implies matches_at(p, nl, i) by {
        assert(p.subrange(i, i + 1) =~= nl);
    }
    match find(p, nl) {
        Some(k) => {
            assert(0 <= k < p.len());
            let head = p.take(k);
            let rest = p.skip(k + 1);
            assert(p[k] == '\n') by {
                assert(p.subrange(k, k + 1)[0] == p[k]);
            }
            assert(newline_free(head));
            if trim(head).len() == 0 {
                lemma_trim_empty(head);
                law_stream_lines_come_in_order(rest);
                assert(is_ws('\n'));
                match split_next_line(rest).0 {
                    Some(l) => {
                        let (j1, k1) = choose|j: int, k: int|
                            #![trigger rest.subrange(j, k)]
                            {
                                &&& 0 <= j <= k < rest.len()
                                &&& rest[k] == '\n'
                                &&& newline_free(rest.subrange(j, k))
                                &&& all_ws(rest.take(j))
                                &&& l == trim(rest.subrange(j, k))
                                &&& split_next_line(rest).1 == rest.skip(k + 1)
                            };
                        let j = k + 1 + j1;
                        let k2 = k + 1 + k1;
                        assert(p.subrange(j, k2) =~= rest.subrange(j1, k1));
                        assert(p.skip(k2 + 1) =~= rest.skip(k1 + 1));
                        assert(p[k2] == rest[k1]);
                        assert forall|i: int| 0 <= i < j implies is_ws(#[trigger] p.take(j)[i]) by {
                            if i < k {
                                assert(p.take(j)[i] == head[i]);
                            } else if i > k {
                                assert(p.take(j)[i] == rest.take(j1)[i - k - 1]);
                            }
                        }
                    },
                    None => {
                        let j1 = choose|j: int|
                            #![trigger rest.skip(j)]
                            {
                                &&& 0 <= j <= rest.len()
                                &&& all_ws(rest.take(j))
                                &&& newline_free(rest.skip(j))
                                &&& split_next_line(rest).1 == rest.skip(j)
                            };
                        let j = k + 1 + j1;
                        assert(p.skip(j) =~= rest.skip(j1));
                        assert forall|i: int| 0 <= i < j implies is_ws(#[trigger] p.take(j)[i]) by {
                            if i < k {
                                assert(p.take(j)[i] == head[i]);
                            } else if i > k {
                                assert(p.take(j)[i] == rest.take(j1)[i - k - 1]);
                            }
                        }
                    },
                }
            } else {
                assert(p.subrange(0, k) =~= head);
                assert(all_ws(p.take(0)));
            }
        },
        None => {
            assert(p.skip(0) =~= p);
            assert(all_ws(p.take(0)));
        },
    }
}

/// The text of the content deltas, in order.
pub open spec fn content_text(ds: Seq<ChatDelta>) -> Seq<char>
    decreases ds.len(),
{
    if ds.len() == 0 {
        seq![]
    } else {
        content_text(ds.drop_last()) + match ds.last() {
            ChatDelta::Content(t) => t@,
            ChatDelta::Thinking(_) => Seq::<char>::empty(),
        }
    }
}

/// The text of the thinking deltas, in order.
pub open spec fn thinking_text(ds: Seq<ChatDelta>) -> Seq<char>
    decreases ds.len(),
{
    if ds.len() == 0 {
        seq![]
    } else {
        thinking_text(ds.drop_last()) + match ds.last() {
            ChatDelta::Thinking(t) => t@,
            ChatDelta::Content(_) => Seq::<char>::empty(),
        }
    }
}

/// What a piece of the reply hands on as deltas is exactly what it adds to
/// the gathered message: its content, and its thinking when not empty.
pub proof fn law_deltas_match_gathered_text(m: ChatMessage)
    ensures
        content_text(message_deltas(m)) == m.content@,
        thinking_text(message_deltas(m)) == match thinking_of(m) {
            Some(t) => t@,
            None => Seq::<char>::empty(),
        },
{
    let ds = message_deltas(m);
    reveal_with_fuel(content_text, 3);
    reveal_with_fuel(thinking_text, 3);
    match thinking_of(m) {
        Some(t) => {
            if m.content@.len() > 0 {
                assert(ds.drop_last() =~= seq![ChatDelta::Thinking(t)]);
                assert(ds.drop_last().drop_last() =~= Seq::<ChatDelta>::empty());
            } else {
                assert(ds =~= seq![ChatDelta::Thinking(t)]);
                assert(ds.drop_last() =~= Seq::<ChatDelta>::empty());
            }
        },
        None => {
            if m.content@.len() > 0 {
                assert(ds =~= seq![ChatDelta::Content(m.content)]);
                assert(ds.drop_last() =~= Seq::<ChatDelta>::empty());
            } else {
                assert(ds =~= Seq::<ChatDelta>::empty());
            }
        },
    }
}

/// The content of the message pieces of `chunks`, in order.
pub open spec fn chunks_content(chunks: Seq<ChatChunk>) -> Seq<char>
    decreases chunks.len(),
{
    if chunks.len() == 0 {
        seq![]
    } else {
        chunks_content(chunks.drop_last()) + match chunks.last().message {
            Some(m) => m.content@,
            None => Seq::<char>::empty(),
        }
    }
}

/// The non-empty thinking of the message pieces of `chunks`, in order.
pub open spec fn chunks_thinking(chunks: Seq<ChatChunk>) -> Seq<char>
    decreases chunks.len(),
{
    if chunks.len() == 0 {
        seq![]
    } else {
        chunks_thinking(chunks.drop_last()) + match chunks.last().message {
            Some(m) => match thinking_of(m) {
                Some(t) => t@,
                None => Seq::<char>::empty(),
            },
            None => Seq::<char>::empty(),
        }
    }
}

/// The tool calls of the message pieces of `chunks`, in order.
pub open spec fn chunks_tool_calls(chunks: Seq<ChatChunk>) -> Seq<OllamaToolCall>
    decreases chunks.len(),
{
    if chunks.len() == 0 {
        seq![]
    } else {
        chunks_tool_calls(chunks.drop_last()) + match chunks.last().message {
            Some(m) => m.tool_calls@,
            None => Seq::<OllamaToolCall>::empty(),
        }
    }
}

/// `a` and `b` have gathered the same reply so far.
pub open spec fn same_reply(a: ChatStream, b: ChatStream) -> bool {
    &&& a.content == b.content
    &&& a.thinking == b.thinking
    &&& a.tool_calls == b.tool_calls
}

/// A whole reply stream gathers the content, the non-empty thinking and the
/// tool calls of its lines, in order, up to the first line marked done: the
/// decoded lines `chunks` are applied to the states `before`, giving
/// `after`, from a fresh stream; between two lines only the pending text
/// changes (`push_bytes`, `next_line`); no line reports an error and none
/// before the last is done. `into_message` then returns these fields.
pub proof fn law_stream_gathers_its_lines(
    chunks: Seq<ChatChunk>,
    before: Seq<ChatStream>,
    after: Seq<ChatStream>,
    outcomes: Seq<ChunkOutcome>,
    deltas: Seq<Seq<ChatDelta>>,
)
    requires
        chunks.len() > 0,
        before.len() == chunks.len(),
        after.len() == chunks.len(),
        outcomes.len() == chunks.len(),
        deltas.len() == chunks.len(),
        before[0].content@.len() == 0,
        before[0].thinking@.len() == 0,
        before[0].tool_calls@.len() == 0,
        forall|i: int|
            0 <= i < chunks.len() ==> chunk_step(
                #[trigger] before[i],
                chunks[i],
                after[i],
                outcomes[i],
                deltas[i],
            ),
        forall|i: int| 0 <= i < chunks.len() - 1 ==> same_reply(#[trigger] after[i], before[i + 1]),
        forall|i: int| 0 <= i < chunks.len() ==> (#[trigger] chunks[i]).error is None,
        forall|i: int| 0 <= i < chunks.len() - 1 ==> !(#[trigger] chunks[i]).done,
    ensures
        after.last().content@ == chunks_content(chunks),
        after.last().thinking@ == chunks_thinking(chunks),
        after.last().tool_calls@ == chunks_tool_calls(chunks),
        forall|i: int| 0 <= i < chunks.len() - 1 ==> #[trigger] outcomes[i] == ChunkOutcome::Continue,
    decreases chunks.len(),
{
    let n = chunks.len();
    let last = n - 1;
    let c = chunks[last];
    let b = before[last];
    let a = after[last];
    assert(chunk_step(b, c, a, outcomes[last], deltas[last]));
    assert(chunks.last() == c && after.last() == a);
    let prefix = chunks.drop_last();
    let (pc, pt, pk): (Seq<char>, Seq<char>, Seq<OllamaToolCall>) = if n == 1 {
        (Seq::<char>::empty(), Seq::<char>::empty(), Seq::<OllamaToolCall>::empty())
    } else {
        law_stream_gathers_its_lines(
            prefix,
            before.drop_last(),
            after.drop_last(),
            outcomes.drop_last(),
            deltas.drop_last(),
        );
        assert(same_reply(after[last - 1], b));
        assert(after.drop_last().last() == after[last - 1]);
        assert forall|i: int| 0 <= i < n - 1 implies #[trigger] outcomes[i] == ChunkOutcome::Continue by {
            if i < n - 2 {
                assert(outcomes.drop_last()[i] == outcomes[i]);
            } else {
                assert(chunk_step(before[i], chunks[i], after[i], outcomes[i], deltas[i]));
            }
        }
        (chunks_content(prefix), chunks_thinking(prefix), chunks_tool_calls(prefix))
    };
    if n == 1 {
        assert(prefix =~= Seq::<ChatChunk>::empty());
    }
    assert(b.content@ == pc && b.thinking@ == pt && b.tool_calls@ == pk) by {
        if n == 1 {
            assert(b.content@ =~= pc);
            assert(b.thinking@ =~= pt);
            assert(b.tool_calls@ =~= pk);
        }
    }
    assert(chunks_content(chunks) == pc + match c.message {
        Some(m) => m.content@,
        None => Seq::<char>::empty(),
    });
    match c.message {
        Some(m) => {},
        None => {
            assert(a.content@ =~= pc + Seq::<char>::empty());
            assert(a.thinking@ =~= pt + Seq::<char>::empty());
            assert(a.tool_calls@ =~= pk + Seq::<OllamaToolCall>::empty());
        },
    }
}

// ---------------------------------------------------------------------------
// Commands
// ---------------------------------------------------------------------------
proof fn lemma_prefix_matches(cmds: Seq<(Seq<char>, Seq<char>, Seq<char>)>, p: Seq<char>)
    ensures
        forall|i: int|
            0 <= i < prefix_matches(cmds, p).len() ==> starts_with(
                #[trigger] prefix_matches(cmds, p)[i].0,
                p,
            ),
    decreases cmds.len(),
{
    if cmds.len() > 0 {
        lemma_prefix_matches(cmds.drop_first(), p);
        let head: Seq<(Seq<char>, Seq<char>, Seq<char>)> = if starts_with(cmds[0].0, p) {
            seq![cmds[0]]
        } else {
            Seq::empty()
        };
        assert forall|i: int| 0 <= i < prefix_matches(cmds, p).len() implies starts_with(
            #[trigger] prefix_matches(cmds, p)[i].0,
            p,
        ) by {
            if i >= head.len() {
                assert(prefix_matches(cmds, p)[i] == prefix_matches(cmds.drop_first(), p)[i
                    - head.len()]);
            }
        }
    }
}

/// Every suggested command begins with the word typed so far.
pub proof fn law_suggestions_match_typed_word(input: Seq<char>)
    ensures
        forall|i: int|
            0 <= i < suggestions_for(input).len() ==> starts_with(
                #[trigger] suggestions_for(input)[i].0,
                command_prefix(input),
            ),
{
    let p = command_prefix(input);
    lemma_prefix_matches(command_table(), p);
    if starts_with(input, "/"@) && prefix_matches(command_table(), p).len() == 0 && p == "/"@ {
        reveal_strlit("/");
        reveal_strlit("/help");
        reveal_strlit("/init");
        reveal_strlit("/agents");
        reveal_strlit("/tools");
        reveal_strlit("/model");
        reveal_strlit("/models");
        reveal_strlit("/bash");
        reveal_strlit("/read");
        reveal_strlit("/clear");
        reveal_strlit("/context");
        reveal_strlit("/pwd");
        assert forall|i: int| 0 <= i < command_table().len() implies starts_with(
            #[trigger] command_table()[i].0,
            p,
        ) by {
            assert(command_table()[i].0[0] == '/');
            assert(command_table()[i].0.take(1) =~= p);
        }
    }
}

// ---------------------------------------------------------------------------
// Screen
// ---------------------------------------------------------------------------
/// The transcript pane shows as many of the last lines as fit, never more,
/// and the newest line when not scrolled.
pub proof fn law_visible_range_fits(len: int, height: int, scroll: int)
    requires
        0 <= len,
        0 <= height,
        0 <= scroll,
    ensures
        0 <= visible_range(len, height, scroll).0 <= visible_range(len, height, scroll).1 <= len,
        visible_range(len, height, scroll).1 - visible_range(len, height, scroll).0 == (if len
            < height {
            len
        } else {
            height
        }),
        scroll == 0 ==> visible_range(len, height, scroll).1 == len,
{
}

/// The prompt pane always shows the char at the cursor: the cursor column
/// lies inside the pane, over the char it stands on.
pub proof fn law_cursor_stays_visible(input: Seq<char>, cursor_char: int, width: int)
    requires
        0 <= cursor_char <= input.len(),
        width >= 3,
    ensures
        0 <= prompt_window(input, cursor_char, width).1 < width - 2,
        cursor_char < input.len() ==> {
            let (shown, x) = prompt_window(input, cursor_char, width);
            x < shown.len() && shown[x] == input[cursor_char]
        },
{
    let inner = sat_sub(width, 2);
    let start = sat_sub(cursor_char, sat_sub(inner, 1));
    assert(start + prompt_window(input, cursor_char, width).1 == cursor_char);
}

// ---------------------------------------------------------------------------
// Tools offered to the model
// ---------------------------------------------------------------------------
/// Every name that the schema of tool `i` requires is one of its properties.
pub open spec fn required_are_properties(i: int) -> bool {
    forall|k: int|
        0 <= k < standard_required_fields()[i].len() ==> has_property(
            standard_properties()[i],
            #[trigger] standard_required_fields()[i][k],
        )
}

/// Some property of `props` is named `name`.
pub open spec fn has_property(props: Seq<(Seq<char>, Seq<char>)>, name: Seq<char>) -> bool {
    exists|j: int| 0 <= j < props.len() && #[trigger] props[j].0 == name
}

/// The schema of each tool offered to the model is an object schema whose
/// required names are among its properties.
pub proof fn law_standard_schemas_require_listed_properties()
    ensures
        forall|i: int|
            0 <= i < standard_tool_table().len() ==> #[trigger] standard_tool_table()[i].2
                == schema_text(standard_properties()[i], standard_required_fields()[i]),
        forall|i: int|
            0 <= i < standard_tool_table().len() ==> #[trigger] required_are_properties(i),
{
    assert forall|i: int| 0 <= i < standard_tool_table().len() implies #[trigger] required_are_properties(i) by {
        lemma_required_are_properties(i);
    }
}

proof fn lemma_required_are_properties(i: int)
    requires
        0 <= i < 7,
    ensures
        required_are_properties(i),
{
    let props = standard_properties()[i];
    let req = standard_required_fields()[i];
    assert forall|k: int| 0 <= k < req.len() implies has_property(props, #[trigger] req[k]) by {
        if i == 0 || i == 1 || i == 4 || i == 6 {
            assert(props[0].0 == req[k]);
        } else if i == 2 {
            if k == 0 {
                assert(props[1].0 == req[k]);
            } else {
                assert(props[0].0 == req[k]);
            }
        } else if i == 3 {
            if k == 0 {
                assert(props[2].0 == req[k]);
            } else if k == 1 {
                assert(props[1].0 == req[k]);
            } else {
                assert(props[0].0 == req[k]);
            }
        } else {
            assert(props[1].0 == req[k]);
        }
    }
}

/// The tools offered to the model have distinct names, among them `bash`,
/// `read`, `write` and `edit`; and a request that names one of them and
/// gives a string for each field it requires is a tool call.
pub proof fn law_standard_tools_are_callable(i: int, fields: Seq<(Seq<char>, Option<Seq<char>>)>)
    requires
        0 <= i < standard_tool_table().len(),
        field_lookup(fields, "tool"@) == Some(standard_tool_table()[i].0),
        forall|k: int|
            0 <= k < standard_required_fields()[i].len() ==> #[trigger] field_lookup(
                fields,
                standard_required_fields()[i][k],
            ) is Some,
    ensures
        tool_call_from_fields(fields) is Ok,
        forall|a: int, b: int|
            0 <= a < b < standard_tool_table().len() ==> #[trigger] standard_tool_table()[a].0
                != #[trigger] standard_tool_table()[b].0,
        standard_tool_table()[0].0 == "bash"@,
        standard_tool_table()[1].0 == "read"@,
        standard_tool_table()[2].0 == "write"@,
        standard_tool_table()[3].0 == "edit"@,
{
    reveal_strlit("bash");
    reveal_strlit("run_command");
    reveal_strlit("read");
    reveal_strlit("read_file");
    reveal_strlit("write");
    reveal_strlit("write_file");
    reveal_strlit("edit");
    reveal_strlit("list");
    reveal_strlit("list_files");
    reveal_strlit("search");
    reveal_strlit("grep");
    reveal_strlit("patch");
    reveal_strlit("apply_patch");
    let t = standard_tool_table();
    let req = standard_required_fields()[i];
    assert forall|k: int| 0 <= k < req.len() implies field_lookup(fields, req[k]) is Some by {}
    let names: Seq<Seq<char>> = seq![
        "bash"@,
        "run_command"@,
        "read"@,
        "read_file"@,
        "write"@,
        "write_file"@,
        "edit"@,
        "list"@,
        "list_files"@,
        "search"@,
        "grep"@,
        "patch"@,
        "apply_patch"@,
    ];
    assert forall|x: int, y: int| 0 <= x < names.len() && 0 <= y < names.len() && x != y implies #[trigger] names[x]
        != #[trigger] names[y] by {
        if names[x] == names[y] {
            assert(names[x].len() == names[y].len());
            assert(names[x][0] == names[y][0]);
        }
    }
    let tool = t[i].0;
    assert(tool == names[0] || tool == names[2] || tool == names[4] || tool == names[6]
        || tool == names[7] || tool == names[9] || tool == names[11]);
    assert(field_lookup(fields, req[0]) is Some);
    if i == 2 {
        assert(field_lookup(fields, req[1]) is Some);
    }
    if i == 3 {
        assert(field_lookup(fields, req[1]) is Some && field_lookup(fields, req[2]) is Some);
    }
    assert forall|a: int, b: int| 0 <= a < b < t.len() implies #[trigger] t[a].0 != #[trigger] t[b].0 by {
        if t[a].0 == t[b].0 {
            assert(t[a].0.len() == t[b].0.len());
            assert(t[a].0[0] == t[b].0[0]);
            assert(t[a].0[1] == t[b].0[1]);
        }
    }
}

// ---------------------------------------------------------------------------
// Tool results and commands
// ---------------------------------------------------------------------------
/// A finished tool hands its output to the model: the conversation gains
/// one user message, the fixed lead-in line, the output itself, then the
/// fixed instruction to continue; nothing before it changes.
pub proof fn law_tool_output_reaches_model(
    b: App,
    content: String,
    a: App,
    effects: Seq<Effect>,
)
    requires
        event_step(b, AppEvent::ToolDone(content), a, effects),
    ensures
        a.messages@.len() == b.messages@.len() + 1,
        a.messages@.take(b.messages@.len() as int) == b.messages@,
        a.messages@.last().role@ == "user"@,
        a.messages@.last().content@ == "Tool result for your previous tool call:"@ + seq!['\n']
            + content@ + seq!['\n']
            + "Continue from this result. If ok is false, recover by using another supported tool or explain the failure."@,
{
    assert(a.messages@.take(b.messages@.len() as int) =~= a.messages@.drop_last());
}

/// `/read ARGS` asks to read the file ARGS and `/bash ARGS` to run the
/// command ARGS, where ARGS is the words after the command name joined by
/// single spaces (empty when there are none); each asks for that one tool run
/// and nothing else.
pub proof fn law_read_and_bash_commands_run_their_tool(
    b: App,
    a: App,
    cmd: Seq<char>,
    effects: Seq<Effect>,
)
    requires
        handled_command(b, a, cmd, effects),
        words(cmd).len() > 0,
    ensures
        words(cmd)[0] == "/read"@ ==> {
            &&& effects.len() == 1
            &&& effects[0] matches Effect::RunTool { call, from_command }
            &&& from_command
            &&& call@ == ToolCallModel::Read {
                path: if words(cmd).len() > 1 {
                    join(words(cmd).skip(1), " "@)
                } else {
                    Seq::empty()
                },
            }
        },
        words(cmd)[0] == "/bash"@ ==> {
            &&& effects.len() == 1
            &&& effects[0] matches Effect::RunTool { call, from_command }
            &&& from_command
            &&& call@ == ToolCallModel::Bash {
                command: if words(cmd).len() > 1 {
                    join(words(cmd).skip(1), " "@)
                } else {
                    Seq::empty()
                },
            }
        },
{
    reveal_strlit("/read");
    reveal_strlit("/bash");
    reveal_strlit("/clear");
    reveal_strlit("/init");
    reveal_strlit("/agents");
    reveal_strlit("/help");
    reveal_strlit("/");
    reveal_strlit("/tools");
    reveal_strlit("/model");
    reveal_strlit("/models");
    let name = words(cmd)[0];
    let others: Seq<Seq<char>> = seq![
        "/clear"@,
        "/init"@,
        "/agents"@,
        "/help"@,
        "/"@,
        "/tools"@,
        "/model"@,
        "/models"@,
    ];
    if name == "/read"@ || name == "/bash"@ {
        assert forall|i: int| 0 <= i < others.len() implies #[trigger] others[i] != name by {
            if others[i] == name {
                assert(others[i].len() == name.len());
                assert(others[i][1] == name[1]);
            }
        }
        assert(others[0] != name && others[1] != name && others[2] != name && others[3] != name);
        assert(others[4] != name && others[5] != name && others[6] != name && others[7] != name);
        if name == "/read"@ {
            assert(name != "/bash"@) by {
                assert(name[1] != "/bash"@[1]);
            }
        }
    }
}

/// A request carries its fields into the tool call it names: each field
/// of the call is the string given under that field's own name (`command`,
/// `path`, `content`, `old`, `new`, `query`, `patch`), for every tool and
/// every alias of it, when each field it requires is given.
pub proof fn law_tool_request_fields_go_to_their_place(f: Seq<(Seq<char>, Option<Seq<char>>)>)
    ensures
        (field_lookup(f, "tool"@) == Some("bash"@) || field_lookup(f, "tool"@) == Some(
            "run_command"@,
        )) && field_lookup(f, "command"@) is Some ==> tool_call_from_fields(f) == Ok::<
            ToolCallModel,
            ToolCallErrorModel,
        >(ToolCallModel::Bash { command: field_lookup(f, "command"@)->0 }),
        (field_lookup(f, "tool"@) == Some("read"@) || field_lookup(f, "tool"@) == Some(
            "read_file"@,
        )) && field_lookup(f, "path"@) is Some ==> tool_call_from_fields(f) == Ok::<
            ToolCallModel,
            ToolCallErrorModel,
        >(ToolCallModel::Read { path: field_lookup(f, "path"@)->0 }),
        (field_lookup(f, "tool"@) == Some("write"@) || field_lookup(f, "tool"@) == Some(
            "write_file"@,
        )) && field_lookup(f, "path"@) is Some && field_lookup(f, "content"@) is Some
            ==> tool_call_from_fields(f) == Ok::<ToolCallModel, ToolCallErrorModel>(
            ToolCallModel::Write {
                path: field_lookup(f, "path"@)->0,
                content: field_lookup(f, "content"@)->0,
            },
        ),
        field_lookup(f, "tool"@) == Some("edit"@) && field_lookup(f, "path"@) is Some
            && field_lookup(f, "old"@) is Some && field_lookup(f, "new"@) is Some
            ==> tool_call_from_fields(f) == Ok::<ToolCallModel, ToolCallErrorModel>(
            ToolCallModel::Edit {
                path: field_lookup(f, "path"@)->0,
                old: field_lookup(f, "old"@)->0,
                new: field_lookup(f, "new"@)->0,
            },
        ),
        (field_lookup(f, "tool"@) == Some("list"@) || field_lookup(f, "tool"@) == Some(
            "list_files"@,
        )) && field_lookup(f, "path"@) is Some ==> tool_call_from_fields(f) == Ok::<
            ToolCallModel,
            ToolCallErrorModel,
        >(ToolCallModel::List { path: field_lookup(f, "path"@)->0 }),
        (field_lookup(f, "tool"@) == Some("search"@) || field_lookup(f, "tool"@) == Some("grep"@))
            && field_lookup(f, "query"@) is Some ==> tool_call_from_fields(f) == Ok::<
            ToolCallModel,
            ToolCallErrorModel,
        >(ToolCallModel::Search { query: field_lookup(f, "query"@)->0, path: field_lookup(f, "path"@) }),
        (field_lookup(f, "tool"@) == Some("patch"@) || field_lookup(f, "tool"@) == Some(
            "apply_patch"@,
        )) && field_lookup(f, "patch"@) is Some ==> tool_call_from_fields(f) == Ok::<
            ToolCallModel,
            ToolCallErrorModel,
        >(ToolCallModel::Patch { patch: field_lookup(f, "patch"@)->0 }),
{
    reveal_strlit("bash");
    reveal_strlit("run_command");
    reveal_strlit("read");
    reveal_strlit("read_file");
    reveal_strlit("write");
    reveal_strlit("write_file");
    reveal_strlit("edit");
    reveal_strlit("list");
    reveal_strlit("list_files");
    reveal_strlit("search");
    reveal_strlit("grep");
    reveal_strlit("patch");
    reveal_strlit("apply_patch");
    let names: Seq<Seq<char>> = seq![
        "bash"@,
        "run_command"@,
        "read"@,
        "read_file"@,
        "write"@,
        "write_file"@,
        "edit"@,
        "list"@,
        "list_files"@,
        "search"@,
        "grep"@,
        "patch"@,
        "apply_patch"@,
    ];
    assert forall|x: int, y: int| 0 <= x < names.len() && 0 <= y < names.len() && x != y implies #[trigger] names[x]
        != #[trigger] names[y] by {
        if names[x] == names[y] {
            assert(names[x].len() == names[y].len());
            assert(names[x][0] == names[y][0]);
        }
    }
    if field_lookup(f, "tool"@) is Some {
        let tool = field_lookup(f, "tool"@)->0;
        let k = choose|k: int| 0 <= k < names.len() && names[k] == tool;
        if exists|k: int| 0 <= k < names.len() && names[k] == tool {
            assert(forall|j: int| 0 <= j < names.len() && j != k ==> names[j] != tool);
        }
    }
}

// ---------------------------------------------------------------------------
// Patches
// ---------------------------------------------------------------------------
/// Each line of `body` is a `+` line.
pub open spec fn all_plus_lines(body: Seq<Seq<char>>) -> bool {
    forall|i: int| 0 <= i < body.len() ==> #[trigger] body[i].len() > 0 && body[i][0] == '+'
}

/// The text of a file made of the `+` lines `body`: each line without its
/// `+`, followed by its own newline, in order.
pub open spec fn plus_lines_text(body: Seq<Seq<char>>) -> Seq<char> {
    body.map_values(|l: Seq<char>| l.drop_first() + seq!['\n']).flatten()
}

proof fn lemma_add_body_of_plus_lines(body: Seq<Seq<char>>)
    requires
        all_plus_lines(body),
    ensures
        add_body(body) == Some(plus_lines_text(body)),
    decreases body.len(),
{
    reveal_strlit("+");
    if body.len() > 0 {
        assert(body[0].len() > 0 && body[0][0] == '+');
        assert(body[0].take(1) =~= "+"@);
        let tail = body.drop_first();
        assert forall|i: int| 0 <= i < tail.len() implies #[trigger] tail[i].len() > 0 && tail[i][0]
            == '+' by {
            assert(tail[i] == body[i + 1]);
        }
        lemma_add_body_of_plus_lines(tail);
        let f = |l: Seq<char>| l.drop_first() + seq!['\n'];
        assert(body.map_values(f).drop_first() =~= tail.map_values(f));
    } else {
        assert(body.map_values(|l: Seq<char>| l.drop_first() + seq!['\n']) =~= Seq::<Seq<char>>::empty());
    }
}

proof fn lemma_body_len_of_plus_lines(body: Seq<Seq<char>>, more: Seq<Seq<char>>)
    requires
        all_plus_lines(body),
        more.len() > 0 ==> starts_with(more[0], "*** "@),
    ensures
        body_len(body + more) == body.len(),
    decreases body.len(),
{
    reveal_strlit("*** ");
    if body.len() > 0 {
        let ls = body + more;
        assert(ls[0] == body[0]);
        assert(body[0].len() > 0 && body[0][0] == '+');
        if starts_with(ls[0], "*** "@) {
            assert(ls[0].take(4)[0] == '*');
        }
        let tail = body.drop_first();
        assert forall|i: int| 0 <= i < tail.len() implies #[trigger] tail[i].len() > 0 && tail[i][0]
            == '+' by {
            assert(tail[i] == body[i + 1]);
        }
        assert(ls.drop_first() =~= tail + more);
        lemma_body_len_of_plus_lines(tail, more);
    } else {
        assert(body + more =~= more);
    }
}

/// A patch that adds one file plans that file with the text of its `+`
/// lines: each line without its `+` and followed by its own newline, in
/// order, so a file of k `+` lines has k lines; the path is the rest of the
/// `*** Add File: ` line. Whatever follows the file's lines, this is the
/// first operation of the plan.
pub proof fn law_added_file_holds_its_plus_lines(
    p: Seq<char>,
    path: Seq<char>,
    body: Seq<Seq<char>>,
    more: Seq<Seq<char>>,
)
    requires
        contains(p, "*** Begin Patch"@),
        contains(p, "*** End Patch"@),
        lines(p) == seq!["*** Begin Patch"@, "*** Add File: "@ + path] + body + more,
        all_plus_lines(body),
        more.len() > 0 ==> starts_with(more[0], "*** "@),
    ensures
        patch_plan(p).0.len() > 0,
        patch_plan(p).0[0] == (PatchOpModel::Add { path, content: plus_lines_text(body) }),
{
    reveal_strlit("*** Begin Patch");
    reveal_strlit("*** Add File: ");
    reveal_strlit("*** Delete File: ");
    reveal_strlit("*** Update File: ");
    let ls = lines(p);
    let begin = ls[0];
    assert(begin == "*** Begin Patch"@);
    if starts_with(begin, "*** Add File: "@) {
        assert(begin.take(14)[4] == begin[4]);
    }
    if starts_with(begin, "*** Delete File: "@) {
        assert(begin.take(17)[4] == begin[4]);
    }
    if starts_with(begin, "*** Update File: "@) {
        assert(begin.take(17)[4] == begin[4]);
    }
    let ls1 = ls.drop_first();
    assert(parse_ops(ls) == parse_ops(ls1));
    let header = "*** Add File: "@ + path;
    assert(ls1[0] == header);
    assert(header.take(14) =~= "*** Add File: "@);
    assert(header.skip(14) =~= path);
    let rest = ls1.drop_first();
    assert(rest =~= body + more);
    lemma_body_len_of_plus_lines(body, more);
    assert(rest.take(body.len() as int) =~= body);
    lemma_add_body_of_plus_lines(body);
    assert(parse_ops(ls1).0[0] == (PatchOpModel::Add { path, content: plus_lines_text(body) }));
}

} // verus!
