use ollo_code::app::{
    approximate_tokens, commands, next_boundary, previous_boundary, split_thinking, App, AppEvent,
    Effect,
};
use ollo_code::config::Config;
use ollo_code::ollama::{system_prompt, ChatMessage, Model};

fn test_app() -> App {
    let mut app = App::blank("/work".to_string(), Config::initial(None));
    app.messages = vec![system_prompt(None)];
    app
}

fn model(name: &str) -> Model {
    Model {
        name: name.to_string(),
        size: None,
        modified_at: None,
        details: None,
        capabilities: vec!["tools".to_string()],
    }
}

#[test]
fn slash_predicts_all_commands() {
    let mut app = test_app();
    app.input = "/".to_string();
    app.input_cursor = app.input.len();

    let suggestions = app.command_suggestions();
    assert!(suggestions.iter().any(|command| command.name == "/init"));
    assert!(suggestions.iter().any(|command| command.name == "/bash"));
}

#[test]
fn partial_slash_predicts_matching_commands() {
    let mut app = test_app();
    app.input = "/mo".to_string();
    app.input_cursor = app.input.len();

    let names: Vec<&str> = app
        .command_suggestions()
        .iter()
        .map(|command| command.name)
        .collect();
    assert_eq!(names, vec!["/model", "/models"]);
}

#[test]
fn arrows_scroll_command_selection() {
    let mut app = test_app();
    app.input = "/mo".to_string();
    app.input_cursor = app.input.len();

    assert_eq!(app.selected_command_index(), 0);
    app.command_selection_down();
    assert_eq!(app.selected_command_index(), 1);
    app.command_selection_down();
    assert_eq!(app.selected_command_index(), 1);
    app.command_selection_up();
    assert_eq!(app.selected_command_index(), 0);
}

#[test]
fn context_percent_uses_selected_model() {
    let mut app = test_app();
    app.selected_model = Some("granite4:350m".to_string());
    app.models = vec![Model {
        name: "granite4:350m".to_string(),
        size: None,
        modified_at: None,
        details: None,
        capabilities: Vec::new(),
    }];
    app.messages
        .push(ChatMessage::new("user", "hello".repeat(100)));

    assert!(app.context_percent().is_some());
    assert!(app.context_label().starts_with("ctx "));
}

#[test]
fn splits_thinking_blocks_for_display() {
    let (thinking, assistant) = split_thinking("<think>checking files</think>\nDone.");
    assert_eq!(thinking, "checking files");
    assert_eq!(assistant, "Done.");
}

#[test]
fn enter_completes_partial_command() {
    let mut app = test_app();
    app.input = "/mo".to_string();
    app.input_cursor = app.input.len();
    app.command_selection_down();

    assert!(app.complete_selected_command());
    assert_eq!(app.input, "/models ");
}

#[test]
fn exact_command_does_not_autocomplete() {
    let mut app = test_app();
    app.input = "/models".to_string();
    app.input_cursor = app.input.len();

    assert!(!app.complete_selected_command());
}

#[test]
fn command_table_lists_eleven_commands_in_order() {
    let names: Vec<&str> = commands().iter().map(|c| c.name).collect();
    assert_eq!(
        names,
        vec![
            "/help", "/init", "/agents", "/tools", "/model", "/models", "/bash", "/read",
            "/clear", "/context", "/pwd"
        ]
    );
}

#[test]
fn plain_text_has_no_suggestions() {
    let mut app = test_app();
    app.input = "hello".to_string();
    assert!(app.command_suggestions().is_empty());
    assert!(!app.commands_active());
}

#[test]
fn split_thinking_of_unclosed_block() {
    let (thinking, assistant) = split_thinking("Answer <think>still going");
    assert_eq!(thinking, "still going");
    assert_eq!(assistant, "Answer");
}

#[test]
fn split_thinking_without_tags_trims_the_reply() {
    let (thinking, assistant) = split_thinking("  plain reply \n");
    assert_eq!(thinking, "");
    assert_eq!(assistant, "plain reply");
}

#[test]
fn split_thinking_joins_several_blocks() {
    let (thinking, assistant) =
        split_thinking("<think>a</think>one<think> b </think> two ");
    assert_eq!(thinking, "a\nb");
    assert_eq!(assistant, "one\ntwo");
}

#[test]
fn approximate_tokens_is_a_quarter_of_the_chars() {
    assert_eq!(approximate_tokens(""), 1);
    assert_eq!(approximate_tokens("abcdefgh"), 2);
    assert_eq!(approximate_tokens(&"x".repeat(400)), 100);
}

#[test]
fn context_percent_counts_tokens_against_the_limit() {
    let mut app = test_app();
    app.selected_model = Some("granite4:350m".to_string());
    app.models = vec![model("granite4:350m")];
    app.messages = vec![ChatMessage::new("user", "x".repeat(4000))];
    // 1000 tokens plus 4 for the message, against 32768.
    assert_eq!(app.context_percent(), Some(3));
    assert_eq!(app.context_label(), "ctx 3% ~1004/32768");
}

#[test]
fn context_label_without_model_counts_tokens() {
    let mut app = test_app();
    app.messages = vec![ChatMessage::new("user", "x".repeat(40))];
    assert_eq!(app.context_percent(), None);
    assert_eq!(app.context_label(), "ctx ~14 tokens");
}

#[test]
fn boundaries_step_over_multibyte_chars() {
    let text = "aé€";
    assert_eq!(previous_boundary(text, 0), None);
    assert_eq!(previous_boundary(text, 3), Some(1));
    assert_eq!(next_boundary(text, 1), Some(3));
    assert_eq!(next_boundary(text, 3), Some(6));
    assert_eq!(next_boundary(text, 6), None);
}

#[test]
fn backspace_after_insert_restores_the_prompt() {
    let mut app = test_app();
    app.input = "aé".to_string();
    app.input_cursor = 1;
    app.input_insert('€');
    assert_eq!(app.input, "a€é");
    assert_eq!(app.input_cursor, 4);
    app.input_backspace();
    assert_eq!(app.input, "aé");
    assert_eq!(app.input_cursor, 1);
}

#[test]
fn right_after_left_restores_the_cursor() {
    let mut app = test_app();
    app.input = "aé€".to_string();
    app.input_cursor = 3;
    app.input_left();
    assert_eq!(app.input_cursor, 1);
    app.input_right();
    assert_eq!(app.input_cursor, 3);
}

#[test]
fn editing_keys_change_the_prompt() {
    let mut app = test_app();
    app.input_insert_str("héllo");
    assert_eq!(app.input_cursor, 6);
    app.input_home();
    assert_eq!(app.input_cursor, 0);
    app.input_delete();
    assert_eq!(app.input, "éllo");
    app.input_end();
    assert_eq!(app.input_cursor, app.input.len());
    app.input_backspace();
    assert_eq!(app.input, "éll");
    assert!(app.is_well_formed());
}

#[test]
fn history_walks_back_and_forth() {
    let mut app = test_app();
    app.config.prompt_history = vec!["first".to_string(), "second".to_string()];
    app.history_previous();
    assert_eq!(app.input, "second");
    assert_eq!(app.history_cursor, Some(1));
    app.history_previous();
    assert_eq!(app.input, "first");
    app.history_previous();
    assert_eq!(app.input, "first");
    app.history_next();
    assert_eq!(app.input, "second");
    app.history_next();
    assert_eq!(app.input, "");
    assert_eq!(app.history_cursor, None);
}

#[test]
fn scroll_stays_between_zero_and_six_lines_per_entry() {
    let mut app = test_app();
    app.scroll_transcript(-3);
    assert_eq!(app.transcript_scroll, 0);
    app.submit_prompt_for_test("hi");
    app.scroll_transcript(100);
    assert_eq!(app.transcript_scroll, 6 * app.transcript.len());
}

trait SubmitForTest {
    fn submit_prompt_for_test(&mut self, text: &str);
}

impl SubmitForTest for App {
    fn submit_prompt_for_test(&mut self, text: &str) {
        self.input = text.to_string();
        self.input_cursor = self.input.len();
        self.selected_model = Some("m".to_string());
        self.submit_prompt();
    }
}

#[test]
fn next_then_previous_model_returns_to_the_selection() {
    let mut app = test_app();
    app.models = vec![model("a"), model("b"), model("c")];
    app.selected_model = Some("c".to_string());
    let effects = app.select_next_model();
    assert_eq!(app.selected_model.as_deref(), Some("a"));
    assert!(matches!(effects.as_slice(), [Effect::SaveConfig]));
    app.select_previous_model();
    assert_eq!(app.selected_model.as_deref(), Some("c"));
    assert_eq!(app.status, "Selected c");
}

#[test]
fn selecting_without_models_reports_it() {
    let mut app = test_app();
    let effects = app.select_next_model();
    assert!(effects.is_empty());
    assert_eq!(app.status, "No Ollama models available");
    assert!(app.select_model_index(3).is_empty());
}

#[test]
fn submit_sends_the_prompt_to_the_selected_model() {
    let mut app = test_app();
    app.selected_model = Some("llama".to_string());
    app.input = "  explain this  ".to_string();
    app.input_cursor = app.input.len();
    let effects = app.submit_prompt();
    assert_eq!(app.input, "");
    assert_eq!(app.config.prompt_history, vec!["explain this".to_string()]);
    assert_eq!(app.messages.last().unwrap().content, "explain this");
    assert!(app.busy);
    assert_eq!(app.status, "Streaming from llama");
    assert_eq!(effects.len(), 3);
    assert!(matches!(&effects[2], Effect::StartChat { model } if model == "llama"));
}

#[test]
fn submit_without_model_asks_for_one() {
    let mut app = test_app();
    app.input = "hello".to_string();
    app.input_cursor = app.input.len();
    let effects = app.submit_prompt();
    assert_eq!(app.status, "Select an Ollama model first");
    assert_eq!(effects.len(), 1);
    assert_eq!(app.messages.len(), 1);
}

#[test]
fn submit_while_busy_waits() {
    let mut app = test_app();
    app.busy = true;
    app.input = "hello".to_string();
    let effects = app.submit_prompt();
    assert!(effects.is_empty());
    assert_eq!(app.status, "Wait for the current request to finish");
    assert_eq!(app.input, "hello");
}

#[test]
fn history_keeps_the_newest_hundred_prompts() {
    let mut app = test_app();
    app.config.prompt_history = (0..100).map(|i| format!("p{i}")).collect();
    app.input = "newest".to_string();
    app.input_cursor = app.input.len();
    app.submit_prompt();
    assert_eq!(app.config.prompt_history.len(), 100);
    assert_eq!(app.config.prompt_history[0], "p1");
    assert_eq!(app.config.prompt_history[99], "newest");
}

#[test]
fn new_app_starts_with_the_system_prompt() {
    let restored = vec![
        ChatMessage::new("system", "old prompt".to_string()),
        ChatMessage::new("user", "hi".to_string()),
        ChatMessage::new("assistant", "hello".to_string()),
    ];
    let (app, effects) = App::new("/work".to_string(), Config::initial(None), None, restored, 1_700_000_000);
    assert_eq!(app.messages.len(), 3);
    assert_eq!(app.messages[0].role, "system");
    assert!(app.messages[0].content.ends_with("The user can run /init to create one."));
    assert_eq!(app.status, "Refreshing Ollama models");
    assert!(matches!(effects.as_slice(), [Effect::RefreshModels]));
    assert_eq!(app.transcript.last().unwrap().content, "No AGENTS.md found. Run /init to create one.");
    assert!(app.transcript.iter().all(|item| item.timestamp == 1_700_000_000));
}

#[test]
fn streamed_reply_is_gathered_then_finished() {
    let mut app = test_app();
    app.selected_model = Some("m".to_string());
    app.input = "question".to_string();
    app.input_cursor = app.input.len();
    app.submit_prompt();
    app.handle_event(AppEvent::AssistantDelta("Hel".to_string()));
    app.handle_event(AppEvent::AssistantDelta("lo".to_string()));
    assert_eq!(app.pending_assistant, "Hello");
    let effects = app.handle_event(AppEvent::AssistantDone(Ok(String::new())));
    assert!(!app.busy);
    assert_eq!(app.messages[0].role, "system");
    assert!(effects.iter().any(|e| matches!(e, Effect::SaveConversation)));
}

#[test]
fn clear_command_keeps_only_the_system_prompt() {
    let mut app = test_app();
    app.messages.push(ChatMessage::new("user", "hi".to_string()));
    let effects = app.handle_command("/clear");
    assert_eq!(app.messages.len(), 1);
    assert_eq!(app.messages[0].role, "system");
    assert!(app.transcript.is_empty());
    assert_eq!(app.status, "Transcript cleared");
    assert!(effects.iter().any(|e| matches!(e, Effect::ClearConversation)));
}

#[test]
fn pwd_command_reports_the_workspace() {
    let mut app = test_app();
    app.handle_command("/pwd");
    assert_eq!(app.transcript.last().unwrap().content, "/work");
    assert_eq!(app.status, "/work");
}

#[test]
fn unknown_command_is_reported() {
    let mut app = test_app();
    app.handle_command("/frobnicate now");
    assert_eq!(
        app.status,
        "Unknown command `/frobnicate`. Run /help for commands."
    );
    assert_eq!(app.transcript[0].role, "command");
    assert_eq!(app.transcript[0].content, "/frobnicate now");
}

#[test]
fn model_command_selects_a_loaded_model() {
    let mut app = test_app();
    app.models = vec![model("a"), model("b")];
    app.handle_command("/model b");
    assert_eq!(app.selected_model.as_deref(), Some("b"));
    assert_eq!(app.status, "Selected b");
    app.handle_command("/model zzz");
    assert_eq!(
        app.status,
        "Model `zzz` is not loaded. Run /models to see available models."
    );
    app.handle_command("/model");
    assert_eq!(app.status, "Usage: /model <exact model name>");
}

#[test]
fn models_command_marks_the_selected_model() {
    let mut app = test_app();
    app.handle_command("/models");
    assert_eq!(app.status, "No models loaded. Run Ctrl+M to refresh Ollama models.");
    app.models = vec![model("a"), model("b")];
    app.selected_model = Some("b".to_string());
    app.handle_command("/models");
    assert_eq!(app.transcript.last().unwrap().content, "  a\n> b");
}

#[test]
fn bash_command_asks_to_run_the_tool() {
    let mut app = test_app();
    let effects = app.handle_command("/bash echo  hi");
    assert_eq!(app.status, "Running bash command");
    assert!(effects.iter().any(|e| matches!(
        e,
        Effect::RunTool { call: ollo_code::tools::ToolCall::Bash { command }, from_command: true }
            if command == "echo hi"
    )));
}

#[test]
fn finished_reply_keeps_the_times_of_earlier_entries() {
    let mut app = test_app();
    app.selected_model = Some("m".to_string());
    app.input = "question".to_string();
    app.input_cursor = app.input.len();
    app.submit_prompt();
    app.transcript[0].timestamp = 42;
    app.clock = 100;
    app.handle_event(AppEvent::AssistantDelta("partial".to_string()));
    app.clock = 200;
    app.handle_event(AppEvent::AssistantDone(Ok("<think>hm</think>answer".to_string())));
    assert_eq!(app.transcript[0].timestamp, 42);
    assert_eq!(app.transcript[1].timestamp, 200);
    assert_eq!(app.transcript[2].timestamp, 200);
    assert_eq!(app.transcript[0].role, "user");
    assert_eq!(app.transcript.len(), 3);
    assert_eq!(app.transcript[2].content, "answer");
}

#[test]
fn history_next_works_whatever_the_cursor() {
    let mut app = test_app();
    app.config.prompt_history = vec!["one".to_string()];
    app.input = "é".to_string();
    app.input_cursor = 1;
    app.history_cursor = Some(0);
    app.history_next();
    assert_eq!(app.input, "");
    assert_eq!(app.history_cursor, None);
}

#[test]
fn next_boundary_steps_over_one_char() {
    assert_eq!(next_boundary("éa", 0), Some(2));
    assert_eq!(previous_boundary("éa", 2), Some(0));
}

#[test]
fn enter_on_a_partial_command_completes_it() {
    let mut app = test_app();
    app.input = "/mo".to_string();
    app.input_cursor = app.input.len();
    let effects = app.submit_prompt();
    assert!(effects.is_empty());
    assert_eq!(app.input, "/model ");
    assert_eq!(app.input_cursor, 7);
    assert_eq!(app.command_cursor, 0);
    assert_eq!(app.status, "Completed /model");
    assert!(app.config.prompt_history.is_empty());
}
