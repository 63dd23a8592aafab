use ollo_code::agents::{default_agents_md, init_contents, AGENTS_FILE};
use ollo_code::app::{App, TranscriptItem};
use ollo_code::config::{Config, DEFAULT_OLLAMA_HOST};
use ollo_code::ollama::Model;
use ollo_code::ui::{
    contains, key_action, layout_areas, public_areas, role_tone, tone_for, transcript_lines,
    visible_tail_range, Area, Key, KeyAction, KeyMods, MouseAction, MouseKind, RoleTone,
    StatusTone, TranscriptLine, UiAreas,
};

fn area(x: u16, y: u16, width: u16, height: u16) -> Area {
    Area { x, y, width, height }
}

fn test_app() -> App {
    App::blank("/work".to_string(), Config::initial(None))
}

fn model(name: &str) -> Model {
    Model {
        name: name.to_string(),
        size: None,
        modified_at: None,
        details: None,
        capabilities: Vec::new(),
    }
}

#[test]
fn keys_map_to_actions() {
    assert_eq!(key_action(KeyMods::Control, Key::Char('c')), KeyAction::Quit);
    assert_eq!(key_action(KeyMods::Plain, Key::Esc), KeyAction::Quit);
    assert_eq!(key_action(KeyMods::Control, Key::Char('m')), KeyAction::RefreshModels);
    assert_eq!(key_action(KeyMods::Control, Key::Char('j')), KeyAction::NextModel);
    assert_eq!(key_action(KeyMods::Control, Key::Char('k')), KeyAction::PreviousModel);
    assert_eq!(key_action(KeyMods::Control, Key::Char('a')), KeyAction::Home);
    assert_eq!(key_action(KeyMods::Control, Key::Char('e')), KeyAction::End);
    assert_eq!(key_action(KeyMods::Plain, Key::Up), KeyAction::HistoryPrevious);
    assert_eq!(key_action(KeyMods::Control, Key::Down), KeyAction::HistoryNext);
    assert_eq!(key_action(KeyMods::Plain, Key::PageUp), KeyAction::ScrollTranscript(8));
    assert_eq!(key_action(KeyMods::Plain, Key::PageDown), KeyAction::ScrollTranscript(-8));
    assert_eq!(key_action(KeyMods::Plain, Key::Enter), KeyAction::Submit);
    assert_eq!(key_action(KeyMods::Shift, Key::Char('A')), KeyAction::Insert('A'));
    assert_eq!(key_action(KeyMods::Plain, Key::Char('x')), KeyAction::Insert('x'));
    assert_eq!(key_action(KeyMods::Control, Key::Char('x')), KeyAction::Nothing);
    assert_eq!(key_action(KeyMods::Other, Key::Char('x')), KeyAction::Nothing);
    assert_eq!(key_action(KeyMods::Plain, Key::Other), KeyAction::Nothing);
}

#[test]
fn contains_uses_half_open_ranges() {
    let a = area(2, 3, 4, 5);
    assert!(contains(a, 2, 3));
    assert!(contains(a, 5, 7));
    assert!(!contains(a, 6, 3));
    assert!(!contains(a, 2, 8));
    assert!(!contains(a, 1, 3));
    let edge = area(65530, 0, 100, 1);
    assert!(contains(edge, 65534, 0));
}

#[test]
fn screen_layout_gives_each_pane_its_rows() {
    let all = layout_areas(area(0, 0, 100, 40));
    assert_eq!(all.header, area(0, 0, 100, 3));
    assert_eq!(all.transcript, area(0, 3, 72, 26));
    assert_eq!(all.models, area(72, 3, 28, 26));
    assert_eq!(all.suggestions, area(0, 29, 100, 6));
    assert_eq!(all.input, area(0, 35, 100, 4));
    assert_eq!(all.status, area(0, 39, 100, 1));
    let public = public_areas(area(0, 0, 100, 40));
    assert_eq!(public.input, all.input);
}

fn areas() -> UiAreas {
    UiAreas {
        transcript: area(0, 3, 72, 26),
        models: area(72, 3, 28, 26),
        input: area(0, 35, 100, 4),
    }
}

#[test]
fn mouse_wheel_scrolls_or_switches_models() {
    let app = test_app();
    assert_eq!(
        app.mouse_action(&areas(), MouseKind::ScrollUp, 10, 10),
        MouseAction::ScrollTranscript(3)
    );
    assert_eq!(
        app.mouse_action(&areas(), MouseKind::ScrollDown, 10, 10),
        MouseAction::ScrollTranscript(-3)
    );
    assert_eq!(app.mouse_action(&areas(), MouseKind::ScrollUp, 80, 10), MouseAction::PreviousModel);
    assert_eq!(app.mouse_action(&areas(), MouseKind::ScrollDown, 80, 10), MouseAction::NextModel);
    assert_eq!(app.mouse_action(&areas(), MouseKind::ScrollDown, 10, 0), MouseAction::Nothing);
    assert_eq!(app.mouse_action(&areas(), MouseKind::Other, 10, 10), MouseAction::Nothing);
}

#[test]
fn mouse_click_selects_a_model_row() {
    let app = test_app();
    assert_eq!(app.mouse_action(&areas(), MouseKind::LeftDown, 80, 6), MouseAction::SelectModel(2));
    assert_eq!(app.mouse_action(&areas(), MouseKind::LeftDown, 80, 3), MouseAction::SelectModel(0));
}

#[test]
fn mouse_click_moves_the_prompt_cursor() {
    let mut app = test_app();
    app.input = "aé€x".to_string();
    assert_eq!(app.mouse_action(&areas(), MouseKind::LeftDown, 3, 36), MouseAction::MoveCursor(3));
    assert_eq!(app.mouse_action(&areas(), MouseKind::LeftDown, 1, 36), MouseAction::MoveCursor(0));
    assert_eq!(app.mouse_action(&areas(), MouseKind::LeftDown, 50, 36), MouseAction::MoveCursor(7));
}

#[test]
fn mouse_action_on_a_screen_lays_it_out_first() {
    let app = test_app();
    assert_eq!(
        app.mouse_action_on_screen(100, 40, MouseKind::ScrollUp, 10, 10),
        MouseAction::ScrollTranscript(3)
    );
}

#[test]
fn visible_tail_shows_the_last_lines() {
    assert_eq!(visible_tail_range(5, 10, 3), (0, 5));
    assert_eq!(visible_tail_range(20, 5, 0), (15, 20));
    assert_eq!(visible_tail_range(20, 5, 3), (12, 17));
    assert_eq!(visible_tail_range(20, 5, 100), (0, 5));
}

#[test]
fn prompt_view_follows_the_cursor() {
    let mut app = test_app();
    app.input = "abcdefghij".to_string();
    app.input_cursor = 10;
    assert_eq!(app.prompt_view(7), ("ghij".to_string(), 4));
    app.input_cursor = 2;
    assert_eq!(app.prompt_view(7), ("abcde".to_string(), 2));
    assert_eq!(app.prompt_view(2), (String::new(), 0));
}

#[test]
fn status_tone_flags_errors_in_any_case() {
    let mut app = test_app();
    app.status = "Chat ERROR: boom".to_string();
    assert_eq!(app.status_tone(), StatusTone::Error);
    app.status = "Streaming".to_string();
    app.busy = true;
    assert_eq!(app.status_tone(), StatusTone::Busy);
    app.busy = false;
    assert_eq!(app.status_tone(), StatusTone::Idle);
    assert_eq!(tone_for("an error", false), StatusTone::Error);
}

#[test]
fn model_rows_mark_the_selection() {
    let mut app = test_app();
    app.models = vec![model("a"), model("b")];
    app.selected_model = Some("b".to_string());
    assert_eq!(
        app.model_rows(),
        vec![(false, "a".to_string()), (true, "b".to_string())]
    );
}

#[test]
fn roles_have_their_tones() {
    assert_eq!(role_tone("user"), RoleTone::User);
    assert_eq!(role_tone("assistant"), RoleTone::Assistant);
    assert_eq!(role_tone("tool"), RoleTone::Tool);
    assert_eq!(role_tone("system"), RoleTone::Plain);
}

#[test]
fn transcript_lines_show_header_text_and_gap() {
    let items = vec![
        TranscriptItem { role: "user".to_string(), content: "one\r\ntwo  \n\n".to_string(), timestamp: 7 },
        TranscriptItem { role: "assistant".to_string(), content: "   ".to_string(), timestamp: 8 },
    ];
    assert_eq!(
        transcript_lines(&items),
        vec![
            TranscriptLine::Header { role: "user".to_string(), timestamp: 7 },
            TranscriptLine::Text("one".to_string()),
            TranscriptLine::Text("two".to_string()),
            TranscriptLine::Blank,
            TranscriptLine::Header { role: "assistant".to_string(), timestamp: 8 },
            TranscriptLine::Text("...".to_string()),
            TranscriptLine::Blank,
        ]
    );
}

#[test]
fn agents_template_and_init() {
    assert_eq!(AGENTS_FILE, "AGENTS.md");
    assert!(default_agents_md().starts_with("# AGENTS.md\n\n## Project\n"));
    assert!(default_agents_md().ends_with("paths agents should avoid editing.\n"));
    assert_eq!(init_contents(true), Err("AGENTS.md already exists".to_string()));
    assert_eq!(init_contents(false), Ok(default_agents_md()));
}

#[test]
fn config_host_comes_from_the_environment_or_the_default() {
    assert_eq!(Config::initial(None).ollama_host, DEFAULT_OLLAMA_HOST);
    assert_eq!(DEFAULT_OLLAMA_HOST, "http://127.0.0.1:11434");
    let c = Config::initial(Some("http://box:1".to_string()));
    assert_eq!(c.ollama_host, "http://box:1");
    assert!(c.selected_model.is_none() && c.prompt_history.is_empty());
    let mut saved = Config::initial(None);
    saved.selected_model = Some("m".to_string());
    let over = saved.clone().with_host_override(Some("http://other".to_string()));
    assert_eq!(over.ollama_host, "http://other");
    assert_eq!(over.selected_model.as_deref(), Some("m"));
    assert_eq!(saved.with_host_override(None).ollama_host, DEFAULT_OLLAMA_HOST);
}
