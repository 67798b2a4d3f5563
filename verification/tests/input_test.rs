use mahgit::ui::input::{
    Command, InputHandler, KeyCode, KeyEvent, KeyModifiers, MouseButton, MouseEvent, MouseEventKind,
};

fn key(code: KeyCode, modifiers: KeyModifiers) -> KeyEvent {
    KeyEvent { code, modifiers }
}

fn plain(c: char) -> KeyEvent {
    key(KeyCode::Char(c), KeyModifiers::none())
}

#[test]
fn test_navigation_keys() {
    let mut handler = InputHandler::new();
    assert_eq!(handler.handle_key(plain('j')), Command::ScrollDiffDown);
    assert_eq!(handler.handle_key(plain('k')), Command::ScrollDiffUp);
}

#[test]
fn test_quit_commands() {
    let mut handler = InputHandler::new();
    assert_eq!(handler.handle_key(plain('q')), Command::Quit);
    let force_quit = key(KeyCode::Char('c'), KeyModifiers::control());
    assert_eq!(handler.handle_key(force_quit), Command::ForceQuit);
}

#[test]
fn test_gg_sequence() {
    let mut handler = InputHandler::new();
    let g_key = plain('g');
    assert_eq!(handler.handle_key(g_key), Command::Unknown);
    assert_eq!(handler.handle_key(g_key), Command::MoveToTop);
}

#[test]
fn test_gg_timeout() {
    let mut handler = InputHandler::new();
    let g_key = plain('g');
    assert_eq!(handler.handle_key(g_key), Command::Unknown);
    handler.clear_sequence_state();
    assert_eq!(handler.handle_key(g_key), Command::Unknown);
}

#[test]
fn test_generic_sequence_handling() {
    let mut handler = InputHandler::new();
    assert_eq!(handler.handle_key(plain('j')), Command::ScrollDiffDown);
    assert_eq!(handler.handle_key(plain('x')), Command::Unknown);
    assert_eq!(handler.handle_key(plain('y')), Command::Unknown);
}

#[test]
fn test_file_operation_keys() {
    let mut handler = InputHandler::new();
    assert_eq!(handler.handle_key(plain('s')), Command::StageFile);
    assert_eq!(handler.handle_key(plain('u')), Command::UnstageFile);
    assert_eq!(handler.handle_key(plain('a')), Command::AddUntracked);
    assert_eq!(handler.handle_key(plain(' ')), Command::PageForward);
}

#[test]
fn test_shift_s_u_mapping() {
    let mut handler = InputHandler::new();
    let shift_s = key(KeyCode::Char('S'), KeyModifiers::shift());
    let shift_u = key(KeyCode::Char('U'), KeyModifiers::shift());
    assert_eq!(handler.handle_key(shift_s), Command::Unknown);
    assert_eq!(handler.handle_key(shift_u), Command::Unknown);
}

#[test]
fn test_help_key() {
    let mut handler = InputHandler::new();
    assert_eq!(handler.handle_key(plain('?')), Command::ShowHelp);
}

#[test]
fn test_help_text_content() {
    let help_text = InputHandler::get_help_text();
    assert!(!help_text.is_empty());
    assert!(help_text.iter().any(|line| line.contains("?")));
    assert!(help_text.iter().any(|line| line.contains("Toggle help")));
    assert!(help_text.iter().any(|line| line.contains("Close help")));
}

#[test]
fn input_test_arrow_key_navigation() {
    let mut handler = InputHandler::new();
    assert_eq!(handler.handle_key(key(KeyCode::Left, KeyModifiers::none())), Command::MoveUpHierarchy);
    assert_eq!(handler.handle_key(key(KeyCode::Right, KeyModifiers::none())), Command::MoveDownHierarchy);
}

#[test]
fn test_existing_hunk_navigation_keys() {
    let mut handler = InputHandler::new();
    assert_eq!(handler.handle_key(plain('n')), Command::JumpToNextHunk);
    assert_eq!(handler.handle_key(plain('p')), Command::JumpToPreviousHunk);
}

#[test]
fn test_mouse_scroll_up() {
    let mut handler = InputHandler::new();
    let scroll_up = MouseEvent {
        kind: MouseEventKind::ScrollUp,
        column: 0,
        row: 0,
        modifiers: KeyModifiers::none(),
    };
    assert_eq!(handler.handle_mouse(scroll_up), Command::ScrollViewportUp);
}

#[test]
fn test_mouse_scroll_down() {
    let mut handler = InputHandler::new();
    let scroll_down = MouseEvent {
        kind: MouseEventKind::ScrollDown,
        column: 0,
        row: 0,
        modifiers: KeyModifiers::none(),
    };
    assert_eq!(handler.handle_mouse(scroll_down), Command::ScrollViewportDown);
}

#[test]
fn test_arrow_vertical_scroll_commands() {
    let mut handler = InputHandler::new();
    assert_eq!(handler.handle_key(key(KeyCode::Down, KeyModifiers::none())), Command::ScrollDiffDown);
    assert_eq!(handler.handle_key(key(KeyCode::Up, KeyModifiers::none())), Command::ScrollDiffUp);
}

#[test]
fn test_mouse_unsupported_events() {
    let mut handler = InputHandler::new();
    let click = MouseEvent {
        kind: MouseEventKind::Down(MouseButton::Left),
        column: 0,
        row: 0,
        modifiers: KeyModifiers::none(),
    };
    assert_eq!(handler.handle_mouse(click), Command::Noop);
    let move_event = MouseEvent {
        kind: MouseEventKind::Moved,
        column: 0,
        row: 0,
        modifiers: KeyModifiers::none(),
    };
    assert_eq!(handler.handle_mouse(move_event), Command::Noop);
}

#[test]
fn sequence_continues_only_with_a_waiting_key() {
    let mut handler = InputHandler::new();
    let now = std::time::Instant::now();
    assert_eq!(handler.handle_sequence_char('g', None, now), Command::Unknown);
    assert_eq!(handler.handle_sequence_char('g', Some(500_000_000), now), Command::MoveToTop);
    assert_eq!(handler.handle_sequence_char('g', None, now), Command::Unknown);
    // A second g a full second later still completes the sequence; later it starts a new one.
    assert_eq!(handler.handle_sequence_char('g', Some(1_000_000_001), now), Command::Unknown);
    assert_eq!(handler.handle_sequence_char('g', Some(1_000_000_000), now), Command::MoveToTop);
    assert_eq!(handler.handle_sequence_char('j', Some(0), now), Command::ScrollDiffDown);
}

#[test]
fn special_keys_cancel_a_waiting_sequence() {
    let mut handler = InputHandler::new();
    assert_eq!(handler.handle_key(plain('g')), Command::Unknown);
    assert_eq!(handler.handle_key(key(KeyCode::Tab, KeyModifiers::none())), Command::ToggleAccordion);
    assert_eq!(handler.handle_key(plain('g')), Command::Unknown);
    assert_eq!(handler.handle_key(key(KeyCode::Char('G'), KeyModifiers::shift())), Command::MoveToBottom);
    assert_eq!(handler.handle_key(key(KeyCode::Esc, KeyModifiers::none())), Command::CloseHelp);
    assert_eq!(handler.handle_key(key(KeyCode::Enter, KeyModifiers::none())), Command::OpenInEditor);
    assert_eq!(handler.handle_key(key(KeyCode::Char('x'), KeyModifiers::control())), Command::Unknown);
    assert_eq!(handler.handle_key(key(KeyCode::F(1), KeyModifiers::none())), Command::Unknown);
}

#[test]
fn context_keys_map_to_hunk_context_commands() {
    let mut handler = InputHandler::new();
    assert_eq!(handler.handle_key(plain('=')), Command::IncreaseHunkContext);
    assert_eq!(handler.handle_key(plain('-')), Command::DecreaseHunkContext);
    assert_eq!(handler.handle_key(plain('r')), Command::RefreshStatus);
    assert_eq!(handler.handle_key(plain('f')), Command::PageDiffDown);
    assert_eq!(handler.handle_key(plain('b')), Command::PageDiffUp);
}
