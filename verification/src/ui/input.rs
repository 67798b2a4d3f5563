use vstd::prelude::*;
use std::time::Instant;
use crate::clock::{current_instant, nanos_between};

verus! {

#[derive(Debug, Clone, Copy, PartialEq, Eq, Structural)]
pub enum Command {
    // Navigation commands
    MoveUp,
    MoveDown,
    MoveToTop,
    MoveToBottom,
    // Application commands
    Quit,
    ForceQuit,
    RefreshStatus,
    // File operations
    StageFile,
    UnstageFile,
    AddUntracked,
    DiscardFile,
    ConfirmDiscard,
    // View commands
    EnterDiffView,
    ExitDiffView,
    OpenInEditor,
    ToggleWordWrap,
    ToggleIgnoreWhitespace,
    // Accordion commands
    ToggleAccordion,
    // Diff navigation commands
    ScrollDiffUp,
    ScrollDiffDown,
    PageDiffUp,
    PageDiffDown,
    PageForward,
    JumpToNextHunk,
    JumpToPreviousHunk,
    NextHunk,
    PreviousHunk,
    ScrollViewportDown,
    ScrollViewportUp,
    GoToTopOfDiff,
    GoToBottomOfDiff,
    // Hierarchy navigation commands
    MoveUpHierarchy,
    MoveDownHierarchy,
    // Help
    ShowHelp,
    CloseHelp,
    // Hunk context expansion
    IncreaseHunkContext,
    DecreaseHunkContext,
    // Commit operations
    OpenCommitModal,
    Commit(CommitMode),
    // Log operations
    OpenLogModal,
    OpenLog,
    // Unknown command
    Unknown,
    // No-op command for unhandled events
    Noop,
}

/// Commit operation modes
#[derive(Debug, Clone, Copy, PartialEq, Eq, Structural)]
pub enum CommitMode {
    /// Normal commit (git commit)
    Normal,
    /// Amend the last commit (git commit --amend)
    Amend,
    /// Extend the last commit without editing message (git commit --amend --no-edit)
    Extend,
    /// Reword the last commit (change message only)
    Reword,
    /// Commit without running pre-commit hooks (git commit --no-verify)
    NoVerify,
}

/// The key that was pressed.
#[derive(Debug, Clone, Copy, PartialEq, Eq, Structural)]
pub enum KeyCode {
    Backspace,
    Enter,
    Left,
    Right,
    Up,
    Down,
    Home,
    End,
    PageUp,
    PageDown,
    Tab,
    BackTab,
    Delete,
    Insert,
    F(u8),
    Char(char),
    Null,
    Esc,
    /// Any other key (media keys, lone modifier keys, lock keys).
    Other,
}

/// The modifier keys held while a key was pressed.
#[derive(Debug, Clone, Copy, PartialEq, Eq, Structural)]
pub struct KeyModifiers {
    pub shift: bool,
    pub control: bool,
    pub alt: bool,
    pub super_key: bool,
    pub hyper: bool,
    pub meta: bool,
}

/// No modifier key is held.
pub open spec fn no_modifiers(m: KeyModifiers) -> bool {
    !m.shift && !m.control && !m.alt && !m.super_key && !m.hyper && !m.meta
}

/// Shift alone is held.
pub open spec fn only_shift(m: KeyModifiers) -> bool {
    m.shift && !m.control && !m.alt && !m.super_key && !m.hyper && !m.meta
}

/// Control alone is held.
pub open spec fn only_control(m: KeyModifiers) -> bool {
    !m.shift && m.control && !m.alt && !m.super_key && !m.hyper && !m.meta
}

impl KeyModifiers {
    /// No modifier key.
    pub fn none() -> (m: KeyModifiers)
        ensures
            no_modifiers(m),
    {
        KeyModifiers { shift: false, control: false, alt: false, super_key: false, hyper: false, meta: false }
    }

    /// Shift alone.
    pub fn shift() -> (m: KeyModifiers)
        ensures
            only_shift(m),
    {
        KeyModifiers { shift: true, control: false, alt: false, super_key: false, hyper: false, meta: false }
    }

    /// Control alone.
    pub fn control() -> (m: KeyModifiers)
        ensures
            only_control(m),
    {
        KeyModifiers { shift: false, control: true, alt: false, super_key: false, hyper: false, meta: false }
    }
}

/// A key press.
#[derive(Debug, Clone, Copy, PartialEq, Eq, Structural)]
pub struct KeyEvent {
    pub code: KeyCode,
    pub modifiers: KeyModifiers,
}

#[derive(Debug, Clone, Copy, PartialEq, Eq, Structural)]
pub enum MouseButton {
    Left,
    Right,
    Middle,
}

#[derive(Debug, Clone, Copy, PartialEq, Eq, Structural)]
pub enum MouseEventKind {
    Down(MouseButton),
    Up(MouseButton),
    Drag(MouseButton),
    Moved,
    ScrollDown,
    ScrollUp,
    ScrollLeft,
    ScrollRight,
}

/// A mouse event at a cell of the terminal.
#[derive(Debug, Clone, Copy, PartialEq, Eq, Structural)]
pub struct MouseEvent {
    pub kind: MouseEventKind,
    pub column: u16,
    pub row: u16,
    pub modifiers: KeyModifiers,
}

/// The command of a character typed on its own.
pub open spec fn single_key_command(c: char) -> Command {
    if c == 'j' {
        Command::ScrollDiffDown
    } else if c == 'k' {
        Command::ScrollDiffUp
    } else if c == 'q' {
        Command::Quit
    } else if c == 'r' {
        Command::RefreshStatus
    } else if c == 's' {
        Command::StageFile
    } else if c == 'u' {
        Command::UnstageFile
    } else if c == 'a' {
        Command::AddUntracked
    } else if c == 'f' {
        Command::PageDiffDown
    } else if c == 'b' {
        Command::PageDiffUp
    } else if c == 'n' {
        Command::JumpToNextHunk
    } else if c == 'p' {
        Command::JumpToPreviousHunk
    } else if c == '?' {
        Command::ShowHelp
    } else if c == '=' {
        Command::IncreaseHunkContext
    } else if c == '-' {
        Command::DecreaseHunkContext
    } else {
        Command::Unknown
    }
}

/// A character typed with no modifier, other than the space: the keys that
/// may form a two-key sequence.
pub open spec fn is_sequence_char(key: KeyEvent) -> bool {
    key.code matches KeyCode::Char(c) && c != ' ' && no_modifiers(key.modifiers)
}

/// The command of a key that does not take part in a two-key sequence.
pub open spec fn fixed_key_command(key: KeyEvent) -> Command {
    match key.code {
        KeyCode::Down => Command::ScrollDiffDown,
        KeyCode::Up => Command::ScrollDiffUp,
        KeyCode::Left => Command::MoveUpHierarchy,
        KeyCode::Right => Command::MoveDownHierarchy,
        KeyCode::Home => Command::MoveToTop,
        KeyCode::End => Command::MoveToBottom,
        KeyCode::Tab => Command::ToggleAccordion,
        KeyCode::Enter => Command::OpenInEditor,
        KeyCode::PageDown => Command::PageDiffDown,
        KeyCode::PageUp => Command::PageDiffUp,
        KeyCode::Esc => Command::CloseHelp,
        KeyCode::Char(c) => {
            if c == 'c' && only_control(key.modifiers) {
                Command::ForceQuit
            } else if c == 'G' && only_shift(key.modifiers) {
                Command::MoveToBottom
            } else if c == ' ' && no_modifiers(key.modifiers) {
                Command::PageForward
            } else {
                Command::Unknown
            }
        },
        _ => Command::Unknown,
    }
}

/// The command of a sequence character `c`, and the character left waiting
/// for a second key afterwards, when `pending` was waiting before and
/// `continues` tells whether `c` came soon enough after it to extend it.
pub open spec fn char_key_outcome(pending: Option<char>, c: char, continues: bool) -> (Command, Option<char>) {
    if continues && pending is Some {
        if pending->0 == 'g' && c == 'g' {
            (Command::MoveToTop, None)
        } else {
            (single_key_command(c), None)
        }
    } else if single_key_command(c) == Command::Unknown {
        (Command::Unknown, Some(c))
    } else {
        (single_key_command(c), None)
    }
}

/// The command of a mouse event.
pub open spec fn mouse_command(kind: MouseEventKind) -> Command {
    match kind {
        MouseEventKind::ScrollUp => Command::ScrollViewportUp,
        MouseEventKind::ScrollDown => Command::ScrollViewportDown,
        _ => Command::Noop,
    }
}

/// How long the first key of a sequence waits for the second, in nanoseconds.
pub const SEQUENCE_TIMEOUT_NANOS: u128 = 1_000_000_000;

/// A character extends the waiting key's sequence: a key is waiting and it
/// was typed at most the sequence timeout ago.
pub open spec fn sequence_continues(pending: Option<char>, elapsed: Option<u128>) -> bool {
    pending is Some && (elapsed matches Some(e) && e <= SEQUENCE_TIMEOUT_NANOS)
}

#[derive(Debug)]
struct PreviousKey {
    character: char,
    timestamp: Instant,
}

pub struct InputHandler {
    previous_key: Option<PreviousKey>,
}

impl View for InputHandler {
    type V = Option<char>;

    /// The first key of a sequence that is still waiting for its second key.
    closed spec fn view(&self) -> Option<char> {
        match self.previous_key {
            Some(prev) => Some(prev.character),
            None => None,
        }
    }
}

fn char_command(c: char) -> (command: Command)
    ensures
        command == single_key_command(c),
{
    match c {
        'j' => Command::ScrollDiffDown,
        'k' => Command::ScrollDiffUp,
        'q' => Command::Quit,
        'r' => Command::RefreshStatus,
        's' => Command::StageFile,
        'u' => Command::UnstageFile,
        'a' => Command::AddUntracked,
        'f' => Command::PageDiffDown,
        'b' => Command::PageDiffUp,
        'n' => Command::JumpToNextHunk,
        'p' => Command::JumpToPreviousHunk,
        '?' => Command::ShowHelp,
        '=' => Command::IncreaseHunkContext,
        '-' => Command::DecreaseHunkContext,
        _ => Command::Unknown,
    }
}

fn is_no_modifiers(m: KeyModifiers) -> (none: bool)
    ensures
        none == no_modifiers(m),
{
    !m.shift && !m.control && !m.alt && !m.super_key && !m.hyper && !m.meta
}

fn is_only_shift(m: KeyModifiers) -> (only: bool)
    ensures
        only == only_shift(m),
{
    m.shift && !m.control && !m.alt && !m.super_key && !m.hyper && !m.meta
}

fn is_only_control(m: KeyModifiers) -> (only: bool)
    ensures
        only == only_control(m),
{
    !m.shift && m.control && !m.alt && !m.super_key && !m.hyper && !m.meta
}

impl InputHandler {
    pub fn new() -> (handler: Self)
        ensures
            handler@ is None,
    {
        Self { previous_key: None }
    }

    /// Forgets the first key of a pending sequence.
    pub fn clear_sequence_state(&mut self)
        ensures
            final(self)@ is None,
    {
        self.previous_key = None;
    }

    /// Translates a key press into a command. A plain character may complete
    /// a two-key sequence (`gg`) begun by the previous key within the
    /// sequence timeout; the time since that key is read from the clock, and
    /// the outcome is that of `handle_sequence_char` for the time read (a
    /// time is read exactly when a key was waiting).
    pub fn handle_key(&mut self, key_event: KeyEvent) -> (command: Command)
        ensures
            !is_sequence_char(key_event) ==> command == fixed_key_command(key_event) && final(self)@ is None,
            is_sequence_char(key_event) ==> exists|elapsed: Option<u128>|
                (elapsed is Some <==> old(self)@ is Some) && (command, final(self)@) == char_key_outcome(
                    old(self)@,
                    key_event.code->Char_0,
                    sequence_continues(old(self)@, elapsed),
                ),
    {
        match key_event.code {
            KeyCode::Down => {
                self.clear_sequence_state();
                Command::ScrollDiffDown
            },
            KeyCode::Up => {
                self.clear_sequence_state();
                Command::ScrollDiffUp
            },
            KeyCode::Left => {
                self.clear_sequence_state();
                Command::MoveUpHierarchy
            },
            KeyCode::Right => {
                self.clear_sequence_state();
                Command::MoveDownHierarchy
            },
            KeyCode::Home => {
                self.clear_sequence_state();
                Command::MoveToTop
            },
            KeyCode::End => {
                self.clear_sequence_state();
                Command::MoveToBottom
            },
            KeyCode::Tab => {
                self.clear_sequence_state();
                Command::ToggleAccordion
            },
            KeyCode::Enter => {
                self.clear_sequence_state();
                Command::OpenInEditor
            },
            KeyCode::PageDown => {
                self.clear_sequence_state();
                Command::PageDiffDown
            },
            KeyCode::PageUp => {
                self.clear_sequence_state();
                Command::PageDiffUp
            },
            KeyCode::Esc => {
                self.clear_sequence_state();
                Command::CloseHelp
            },
            KeyCode::Char(c) => {
                if c == 'c' && is_only_control(key_event.modifiers) {
                    self.clear_sequence_state();
                    Command::ForceQuit
                } else if c == 'G' && is_only_shift(key_event.modifiers) {
                    self.clear_sequence_state();
                    Command::MoveToBottom
                } else if c == ' ' && is_no_modifiers(key_event.modifiers) {
                    self.clear_sequence_state();
                    Command::PageForward
                } else if is_no_modifiers(key_event.modifiers) {
                    let now = current_instant();
                    let elapsed = match &self.previous_key {
                        Some(prev) => Some(nanos_between(&prev.timestamp, &now)),
                        None => None,
                    };
                    self.handle_sequence_char(c, elapsed, now)
                } else {
                    self.clear_sequence_state();
                    Command::Unknown
                }
            },
            _ => {
                self.clear_sequence_state();
                Command::Unknown
            },
        }
    }

    /// Translates a plain character typed at `now`, where `elapsed` is the
    /// time since the waiting key was typed (none without one): a second `g`
    /// within the sequence timeout completes `gg`; any other character is a
    /// command of its own, and one that names no command waits for a second
    /// key.
    pub fn handle_sequence_char(&mut self, c: char, elapsed: Option<u128>, now: Instant) -> (command: Command)
        ensures
            (command, final(self)@) == char_key_outcome(old(self)@, c, sequence_continues(old(self)@, elapsed)),
    {
        let continues = match elapsed {
            Some(e) => e <= SEQUENCE_TIMEOUT_NANOS,
            None => false,
        };
        if continues && self.previous_key.is_some() {
            let first = match &self.previous_key {
                Some(prev) => prev.character,
                None => c,
            };
            self.clear_sequence_state();
            if first == 'g' && c == 'g' {
                return Command::MoveToTop;
            }
            char_command(c)
        } else {
            self.previous_key = Some(PreviousKey { character: c, timestamp: now });
            let command = char_command(c);
            if command != Command::Unknown {
                self.clear_sequence_state();
            }
            command
        }
    }

    /// Translates a mouse event: the wheel scrolls the viewport.
    pub fn handle_mouse(&mut self, mouse_event: MouseEvent) -> (command: Command)
        ensures
            command == mouse_command(mouse_event.kind),
            final(self)@ == old(self)@,
    {
        match mouse_event.kind {
            MouseEventKind::ScrollUp => Command::ScrollViewportUp,
            MouseEventKind::ScrollDown => Command::ScrollViewportDown,
            _ => Command::Noop,
        }
    }
}

/// The lines of the help overlay, in order.
pub open spec fn help_text_lines() -> Seq<Seq<char>> {
    seq![
        "Navigation:"@,
        "  ↓/j     Move selection down"@,
        "  ↑/k     Move selection up"@,
        "  ←       Move up hierarchy (hunk → file, collapse diff)"@,
        "  →       Move down hierarchy (expand/enter diff)"@,
        "  PgUp/b  Scroll up a page"@,
        "  PgDn/f  Scroll down a page"@,
        "  Space   Page forward"@,
        "  gg/Home Jump to top"@,
        "  G/End   Jump to bottom"@,
        "  wheel   Scroll viewport"@,
        ""@,
        "Section & Diff Navigation:"@,
        "  Tab     Collapse/expand the selected file's inline diff"@,
        "  Enter   Open file in editor"@,
        "  n       Jump to end of current file/section"@,
        "  p       Jump to start of current file/section"@,
        "  =       Expand context in current hunk"@,
        "  -       Reduce context in current hunk"@,
        ""@,
        "File Operations:"@,
        "  s       Stage file or current diff hunk"@,
        "  u       Unstage file or current diff hunk"@,
        "  a       Add untracked file"@,
        ""@,
        "Application:"@,
        "  q       Quit application"@,
        "  C-c     Force quit"@,
        "  r       Refresh repository status"@,
        ""@,
        "Help:"@,
        "  ?       Toggle help"@,
        "  Esc     Close help"@,
    ]
}

impl InputHandler {
    /// The lines of the help overlay.
    pub fn get_help_text() -> (lines: Vec<&'static str>)
        ensures
            lines@.map_values(|l: &str| l@) == help_text_lines(),
    {
        let lines = vec![
            "Navigation:",
            "  ↓/j     Move selection down",
            "  ↑/k     Move selection up",
            "  ←       Move up hierarchy (hunk → file, collapse diff)",
            "  →       Move down hierarchy (expand/enter diff)",
            "  PgUp/b  Scroll up a page",
            "  PgDn/f  Scroll down a page",
            "  Space   Page forward",
            "  gg/Home Jump to top",
            "  G/End   Jump to bottom",
            "  wheel   Scroll viewport",
            "",
            "Section & Diff Navigation:",
            "  Tab     Collapse/expand the selected file's inline diff",
            "  Enter   Open file in editor",
            "  n       Jump to end of current file/section",
            "  p       Jump to start of current file/section",
            "  =       Expand context in current hunk",
            "  -       Reduce context in current hunk",
            "",
            "File Operations:",
            "  s       Stage file or current diff hunk",
            "  u       Unstage file or current diff hunk",
            "  a       Add untracked file",
            "",
            "Application:",
            "  q       Quit application",
            "  C-c     Force quit",
            "  r       Refresh repository status",
            "",
            "Help:",
            "  ?       Toggle help",
            "  Esc     Close help",
        ];
        assert(lines@.map_values(|l: &str| l@) =~= help_text_lines());
        lines
    }
}

impl Default for InputHandler {
    fn default() -> (handler: Self)
        ensures
            handler@ is None,
    {
        Self::new()
    }
}

/// Two `g` keys in a row, the second within the sequence timeout of the
/// first, jump to the top, and leave no key waiting.
pub proof fn lemma_gg_moves_to_top(pending: Option<char>)
    ensures
        char_key_outcome(pending, 'g', false) == (Command::Unknown, Some('g')),
        char_key_outcome(Some('g'), 'g', true) == (Command::MoveToTop, None::<char>),
{
}

} // verus!
