//! The per-keystroke state machine: cursor position, scroll offset,
//! quit confirmation, and the dispatch of editing commands to the
//! document.
//!
//! `step` is the machine's full transition function, written as a
//! specification over a mathematical model of the editor's state;
//! `process_command` is its executable counterpart and is proved to
//! produce exactly the state `step` describes.  Saving needs the
//! caller's help (a file write, possibly a prompt for a name), so it
//! is split into small verified decisions around those two actions.

use vstd::prelude::*;
use vstd::string::StringExecFns;

use crate::document::{
    doc_delete_changes, doc_delete_spec, doc_insert_changes, doc_insert_spec, doc_newline_spec,
    Document,
};
use crate::motion::{move_cursor_spec, row_len, valid_pos};
use crate::row::render_spec;
use crate::terminal::Terminal;
use crate::text::{decimal_u8, is_control_char, spec_decimal, spec_is_control, string_of};

verus! {

/// How many additional quit commands a dirty document demands before
/// the editor agrees to quit.
pub const QUIT_TIMES: u8 = 1;

/// A zero-based document coordinate: column `x` within row `y`.
#[derive(Clone, Copy, PartialEq, Eq, Structural, Debug)]
pub struct Position {
    pub x: usize,
    pub y: usize,
}

impl Default for Position {
    /// The origin: column zero of row zero.
    fn default() -> (p: Position)
        ensures
            p.x == 0 && p.y == 0,
    {
        Position { x: 0, y: 0 }
    }
}

/// One keystroke's worth of intent, decoded from the terminal by the
/// caller: cursor movement, an edit, or a request to save or quit.
/// `Other` stands for any key the editor does not act on; it still
/// resets the quit confirmation and recomputes the scroll offset.
#[derive(Clone, Copy, PartialEq, Eq, Structural, Debug)]
pub enum Command {
    MoveUp,
    MoveDown,
    MoveLeft,
    MoveRight,
    PageUp,
    PageDown,
    Home,
    End,
    InsertChar(char),
    InsertNewline,
    DeleteForward,
    DeleteBackward,
    Save,
    Quit,
    Other,
}

/// A line of text for the message bar.
pub struct StatusMessage {
    text: String,
}

impl View for StatusMessage {
    type V = Seq<char>;

    closed spec fn view(&self) -> Seq<char> {
        self.text@
    }
}

impl StatusMessage {
    /// A message holding the given text.
    pub fn from(message: String) -> (m: StatusMessage)
        ensures
            m@ == message@,
    {
        StatusMessage { text: message }
    }

    /// The message's text.
    pub fn text(&self) -> (t: &String)
        ensures
            t@ == self@,
    {
        &self.text
    }
}

/// The editor's full state, as the specifications speak of it.
#[verifier::ext_equal]
pub ghost struct EditorModel {
    /// The document's rows.
    pub rows: Seq<Seq<char>>,
    /// The document's optional source path.
    pub file_name: Option<String>,
    /// Whether the rows changed since load or last save.
    pub dirty: bool,
    /// The cursor's column.
    pub cursor_x: int,
    /// The cursor's row.
    pub cursor_y: int,
    /// The document column shown at the viewport's left edge.
    pub offset_x: int,
    /// The document row shown at the viewport's top edge.
    pub offset_y: int,
    /// Whether the editor has agreed to quit.
    pub should_quit: bool,
    /// How many further quit commands a dirty document still demands.
    pub quit_times: int,
    /// The message bar's text.
    pub status: Seq<char>,
    /// The viewport width in cells.
    pub width: int,
    /// The viewport height in cells.
    pub height: int,
}

/// One scroll axis: the offset moves back to the cursor when the
/// cursor lies before it, forward to put the cursor on the last
/// visible cell when the cursor lies past the window, and otherwise
/// stays.  The forward move saturates at the machine's limit.
pub open spec fn scroll_axis(c: int, o: int, span: int) -> int {
    if c < o {
        c
    } else if c >= o + span {
        if c - span + 1 > usize::MAX {
            usize::MAX as int
        } else {
            c - span + 1
        }
    } else {
        o
    }
}

/// The model after the scroll recompute: both offset axes follow the
/// cursor; nothing else changes.
pub open spec fn scroll_model(m: EditorModel) -> EditorModel {
    EditorModel {
        offset_x: scroll_axis(m.cursor_x, m.offset_x, m.width),
        offset_y: scroll_axis(m.cursor_y, m.offset_y, m.height),
        ..m
    }
}

/// The model after a movement command: only the cursor moves.
pub open spec fn move_model(m: EditorModel, key: Command) -> EditorModel {
    let p = move_cursor_spec(m.rows, m.height, m.cursor_x, m.cursor_y, key);
    EditorModel { cursor_x: p.0, cursor_y: p.1, ..m }
}

/// The warning shown when a quit command meets unsaved changes.
pub open spec fn quit_warning(quit_times: int) -> Seq<char> {
    "WARNING! File has unsaved changes. Press Ctrl-Q "@ + spec_decimal(quit_times)
        + " more times to quit"@
}

/// What a command does to the editor's state, before the scroll
/// recompute: edits go to the document and advance the cursor the way
/// the edit suggests; movement commands move the cursor; a quit
/// command that reaches this point is honored.
pub open spec fn apply_command(m: EditorModel, cmd: Command) -> EditorModel {
    match cmd {
        Command::Quit => EditorModel { should_quit: true, ..m },
        Command::Save => m,
        Command::InsertChar(c) => {
            let m1 = EditorModel {
                rows: doc_insert_spec(m.rows, m.cursor_x, m.cursor_y, c),
                dirty: m.dirty || doc_insert_changes(m.rows, m.cursor_y),
                ..m
            };
            move_model(m1, Command::MoveRight)
        },
        Command::InsertNewline => {
            let m1 = EditorModel {
                rows: doc_newline_spec(m.rows, m.cursor_x, m.cursor_y),
                dirty: m.dirty || doc_insert_changes(m.rows, m.cursor_y),
                ..m
            };
            move_model(move_model(m1, Command::MoveDown), Command::Home)
        },
        Command::DeleteForward => EditorModel {
            rows: doc_delete_spec(m.rows, m.cursor_x, m.cursor_y),
            dirty: m.dirty || doc_delete_changes(m.rows, m.cursor_x, m.cursor_y),
            ..m
        },
        Command::DeleteBackward => {
            if m.cursor_x > 0 || m.cursor_y > 0 {
                let m1 = move_model(m, Command::MoveLeft);
                EditorModel {
                    rows: doc_delete_spec(m1.rows, m1.cursor_x, m1.cursor_y),
                    dirty: m1.dirty || doc_delete_changes(m1.rows, m1.cursor_x, m1.cursor_y),
                    ..m1
                }
            } else {
                m
            }
        },
        Command::Other => m,
        _ => move_model(m, cmd),
    }
}

/// Whether a quit command only warns: the document is dirty and the
/// confirmation counter has not run out.
pub open spec fn quit_warns(m: EditorModel, cmd: Command) -> bool {
    cmd is Quit && m.quit_times > 0 && m.dirty
}

/// The machine's full transition: a warned quit only counts down and
/// shows the warning; every other command is applied, the scroll
/// offset follows the cursor, and a previously started quit
/// confirmation is reset with its warning cleared.
pub open spec fn step(m: EditorModel, cmd: Command) -> EditorModel {
    if quit_warns(m, cmd) {
        EditorModel {
            status: quit_warning(m.quit_times),
            quit_times: m.quit_times - 1,
            ..m
        }
    } else {
        let m1 = scroll_model(apply_command(m, cmd));
        if m1.quit_times < QUIT_TIMES {
            EditorModel { quit_times: QUIT_TIMES as int, status: Seq::empty(), ..m1 }
        } else {
            m1
        }
    }
}

/// The editor: a document, a cursor, a scroll offset, and the state of
/// the quit confirmation.
pub struct Editor {
    should_quit: bool,
    terminal: Terminal,
    cursor_position: Position,
    offset: Position,
    document: Document,
    status_message: StatusMessage,
    quit_times: u8,
}

impl Editor {
    /// The abstract state the specifications speak of.
    pub closed spec fn model(&self) -> EditorModel {
        EditorModel {
            rows: self.document@,
            file_name: self.document.spec_file_name(),
            dirty: self.document.spec_dirty(),
            cursor_x: self.cursor_position.x as int,
            cursor_y: self.cursor_position.y as int,
            offset_x: self.offset.x as int,
            offset_y: self.offset.y as int,
            should_quit: self.should_quit,
            quit_times: self.quit_times as int,
            status: self.status_message@,
            width: self.terminal.spec_size().width as int,
            height: self.terminal.spec_size().height as int,
        }
    }

    /// The document is well formed, the cursor sits on a valid
    /// position, and the confirmation counter never exceeds its
    /// default.
    pub closed spec fn wf(&self) -> bool {
        &&& self.document.wf()
        &&& valid_pos(
            self.document@,
            self.cursor_position.x as int,
            self.cursor_position.y as int,
        )
        &&& self.quit_times <= QUIT_TIMES
    }

    /// An editor over the given terminal and document, with the cursor
    /// and scroll offset at the origin and the quit confirmation at
    /// its default.
    pub fn new(terminal: Terminal, document: Document, initial_status: StatusMessage) -> (e:
        Editor)
        requires
            document.wf(),
        ensures
            e.wf(),
            e.model() == (EditorModel {
                rows: document@,
                file_name: document.spec_file_name(),
                dirty: document.spec_dirty(),
                cursor_x: 0,
                cursor_y: 0,
                offset_x: 0,
                offset_y: 0,
                should_quit: false,
                quit_times: QUIT_TIMES as int,
                status: initial_status@,
                width: terminal.spec_size().width as int,
                height: terminal.spec_size().height as int,
            }),
    {
        Editor {
            should_quit: false,
            terminal,
            cursor_position: Position::default(),
            offset: Position::default(),
            document,
            status_message: initial_status,
            quit_times: QUIT_TIMES,
        }
    }

    /// Whether the editor has agreed to quit.
    pub fn should_quit(&self) -> (r: bool)
        ensures
            r == self.model().should_quit,
    {
        self.should_quit
    }

    /// The cursor's document position.
    pub fn cursor_position(&self) -> (p: Position)
        ensures
            p.x == self.model().cursor_x,
            p.y == self.model().cursor_y,
    {
        self.cursor_position
    }

    /// The scroll offset.
    pub fn offset(&self) -> (p: Position)
        ensures
            p.x == self.model().offset_x,
            p.y == self.model().offset_y,
    {
        self.offset
    }

    /// How many further quit commands a dirty document still demands.
    pub fn quit_times(&self) -> (n: u8)
        ensures
            n == self.model().quit_times,
    {
        self.quit_times
    }

    /// The message bar's text.
    pub fn status(&self) -> (t: &String)
        ensures
            t@ == self.model().status,
    {
        self.status_message.text()
    }

    /// Replaces the message bar's text.
    pub fn set_status(&mut self, message: StatusMessage)
        ensures
            final(self).wf() == old(self).wf(),
            final(self).model() == (EditorModel { status: message@, ..old(self).model() }),
    {
        self.status_message = message;
    }

    /// The document.
    pub fn document(&self) -> (d: &Document)
        ensures
            d@ == self.model().rows,
            d.spec_dirty() == self.model().dirty,
            d.spec_file_name() == self.model().file_name,
            self.wf() ==> d.wf(),
    {
        &self.document
    }

    /// The terminal the editor draws into.
    pub fn terminal(&self) -> (t: &Terminal)
        ensures
            t.spec_size().width == self.model().width,
            t.spec_size().height == self.model().height,
    {
        &self.terminal
    }

    /// Where the cursor falls on screen: its document position less
    /// the scroll offset, floored at the viewport's corner.
    pub fn screen_cursor(&self) -> (p: Position)
        ensures
            p.x as int == if self.model().cursor_x >= self.model().offset_x {
                self.model().cursor_x - self.model().offset_x
            } else {
                0
            },
            p.y as int == if self.model().cursor_y >= self.model().offset_y {
                self.model().cursor_y - self.model().offset_y
            } else {
                0
            },
    {
        Position {
            x: if self.cursor_position.x >= self.offset.x {
                self.cursor_position.x - self.offset.x
            } else {
                0
            },
            y: if self.cursor_position.y >= self.offset.y {
                self.cursor_position.y - self.offset.y
            } else {
                0
            },
        }
    }

    /// Moves the cursor as the command directs, then clamps its column
    /// to the length of the row it landed on.  Only the cursor moves.
    fn move_cursor(&mut self, key: Command)
        requires
            old(self).wf(),
        ensures
            final(self).wf(),
            ({
                let p = move_cursor_spec(
                    old(self).model().rows,
                    old(self).model().height,
                    old(self).model().cursor_x,
                    old(self).model().cursor_y,
                    key,
                );
                final(self).model() == (EditorModel {
                    cursor_x: p.0,
                    cursor_y: p.1,
                    ..old(self).model()
                })
            }),
    {
        let mut x = self.cursor_position.x;
        let mut y = self.cursor_position.y;
        let terminal_height = self.terminal.size().height as usize;
        let height = self.document.len();
        let width = match self.document.row(y) {
            Some(row) => row.len(),
            None => 0,
        };
        match key {
            Command::MoveUp => {
                if y > 0 {
                    y = y - 1;
                }
            },
            Command::MoveDown => {
                if y < height {
                    y = y + 1;
                }
            },
            Command::MoveLeft => {
                if x > 0 {
                    x = x - 1;
                } else if y > 0 {
                    y = y - 1;
                    x = match self.document.row(y) {
                        Some(row) => row.len(),
                        None => 0,
                    };
                }
            },
            Command::MoveRight => {
                if x < width {
                    x = x + 1;
                } else if y < height {
                    y = y + 1;
                    x = 0;
                }
            },
            Command::PageUp => {
                y = if y > terminal_height {
                    y - terminal_height
                } else {
                    0
                };
            },
            Command::PageDown => {
                y = if y < height && height - y > terminal_height {
                    y + terminal_height
                } else {
                    height
                };
            },
            Command::End => {
                x = width;
            },
            Command::Home => {
                x = 0;
            },
            _ => {},
        }
        let new_width = match self.document.row(y) {
            Some(row) => row.len(),
            None => 0,
        };
        if x > new_width {
            x = new_width;
        }
        self.cursor_position = Position { x, y };
    }

    /// Recomputes the scroll offset from the cursor: afterwards, on a
    /// viewport axis of at least one cell, the cursor lies within the
    /// visible window.
    pub fn scroll(&mut self)
        requires
            old(self).wf(),
        ensures
            final(self).wf(),
            final(self).model() == scroll_model(old(self).model()),
            old(self).model().width >= 1 ==> final(self).model().offset_x <= final(self).model().cursor_x
                < final(self).model().offset_x + final(self).model().width,
            old(self).model().height >= 1 ==> final(self).model().offset_y <= final(self).model().cursor_y
                < final(self).model().offset_y + final(self).model().height,
    {
        let x = self.cursor_position.x;
        let y = self.cursor_position.y;
        let width = self.terminal.size().width as usize;
        let height = self.terminal.size().height as usize;
        self.offset.y = scroll_axis_exec(y, self.offset.y, height);
        self.offset.x = scroll_axis_exec(x, self.offset.x, width);
    }
}

impl Editor {
    /// Applies one decoded keystroke: exactly the transition `step`
    /// describes.  The result reports whether the caller must run the
    /// save interaction (`save`, a file write, `finish_save`).  After
    /// any command that is not a mere quit warning, the cursor lies
    /// within the viewport window on every axis of at least one cell.
    pub fn process_command(&mut self, cmd: Command) -> (save_requested: bool)
        requires
            old(self).wf(),
        ensures
            final(self).wf(),
            final(self).model() == step(old(self).model(), cmd),
            save_requested == (cmd is Save),
            !quit_warns(old(self).model(), cmd) && old(self).model().width >= 1 ==> final(self).model().offset_x <= final(self).model().cursor_x < final(self).model().offset_x
                + final(self).model().width,
            !quit_warns(old(self).model(), cmd) && old(self).model().height >= 1 ==> final(self).model().offset_y <= final(self).model().cursor_y < final(self).model().offset_y
                + final(self).model().height,
    {
        let ghost m0 = old(self).model();
        match cmd {
            Command::Quit => {
                if self.quit_times > 0 && self.document.is_dirty() {
                    let mut warning = String::from_str(
                        "WARNING! File has unsaved changes. Press Ctrl-Q ",
                    );
                    let digits = decimal_u8(self.quit_times);
                    warning.append(digits.as_str());
                    warning.append(" more times to quit");
                    self.status_message = StatusMessage::from(warning);
                    self.quit_times = self.quit_times - 1;
                    proof {
                        assert(self.model() =~~= step(m0, cmd));
                    }
                    return false;
                }
                self.should_quit = true;
            },
            Command::Save => {},
            Command::InsertChar(c) => {
                let pos = self.cursor_position;
                self.document.insert(&pos, c);
                proof {
                    assert(valid_pos(
                        self.document@,
                        self.cursor_position.x as int,
                        self.cursor_position.y as int,
                    ));
                }
                self.move_cursor(Command::MoveRight);
            },
            Command::InsertNewline => {
                let pos = self.cursor_position;
                self.document.insert_newline(&pos);
                proof {
                    assert(valid_pos(
                        self.document@,
                        self.cursor_position.x as int,
                        self.cursor_position.y as int,
                    ));
                }
                self.move_cursor(Command::MoveDown);
                self.move_cursor(Command::Home);
            },
            Command::DeleteForward => {
                let pos = self.cursor_position;
                self.document.delete(&pos);
                proof {
                    assert(valid_pos(
                        self.document@,
                        self.cursor_position.x as int,
                        self.cursor_position.y as int,
                    ));
                }
            },
            Command::DeleteBackward => {
                if self.cursor_position.x > 0 || self.cursor_position.y > 0 {
                    self.move_cursor(Command::MoveLeft);
                    let pos = self.cursor_position;
                    self.document.delete(&pos);
                    proof {
                        assert(valid_pos(
                            self.document@,
                            self.cursor_position.x as int,
                            self.cursor_position.y as int,
                        ));
                    }
                }
            },
            Command::Other => {},
            _ => {
                self.move_cursor(cmd);
            },
        }
        proof {
            assert(self.model() =~~= apply_command(m0, cmd));
        }
        self.scroll();
        if self.quit_times < QUIT_TIMES {
            self.quit_times = QUIT_TIMES;
            self.status_message = StatusMessage::from(String::new());
        }
        proof {
            assert(self.model() =~~= step(m0, cmd));
        }
        match cmd {
            Command::Save => true,
            _ => false,
        }
    }

    /// What terminal row `terminal_row` shows of the document: the
    /// horizontally clipped display slice of the document row the
    /// scroll offset maps it to, or nothing when no such row exists.
    pub fn visible_row(&mut self, terminal_row: u16) -> (r: Option<String>)
        requires
            old(self).wf(),
        ensures
            final(self).wf(),
            final(self).model() == old(self).model(),
            ({
                let m = old(self).model();
                let idx = terminal_row as int + m.offset_y;
                let end = if m.offset_x + m.width > usize::MAX {
                    usize::MAX as int
                } else {
                    m.offset_x + m.width
                };
                &&& (r is Some) == (idx < m.rows.len())
                &&& r matches Some(text) ==> text@ == render_spec(m.rows[idx], m.offset_x, end)
            }),
    {
        let doc_len = self.document.len();
        let offset_y = self.offset.y;
        let idx = if terminal_row as usize <= usize::MAX - offset_y {
            terminal_row as usize + offset_y
        } else {
            usize::MAX
        };
        let width = self.terminal.size().width as usize;
        let start = self.offset.x;
        let end = if start <= usize::MAX - width {
            start + width
        } else {
            usize::MAX
        };
        proof {
            assert(doc_len <= usize::MAX);
        }
        self.document.render_row(idx, start, end)
    }

    /// Whether terminal row `terminal_row` shows the welcome banner:
    /// only on the vertical-third row, and only while the document is
    /// empty.  Every other row without document content is a filler.
    pub fn shows_welcome(&self, terminal_row: u16) -> (r: bool)
        ensures
            r == (self.model().rows.len() == 0 && terminal_row as int == self.model().height
                / 3),
    {
        self.document.is_empty() && terminal_row == self.terminal.size().height / 3
    }

    /// Whether saving must first ask the caller for a file name.
    pub fn needs_file_name(&self) -> (r: bool)
        ensures
            r == (self.model().file_name is None),
    {
        self.document.file_name().is_none()
    }

    /// Begins a save.  A document without a path takes the prompted
    /// name; when none was given the save is aborted with a message
    /// and nothing else changes.  On `true` the caller writes the
    /// document's text to its path and reports with `finish_save`.
    pub fn save(&mut self, new_name: Option<String>) -> (proceed: bool)
        requires
            old(self).wf(),
        ensures
            final(self).wf(),
            old(self).model().file_name is None && new_name is None ==> !proceed && final(self).model() == (EditorModel { status: "Save aborted."@, ..old(self).model() }),
            old(self).model().file_name is None && new_name is Some ==> proceed && final(self).model() == (EditorModel { file_name: new_name, ..old(self).model() }),
            old(self).model().file_name is Some ==> proceed && final(self).model() == old(self).model(),
    {
        if self.document.file_name().is_none() {
            match new_name {
                None => {
                    self.status_message = StatusMessage::from(String::from_str("Save aborted."));
                    return false;
                },
                Some(name) => {
                    self.document.set_file_name(Some(name));
                },
            }
        }
        true
    }

    /// Records the outcome of the caller's file write: success clears
    /// the dirty flag; either way a message reports what happened.
    pub fn finish_save(&mut self, ok: bool)
        requires
            old(self).wf(),
        ensures
            final(self).wf(),
            ok ==> final(self).model() == (EditorModel {
                dirty: false,
                status: "File saved successfully"@,
                ..old(self).model()
            }),
            !ok ==> final(self).model() == (EditorModel {
                status: "Error writing file"@,
                ..old(self).model()
            }),
    {
        if ok {
            self.document.mark_saved();
            self.status_message = StatusMessage::from(
                String::from_str("File saved successfully"),
            );
        } else {
            self.status_message = StatusMessage::from(String::from_str("Error writing file"));
        }
    }
}

/// One key's worth of input to a line prompt.
#[derive(Clone, Copy, PartialEq, Eq, Structural, Debug)]
pub enum PromptKey {
    Char(char),
    Enter,
    Backspace,
    Esc,
    Other,
}

/// Where a line prompt stands after a key.
#[derive(Clone, Copy, PartialEq, Eq, Structural, Debug)]
pub enum PromptStatus {
    Pending,
    Submitted,
    Cancelled,
}

/// What one key does to a line prompt's buffer: a printable character
/// is appended, backspace drops the last character, escape cancels
/// with an emptied buffer, enter submits, anything else waits.
pub open spec fn prompt_step_spec(input: Seq<char>, key: PromptKey) -> (Seq<char>, PromptStatus) {
    match key {
        PromptKey::Enter => (input, PromptStatus::Submitted),
        PromptKey::Backspace => (
            if input.len() > 0 {
                input.drop_last()
            } else {
                input
            },
            PromptStatus::Pending,
        ),
        PromptKey::Esc => (Seq::empty(), PromptStatus::Cancelled),
        PromptKey::Char(c) => (
            if !spec_is_control(c) {
                input.push(c)
            } else {
                input
            },
            PromptStatus::Pending,
        ),
        PromptKey::Other => (input, PromptStatus::Pending),
    }
}

/// Feeds one key to a line prompt's buffer.
pub fn prompt_step(input: &mut Vec<char>, key: PromptKey) -> (status: PromptStatus)
    ensures
        ({
            let r = prompt_step_spec(old(input)@, key);
            final(input)@ == r.0 && status == r.1
        }),
{
    match key {
        PromptKey::Enter => PromptStatus::Submitted,
        PromptKey::Backspace => {
            if input.len() > 0 {
                input.pop();
            }
            PromptStatus::Pending
        },
        PromptKey::Esc => {
            input.clear();
            PromptStatus::Cancelled
        },
        PromptKey::Char(c) => {
            if !is_control_char(c) {
                input.push(c);
            }
            PromptStatus::Pending
        },
        PromptKey::Other => PromptStatus::Pending,
    }
}

/// What a finished prompt yields: nothing when the buffer is empty,
/// its text otherwise.
pub fn prompt_result(input: &Vec<char>) -> (r: Option<String>)
    ensures
        (r is Some) == (input@.len() > 0),
        r matches Some(s) ==> s@ == input@,
{
    if input.len() == 0 {
        None
    } else {
        Some(string_of(input))
    }
}

/// Law: inserting a printable character at a valid cursor position
/// grows the cursor's row by exactly one character, advances the
/// cursor one column within the same row, and marks the document
/// dirty.
pub proof fn lemma_insert_char_effect(m: EditorModel, c: char)
    requires
        valid_pos(m.rows, m.cursor_x, m.cursor_y),
        c != '\n',
    ensures
        ({
            let m1 = step(m, Command::InsertChar(c));
            &&& row_len(m1.rows, m.cursor_y) == row_len(m.rows, m.cursor_y) + 1
            &&& m1.cursor_x == m.cursor_x + 1
            &&& m1.cursor_y == m.cursor_y
            &&& m1.dirty
        }),
{
}

/// Law: a backward delete at column zero of a real row joins that row
/// onto its predecessor: the row count drops by one, the predecessor
/// holds both rows' characters, and the cursor sits at the join point.
pub proof fn lemma_delete_backward_joins(m: EditorModel)
    requires
        valid_pos(m.rows, m.cursor_x, m.cursor_y),
        m.cursor_x == 0,
        0 < m.cursor_y < m.rows.len(),
    ensures
        ({
            let m1 = step(m, Command::DeleteBackward);
            &&& m1.rows.len() == m.rows.len() - 1
            &&& m1.rows[m.cursor_y - 1] == m.rows[m.cursor_y - 1] + m.rows[m.cursor_y]
            &&& m1.cursor_x == row_len(m.rows, m.cursor_y - 1)
            &&& m1.cursor_y == m.cursor_y - 1
            &&& m1.dirty
        }),
{
}

/// Law: quit confirmation.  With the counter at its default and a
/// dirty document, a quit command only warns: the editor does not
/// agree to quit, the counter goes down by one, and the warning is
/// shown.  With the default counter of one, a second quit command
/// then quits.
pub proof fn lemma_quit_confirmation(m: EditorModel)
    requires
        m.quit_times == QUIT_TIMES as int,
        m.dirty,
        !m.should_quit,
    ensures
        !step(m, Command::Quit).should_quit,
        step(m, Command::Quit).quit_times == m.quit_times - 1,
        step(m, Command::Quit).status == quit_warning(m.quit_times),
        step(step(m, Command::Quit), Command::Quit).should_quit,
{
}

/// Law: any command other than quit resets the confirmation — a
/// counter below its default returns to the default and the warning
/// is cleared, while an untouched counter stays as it is.
pub proof fn lemma_quit_reset(m: EditorModel, cmd: Command)
    requires
        !(cmd is Quit),
    ensures
        m.quit_times < QUIT_TIMES as int ==> step(m, cmd).quit_times == QUIT_TIMES as int
            && step(m, cmd).status == Seq::<char>::empty(),
        m.quit_times >= QUIT_TIMES as int ==> step(m, cmd).quit_times == m.quit_times,
{
}

/// One axis of the scroll recompute.
fn scroll_axis_exec(c: usize, o: usize, span: usize) -> (r: usize)
    ensures
        r as int == scroll_axis(c as int, o as int, span as int),
{
    if c < o {
        c
    } else if c - o >= span {
        let base = c - span;
        if base == usize::MAX {
            base
        } else {
            base + 1
        }
    } else {
        o
    }
}

/// Law: the scroll recompute is idempotent, and on an axis of at
/// least one cell it puts the cursor's offset-relative coordinate
/// within the viewport's span.
pub proof fn lemma_scroll_idempotent(c: int, o: int, span: int)
    requires
        0 <= c <= usize::MAX as int,
        0 <= o,
        1 <= span,
    ensures
        scroll_axis(c, scroll_axis(c, o, span), span) == scroll_axis(c, o, span),
        0 <= c - scroll_axis(c, o, span) < span,
{
}

} // verus!
