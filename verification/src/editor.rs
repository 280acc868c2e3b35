use vstd::prelude::*;

use crate::buffer::TextBuffer;
use crate::cursor::Mode;
use crate::cursor::clamp_col;
use crate::cursor::clamped_column;

verus! {

/// A key payload: a printable character or one of the named keys the editor
/// reacts to. Every other key is `Other`.
#[derive(Clone, Copy, Debug, PartialEq, Eq, Structural)]
pub enum Key {
    Char(char),
    Esc,
    Enter,
    Backspace,
    Other,
}

/// One keyboard event: a key payload and whether it is a press. Only press
/// events are acted upon; releases and repeats leave the session unchanged.
#[derive(Clone, Copy, Debug, PartialEq, Eq, Structural)]
pub struct KeyInput {
    pub code: Key,
    pub press: bool,
}

/// What the host must do after a keystroke, beyond redrawing: change the
/// caret shape, or write the document out.
#[derive(Clone, Copy, Debug, PartialEq, Eq, Structural)]
pub enum HostAction {
    Idle,
    CursorBar,
    CursorBlock,
    Save,
}

/// A request the editor deliberately does not implement (undo, command
/// mode). It is reported loudly instead of being silently ignored.
#[derive(Clone, Copy, Debug, PartialEq, Eq, Structural)]
pub enum EditError {
    Unsupported,
}

/// The abstract state of an editing session.
#[verifier::ext_equal]
pub ghost struct EdView {
    pub mode: Mode,
    pub text: Seq<Seq<char>>,
    pub top_line: int,
    pub num_lines: int,
    pub current_line: int,
    pub current_col: int,
    pub left_margin: int,
}

/// The outcome of one keystroke: the next state, the action handed to the
/// host, and whether the key asked for an unimplemented feature.
#[verifier::ext_equal]
pub ghost struct Step {
    pub state: EdView,
    pub action: HostAction,
    pub unsupported: bool,
}

pub open spec fn cur_line(v: EdView) -> Seq<char> {
    v.text[v.current_line]
}

pub open spec fn no_step(v: EdView) -> Step {
    Step { state: v, action: HostAction::Idle, unsupported: false }
}

/// Normal mode: mode transitions, movement, and the write request.
pub open spec fn step_normal(v: EdView, k: Key) -> Step {
    let len = cur_line(v).len() as int;
    match k {
        Key::Char(c) => {
            if c == 'i' {
                Step {
                    state: EdView {
                        mode: Mode::Insert,
                        current_col: clamp_col(v.mode, len, v.current_col),
                        ..v
                    },
                    action: HostAction::CursorBar,
                    unsupported: false,
                }
            } else if c == 'A' {
                Step {
                    state: EdView { mode: Mode::Insert, current_col: len, ..v },
                    action: HostAction::CursorBar,
                    unsupported: false,
                }
            } else if c == 'I' {
                Step {
                    state: EdView { mode: Mode::Insert, current_col: 0, ..v },
                    action: HostAction::CursorBar,
                    unsupported: false,
                }
            } else if c == 'r' {
                no_step(v).with_state(EdView { mode: Mode::Replace, ..v })
            } else if c == 'q' {
                no_step(v).with_state(EdView { mode: Mode::Quit, ..v })
            } else if c == 'j' {
                if v.current_line < v.text.len() - 1 {
                    no_step(v).with_state(EdView { current_line: v.current_line + 1, ..v })
                } else {
                    no_step(v)
                }
            } else if c == 'k' {
                if v.current_line > 0 {
                    no_step(v).with_state(EdView { current_line: v.current_line - 1, ..v })
                } else {
                    no_step(v)
                }
            } else if c == 'l' {
                if len > 0 && v.current_col < len - 1 {
                    no_step(v).with_state(EdView { current_col: v.current_col + 1, ..v })
                } else {
                    no_step(v)
                }
            } else if c == 'h' {
                let snapped = if len > 0 && v.current_col > len - 1 {
                    len - 1
                } else {
                    v.current_col
                };
                let moved = if snapped > 0 {
                    snapped - 1
                } else {
                    snapped
                };
                no_step(v).with_state(EdView { current_col: moved, ..v })
            } else if c == 'w' {
                Step { state: v, action: HostAction::Save, unsupported: false }
            } else if c == 'u' || c == ':' {
                Step { state: v, action: HostAction::Idle, unsupported: true }
            } else {
                no_step(v)
            }
        },
        _ => no_step(v),
    }
}

/// Insert mode: typed characters land at the clamped column and advance the
/// desired column; Backspace deletes before the caret or merges with the
/// previous line; Enter splits the line at the caret.
pub open spec fn step_insert(v: EdView, k: Key) -> Step {
    let len = cur_line(v).len() as int;
    let col = clamp_col(Mode::Insert, len, v.current_col);
    match k {
        Key::Esc => Step {
            state: EdView { mode: Mode::Normal, ..v },
            action: HostAction::CursorBlock,
            unsupported: false,
        },
        Key::Char(c) => no_step(v).with_state(
            EdView {
                text: v.text.update(v.current_line, cur_line(v).insert(col, c)),
                current_col: v.current_col + 1,
                ..v
            },
        ),
        Key::Backspace => {
            if col > 0 {
                no_step(v).with_state(
                    EdView {
                        text: v.text.update(v.current_line, cur_line(v).remove(col - 1)),
                        current_col: v.current_col - 1,
                        ..v
                    },
                )
            } else if v.current_line > 0 {
                let prev = v.text[v.current_line - 1];
                no_step(v).with_state(
                    EdView {
                        text: v.text.update(v.current_line - 1, prev + cur_line(v)).remove(
                            v.current_line,
                        ),
                        current_line: v.current_line - 1,
                        current_col: if prev.len() > 0 {
                            prev.len() as int
                        } else {
                            v.current_col
                        },
                        ..v
                    },
                )
            } else {
                no_step(v)
            }
        },
        Key::Enter => no_step(v).with_state(
            EdView {
                text: v.text.update(v.current_line, cur_line(v).take(col)).insert(
                    v.current_line + 1,
                    cur_line(v).skip(col),
                ),
                current_line: v.current_line + 1,
                current_col: 0,
                ..v
            },
        ),
        _ => no_step(v),
    }
}

/// Replace mode: a typed character overwrites the character at the clamped
/// column without advancing, a deliberate asymmetry with Insert mode.
pub open spec fn step_replace(v: EdView, k: Key) -> Step {
    let len = cur_line(v).len() as int;
    let col = clamp_col(Mode::Normal, len, v.current_col);
    match k {
        Key::Esc => no_step(v).with_state(EdView { mode: Mode::Normal, ..v }),
        Key::Char(c) => no_step(v).with_state(
            EdView {
                text: v.text.update(v.current_line, cur_line(v).remove(col).insert(col, c)),
                ..v
            },
        ),
        _ => no_step(v),
    }
}

/// The whole state machine: one keystroke, dispatched on the current mode.
/// Release events and keystrokes in `Quit` mode change nothing.
pub open spec fn step(v: EdView, k: KeyInput) -> Step {
    if !k.press {
        no_step(v)
    } else {
        match v.mode {
            Mode::Normal => step_normal(v, k.code),
            Mode::Insert => step_insert(v, k.code),
            Mode::Replace => step_replace(v, k.code),
            Mode::Quit => no_step(v),
        }
    }
}

impl Step {
    pub open spec fn with_state(self, state: EdView) -> Step {
        Step { state, ..self }
    }
}

/// The one keystroke whose outcome is undefined: overwriting in Replace mode
/// on an empty line, where there is no character to replace. The caller must
/// not hand it to the engine.
pub open spec fn replace_on_empty_line(v: EdView, k: KeyInput) -> bool {
    v.mode is Replace && k.press && k.code is Char && cur_line(v).len() == 0
}

/// An editing session: the document, the modal state, and the cursor and
/// viewport model.
pub struct SawdustApp {
    mode: Mode,
    buffer: TextBuffer,
    top_line: usize,
    num_lines: usize,
    current_line: usize,
    current_col: usize,
    left_margin: usize,
}

impl View for SawdustApp {
    type V = EdView;

    closed spec fn view(&self) -> EdView {
        EdView {
            mode: self.mode,
            text: self.buffer@,
            top_line: self.top_line as int,
            num_lines: self.num_lines as int,
            current_line: self.current_line as int,
            current_col: self.current_col as int,
            left_margin: self.left_margin as int,
        }
    }
}

impl SawdustApp {
    /// Session well-formedness: the document is never empty, the cursor line
    /// is a valid index, the viewport never scrolls (the top visible line
    /// stays 0), the gutter fits, and in Insert mode the desired column
    /// never exceeds the line length.
    pub open spec fn wf(&self) -> bool {
        &&& self@.text.len() >= 1
        &&& 0 <= self@.current_line < self@.text.len()
        &&& self@.top_line == 0
        &&& 0 <= self@.num_lines
        &&& 0 <= self@.current_col
        &&& 2 <= self@.left_margin
        &&& self@.left_margin + 80 <= usize::MAX
        &&& (self@.mode is Insert ==> self@.current_col <= cur_line(self@).len())
    }

    /// A fresh session: one empty line, Normal mode, cursor at the origin,
    /// a 20-row window and a 4-column gutter.
    pub fn new() -> (r: SawdustApp)
        ensures
            r.wf(),
            r@.mode is Normal,
            r@.text =~~= seq![Seq::<char>::empty()],
            r@.top_line == 0,
            r@.num_lines == 20,
            r@.current_line == 0,
            r@.current_col == 0,
            r@.left_margin == 4,
    {
        SawdustApp {
            mode: Mode::Normal,
            buffer: TextBuffer::new(),
            top_line: 0,
            num_lines: 20,
            current_line: 0,
            current_col: 0,
            left_margin: 4,
        }
    }

    /// A session over an already loaded document.
    pub fn with_buffer(buffer: TextBuffer) -> (r: SawdustApp)
        requires
            buffer.wf(),
        ensures
            r.wf(),
            r@.mode is Normal,
            r@.text == buffer@,
            r@.top_line == 0,
            r@.num_lines == 20,
            r@.current_line == 0,
            r@.current_col == 0,
            r@.left_margin == 4,
    {
        SawdustApp {
            mode: Mode::Normal,
            buffer,
            top_line: 0,
            num_lines: 20,
            current_line: 0,
            current_col: 0,
            left_margin: 4,
        }
    }

    pub fn mode(&self) -> (r: Mode)
        ensures
            r == self@.mode,
    {
        self.mode
    }

    pub fn current_line(&self) -> (r: usize)
        ensures
            r == self@.current_line,
    {
        self.current_line
    }

    pub fn current_col(&self) -> (r: usize)
        ensures
            r == self@.current_col,
    {
        self.current_col
    }

    pub fn top_line(&self) -> (r: usize)
        ensures
            r == self@.top_line,
    {
        self.top_line
    }

    pub fn num_lines(&self) -> (r: usize)
        ensures
            r == self@.num_lines,
    {
        self.num_lines
    }

    pub fn left_margin(&self) -> (r: usize)
        ensures
            r == self@.left_margin,
    {
        self.left_margin
    }

    /// The document under edit.
    pub fn text(&self) -> (r: &TextBuffer)
        ensures
            r@ == self@.text,
    {
        &self.buffer
    }

    /// The column the caret occupies on the current line, clamped from the
    /// stored desired column by the active mode's rule.
    pub fn get_col_in_line(&self) -> (r: usize)
        requires
            self.wf(),
        ensures
            r as int == clamp_col(self@.mode, cur_line(self@).len() as int, self@.current_col),
    {
        let len = self.buffer.line_len(self.current_line);
        clamped_column(self.mode, len, self.current_col)
    }

    /// One keystroke in Normal mode.
    pub fn handle_key_input_norm(&mut self, k: KeyInput) -> (r: Result<HostAction, EditError>)
        requires
            old(self).wf(),
            old(self)@.mode is Normal,
        ensures
            final(self).wf(),
            ({
                let s = step(old(self)@, k);
                match r {
                    Ok(a) => !s.unsupported && final(self)@ == s.state && a == s.action,
                    Err(e) => s.unsupported && e == EditError::Unsupported && final(self)@ == old(
                        self,
                    )@,
                }
            }),
    {
        let this_line_len = self.buffer.line_len(self.current_line);
        if !k.press {
            return Ok(HostAction::Idle);
        }
        match k.code {
            Key::Char(c) => {
                if c == 'i' {
                    self.current_col = self.get_col_in_line();
                    self.mode = Mode::Insert;
                    Ok(HostAction::CursorBar)
                } else if c == 'A' {
                    self.mode = Mode::Insert;
                    self.current_col = this_line_len;
                    Ok(HostAction::CursorBar)
                } else if c == 'I' {
                    self.mode = Mode::Insert;
                    self.current_col = 0;
                    Ok(HostAction::CursorBar)
                } else if c == 'r' {
                    self.mode = Mode::Replace;
                    Ok(HostAction::Idle)
                } else if c == 'q' {
                    self.mode = Mode::Quit;
                    Ok(HostAction::Idle)
                } else if c == 'j' {
                    let n = self.buffer.line_count();
                    if self.current_line < n - 1 {
                        self.current_line = self.current_line + 1;
                    }
                    Ok(HostAction::Idle)
                } else if c == 'k' {
                    if self.current_line > 0 {
                        self.current_line = self.current_line - 1;
                    }
                    Ok(HostAction::Idle)
                } else if c == 'l' {
                    if this_line_len > 0 && self.current_col < this_line_len - 1 {
                        self.current_col = self.current_col + 1;
                    }
                    Ok(HostAction::Idle)
                } else if c == 'h' {
                    if this_line_len > 0 && self.current_col > this_line_len - 1 {
                        self.current_col = this_line_len - 1;
                    }
                    if self.current_col > 0 {
                        self.current_col = self.current_col - 1;
                    }
                    Ok(HostAction::Idle)
                } else if c == 'w' {
                    Ok(HostAction::Save)
                } else if c == 'u' || c == ':' {
                    Err(EditError::Unsupported)
                } else {
                    Ok(HostAction::Idle)
                }
            },
            _ => Ok(HostAction::Idle),
        }
    }

    /// One keystroke in Insert mode.
    pub fn handle_key_input_ins(&mut self, k: KeyInput) -> (r: HostAction)
        requires
            old(self).wf(),
            old(self)@.mode is Insert,
        ensures
            final(self).wf(),
            final(self)@ == step(old(self)@, k).state,
            r == step(old(self)@, k).action,
            !step(old(self)@, k).unsupported,
    {
        let col_in_line = self.get_col_in_line();
        if !k.press {
            return HostAction::Idle;
        }
        match k.code {
            Key::Esc => {
                self.mode = Mode::Normal;
                HostAction::CursorBlock
            },
            Key::Char(c) => {
                self.buffer.insert_char(self.current_line, col_in_line, c);
                let new_len = self.buffer.line_len(self.current_line);
                proof {
                    assert(self.current_col < new_len);
                }
                self.current_col = self.current_col + 1;
                HostAction::Idle
            },
            Key::Backspace => {
                if col_in_line > 0 {
                    self.buffer.delete_char(self.current_line, col_in_line - 1);
                    self.current_col = self.current_col - 1;
                    HostAction::Idle
                } else if self.current_line > 0 {
                    let prev_len = self.buffer.line_len(self.current_line - 1);
                    if prev_len > 0 {
                        self.current_col = prev_len;
                    }
                    self.buffer.merge_with_previous(self.current_line);
                    self.current_line = self.current_line - 1;
                    HostAction::Idle
                } else {
                    HostAction::Idle
                }
            },
            Key::Enter => {
                self.buffer.split_line(self.current_line, col_in_line);
                let n = self.buffer.line_count();
                proof {
                    assert(self.current_line < n - 1);
                }
                self.current_line = self.current_line + 1;
                self.current_col = 0;
                HostAction::Idle
            },
            _ => HostAction::Idle,
        }
    }

    /// One keystroke in Replace mode.
    pub fn handle_key_input_rep(&mut self, k: KeyInput)
        requires
            old(self).wf(),
            old(self)@.mode is Replace,
            !replace_on_empty_line(old(self)@, k),
        ensures
            final(self).wf(),
            final(self)@ == step(old(self)@, k).state,
    {
        let col_in_line = self.get_col_in_line();
        if k.press {
            match k.code {
                Key::Esc => {
                    self.mode = Mode::Normal;
                },
                Key::Char(c) => {
                    self.buffer.delete_char(self.current_line, col_in_line);
                    self.buffer.insert_char(self.current_line, col_in_line, c);
                    proof {
                        assert(self@.text =~~= step(old(self)@, k).state.text);
                    }
                },
                _ => {},
            }
        }
    }

    /// One keystroke, dispatched on the current mode. `Err` reports a key
    /// bound to a feature the editor deliberately does not implement; the
    /// session is then unchanged.
    pub fn handle_key_input(&mut self, k: KeyInput) -> (r: Result<HostAction, EditError>)
        requires
            old(self).wf(),
            !replace_on_empty_line(old(self)@, k),
        ensures
            final(self).wf(),
            ({
                let s = step(old(self)@, k);
                match r {
                    Ok(a) => !s.unsupported && final(self)@ == s.state && a == s.action,
                    Err(e) => s.unsupported && e == EditError::Unsupported && final(self)@ == old(
                        self,
                    )@,
                }
            }),
    {
        match self.mode {
            Mode::Insert => Ok(self.handle_key_input_ins(k)),
            Mode::Replace => {
                self.handle_key_input_rep(k);
                Ok(HostAction::Idle)
            },
            Mode::Normal => self.handle_key_input_norm(k),
            Mode::Quit => Ok(HostAction::Idle),
        }
    }

    /// Whether the engine accepts this keystroke: everything except the one
    /// undefined case, Replace-mode overwrite on an empty line.
    pub fn accepts(&self, k: KeyInput) -> (r: bool)
        requires
            self.wf(),
        ensures
            r == !replace_on_empty_line(self@, k),
    {
        let empty_replace = match (self.mode, k.code) {
            (Mode::Replace, Key::Char(_)) => k.press && self.buffer.line_len(self.current_line)
                == 0,
            _ => false,
        };
        !empty_replace
    }

    /// The terminal cell the caret occupies: the clamped column shifted by
    /// the gutter width, and the row of the current line.
    pub fn cursor_position(&self) -> (r: (usize, usize))
        requires
            self.wf(),
            clamp_col(self@.mode, cur_line(self@).len() as int, self@.current_col)
                + self@.left_margin <= usize::MAX,
        ensures
            r.0 == clamp_col(self@.mode, cur_line(self@).len() as int, self@.current_col)
                + self@.left_margin,
            r.1 == self@.current_line,
    {
        let col = self.get_col_in_line();
        (col + self.left_margin, self.current_line)
    }
}

} // verus!
