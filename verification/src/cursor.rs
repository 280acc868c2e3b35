use vstd::prelude::*;

verus! {

/// The editing modes. `Quit` is terminal: once entered, the host event loop
/// stops polling and the session ends.
#[derive(Clone, Copy, Debug, PartialEq, Eq, Structural)]
pub enum Mode {
    Normal,
    Insert,
    Replace,
    Quit,
}

/// The column the caret effectively occupies, clamped from the stored
/// desired column by the rule of the active mode: in Insert mode the caret
/// may sit one past the last character (the append position); in every other
/// mode it rests on a character, or at 0 on an empty line.
pub open spec fn clamp_col(mode: Mode, line_len: int, desired: int) -> int {
    if mode is Insert {
        if desired < line_len {
            desired
        } else {
            line_len
        }
    } else {
        if line_len == 0 {
            0
        } else if desired < line_len - 1 {
            desired
        } else {
            line_len - 1
        }
    }
}

/// The mode-dependent clamping rule, on a line of length `line_len`.
pub fn clamped_column(mode: Mode, line_len: usize, desired: usize) -> (r: usize)
    ensures
        r as int == clamp_col(mode, line_len as int, desired as int),
{
    match mode {
        Mode::Insert => {
            if desired < line_len {
                desired
            } else {
                line_len
            }
        },
        _ => {
            if line_len == 0 {
                0
            } else if desired < line_len - 1 {
                desired
            } else {
                line_len - 1
            }
        },
    }
}

} // verus!
