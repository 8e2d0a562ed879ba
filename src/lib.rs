//! A modal, single-line text input editor: a Unicode text buffer with a cursor
//! counted in codepoints, a Normal / Insert / operator-pending mode, and a log of
//! submitted entries.
use vstd::prelude::*;

pub mod app;
pub mod text;

pub use app::{App, AppView, CursorShape, EditError, Key, KeyEvent, KeyKind, Mode, OperateState, Operation};

verus! {

} // verus!
