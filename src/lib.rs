//! Rendering core of a terminal user-interface toolkit: clamped geometry, a
//! constraint-based layout solver, a cell buffer with a diffing renderer, the
//! render pipeline that drives an output device, and a scrollbar widget.

pub mod backend;
pub mod buffer;
pub mod diff;
pub mod geometry;
pub mod layout;
pub mod replay;
pub mod scrollbar;
pub mod style;
pub mod terminal;
pub mod widgets;

pub use backend::{Backend, BackendError, ClearType, TestBackend, WindowSize};
pub use buffer::{Buffer, Cell};
pub use diff::{Diff, DrawInstruction};
pub use geometry::{Offset, Position, Rect, Size};
pub use layout::{Constraint, Direction, Flex, Layout};
pub use scrollbar::{
    ParseError, ScrollDirection, Scrollbar, ScrollbarOrientation, ScrollbarState, SymbolSet,
};
pub use style::{Color, Style};
pub use terminal::{CursorState, Terminal};
pub use widgets::StatefulWidget;
