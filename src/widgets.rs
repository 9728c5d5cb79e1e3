//! What a widget is to the rendering core: something that draws itself into
//! an area of a buffer.
use vstd::prelude::*;
use crate::buffer::Buffer;
use crate::geometry::Rect;
use crate::scrollbar::{Scrollbar, ScrollbarState};

verus! {

/// A widget that draws itself into `area` of `buf`, with state of its own
/// that outlives the frame.
pub trait StatefulWidget {
    type State;

    fn render(&self, area: Rect, buf: &mut Buffer, state: &mut Self::State)
        requires
            old(buf).wf(),
        ensures
            final(buf).wf(),
            final(buf).area == old(buf).area,
    ;
}

impl<'a> StatefulWidget for Scrollbar<'a> {
    type State = ScrollbarState;

    fn render(&self, area: Rect, buf: &mut Buffer, state: &mut ScrollbarState) {
        let st: ScrollbarState = *state;
        Scrollbar::render(self, area, buf, &st);
    }
}

} // verus!
