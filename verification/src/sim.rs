use vstd::prelude::*;

use crate::game::State;

verus! {

/// The heart of the render loop: one generation on display, advanced each
/// tick until an external stop flag is raised. The loop's I/O — clearing the
/// terminal, printing a frame, sleeping — happens outside; this type makes
/// every decision and hands back the frame to show.
pub struct Simulation {
    pub current: State,
}

impl Simulation {
    /// The generation on display is always a well-formed grid.
    pub open spec fn wf(self) -> bool {
        self.current.wf()
    }

    /// Starts a run from `initial`.
    pub fn new(initial: State) -> (sim: Simulation)
        requires
            initial.wf(),
        ensures
            sim.current == initial,
    {
        Simulation { current: initial }
    }

    /// One tick of the loop. With `stop` raised nothing changes and no frame
    /// is produced: the loop is over. Otherwise the frame is the text of the
    /// current generation seen through a centered viewport of at most
    /// `view.0` columns and `view.1` rows, and the next generation replaces
    /// the current one.
    pub fn tick(&mut self, stop: bool, view: (usize, usize)) -> (frame: Option<String>)
        requires
            old(self).wf(),
            view.0 >= 1,
            view.1 >= 1,
        ensures
            final(self).wf(),
            stop ==> *final(self) == *old(self) && frame is None,
            !stop ==> frame is Some,
            !stop ==> frame->Some_0@ == old(self).current.sp_window_text(
                old(self).current.sp_row_offset(view.1 as int),
                old(self).current.sp_col_offset(view.0 as int),
                old(self).current.sp_view_width(view.0 as int),
                old(self).current.sp_view_height(view.1 as int),
            ),
            !stop ==> final(self).current.width == old(self).current.width,
            !stop ==> final(self).current.height == old(self).current.height,
            !stop ==> forall|r: int, c: int|
                old(self).current.in_bounds(r, c) ==> #[trigger] final(self).current.sp_cell(r, c)
                    == old(self).current.sp_next_cell(r, c),
    {
        if stop {
            None
        } else {
            let text = self.current.centered_text(view);
            let successor = self.current.next();
            self.current = successor;
            Some(text)
        }
    }
}

} // verus!
