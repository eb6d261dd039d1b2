use vstd::prelude::*;

use crate::bounds::PlotError;
use crate::plot::{request_resolvable, resolve_request, Plot, Window, WindowView};
use crate::request::{PlotRequest, RequestView};

verus! {

/// One input event the backend hands the driver, already reduced to what the
/// driver decides on: a global quit request, the close request for one
/// window (the user closed it or pressed escape in it), or anything else.
#[derive(Clone, Copy, PartialEq, Eq, Structural, Debug)]
pub enum UiEvent {
    Quit,
    CloseWindow(u32),
    Other,
}

/// The driver's state: the set of live windows, exclusively owned by the
/// driver thread. The embedder runs the poll/redraw cycle and feeds events
/// and tasks in; every decision is made here.
pub struct PlotGUI {
    pub windows: Vec<Window>,
}

impl View for PlotGUI {
    type V = Seq<WindowView>;

    open spec fn view(&self) -> Seq<WindowView> {
        self.windows@.map_values(|w: Window| w@)
    }
}

/// Whether some live window carries this backend id.
pub open spec fn spec_has_id(ws: Seq<WindowView>, id: u32) -> bool {
    exists|i: int| 0 <= i < ws.len() && ws[i].id == id
}

/// The live set after closing the window with this id: the first window
/// carrying the id leaves; without one the set is unchanged.
pub open spec fn close_window(ws: Seq<WindowView>, id: u32) -> Seq<WindowView>
    decreases ws.len(),
{
    if ws.len() == 0 {
        ws
    } else if ws[0].id == id {
        ws.drop_first()
    } else {
        seq![ws[0]] + close_window(ws.drop_first(), id)
    }
}

/// One event's effect on the live set, and whether the driver exits: a quit
/// request always exits; closing the last live window exits; anything else
/// continues.
pub open spec fn apply_event(ws: Seq<WindowView>, e: UiEvent) -> (Seq<WindowView>, bool) {
    match e {
        UiEvent::Quit => (ws, true),
        UiEvent::CloseWindow(id) => {
            let ws2 = close_window(ws, id);
            (ws2, spec_has_id(ws, id) && ws2.len() == 0)
        },
        UiEvent::Other => (ws, false),
    }
}

/// The effect of one cycle's event drain, processed in order; once an event
/// exits, later events are not consulted.
pub open spec fn apply_events(ws: Seq<WindowView>, es: Seq<UiEvent>) -> (Seq<WindowView>, bool)
    decreases es.len(),
{
    if es.len() == 0 {
        (ws, false)
    } else {
        let step = apply_event(ws, es[0]);
        if step.1 {
            (step.0, true)
        } else {
            apply_events(step.0, es.drop_first())
        }
    }
}

/// The window a resolvable render task creates.
pub open spec fn render_window(id: u32, rv: RequestView) -> WindowView {
    WindowView { id, data: Some(resolve_request(rv)) }
}

proof fn lemma_close_window_at(ws: Seq<WindowView>, id: u32, i: int)
    requires
        0 <= i < ws.len(),
        ws[i].id == id,
        forall|k: int| 0 <= k < i ==> ws[k].id != id,
    ensures
        close_window(ws, id) == ws.remove(i),
    decreases i,
{
    if i == 0 {
        assert(ws.remove(0) =~= ws.drop_first());
    } else {
        lemma_close_window_at(ws.drop_first(), id, i - 1);
        assert(seq![ws[0]] + ws.drop_first().remove(i - 1) =~= ws.remove(i));
    }
}

proof fn lemma_close_window_absent(ws: Seq<WindowView>, id: u32)
    requires
        !spec_has_id(ws, id),
    ensures
        close_window(ws, id) == ws,
    decreases ws.len(),
{
    if ws.len() > 0 {
        assert(!spec_has_id(ws.drop_first(), id));
        lemma_close_window_absent(ws.drop_first(), id);
        assert(seq![ws[0]] + ws.drop_first() =~= ws);
    }
}

impl PlotGUI {
    /// A driver with no live window.
    pub fn new() -> (g: PlotGUI)
        ensures
            g@ =~= Seq::<WindowView>::empty(),
    {
        PlotGUI { windows: Vec::new() }
    }

    /// Whether a live window carries this backend id.
    pub fn has_window(&self, id: u32) -> (b: bool)
        ensures
            b == spec_has_id(self@, id),
    {
        let mut i: usize = 0;
        while i < self.windows.len()
            invariant
                i <= self.windows@.len(),
                forall|k: int| 0 <= k < i ==> self@[k].id != id,
            decreases self.windows@.len() - i,
        {
            if self.windows[i].id == id {
                proof {
                    assert(self@[i as int].id == id);
                }
                return true;
            }
            i = i + 1;
        }
        false
    }

    /// How many windows are live.
    pub fn window_count(&self) -> (n: usize)
        ensures
            n == self@.len(),
    {
        self.windows.len()
    }

    /// Removes the window with this id, if one is live.
    fn close_by_id(&mut self, id: u32) -> (removed: bool)
        ensures
            final(self)@ == close_window(old(self)@, id),
            removed == spec_has_id(old(self)@, id),
    {
        let mut i: usize = 0;
        while i < self.windows.len()
            invariant
                i <= self.windows@.len(),
                *self == *old(self),
                forall|k: int| 0 <= k < i ==> self@[k].id != id,
            decreases self.windows@.len() - i,
        {
            if self.windows[i].id == id {
                proof {
                    assert(self@[i as int].id == id);
                    lemma_close_window_at(old(self)@, id, i as int);
                }
                self.windows.remove(i);
                proof {
                    assert(self.windows@.map_values(|w: Window| w@) =~= old(self)@.remove(i as int));
                }
                return true;
            }
            i = i + 1;
        }
        proof {
            lemma_close_window_absent(old(self)@, id);
        }
        false
    }

    /// Drains one cycle's input events, in order: a quit request exits the
    /// driver; a window-close event removes that window and exits when the
    /// last live window is gone; later events are not consulted once the
    /// driver exits.
    pub fn handle_events(&mut self, events: &Vec<UiEvent>) -> (exit: bool)
        ensures
            final(self)@ == apply_events(old(self)@, events@).0,
            exit == apply_events(old(self)@, events@).1,
    {
        let ghost orig = old(self)@;
        let mut i: usize = 0;
        proof {
            assert(events@.skip(0) =~= events@);
        }
        while i < events.len()
            invariant
                i <= events@.len(),
                orig == old(self)@,
                apply_events(orig, events@) == apply_events(self@, events@.skip(i as int)),
            decreases events@.len() - i,
        {
            let ghost pre = self@;
            let ghost rest = events@.skip(i as int);
            proof {
                assert(rest[0] == events@[i as int]);
                assert(rest.drop_first() =~= events@.skip(i as int + 1));
            }
            match events[i] {
                UiEvent::Quit => {
                    proof {
                        assert(apply_events(pre, rest) == (pre, true));
                    }
                    return true;
                },
                UiEvent::CloseWindow(id) => {
                    let removed = self.close_by_id(id);
                    let now_empty = self.windows.len() == 0;
                    proof {
                        assert(now_empty == (self@.len() == 0));
                        assert(apply_event(pre, events@[i as int]) == (
                            self@,
                            removed && now_empty,
                        ));
                    }
                    if removed && now_empty {
                        proof {
                            assert(apply_events(pre, rest) == (self@, true));
                        }
                        return true;
                    }
                    proof {
                        assert(apply_events(pre, rest) == apply_events(
                            self@,
                            events@.skip(i as int + 1),
                        ));
                    }
                },
                UiEvent::Other => {
                    proof {
                        assert(apply_events(pre, rest) == apply_events(
                            self@,
                            events@.skip(i as int + 1),
                        ));
                    }
                },
            }
            i = i + 1;
        }
        proof {
            assert(events@.skip(events@.len() as int) =~= Seq::<UiEvent>::empty());
        }
        false
    }

    /// Consumes one render task: wraps the fresh backend window id, resolves
    /// the request onto a new window, and adds it to the live set. A request
    /// that cannot be resolved fails the task and adds no window.
    pub fn add_window(&mut self, id: u32, plot_builder: PlotRequest, plot: Plot) -> (r: Result<
        (),
        PlotError,
    >)
        requires
            !spec_has_id(old(self)@, id),
        ensures
            request_resolvable(plot_builder@) ==> r is Ok && final(self)@ == old(self)@.push(
                render_window(id, plot_builder@),
            ),
            !request_resolvable(plot_builder@) ==> r == Err::<(), PlotError>(
                PlotError::EmptySeriesBounds,
            ) && final(self)@ == old(self)@,
    {
        let mut new_window = Window::new(id);
        match plot.new2d(plot_builder, &mut new_window) {
            Ok(_) => {
                self.windows.push(new_window);
                proof {
                    assert(self.windows@.map_values(|w: Window| w@) =~= old(self)@.push(
                        new_window@,
                    ));
                }
                Ok(())
            },
            Err(e) => Err(e),
        }
    }

    /// The decision for a consumed terminate task: the driver exits only
    /// when no window is live; otherwise the sentinel is dropped without
    /// effect, and the driver keeps running until the user closes every
    /// remaining window.
    pub fn should_exit_on_terminate(&self) -> (exit: bool)
        ensures
            exit == (self@.len() == 0),
    {
        self.windows.len() == 0
    }
}

/// Law: the driver never outlives its windows. Whenever a cycle's event
/// drain leaves no live window, that same drain has already made the driver
/// exit; so once the user has closed every window the driver is gone, and a
/// teardown requested afterwards only joins a thread that already finished.
pub proof fn lemma_driver_exits_with_last_window(ws: Seq<WindowView>, es: Seq<UiEvent>)
    requires
        ws.len() > 0,
        apply_events(ws, es).0.len() == 0,
    ensures
        apply_events(ws, es).1,
    decreases es.len(),
{
    if es.len() > 0 {
        let step = apply_event(ws, es[0]);
        if !step.1 {
            match es[0] {
                UiEvent::CloseWindow(id) => {
                    if !spec_has_id(ws, id) {
                        lemma_close_window_absent(ws, id);
                    }
                    assert(step.0.len() > 0);
                    lemma_driver_exits_with_last_window(step.0, es.drop_first());
                },
                _ => {
                    lemma_driver_exits_with_last_window(step.0, es.drop_first());
                },
            }
        }
    }
}

/// The live set after consuming a batch of render tasks, each carrying the
/// fresh backend id its window will get; an unresolvable request fails its
/// task and creates no window.
pub open spec fn consume_renders(ws: Seq<WindowView>, batch: Seq<(u32, RequestView)>) -> Seq<
    WindowView,
>
    decreases batch.len(),
{
    if batch.len() == 0 {
        ws
    } else {
        let next = if request_resolvable(batch[0].1) {
            ws.push(render_window(batch[0].0, batch[0].1))
        } else {
            ws
        };
        consume_renders(next, batch.drop_first())
    }
}

/// Law: consuming a batch of resolvable render tasks creates exactly one
/// window per task, in submission order, each holding its own request's
/// resolved series and bounds, and leaves the windows that were already
/// live untouched.
pub proof fn lemma_consume_renders(ws: Seq<WindowView>, batch: Seq<(u32, RequestView)>)
    requires
        forall|k: int| 0 <= k < batch.len() ==> request_resolvable(#[trigger] batch[k].1),
    ensures
        consume_renders(ws, batch).len() == ws.len() + batch.len(),
        forall|i: int| 0 <= i < ws.len() ==> consume_renders(ws, batch)[i] == ws[i],
        forall|k: int|
            0 <= k < batch.len() ==> consume_renders(ws, batch)[ws.len() + k] == render_window(
                batch[k].0,
                batch[k].1,
            ),
    decreases batch.len(),
{
    if batch.len() > 0 {
        let next = ws.push(render_window(batch[0].0, batch[0].1));
        assert forall|k: int|
            0 <= k < batch.drop_first().len() implies request_resolvable(
            #[trigger] batch.drop_first()[k].1,
        ) by {
            assert(batch.drop_first()[k] == batch[k + 1]);
        }
        lemma_consume_renders(next, batch.drop_first());
        assert forall|i: int| 0 <= i < ws.len() implies consume_renders(ws, batch)[i] == ws[i] by {
            assert(next[i] == ws[i]);
            assert(consume_renders(next, batch.drop_first())[i] == next[i]);
        }
        assert forall|k: int|
            0 <= k < batch.len() implies consume_renders(ws, batch)[ws.len() + k] == render_window(
            batch[k].0,
            batch[k].1,
        ) by {
            if k == 0 {
                assert(consume_renders(ws, batch)[ws.len() as int] == next[ws.len() as int]);
            } else {
                assert(batch.drop_first()[k - 1] == batch[k]);
                assert(consume_renders(next, batch.drop_first())[next.len() + (k - 1)]
                    == render_window(batch[k].0, batch[k].1));
            }
        }
    }
}

} // verus!
