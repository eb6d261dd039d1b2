use vstd::prelude::*;

use crate::bounds::PlotError;
use crate::plot::Plot;
use crate::queue::{render_task, GUITask, TaskQueue};
use crate::request::PlotRequest;

verus! {

/// The producer-facing handle: it owns the task queue end that submissions
/// go through, and it makes the lifecycle decisions.
///
/// The windowing context may have only one live owner process-wide, so the
/// embedder keeps a process-wide guard flag; its previous value is handed to
/// `new`, which decides whether construction is allowed. The embedder shares
/// the task queue with the driver thread behind a mutex, runs `teardown`
/// when the handle goes out of scope, and then blocks until the driver
/// thread exits before clearing the guard.
pub struct Plotter {
    pub task_queue: TaskQueue,
}

impl Plotter {
    /// Creates the producer handle with an empty queue, unless another
    /// handle is already live.
    pub fn new(already_initialised: bool) -> (r: Result<Plotter, PlotError>)
        ensures
            already_initialised ==> r == Err::<Plotter, PlotError>(PlotError::AlreadyInitialized),
            !already_initialised ==> (r matches Ok(p) && p.task_queue@ =~= Seq::<
                GUITask,
            >::empty()),
    {
        if already_initialised {
            Err(PlotError::AlreadyInitialized)
        } else {
            Ok(Plotter { task_queue: TaskQueue::new() })
        }
    }

    /// Submits one plot request: wraps it in a render task and appends it at
    /// the queue tail. Always succeeds; the producer is never blocked.
    pub fn plot2d(&mut self, plot_builder: PlotRequest)
        ensures
            final(self).task_queue@ == old(self).task_queue@.push(render_task(plot_builder)),
    {
        let plot_task = GUITask::PlotTask(plot_builder, Plot::new());
        self.task_queue.push_back(plot_task);
    }

    /// The teardown decision: appends the terminate sentinel at the queue
    /// tail. The embedder then joins the driver thread, which makes shutdown
    /// synchronous, and clears the process-wide guard.
    pub fn teardown(&mut self)
        ensures
            final(self).task_queue@ == old(self).task_queue@.push(GUITask::Terminate),
    {
        self.task_queue.push_back(GUITask::Terminate);
    }
}

} // verus!
