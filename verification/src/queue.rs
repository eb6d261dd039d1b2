use vstd::prelude::*;

use crate::plot::Plot;
use crate::request::PlotRequest;

verus! {

/// A unit of work handed from a producer to the rendering thread: render a
/// new plot, or terminate the driver.
pub enum GUITask {
    PlotTask(PlotRequest, Plot),
    Terminate,
}

/// The render task that wraps one plot request.
pub open spec fn render_task(plot_builder: PlotRequest) -> GUITask {
    GUITask::PlotTask(plot_builder, Plot {  })
}

/// The first-in first-out handoff between producers and the driver thread.
///
/// The queue itself is sequential; the embedder shares one instance between
/// the producer and the driver behind a single mutex, and the driver drains
/// it on its own polling schedule.
pub struct TaskQueue {
    tasks: Vec<GUITask>,
}

impl View for TaskQueue {
    type V = Seq<GUITask>;

    closed spec fn view(&self) -> Seq<GUITask> {
        self.tasks@
    }
}

impl TaskQueue {
    /// An empty queue.
    pub fn new() -> (q: TaskQueue)
        ensures
            q@ =~= Seq::<GUITask>::empty(),
    {
        TaskQueue { tasks: Vec::new() }
    }

    /// Appends one task at the tail; never blocks and never fails, so the
    /// queue is unbounded and applies no backpressure.
    pub fn push_back(&mut self, task: GUITask)
        ensures
            final(self)@ == old(self)@.push(task),
    {
        self.tasks.push(task);
    }

    /// Removes and returns the oldest task, if any.
    pub fn pop_front(&mut self) -> (r: Option<GUITask>)
        ensures
            old(self)@.len() == 0 ==> r is None && final(self)@ == old(self)@,
            old(self)@.len() > 0 ==> r == Some(old(self)@[0]) && final(self)@ == old(
                self,
            )@.drop_first(),
    {
        if self.tasks.len() == 0 {
            None
        } else {
            let t = self.tasks.remove(0);
            proof {
                assert(self.tasks@ =~= old(self)@.drop_first());
            }
            Some(t)
        }
    }

    /// How many tasks are waiting.
    pub fn len(&self) -> (n: usize)
        ensures
            n == self@.len(),
    {
        self.tasks.len()
    }

    /// Whether no task is waiting.
    pub fn is_empty(&self) -> (b: bool)
        ensures
            b == (self@.len() == 0),
    {
        self.tasks.len() == 0
    }
}

/// The queue contents after one producer pushes `ts`, one at a time, in order.
pub open spec fn enqueue_all(q: Seq<GUITask>, ts: Seq<GUITask>) -> Seq<GUITask>
    decreases ts.len(),
{
    if ts.len() == 0 {
        q
    } else {
        enqueue_all(q.push(ts[0]), ts.drop_first())
    }
}

/// Law: pushes keep submission order. Whatever one producer submits, one
/// task at a time, sits behind the prior contents in exactly the order it
/// was submitted; since the driver always consumes at the head, tasks of one
/// producer are consumed first-in first-out.
pub proof fn lemma_enqueue_all_order(q: Seq<GUITask>, ts: Seq<GUITask>)
    ensures
        enqueue_all(q, ts) == q + ts,
    decreases ts.len(),
{
    if ts.len() == 0 {
        assert(enqueue_all(q, ts) =~= q + ts);
    } else {
        lemma_enqueue_all_order(q.push(ts[0]), ts.drop_first());
        assert(q.push(ts[0]) + ts.drop_first() =~= q + ts);
    }
}

} // verus!
