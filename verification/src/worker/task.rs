//! The bookkeeping of the worker's long-running tasks: the items a task
//! gathers from its stream between two polls, and when it hands them over,
//! ends its job or stops.
//!
//! A task that follows a stream (logs, statistics, events of the engine)
//! keeps what it read until the worker polls it. A job (an image pull or
//! import) does the same, and sends its result once, when a message of the
//! engine or the end of the stream decides it.
use vstd::prelude::*;

verus! {

/// What a task met: an item of its stream, a sign that the stream ended or
/// failed, or a command of the worker.
#[derive(Debug)]
pub enum TaskEvent<C> {
    /// The stream gave an item. `outcome` is how the item ends a job, where
    /// it does (see `pull_status_outcome` and `import_message_outcome`).
    Item { item: C, outcome: Option<Result<String, String>> },
    /// The engine answered that the object the stream is about is gone.
    Gone,
    /// The stream gave another error, which the task logs and goes on.
    Failed,
    /// The stream ended.
    Ended,
    /// The worker asks for what the task gathered.
    Poll,
    /// The worker tells the task to stop.
    Kill,
    /// The channel of the worker's commands closed.
    Closed,
}

/// What a task does after an event.
#[derive(Debug)]
pub enum TaskAction<C> {
    /// Go on with the next event.
    Continue,
    /// The stream has nothing at the moment: wait a little, then go on.
    Idle,
    /// Hand these items to the worker, and go on.
    Deliver(Vec<C>),
    /// Stop the task.
    Stop,
    /// Send the result of the job, then the items where given, and stop.
    Finish { result: Result<String, String>, items: Option<Vec<C>> },
}

/// A `TaskAction` as a mathematical value.
pub enum TaskStep<C> {
    Continue,
    Idle,
    Deliver(Seq<C>),
    Stop,
    Finish(Result<Seq<char>, Seq<char>>, Option<Seq<C>>),
}

impl<C> View for TaskAction<C> {
    type V = TaskStep<C>;

    open spec fn view(&self) -> TaskStep<C> {
        match self {
            TaskAction::Continue => TaskStep::Continue,
            TaskAction::Idle => TaskStep::Idle,
            TaskAction::Deliver(v) => TaskStep::Deliver(v@),
            TaskAction::Stop => TaskStep::Stop,
            TaskAction::Finish { result, items } => TaskStep::Finish(
                result_view(*result),
                match items {
                    Some(v) => Some(v@),
                    None => None,
                },
            ),
        }
    }
}

/// The characters of a result.
pub open spec fn result_view(r: Result<String, String>) -> Result<Seq<char>, Seq<char>> {
    match r {
        Ok(s) => Ok(s@),
        Err(e) => Err(e@),
    }
}

/// The state of a task: the items gathered since the last poll, and whether
/// the task is done (it stopped, or its job has its result).
#[derive(Debug)]
pub struct TaskBuffer<C> {
    pub items: Vec<C>,
    pub done: bool,
}

/// The state of a task as a mathematical value.
pub open spec fn buffer_view<C>(b: TaskBuffer<C>) -> (Seq<C>, bool) {
    (b.items@, b.done)
}

/// The state of a task that follows a stream, after event `e`.
pub open spec fn follow_next<C>(s: (Seq<C>, bool), e: TaskEvent<C>) -> (Seq<C>, bool) {
    if s.1 {
        s
    } else {
        match e {
            TaskEvent::Item { item, .. } => (s.0.push(item), false),
            TaskEvent::Gone | TaskEvent::Kill => (s.0, true),
            TaskEvent::Poll => (Seq::empty(), false),
            _ => s,
        }
    }
}

/// What a task that follows a stream does after event `e`: it keeps the
/// items, hands over all it kept when polled, waits where the stream ended
/// for now, and stops where the object is gone or it is told to.
pub open spec fn follow_action<C>(s: (Seq<C>, bool), e: TaskEvent<C>) -> TaskStep<C> {
    if s.1 {
        TaskStep::Stop
    } else {
        match e {
            TaskEvent::Item { .. } | TaskEvent::Failed | TaskEvent::Closed => TaskStep::Continue,
            TaskEvent::Gone | TaskEvent::Kill => TaskStep::Stop,
            TaskEvent::Ended => TaskStep::Idle,
            TaskEvent::Poll => TaskStep::Deliver(s.0),
        }
    }
}

/// The state of a job after event `e`.
pub open spec fn job_next<C>(s: (Seq<C>, bool), e: TaskEvent<C>) -> (Seq<C>, bool) {
    if s.1 {
        s
    } else {
        match e {
            TaskEvent::Item { item, outcome } => match outcome {
                Some(_) => (Seq::empty(), true),
                None => (s.0.push(item), false),
            },
            TaskEvent::Gone | TaskEvent::Kill | TaskEvent::Ended => (s.0, true),
            TaskEvent::Poll => (Seq::empty(), false),
            _ => s,
        }
    }
}

/// What a job named `name` does after event `e`: as a task that follows a
/// stream, but an item that decides the job finishes it with that result and
/// hands over all the items, the item included; the end of the stream
/// finishes it with the name as its result; the object being gone stops it
/// without a result.
pub open spec fn job_action<C>(s: (Seq<C>, bool), e: TaskEvent<C>, name: Seq<char>) -> TaskStep<C> {
    if s.1 {
        TaskStep::Stop
    } else {
        match e {
            TaskEvent::Item { item, outcome } => match outcome {
                Some(res) => TaskStep::Finish(result_view(res), Some(s.0.push(item))),
                None => TaskStep::Continue,
            },
            TaskEvent::Failed | TaskEvent::Closed => TaskStep::Continue,
            TaskEvent::Gone | TaskEvent::Kill => TaskStep::Stop,
            TaskEvent::Ended => TaskStep::Finish(Ok(name), None),
            TaskEvent::Poll => TaskStep::Deliver(s.0),
        }
    }
}

impl<C> TaskBuffer<C> {
    /// A task that has gathered nothing yet.
    pub fn new() -> (r: TaskBuffer<C>)
        ensures
            r.items@.len() == 0,
            !r.done,
    {
        TaskBuffer { items: Vec::new(), done: false }
    }

    /// Hands over all the items gathered, and keeps none.
    pub fn take(&mut self) -> (r: Vec<C>)
        ensures
            r@ == old(self).items@,
            final(self).items@.len() == 0,
            final(self).done == old(self).done,
    {
        let mut r: Vec<C> = Vec::new();
        std::mem::swap(&mut r, &mut self.items);
        r
    }

    /// The step of a task that follows a stream.
    pub fn follow_step(&mut self, e: TaskEvent<C>) -> (r: TaskAction<C>)
        ensures
            r@ == follow_action(buffer_view(*old(self)), e),
            buffer_view(*final(self)) == follow_next(buffer_view(*old(self)), e),
    {
        if self.done {
            return TaskAction::Stop;
        }
        match e {
            TaskEvent::Item { item, .. } => {
                self.items.push(item);
                TaskAction::Continue
            },
            TaskEvent::Gone | TaskEvent::Kill => {
                self.done = true;
                TaskAction::Stop
            },
            TaskEvent::Ended => TaskAction::Idle,
            TaskEvent::Poll => TaskAction::Deliver(self.take()),
            TaskEvent::Failed | TaskEvent::Closed => TaskAction::Continue,
        }
    }

    /// The step of a job named `name`.
    pub fn job_step(&mut self, e: TaskEvent<C>, name: &str) -> (r: TaskAction<C>)
        ensures
            r@ == job_action(buffer_view(*old(self)), e, name@),
            buffer_view(*final(self)) == job_next(buffer_view(*old(self)), e),
    {
        if self.done {
            return TaskAction::Stop;
        }
        match e {
            TaskEvent::Item { item, outcome } => {
                self.items.push(item);
                match outcome {
                    Some(result) => {
                        self.done = true;
                        TaskAction::Finish { result, items: Some(self.take()) }
                    },
                    None => TaskAction::Continue,
                }
            },
            TaskEvent::Gone | TaskEvent::Kill => {
                self.done = true;
                TaskAction::Stop
            },
            TaskEvent::Ended => {
                self.done = true;
                TaskAction::Finish { result: Ok(name.to_owned()), items: None }
            },
            TaskEvent::Poll => TaskAction::Deliver(self.take()),
            TaskEvent::Failed | TaskEvent::Closed => TaskAction::Continue,
        }
    }
}

/// Law: a job gives at most one result. Once a step finished or stopped it,
/// every later step stops it again, changes nothing and gives no result.
pub proof fn lemma_one_result<C>(
    s: (Seq<C>, bool),
    e1: TaskEvent<C>,
    e2: TaskEvent<C>,
    name: Seq<char>,
)
    requires
        job_action(s, e1, name) is Finish || job_action(s, e1, name) is Stop,
    ensures
        job_next(s, e1).1,
        job_action(job_next(s, e1), e2, name) == TaskStep::<C>::Stop,
        job_next(job_next(s, e1), e2) == job_next(s, e1),
{
}

/// Law: no item is lost. What a poll hands over, of a task that follows a
/// stream, is what the task held before and the items it met since, in
/// order; after the poll it holds nothing.
pub proof fn lemma_poll_delivers_all<C>(s: (Seq<C>, bool), item: C, outcome: Option<
    Result<String, String>,
>)
    requires
        !s.1,
    ensures
        ({
            let s1 = follow_next(s, TaskEvent::Item { item, outcome });
            &&& follow_action(s1, TaskEvent::<C>::Poll) == TaskStep::Deliver(s.0.push(item))
            &&& follow_next(s1, TaskEvent::<C>::Poll).0 == Seq::<C>::empty()
        }),
{
}

/// Law: the end of its stream finishes a running job with its name as the
/// result.
pub proof fn lemma_end_finishes<C>(s: (Seq<C>, bool), name: Seq<char>)
    requires
        !s.1,
    ensures
        job_action(s, TaskEvent::<C>::Ended, name) == TaskStep::<C>::Finish(Ok(name), None),
{
}


/// Law: how a task that follows a stream answers each event while it runs.
/// It keeps every item it meets, in order, and goes on; it goes on past a
/// failed read, a closed command channel and an error it logs; it waits where
/// the stream has nothing for now; a poll hands over all it kept and leaves it
/// empty; a kill, or the object being gone, stops it for good. Once done, it
/// answers every event by stopping and changes nothing.
pub proof fn lemma_follow_events<C>(items: Seq<C>, item: C, outcome: Option<Result<String, String>>, e: TaskEvent<C>)
    ensures
        follow_action((items, false), TaskEvent::<C>::Kill) == TaskStep::<C>::Stop,
        follow_next((items, false), TaskEvent::<C>::Kill) == (items, true),
        follow_action((items, false), TaskEvent::<C>::Gone) == TaskStep::<C>::Stop,
        follow_next((items, false), TaskEvent::<C>::Gone) == (items, true),
        follow_action((items, false), TaskEvent::Item { item, outcome }) == TaskStep::<C>::Continue,
        follow_next((items, false), TaskEvent::Item { item, outcome }) == (items.push(item), false),
        follow_action((items, false), TaskEvent::<C>::Failed) == TaskStep::<C>::Continue,
        follow_next((items, false), TaskEvent::<C>::Failed) == (items, false),
        follow_action((items, false), TaskEvent::<C>::Closed) == TaskStep::<C>::Continue,
        follow_next((items, false), TaskEvent::<C>::Closed) == (items, false),
        follow_action((items, false), TaskEvent::<C>::Ended) == TaskStep::<C>::Idle,
        follow_next((items, false), TaskEvent::<C>::Ended) == (items, false),
        follow_action((items, false), TaskEvent::<C>::Poll) == TaskStep::Deliver(items),
        follow_next((items, false), TaskEvent::<C>::Poll) == (Seq::<C>::empty(), false),
        follow_action((items, true), e) == TaskStep::<C>::Stop,
        follow_next((items, true), e) == (items, true),
{
}

/// Law: how a running job answers each event. A failed read or a closed
/// command channel leaves it as it is and it goes on to its result; an item
/// that does not decide the job is kept; an item that decides it finishes it
/// with that result and hands over every item, that one last; the end of the
/// stream finishes it with its name as the result; a kill, or the object
/// being gone, stops it without a result; a poll hands over what it kept.
pub proof fn lemma_job_events<C>(items: Seq<C>, item: C, result: Result<String, String>, name: Seq<char>)
    ensures
        job_action((items, false), TaskEvent::<C>::Failed, name) == TaskStep::<C>::Continue,
        job_next((items, false), TaskEvent::<C>::Failed) == (items, false),
        job_action((items, false), TaskEvent::<C>::Closed, name) == TaskStep::<C>::Continue,
        job_next((items, false), TaskEvent::<C>::Closed) == (items, false),
        job_action((items, false), TaskEvent::Item { item, outcome: None }, name)
            == TaskStep::<C>::Continue,
        job_next((items, false), TaskEvent::Item { item, outcome: None }) == (items.push(item), false),
        job_action((items, false), TaskEvent::Item { item, outcome: Some(result) }, name)
            == TaskStep::Finish(
            match result {
                Ok(x) => Ok(x@),
                Err(x) => Err(x@),
            },
            Some(items.push(item)),
        ),
        job_next((items, false), TaskEvent::Item { item, outcome: Some(result) }) == (
            Seq::<C>::empty(),
            true,
        ),
        job_action((items, false), TaskEvent::<C>::Ended, name) == TaskStep::<C>::Finish(
            Ok(name),
            None,
        ),
        job_next((items, false), TaskEvent::<C>::Ended).1,
        job_action((items, false), TaskEvent::<C>::Kill, name) == TaskStep::<C>::Stop,
        job_next((items, false), TaskEvent::<C>::Kill) == (items, true),
        job_action((items, false), TaskEvent::<C>::Gone, name) == TaskStep::<C>::Stop,
        job_next((items, false), TaskEvent::<C>::Gone) == (items, true),
        job_action((items, false), TaskEvent::<C>::Poll, name) == TaskStep::Deliver(items),
        job_next((items, false), TaskEvent::<C>::Poll) == (Seq::<C>::empty(), false),
{
}

} // verus!
