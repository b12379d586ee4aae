//! The background worker that serves the requests of the GUI: the state it
//! keeps between requests and the decision it makes for each one.
//!
//! The worker itself (the task that talks to the engine) runs outside the
//! library; for each request it asks `WorkerState::plan` what to do, does it,
//! and reports back the end of the long-running jobs.
pub mod image;
pub mod logs;
pub mod stats;
pub mod task;

use vstd::prelude::*;

use crate::event::{
    ContainerEvent, ContainerListOptions, EventRequest, ImageEvent, ImageListOptions, RegistryAuth,
};
use crate::text::str_eq;

verus! {

/// What the worker sends to the tasks that it started.
#[derive(Debug, PartialEq, Eq, Structural, Clone, Copy)]
pub enum WorkerEvent {
    PollData,
    Kill,
}

/// The events of the task that collects the events of the engine.
#[derive(Debug, PartialEq, Eq, Structural, Clone, Copy)]
pub enum EventsWorkerEvent {
    PollData,
    Kill,
}

/// What the worker keeps between two requests.
#[derive(Debug)]
pub struct WorkerState {
    /// The address of the engine the worker talks to.
    pub current_uri: String,
    /// The container whose logs and statistics are being collected.
    pub current_container: Option<String>,
    pub pull_in_progress: bool,
    pub export_in_progress: bool,
    pub import_in_progress: bool,
}

/// What the worker does for one request.
#[derive(Debug)]
pub enum WorkerAction {
    /// Nothing: no work and no answer.
    Ignore,
    /// Log the message; no answer.
    Fail(&'static str),
    /// Connect to the engine at `uri` and answer whether that worked; stop
    /// the pull and export tasks where flagged, and restart the logs and
    /// statistics tasks of `restart_container`.
    Reconnect { uri: String, kill_pull: bool, kill_export: bool, restart_container: Option<String> },
    /// Stop the logs and statistics tasks of the previous container where
    /// `kill_previous`, start them for `id`, and answer its details.
    Trace { id: String, kill_previous: bool },
    /// Answer the details of the traced container `id`.
    InspectCurrent { id: String },
    /// Answer the processes of the traced container `id`.
    ListProcesses { id: String },
    /// Start the task that exports image `id` to `output_path`.
    StartExport { id: String, output_path: String },
    /// Start the task that pulls `image`.
    StartPull { image: String, auth: Option<RegistryAuth> },
    /// Start the task that imports the archive at `path`.
    StartImport { path: String },
    /// Ask the pull task for the chunks it received, and answer them.
    PollPull,
    /// Serve the request with the engine, as it is.
    Serve(EventRequest),
}

/// The state after the worker planned request `req`.
pub open spec fn next_state(s: WorkerState, req: EventRequest) -> WorkerState {
    match req {
        EventRequest::DockerUriChange { uri } => if uri@ == s.current_uri@ {
            s
        } else {
            WorkerState { current_uri: uri, ..s }
        },
        EventRequest::Container(ContainerEvent::TraceStart { id }) => if s.current_container
            matches Some(c) && c@ == id@ {
            s
        } else {
            WorkerState { current_container: Some(id), ..s }
        },
        EventRequest::Image(ImageEvent::Save { .. }) => WorkerState {
            export_in_progress: true,
            ..s
        },
        EventRequest::Image(ImageEvent::Pull { .. }) => WorkerState {
            pull_in_progress: true,
            ..s
        },
        EventRequest::Image(ImageEvent::Import { .. }) => WorkerState {
            import_in_progress: true,
            ..s
        },
        _ => s,
    }
}

/// The action the worker takes for request `req` in state `s`.
pub open spec fn next_action(s: WorkerState, req: EventRequest) -> WorkerAction {
    match req {
        EventRequest::DockerUriChange { uri } => if uri@ == s.current_uri@ {
            WorkerAction::Ignore
        } else {
            WorkerAction::Reconnect {
                uri,
                kill_pull: s.pull_in_progress,
                kill_export: s.export_in_progress,
                restart_container: s.current_container,
            }
        },
        EventRequest::Container(ContainerEvent::TraceStart { id }) => if s.current_container
            matches Some(c) && c@ == id@ {
            WorkerAction::Ignore
        } else {
            WorkerAction::Trace { id, kill_previous: s.current_container is Some }
        },
        EventRequest::Container(ContainerEvent::Details) => match s.current_container {
            Some(id) => WorkerAction::InspectCurrent { id },
            None => WorkerAction::Fail("failed to inspect a container: no current id set"),
        },
        EventRequest::Container(ContainerEvent::ProcessList) => match s.current_container {
            Some(id) => WorkerAction::ListProcesses { id },
            None => WorkerAction::Ignore,
        },
        EventRequest::Image(ImageEvent::Save { id, output_path }) => WorkerAction::StartExport {
            id,
            output_path,
        },
        EventRequest::Image(ImageEvent::Pull { image, auth }) => if s.pull_in_progress {
            WorkerAction::Ignore
        } else {
            WorkerAction::StartPull { image, auth }
        },
        EventRequest::Image(ImageEvent::Import { path }) => if s.import_in_progress {
            WorkerAction::Ignore
        } else {
            WorkerAction::StartImport { path }
        },
        EventRequest::Image(ImageEvent::PullChunks) => if s.pull_in_progress {
            WorkerAction::PollPull
        } else {
            WorkerAction::Ignore
        },
        _ => WorkerAction::Serve(req),
    }
}

impl WorkerState {
    /// The state of a worker that just connected to the engine at `uri`.
    pub fn new(uri: String) -> (r: WorkerState)
        ensures
            r.current_uri == uri,
            r.current_container is None,
            !r.pull_in_progress,
            !r.export_in_progress,
            !r.import_in_progress,
    {
        WorkerState {
            current_uri: uri,
            current_container: None,
            pull_in_progress: false,
            export_in_progress: false,
            import_in_progress: false,
        }
    }

    /// Decides what to do with request `req`.
    pub fn plan(&mut self, req: EventRequest) -> (r: WorkerAction)
        ensures
            r == next_action(*old(self), req),
            *final(self) == next_state(*old(self), req),
    {
        match req {
            EventRequest::DockerUriChange { uri } => {
                if str_eq(uri.as_str(), self.current_uri.as_str()) {
                    WorkerAction::Ignore
                } else {
                    let r = WorkerAction::Reconnect {
                        uri: uri.clone(),
                        kill_pull: self.pull_in_progress,
                        kill_export: self.export_in_progress,
                        restart_container: self.current_container.clone(),
                    };
                    self.current_uri = uri;
                    r
                }
            },
            EventRequest::Container(ContainerEvent::TraceStart { id }) => {
                let same = match &self.current_container {
                    Some(c) => str_eq(c.as_str(), id.as_str()),
                    None => false,
                };
                if same {
                    WorkerAction::Ignore
                } else {
                    let kill_previous = self.current_container.is_some();
                    self.current_container = Some(id.clone());
                    WorkerAction::Trace { id, kill_previous }
                }
            },
            EventRequest::Container(ContainerEvent::Details) => match &self.current_container {
                Some(id) => WorkerAction::InspectCurrent { id: id.clone() },
                None => WorkerAction::Fail("failed to inspect a container: no current id set"),
            },
            EventRequest::Container(ContainerEvent::ProcessList) => match &self.current_container {
                Some(id) => WorkerAction::ListProcesses { id: id.clone() },
                None => WorkerAction::Ignore,
            },
            EventRequest::Image(ImageEvent::Save { id, output_path }) => {
                self.export_in_progress = true;
                WorkerAction::StartExport { id, output_path }
            },
            EventRequest::Image(ImageEvent::Pull { image, auth }) => {
                if self.pull_in_progress {
                    WorkerAction::Ignore
                } else {
                    self.pull_in_progress = true;
                    WorkerAction::StartPull { image, auth }
                }
            },
            EventRequest::Image(ImageEvent::Import { path }) => {
                if self.import_in_progress {
                    WorkerAction::Ignore
                } else {
                    self.import_in_progress = true;
                    WorkerAction::StartImport { path }
                }
            },
            EventRequest::Image(ImageEvent::PullChunks) => {
                if self.pull_in_progress {
                    WorkerAction::PollPull
                } else {
                    WorkerAction::Ignore
                }
            },
            _ => WorkerAction::Serve(req),
        }
    }

    /// The export task sent its result, which the worker passes on.
    pub fn export_finished(&mut self)
        ensures
            *final(self) == (WorkerState { export_in_progress: false, ..*old(self) }),
    {
        self.export_in_progress = false;
    }

    /// The pull task sent its result and its last chunks, which the worker
    /// passes on.
    pub fn pull_finished(&mut self)
        ensures
            *final(self) == (WorkerState { pull_in_progress: false, ..*old(self) }),
    {
        self.pull_in_progress = false;
    }

    /// The import task sent its result, which the worker passes on. The flag
    /// that this clears is that of the pull; the import flag stays set, so the
    /// worker starts no further import.
    pub fn import_finished(&mut self)
        ensures
            *final(self) == (WorkerState { pull_in_progress: false, ..*old(self) }),
    {
        self.pull_in_progress = false;
    }
}

/// Law: a request to trace the container that is already traced changes
/// nothing and is not answered.
pub proof fn lemma_trace_same_container_ignored(s: WorkerState, id: String)
    requires
        s.current_container matches Some(c) && c@ == id@,
    ensures
        next_state(s, EventRequest::Container(ContainerEvent::TraceStart { id })) == s,
        next_action(s, EventRequest::Container(ContainerEvent::TraceStart { id }))
            == WorkerAction::Ignore,
{
}

/// Law: after tracing container `id`, tracing it again is ignored.
pub proof fn lemma_trace_is_idempotent(s: WorkerState, id: String, again: String)
    requires
        again@ == id@,
    ensures
        ({
            let s1 = next_state(s, EventRequest::Container(ContainerEvent::TraceStart { id }));
            &&& s1.current_container matches Some(c) && c@ == id@
            &&& next_state(s1, EventRequest::Container(ContainerEvent::TraceStart { id: again }))
                == s1
            &&& next_action(s1, EventRequest::Container(ContainerEvent::TraceStart { id: again }))
                == WorkerAction::Ignore
        }),
{
}

/// Law: a change of address to the address in use changes nothing and is not
/// answered; after a change to a new address, the worker uses it.
pub proof fn lemma_uri_change(s: WorkerState, uri: String)
    ensures
        uri@ == s.current_uri@ ==> next_state(s, EventRequest::DockerUriChange { uri }) == s
            && next_action(s, EventRequest::DockerUriChange { uri }) == WorkerAction::Ignore,
        next_state(s, EventRequest::DockerUriChange { uri }).current_uri@ == uri@,
{
}

/// Law: while a pull runs, a second pull is ignored; when none runs, a pull
/// starts and is then marked as running.
pub proof fn lemma_one_pull_at_a_time(
    s: WorkerState,
    image: String,
    auth: Option<RegistryAuth>,
)
    ensures
        s.pull_in_progress ==> next_action(s, EventRequest::Image(ImageEvent::Pull { image, auth }))
            == WorkerAction::Ignore && next_state(
            s,
            EventRequest::Image(ImageEvent::Pull { image, auth }),
        ) == s,
        !s.pull_in_progress ==> next_action(
            s,
            EventRequest::Image(ImageEvent::Pull { image, auth }),
        ) == (WorkerAction::StartPull { image, auth }) && next_state(
            s,
            EventRequest::Image(ImageEvent::Pull { image, auth }),
        ).pull_in_progress,
{
}


/// Law: the processes asked for are those of the traced container. Where a
/// container is traced, a process list request lists the processes of that
/// very container; where none is, the request is not answered. Either way the
/// state stays as it is.
pub proof fn lemma_process_list_of_traced(s: WorkerState)
    ensures
        s.current_container matches Some(id) ==> next_action(
            s,
            EventRequest::Container(ContainerEvent::ProcessList),
        ) == (WorkerAction::ListProcesses { id }),
        s.current_container is None ==> next_action(
            s,
            EventRequest::Container(ContainerEvent::ProcessList),
        ) == WorkerAction::Ignore,
        next_state(s, EventRequest::Container(ContainerEvent::ProcessList)) == s,
{
}

/// Law: the details asked for are those of the traced container; with no
/// container traced the request fails with a message. The state stays as it
/// is.
pub proof fn lemma_details_of_traced(s: WorkerState)
    ensures
        s.current_container matches Some(id) ==> next_action(
            s,
            EventRequest::Container(ContainerEvent::Details),
        ) == (WorkerAction::InspectCurrent { id }),
        s.current_container is None ==> next_action(
            s,
            EventRequest::Container(ContainerEvent::Details),
        ) is Fail,
        next_state(s, EventRequest::Container(ContainerEvent::Details)) == s,
{
}

/// Law: tracing another container than the traced one (or the first one)
/// starts tracing it, stopping the tasks of the previous one where there was
/// one, and makes it the traced container.
pub proof fn lemma_trace_new_container(s: WorkerState, id: String)
    requires
        !(s.current_container matches Some(c) && c@ == id@),
    ensures
        next_action(s, EventRequest::Container(ContainerEvent::TraceStart { id })) == (
        WorkerAction::Trace { id, kill_previous: s.current_container is Some }),
        next_state(s, EventRequest::Container(ContainerEvent::TraceStart { id })) == (
        WorkerState { current_container: Some(id), ..s }),
{
}

/// Law: every export request starts an export, to the path asked for, and
/// marks an export as running.
pub proof fn lemma_export_starts(s: WorkerState, id: String, output_path: String)
    ensures
        next_action(s, EventRequest::Image(ImageEvent::Save { id, output_path })) == (
        WorkerAction::StartExport { id, output_path }),
        next_state(s, EventRequest::Image(ImageEvent::Save { id, output_path })) == (
        WorkerState { export_in_progress: true, ..s }),
{
}

/// Law: an import starts only when none runs, and is then marked as running;
/// while one runs another is ignored and nothing changes.
pub proof fn lemma_one_import_at_a_time(s: WorkerState, path: String)
    ensures
        s.import_in_progress ==> next_action(s, EventRequest::Image(ImageEvent::Import { path }))
            == WorkerAction::Ignore && next_state(
            s,
            EventRequest::Image(ImageEvent::Import { path }),
        ) == s,
        !s.import_in_progress ==> next_action(
            s,
            EventRequest::Image(ImageEvent::Import { path }),
        ) == (WorkerAction::StartImport { path }) && next_state(
            s,
            EventRequest::Image(ImageEvent::Import { path }),
        ) == (WorkerState { import_in_progress: true, ..s }),
{
}

/// Law: the chunks of a pull are asked for exactly while a pull runs; asking
/// changes nothing.
pub proof fn lemma_pull_chunks_while_pulling(s: WorkerState)
    ensures
        next_action(s, EventRequest::Image(ImageEvent::PullChunks)) == (if s.pull_in_progress {
            WorkerAction::PollPull
        } else {
            WorkerAction::Ignore
        }),
        next_state(s, EventRequest::Image(ImageEvent::PullChunks)) == s,
{
}

/// Law: the requests that need no state of the worker are served as they
/// are, and leave the state as it is: listing containers or images, acting on
/// one container, creating, renaming, pruning, and asking the engine about
/// itself.
pub proof fn lemma_stateless_requests_served(
    s: WorkerState,
    copts: Option<ContainerListOptions>,
    iopts: Option<ImageListOptions>,
    id: String,
    name: String,
)
    ensures
        ({
            let reqs = seq![
                EventRequest::Container(ContainerEvent::List(copts)),
                EventRequest::Image(ImageEvent::List(iopts)),
                EventRequest::Container(ContainerEvent::Delete { id }),
                EventRequest::Container(ContainerEvent::ForceDelete { id }),
                EventRequest::Container(ContainerEvent::Start { id }),
                EventRequest::Container(ContainerEvent::Stop { id }),
                EventRequest::Container(ContainerEvent::Pause { id }),
                EventRequest::Container(ContainerEvent::Unpause { id }),
                EventRequest::Container(ContainerEvent::Restart { id }),
                EventRequest::Container(ContainerEvent::Rename { id, name }),
                EventRequest::Container(ContainerEvent::Stats),
                EventRequest::Container(ContainerEvent::Logs),
                EventRequest::Container(ContainerEvent::Prune),
                EventRequest::Image(ImageEvent::Inspect { id }),
                EventRequest::Image(ImageEvent::Delete { id }),
                EventRequest::Image(ImageEvent::ForceDelete { id }),
                EventRequest::Image(ImageEvent::Search { image: name }),
                EventRequest::Image(ImageEvent::Prune),
                EventRequest::Image(ImageEvent::ClearCache),
                EventRequest::SystemInspect,
                EventRequest::SystemDataUsage,
                EventRequest::SystemEvents,
            ];
            forall|i: int|
                0 <= i < reqs.len() ==> next_action(s, #[trigger] reqs[i]) == WorkerAction::Serve(
                    reqs[i],
                ) && next_state(s, reqs[i]) == s
        }),
{
}

} // verus!
