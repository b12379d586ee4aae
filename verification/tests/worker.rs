use dockeye::event::{ContainerEvent, EventRequest, ImageEvent};
use dockeye::worker::image::{import_message_outcome, pull_status_outcome, ImportMessage};
use dockeye::worker::stats::{calculate_mem_usage, online_cpu_count, CpuBaseline, MemoryStat, MemoryStats};
use dockeye::worker::{WorkerAction, WorkerState};

fn trace(id: &str) -> EventRequest {
    EventRequest::Container(ContainerEvent::TraceStart { id: id.into() })
}

#[test]
fn tracing_a_container() {
    let mut s = WorkerState::new("unix:///a".into());
    match s.plan(trace("c1")) {
        WorkerAction::Trace { id, kill_previous } => {
            assert_eq!(id, "c1");
            assert!(!kill_previous);
        }
        other => panic!("{:?}", other),
    }
    assert!(matches!(s.plan(trace("c1")), WorkerAction::Ignore));
    match s.plan(trace("c2")) {
        WorkerAction::Trace { id, kill_previous } => {
            assert_eq!(id, "c2");
            assert!(kill_previous);
        }
        other => panic!("{:?}", other),
    }
    match s.plan(EventRequest::Container(ContainerEvent::Details)) {
        WorkerAction::InspectCurrent { id } => assert_eq!(id, "c2"),
        other => panic!("{:?}", other),
    }
}

#[test]
fn details_without_container_fail() {
    let mut s = WorkerState::new("u".into());
    match s.plan(EventRequest::Container(ContainerEvent::Details)) {
        WorkerAction::Fail(m) => assert_eq!(m, "failed to inspect a container: no current id set"),
        other => panic!("{:?}", other),
    }
    assert!(matches!(
        s.plan(EventRequest::Container(ContainerEvent::ProcessList)),
        WorkerAction::Ignore
    ));
}

#[test]
fn changing_the_address() {
    let mut s = WorkerState::new("u1".into());
    assert!(matches!(
        s.plan(EventRequest::DockerUriChange { uri: "u1".into() }),
        WorkerAction::Ignore
    ));
    s.plan(trace("c"));
    s.plan(EventRequest::Image(ImageEvent::Pull { image: "x".into(), auth: None }));
    match s.plan(EventRequest::DockerUriChange { uri: "u2".into() }) {
        WorkerAction::Reconnect { uri, kill_pull, kill_export, restart_container } => {
            assert_eq!(uri, "u2");
            assert!(kill_pull);
            assert!(!kill_export);
            assert_eq!(restart_container.as_deref(), Some("c"));
        }
        other => panic!("{:?}", other),
    }
    assert_eq!(s.current_uri, "u2");
}

#[test]
fn one_pull_at_a_time() {
    let mut s = WorkerState::new("u".into());
    assert!(matches!(
        s.plan(EventRequest::Image(ImageEvent::PullChunks)),
        WorkerAction::Ignore
    ));
    assert!(matches!(
        s.plan(EventRequest::Image(ImageEvent::Pull { image: "x".into(), auth: None })),
        WorkerAction::StartPull { .. }
    ));
    assert!(matches!(
        s.plan(EventRequest::Image(ImageEvent::Pull { image: "y".into(), auth: None })),
        WorkerAction::Ignore
    ));
    assert!(matches!(
        s.plan(EventRequest::Image(ImageEvent::PullChunks)),
        WorkerAction::PollPull
    ));
    s.pull_finished();
    assert!(!s.pull_in_progress);
}

#[test]
fn import_end_clears_the_pull_flag() {
    let mut s = WorkerState::new("u".into());
    assert!(matches!(
        s.plan(EventRequest::Image(ImageEvent::Import { path: "a.tar".into() })),
        WorkerAction::StartImport { .. }
    ));
    s.plan(EventRequest::Image(ImageEvent::Pull { image: "x".into(), auth: None }));
    s.import_finished();
    assert!(s.import_in_progress);
    assert!(!s.pull_in_progress);
    assert!(matches!(
        s.plan(EventRequest::Image(ImageEvent::Import { path: "b.tar".into() })),
        WorkerAction::Ignore
    ));
}

#[test]
fn exports_and_other_requests() {
    let mut s = WorkerState::new("u".into());
    match s.plan(EventRequest::Image(ImageEvent::Save { id: "i".into(), output_path: "/tmp/x.tar".into() })) {
        WorkerAction::StartExport { id, output_path } => {
            assert_eq!((id.as_str(), output_path.as_str()), ("i", "/tmp/x.tar"));
        }
        other => panic!("{:?}", other),
    }
    assert!(s.export_in_progress);
    s.export_finished();
    assert!(!s.export_in_progress);
    assert!(matches!(s.plan(EventRequest::SystemInspect), WorkerAction::Serve(EventRequest::SystemInspect)));
}

#[test]
fn pull_statuses() {
    assert_eq!(
        pull_status_outcome("Digest: sha256:abc"),
        Some(Ok("sha256:abc".to_string()))
    );
    assert_eq!(
        pull_status_outcome("Status: Digest: sha256:abc"),
        Some(Ok("Status: Digest: sha256:abc".to_string()))
    );
    assert_eq!(
        pull_status_outcome("an error occurred"),
        Some(Err("an error occurred".to_string()))
    );
    assert_eq!(pull_status_outcome("Downloading"), None);
}

#[test]
fn import_messages() {
    assert_eq!(
        import_message_outcome(&ImportMessage::Update { stream: "Loaded image ID: sha256:1\n".into() }),
        Some(Ok("sha256:1\n".to_string()))
    );
    assert_eq!(
        import_message_outcome(&ImportMessage::Update { stream: "Loading layer".into() }),
        None
    );
    assert_eq!(
        import_message_outcome(&ImportMessage::Error { error: "bad archive".into() }),
        Some(Err("bad archive".to_string()))
    );
    assert_eq!(import_message_outcome(&ImportMessage::Other), None);
}

#[test]
fn memory_usage() {
    let stat = |t, i| Some(MemoryStat { total_inactive_file: t, inactive_file: i });
    let m = |u, s| MemoryStats { usage: u, stats: s };
    assert_eq!(calculate_mem_usage(None), 0);
    assert_eq!(calculate_mem_usage(Some(&m(Some(100), None))), 0);
    assert_eq!(calculate_mem_usage(Some(&m(Some(100), stat(Some(30), Some(10))))), 70);
    assert_eq!(calculate_mem_usage(Some(&m(Some(100), stat(Some(300), Some(10))))), 90);
    assert_eq!(calculate_mem_usage(Some(&m(Some(100), stat(None, Some(100))))), 0);
    assert_eq!(calculate_mem_usage(Some(&m(None, stat(Some(0), None)))), 0);
}

#[test]
fn cpus_and_baseline() {
    assert_eq!(online_cpu_count(Some(4), Some(8)), 4);
    assert_eq!(online_cpu_count(Some(0), Some(8)), 8);
    assert_eq!(online_cpu_count(Some(0), None), 0);
    assert_eq!(online_cpu_count(None, Some(8)), 0);
    let mut b = CpuBaseline::new();
    assert_eq!(b.advance(Some((10, 100))), CpuBaseline { prev_cpu: 0, prev_sys: 0 });
    assert_eq!(b.advance(None), CpuBaseline { prev_cpu: 10, prev_sys: 100 });
    assert_eq!(b, CpuBaseline { prev_cpu: 0, prev_sys: 0 });
}
