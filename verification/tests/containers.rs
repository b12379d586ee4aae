use dockeye::app::containers::{
    color_for_state, container_changed, container_delete_refused, container_label, link_label,
    CentralView, ContainerCreateData, ContainerView, ContainersTab, RenameWindow, StateColor,
};
use dockeye::app::images::Feedback;
use dockeye::event::{ContainerEvent, EventRequest};

#[test]
fn colors_follow_state() {
    assert_eq!(color_for_state("running"), StateColor::Green);
    assert_eq!(color_for_state("paused"), StateColor::Yellow);
    assert_eq!(color_for_state("exited"), StateColor::Red);
    assert_eq!(color_for_state("Running"), StateColor::Red);
}

#[test]
fn create_options_from_form() {
    let mut d = ContainerCreateData::default();
    d.image = "alpine".into();
    d.command = "  sh -c\techo  ".into();
    d.name = "box".into();
    d.tty = true;
    d.stdout = true;
    d.env = vec![("A".into(), "1".into()), ("B".into(), "x=y".into())];
    let o = d.as_opts();
    assert_eq!(o.image, "alpine");
    assert_eq!(o.cmd, Some(vec!["sh".to_string(), "-c".into(), "echo".into()]));
    assert_eq!(o.name.as_deref(), Some("box"));
    assert!(o.working_dir.is_none());
    assert!(o.user.is_none());
    assert!(o.tty && o.attach_stdout && !o.attach_stdin && !o.attach_stderr);
    assert_eq!(o.env, Some(vec!["A=1".to_string(), "B=x=y".into()]));
}

#[test]
fn blank_command_gives_empty_word_list() {
    let mut d = ContainerCreateData::default();
    d.image = "alpine".into();
    d.command = "   ".into();
    assert_eq!(d.as_opts().cmd, Some(vec![]));
    d.command = String::new();
    assert_eq!(d.as_opts().cmd, None);
    assert_eq!(d.as_opts().env, None);
}

#[test]
fn create_needs_an_image() {
    let mut d = ContainerCreateData::default();
    assert!(d.create_request().is_none());
    d.image = "alpine".into();
    match d.create_request() {
        Some(EventRequest::Container(ContainerEvent::Create(o))) => assert_eq!(o.image, "alpine"),
        other => panic!("{:?}", other),
    }
    d.reset();
    assert!(d.image.is_empty() && d.env.is_empty() && !d.tty);
}

#[test]
fn rename_window() {
    let mut w = RenameWindow::default();
    w.toggle();
    assert!(w.show);
    w.id = "abc".into();
    assert!(w.confirm().is_none());
    assert!(w.show);
    w.new_name = "new".into();
    match w.confirm() {
        Some(EventRequest::Container(ContainerEvent::Rename { id, name })) => {
            assert_eq!((id.as_str(), name.as_str()), ("abc", "new"));
        }
        other => panic!("{:?}", other),
    }
    assert!(!w.show);
}

#[test]
fn delete_conflict_asks_to_force() {
    match container_delete_refused("c1".into(), 409, "is running".into()) {
        Feedback::Confirm(p) => {
            assert_eq!(p.popup.title, "Force delete container");
            assert_eq!(
                p.popup.text,
                "is running\nAre you sure you want to forcefully delete this container?"
            );
        }
        Feedback::Error(e) => panic!("{}", e),
    }
    match container_delete_refused("c1".into(), 404, "no such container".into()) {
        Feedback::Error(e) => assert_eq!(e, "cannot force delete container c1: no such container"),
        Feedback::Confirm(_) => panic!("asked"),
    }
}

#[test]
fn labels() {
    let names = vec!["//web".to_string()];
    assert_eq!(container_label(&names, "0123456789abcdef"), "web");
    assert_eq!(container_label(&vec![], "0123456789abcdef"), "0123456789ab");
    assert_eq!(link_label(Some("/db"), "id"), "db");
    assert_eq!(link_label(None, "id"), "id");
}

#[test]
fn switching_containers() {
    assert!(container_changed(None, "a"));
    assert!(container_changed(Some("a"), "b"));
    assert!(!container_changed(Some("a"), "a"));

    let mut tab: ContainersTab<u8, &str, u32> = ContainersTab::new();
    assert_eq!(tab.central_view, CentralView::Main);
    assert_eq!(tab.container_view, ContainerView::Details);
    tab.show_container("a", true);
    tab.current_stats = Some(3);
    tab.current_logs = Some("log".into());
    tab.logs_page = 2;
    tab.show_container("a", false);
    assert_eq!(tab.current_stats, Some(3));
    tab.show_container("b", true);
    assert_eq!(tab.current_container, Some("b"));
    assert!(tab.current_stats.is_none() && tab.current_logs.is_none() && tab.logs_page == 0);
    tab.containers.push(1);
    tab.clear();
    assert!(tab.containers.is_empty() && tab.current_container.is_none());
}
