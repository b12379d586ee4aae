use std::collections::VecDeque;

use dockeye::app::containers::{CentralView, ContainerView, ContainersTab};
use dockeye::app::images::{ImagesTab, ImagesView};
use dockeye::app::ui::popup::next_popup_action;
use dockeye::app::ui::{ActionPopup, Popup};
use dockeye::app::{
    bulleted, cleanup_followup, plan_update, switch_to_tab, Notices, Tab, Timers,
};
use dockeye::event::{ContainerEvent, EventRequest, ImageEvent};

fn kinds(r: &[EventRequest]) -> Vec<String> {
    r.iter().map(|e| format!("{:?}", e)).collect()
}

#[test]
fn tab_labels_and_default() {
    assert_eq!(Tab::default(), Tab::System);
    assert_eq!(Tab::System.as_str(), "System");
    assert_eq!(Tab::Containers.as_str(), "Containers");
    assert_eq!(Tab::Images.as_str(), "Images");
}

#[test]
fn nothing_is_asked_right_after_start() {
    let mut t = Timers::starting_at(1_000_000);
    let r = plan_update(&mut t, 1_000_500, Tab::Containers, Some(true), false, None);
    assert!(r.is_empty());
    assert_eq!(t, Timers::starting_at(1_000_000));
}

#[test]
fn containers_tab_refreshes_every_second() {
    let mut t = Timers::starting_at(0);
    let r = plan_update(&mut t, 1_001, Tab::Containers, Some(true), false, None);
    assert_eq!(
        kinds(&r),
        vec![
            "Container(List(Some(ContainerListOptions { all: true })))",
            "Container(Details)",
            "Container(Logs)",
            "Container(Stats)",
        ]
    );
    assert_eq!(t.update_time, 1_001);
    assert_eq!(t.data_usage, 0);
    let r = plan_update(&mut t, 1_500, Tab::Containers, Some(false), false, None);
    assert!(r.is_empty());
    let r = plan_update(&mut t, 2_002, Tab::Containers, Some(false), false, None);
    assert_eq!(r.len(), 3);
    let r = plan_update(&mut t, 3_003, Tab::Containers, None, false, None);
    assert_eq!(r.len(), 1);
}

#[test]
fn images_tab_refresh() {
    let mut t = Timers::starting_at(0);
    let r = plan_update(&mut t, 2_000, Tab::Images, None, true, Some("img".to_string()));
    assert_eq!(
        kinds(&r),
        vec![
            "Image(List(None))",
            "Image(PullChunks)",
            "Image(Inspect { id: \"img\" })",
        ]
    );
}

#[test]
fn system_info_every_thirty_seconds() {
    let mut t = Timers::starting_at(0);
    let r = plan_update(&mut t, 30_999, Tab::System, None, false, None);
    assert!(r.is_empty());
    let r = plan_update(&mut t, 31_000, Tab::System, None, false, None);
    assert_eq!(
        kinds(&r),
        vec!["SystemInspect", "SystemDataUsage", "SystemInspect"]
    );
    assert_eq!(t, Timers { update_time: 0, data_usage: 31_000, system_inspect: 31_000 });
    // planning again at the same time asks nothing
    assert!(plan_update(&mut t, 31_000, Tab::System, None, false, None).is_empty());
}

#[test]
fn clock_going_back_counts_as_no_time() {
    let mut t = Timers::starting_at(100_000);
    assert!(plan_update(&mut t, 0, Tab::Containers, Some(true), true, None).is_empty());
}

#[test]
fn notices_expire_from_the_front() {
    let mut n = Notices::new();
    n.add_notification(0, "a".into());
    n.add_notification(1_000, "b".into());
    n.add_error(500, "e".into());
    n.expire(4_999);
    assert_eq!(n.notifications.len(), 2);
    assert_eq!(n.errors.len(), 1);
    n.expire(5_000);
    assert_eq!(n.notifications, VecDeque::from(vec![(1_000, "b".to_string())]));
    assert_eq!(n.errors.len(), 1);
    n.expire(6_000);
    assert!(n.notifications.is_empty());
    assert!(n.errors.is_empty());
}

#[test]
fn an_old_notice_behind_a_young_one_waits() {
    let mut n = Notices::new();
    n.add_notification(10_000, "young".into());
    n.add_notification(0, "old".into());
    n.expire(12_000);
    assert_eq!(n.notifications.len(), 2);
}

fn popup(id: &str) -> ActionPopup {
    ActionPopup::builder(EventRequest::Container(ContainerEvent::Delete { id: id.into() }))
        .title("t")
        .text("x")
        .build()
}

#[test]
fn builder_sets_title_and_text() {
    let p = Popup::builder().title("Delete").text("Sure?").build();
    assert_eq!(p.title, "Delete");
    assert_eq!(p.text, "Sure?");
    assert!(!p.finished && !p.confirmed && !p.window_enabled);
}

#[test]
fn popup_answers() {
    let mut p = Popup::builder().build();
    p.respond(None);
    assert!(!p.finished && p.window_enabled);
    p.respond(Some(true));
    assert!(p.finished && p.confirmed && !p.window_enabled);
    p.respond(Some(false));
    assert!(p.finished && p.confirmed);
}

#[test]
fn popup_queue() {
    let mut q = VecDeque::new();
    q.push_back(popup("a"));
    q.push_back(popup("b"));
    // nobody answered: the front goes to the back
    assert!(next_popup_action(&mut q).is_none());
    assert_eq!(q.len(), 2);
    // b is now in front; confirm it
    q[0].popup.respond(Some(true));
    match next_popup_action(&mut q) {
        Some(EventRequest::Container(ContainerEvent::Delete { id })) => assert_eq!(id, "b"),
        other => panic!("{:?}", other),
    }
    assert_eq!(q.len(), 1);
    q[0].popup.respond(Some(false));
    assert!(next_popup_action(&mut q).is_none());
    assert!(q.is_empty());
    assert!(next_popup_action(&mut q).is_none());
}

#[test]
fn switching_tabs() {
    let mut current = Tab::System;
    let mut c: ContainersTab<u8, u8, u8> = ContainersTab::new();
    let mut i: ImagesTab<u8, u8, u8> = ImagesTab::new();
    switch_to_tab(&mut current, Tab::Containers, &mut c, &mut i);
    assert_eq!(current, Tab::Containers);
    assert_eq!(c.central_view, CentralView::Container);
    assert_eq!(c.container_view, ContainerView::Details);
    assert_eq!(i.current_image_view, ImagesView::Main);
    switch_to_tab(&mut current, Tab::Images, &mut c, &mut i);
    assert_eq!(i.current_image_view, ImagesView::Image);
}

#[test]
fn bulleted_lists() {
    assert_eq!(
        bulleted("Deleted:\n", &vec!["a".to_string(), "b".to_string()]),
        "Deleted:\n - a\n - b\n"
    );
    assert_eq!(bulleted("Deleted:\n", &vec![]), "Deleted:\n");
}

#[test]
fn image_requests_debug() {
    let _ = EventRequest::Image(ImageEvent::PullChunks);
}

#[test]
fn clearing_a_container_keeps_the_forms() {
    let mut tab: ContainersTab<u8, u8, u8> = ContainersTab::new();
    tab.create_data.image = "alpine".to_string();
    tab.create_data.tty = true;
    tab.rename_window.show = true;
    tab.rename_window.new_name = "web".to_string();
    tab.follow_logs = true;
    tab.central_view = CentralView::Container;
    tab.show_container(3, true);
    tab.current_logs = Some("x".to_string());
    tab.logs_page = 2;
    tab.current_stats = Some(1);
    tab.clear_container();
    assert!(tab.current_container.is_none());
    assert!(tab.current_stats.is_none());
    assert!(tab.current_logs.is_none());
    assert_eq!(tab.logs_page, 0);
    assert_eq!(tab.create_data.image, "alpine");
    assert!(tab.create_data.tty);
    assert!(tab.rename_window.show);
    assert_eq!(tab.rename_window.new_name, "web");
    assert!(tab.follow_logs);
    assert_eq!(tab.central_view, CentralView::Container);
    tab.containers.push(9);
    tab.clear();
    assert!(tab.containers.is_empty());
    assert_eq!(tab.create_data.image, "alpine");
}

#[test]
fn cleanups_ask_for_the_data_usage() {
    assert!(matches!(cleanup_followup(true), Some(EventRequest::SystemDataUsage)));
    assert!(cleanup_followup(false).is_none());
}
