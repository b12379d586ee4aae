use dockeye::app::images::{
    format_status, image_delete_refused, name, prune_report, trim_id, DeleteStatus, Feedback,
    ImagesTab, ImagesView, PullRefusal, PullView,
};
use dockeye::app::order::ListKey;
use dockeye::event::{EventRequest, ImageEvent};

const ID: &str = "sha256:0123456789abcdef0123456789abcdef";

#[test]
fn trim_id_drops_prefix_and_keeps_twelve_bytes() {
    assert_eq!(trim_id(ID), "0123456789ab");
    assert_eq!(trim_id("0123456789abcdef"), "0123456789ab");
    assert_eq!(trim_id("sha256:sha256:0123456789abcdef"), "0123456789ab");
    assert_eq!(trim_id("0123456789ab"), "0123456789ab");
}

#[test]
fn trim_id_cuts_by_bytes() {
    // six two-byte characters make twelve bytes
    assert_eq!(trim_id("éééééééé"), "éééééé");
}

#[test]
fn name_prefers_first_tag() {
    let tags = vec!["nginx:latest".to_string(), "nginx:1".to_string()];
    assert_eq!(name(ID, Some(&tags)), "nginx:latest");
}

#[test]
fn name_falls_back_to_short_id() {
    let none = vec!["<none>:<none>".to_string()];
    assert_eq!(name(ID, Some(&none)), "0123456789ab");
    assert_eq!(name(ID, Some(&vec![])), "0123456789ab");
    assert_eq!(name(ID, None), "0123456789ab");
}

#[test]
fn format_status_lists_each_entry() {
    let s = format_status(vec![
        DeleteStatus::Untagged("nginx:latest".into()),
        DeleteStatus::Deleted("sha256:abc".into()),
    ]);
    assert_eq!(s, "Untagged: nginx:latest\nDeleted: sha256:abc\n");
    assert_eq!(format_status(vec![]), "");
}

#[test]
fn conflict_that_can_be_forced_asks_first() {
    match image_delete_refused("abc".into(), 409, "image is in use".into()) {
        Feedback::Confirm(p) => {
            assert_eq!(p.popup.title, "Force delete image");
            assert_eq!(
                p.popup.text,
                "image is in use\n Are you sure you want to forcefully delete this image?"
            );
            assert!(!p.is_finished());
            match p.action() {
                EventRequest::Image(ImageEvent::ForceDelete { id }) => assert_eq!(id, "abc"),
                other => panic!("{:?}", other),
            }
        }
        Feedback::Error(e) => panic!("{}", e),
    }
}

#[test]
fn conflict_that_cannot_be_forced_is_an_error() {
    match image_delete_refused("abc".into(), 409, "image cannot be forced".into()) {
        Feedback::Error(e) => assert_eq!(e, "cannot force delete image abc: image cannot be forced"),
        Feedback::Confirm(_) => panic!("asked"),
    }
    match image_delete_refused("abc".into(), 500, "boom".into()) {
        Feedback::Error(e) => assert_eq!(e, "cannot force delete image abc: boom"),
        Feedback::Confirm(_) => panic!("asked"),
    }
}

#[test]
fn pull_refusals() {
    let mut v = PullView::default();
    assert_eq!(v.request_pull().unwrap_err(), PullRefusal::EmptyName);
    assert_eq!(PullRefusal::EmptyName.message(), "Image name can't be empty");
    v.image = "alpine".into();
    v.in_progress = true;
    assert_eq!(v.request_pull().unwrap_err(), PullRefusal::InProgress);
    assert_eq!(PullRefusal::InProgress.message(), "Image pull already in progress");
}

#[test]
fn pull_request_with_credentials() {
    let mut v = PullView::default();
    v.image = "alpine".into();
    match v.request_pull() {
        Ok(EventRequest::Image(ImageEvent::Pull { image, auth })) => {
            assert_eq!(image, "alpine");
            assert!(auth.is_none());
        }
        other => panic!("{:?}", other),
    }
    assert!(v.in_progress);

    let mut v = PullView::default();
    v.image = "alpine".into();
    v.user = "me".into();
    match v.request_pull() {
        Ok(EventRequest::Image(ImageEvent::Pull { auth: Some(a), .. })) => {
            assert_eq!(a.username, "me");
            assert!(a.password.is_none());
        }
        other => panic!("{:?}", other),
    }
    let mut v = PullView::default();
    v.image = "alpine".into();
    v.user = "me".into();
    v.password = "secret".into();
    match v.request_pull() {
        Ok(EventRequest::Image(ImageEvent::Pull { auth: Some(a), .. })) => {
            assert_eq!(a.password.as_deref(), Some("secret"));
        }
        other => panic!("{:?}", other),
    }
}

#[test]
fn prune_report_lists_untagged_and_deleted() {
    let items = vec![
        (Some("a:1".to_string()), None),
        (None, Some("sha256:1".to_string())),
        (Some("b:2".to_string()), Some("sha256:2".to_string())),
    ];
    let (u, d) = prune_report(Some(&items));
    assert_eq!(u, "Untagged:\n - a:1\n - b:2\n");
    assert_eq!(d, "Deleted:\n - sha256:1\n - sha256:2\n");
    let (u, d) = prune_report(None);
    assert_eq!((u.as_str(), d.as_str()), ("", ""));
}

#[test]
fn images_tab_keeps_pull_chunks_and_clears() {
    let mut tab: ImagesTab<u32, u32, u8> = ImagesTab::new();
    tab.add_pull_chunks(vec![1, 2]);
    tab.add_pull_chunks(vec![3]);
    assert_eq!(tab.current_pull_chunks, Some(vec![1, 2, 3]));
    tab.images.push(7);
    tab.current_image = Some(9);
    tab.current_image_view = ImagesView::Image;
    tab.clear();
    assert!(tab.images.is_empty());
    assert!(tab.current_image.is_none());
    assert!(tab.current_pull_chunks.is_none());
    assert_eq!(tab.current_image_view, ImagesView::Main);
}

fn key(secs: i64, id: &str) -> ListKey {
    ListKey {
        created_secs: secs,
        created_nanos: 0,
        id: id.to_string(),
    }
}

#[test]
fn starting_a_pull_drops_old_chunks() {
    let mut tab: ImagesTab<u8, u8, u8> = ImagesTab::new();
    tab.add_pull_chunks(vec![1, 2]);
    assert!(matches!(tab.start_pull(), Err(PullRefusal::EmptyName)));
    assert_eq!(tab.current_pull_chunks, Some(vec![1, 2]));
    tab.pull_view.image = "alpine".to_string();
    match tab.start_pull() {
        Ok(EventRequest::Image(ImageEvent::Pull { image, auth })) => {
            assert_eq!(image, "alpine");
            assert!(auth.is_none());
        }
        other => panic!("unexpected {:?}", other),
    }
    assert!(tab.pull_view.in_progress);
    assert_eq!(tab.current_pull_chunks, None);
    tab.add_pull_chunks(vec![3]);
    assert!(matches!(tab.start_pull(), Err(PullRefusal::InProgress)));
    assert_eq!(tab.current_pull_chunks, Some(vec![3]));
    tab.pull_succeeded();
    assert!(!tab.pull_view.in_progress);
    assert_eq!(tab.pull_view.image, "alpine");
    assert_eq!(tab.current_pull_chunks, Some(vec![3]));
}

#[test]
fn images_are_listed_newest_first() {
    let mut tab: ImagesTab<&str, u8, u8> = ImagesTab::new();
    let keys = vec![key(1, "a"), key(3, "b"), key(3, "a"), key(2, "c")];
    tab.set_images(vec!["old", "new-b", "new-a", "mid"], &keys);
    assert_eq!(tab.images, vec!["new-a", "new-b", "mid", "old"]);
    tab.show_image(7);
    assert_eq!(tab.current_image, Some(7));
    assert_eq!(tab.images.len(), 4);
}
