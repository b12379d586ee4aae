//! The state of the GUI that outlives one frame, and the decisions it makes
//! once a frame: which data to ask the worker for, and which messages to keep.
pub mod containers;
pub mod images;
pub mod networks;
pub mod order;
pub mod settings;
pub mod system;
pub mod ui;
pub mod volumes;

use vstd::prelude::*;
use vstd::string::*;

use crate::event::{ContainerEvent, ContainerListOptions, EventRequest, ImageEvent};

verus! {

/// The tabs of the main window.
#[derive(Debug, PartialEq, Eq, Structural, Copy, Clone)]
pub enum Tab {
    System,
    Containers,
    Images,
}

impl Tab {
    /// The label of the tab.
    pub fn as_str(&self) -> (r: &'static str)
        ensures
            *self == Tab::System ==> r@ == "System"@,
            *self == Tab::Containers ==> r@ == "Containers"@,
            *self == Tab::Images ==> r@ == "Images"@,
    {
        match self {
            Tab::System => "System",
            Tab::Containers => "Containers",
            Tab::Images => "Images",
        }
    }
}

impl Default for Tab {
    fn default() -> (r: Self)
        ensures
            r == Tab::System,
    {
        Tab::System
    }
}

/// Milliseconds elapsed from `since` to `now`; 0 where the clock went back,
/// as `SystemTime::elapsed` gives an error that the GUI reads as zero.
pub open spec fn elapsed_ms(since: u64, now: u64) -> nat {
    if now >= since {
        (now - since) as nat
    } else {
        0
    }
}

/// When the GUI last asked the worker for each kind of data, in milliseconds
/// since the Unix epoch.
#[derive(Debug, PartialEq, Eq, Structural, Copy, Clone)]
pub struct Timers {
    pub update_time: u64,
    pub data_usage: u64,
    pub system_inspect: u64,
}

impl Timers {
    /// All timers set to `now`.
    pub fn starting_at(now: u64) -> (r: Timers)
        ensures
            r == (Timers { update_time: now, data_usage: now, system_inspect: now }),
    {
        Timers { update_time: now, data_usage: now, system_inspect: now }
    }
}

/// Elapsed milliseconds, as the GUI reads them.
fn elapsed(since: u64, now: u64) -> (r: u64)
    ensures
        r == elapsed_ms(since, now),
{
    if now >= since {
        now - since
    } else {
        0
    }
}

/// More than 30 whole seconds since the system information was last asked for.
pub open spec fn inspect_due(t: Timers, now: u64) -> bool {
    elapsed_ms(t.system_inspect, now) / 1000 > 30
}

/// More than 30 whole seconds since the data usage was last asked for.
pub open spec fn usage_due(t: Timers, now: u64) -> bool {
    elapsed_ms(t.data_usage, now) / 1000 > 30
}

/// More than a second since the current tab was last refreshed.
pub open spec fn refresh_due(t: Timers, now: u64, tab: Tab) -> bool {
    (tab == Tab::Containers || tab == Tab::Images) && elapsed_ms(t.update_time, now) > 1000
}

/// The requests that refresh the current tab.
///
/// `container` is `Some(running)` where a container is being shown,
/// `pulling` tells whether an image pull is running and `image_id` is the id
/// of the image being shown.
pub open spec fn tab_requests(
    tab: Tab,
    container: Option<bool>,
    pulling: bool,
    image_id: Option<String>,
) -> Seq<EventRequest> {
    if tab == Tab::Containers {
        seq![
            EventRequest::Container(
                ContainerEvent::List(Some(ContainerListOptions { all: true })),
            ),
        ] + match container {
            Some(running) => seq![
                EventRequest::Container(ContainerEvent::Details),
                EventRequest::Container(ContainerEvent::Logs),
            ] + if running {
                seq![EventRequest::Container(ContainerEvent::Stats)]
            } else {
                Seq::empty()
            },
            None => Seq::empty(),
        }
    } else if tab == Tab::Images {
        seq![EventRequest::Image(ImageEvent::List(None))] + (if pulling {
            seq![EventRequest::Image(ImageEvent::PullChunks)]
        } else {
            Seq::empty()
        }) + match image_id {
            Some(id) => seq![EventRequest::Image(ImageEvent::Inspect { id })],
            None => Seq::empty(),
        }
    } else {
        Seq::empty()
    }
}

/// The requests that the GUI sends in one frame, in order.
pub open spec fn update_requests(
    t: Timers,
    now: u64,
    tab: Tab,
    container: Option<bool>,
    pulling: bool,
    image_id: Option<String>,
) -> Seq<EventRequest> {
    (if inspect_due(t, now) {
        seq![EventRequest::SystemInspect]
    } else {
        Seq::empty()
    }) + (if usage_due(t, now) {
        seq![EventRequest::SystemDataUsage, EventRequest::SystemInspect]
    } else {
        Seq::empty()
    }) + (if refresh_due(t, now, tab) {
        tab_requests(tab, container, pulling, image_id)
    } else {
        Seq::empty()
    })
}

/// The timers after the requests of `update_requests` were sent.
pub open spec fn updated_timers(t: Timers, now: u64, tab: Tab) -> Timers {
    Timers {
        update_time: if refresh_due(t, now, tab) {
            now
        } else {
            t.update_time
        },
        data_usage: if usage_due(t, now) {
            now
        } else {
            t.data_usage
        },
        system_inspect: if inspect_due(t, now) {
            now
        } else {
            t.system_inspect
        },
    }
}

/// Decides which data the GUI asks the worker for at time `now` (the
/// decision part of the GUI's update request), and restarts the timers of
/// what it asks for.
pub fn plan_update(
    timers: &mut Timers,
    now: u64,
    tab: Tab,
    container: Option<bool>,
    pulling: bool,
    image_id: Option<String>,
) -> (r: Vec<EventRequest>)
    ensures
        r@ == update_requests(*old(timers), now, tab, container, pulling, image_id),
        *final(timers) == updated_timers(*old(timers), now, tab),
{
    let ghost t0 = *timers;
    let update_elapsed = elapsed(timers.update_time, now);
    let mut r: Vec<EventRequest> = Vec::new();
    if elapsed(timers.system_inspect, now) / 1000 > 30 {
        r.push(EventRequest::SystemInspect);
        timers.system_inspect = now;
    }
    let ghost r1 = r@;
    if elapsed(timers.data_usage, now) / 1000 > 30 {
        r.push(EventRequest::SystemDataUsage);
        r.push(EventRequest::SystemInspect);
        timers.data_usage = now;
    }
    let ghost r2 = r@;
    assert(r2 =~= (if inspect_due(t0, now) {
        seq![EventRequest::SystemInspect]
    } else {
        Seq::empty()
    }) + (if usage_due(t0, now) {
        seq![EventRequest::SystemDataUsage, EventRequest::SystemInspect]
    } else {
        Seq::empty()
    }));
    match tab {
        Tab::Containers => {
            if update_elapsed > 1000 {
                r.push(
                    EventRequest::Container(
                        ContainerEvent::List(Some(ContainerListOptions { all: true })),
                    ),
                );
                match container {
                    Some(running) => {
                        r.push(EventRequest::Container(ContainerEvent::Details));
                        r.push(EventRequest::Container(ContainerEvent::Logs));
                        if running {
                            r.push(EventRequest::Container(ContainerEvent::Stats));
                        }
                    },
                    None => {},
                }
                timers.update_time = now;
            }
        },
        Tab::Images => {
            if update_elapsed > 1000 {
                r.push(EventRequest::Image(ImageEvent::List(None)));
                if pulling {
                    r.push(EventRequest::Image(ImageEvent::PullChunks));
                }
                match image_id {
                    Some(id) => {
                        r.push(EventRequest::Image(ImageEvent::Inspect { id }));
                    },
                    None => {},
                }
                timers.update_time = now;
            }
        },
        Tab::System => {},
    }
    assert(r@ =~= r2 + (if refresh_due(t0, now, tab) {
        tab_requests(tab, container, pulling, image_id)
    } else {
        Seq::empty()
    }));
    r
}

/// Law: planning twice at the same time asks for nothing the second time,
/// and leaves the timers as the first planning set them.
pub proof fn lemma_plan_settles(
    t: Timers,
    now: u64,
    tab: Tab,
    container: Option<bool>,
    pulling: bool,
    image_id: Option<String>,
)
    ensures
        update_requests(updated_timers(t, now, tab), now, tab, container, pulling, image_id)
            == Seq::<EventRequest>::empty(),
        updated_timers(updated_timers(t, now, tab), now, tab) == updated_timers(t, now, tab),
{
    let u = updated_timers(t, now, tab);
    assert(!inspect_due(u, now));
    assert(!usage_due(u, now));
    assert(!refresh_due(u, now, tab));
    assert(update_requests(u, now, tab, container, pulling, image_id) =~= Seq::<
        EventRequest,
    >::empty());
}

/// The number of requests about the engine itself that open a frame's
/// requests: the system information and the data usage, where they are due.
pub open spec fn system_request_count(t: Timers, now: u64) -> int {
    (if elapsed_ms(t.system_inspect, now) >= 31000 {
        1int
    } else {
        0int
    }) + (if elapsed_ms(t.data_usage, now) >= 31000 {
        2int
    } else {
        0int
    })
}

/// Law: a frame opens with the requests about the engine itself: the system
/// information once 31 whole seconds passed since it was last asked for, then
/// the data usage (and the system information again) once 31 whole seconds
/// passed since the data usage was last asked for. Within a second of the
/// last refresh, and on the system tab, nothing else is asked for.
pub proof fn lemma_system_requests(
    t: Timers,
    now: u64,
    tab: Tab,
    container: Option<bool>,
    pulling: bool,
    image_id: Option<String>,
)
    ensures
        ({
            let r = update_requests(t, now, tab, container, pulling, image_id);
            let inspect = elapsed_ms(t.system_inspect, now) >= 31000;
            let usage = elapsed_ms(t.data_usage, now) >= 31000;
            let i: int = if inspect {
                1
            } else {
                0
            };
            &&& r.len() >= system_request_count(t, now)
            &&& inspect ==> r[0] == EventRequest::SystemInspect
            &&& usage ==> r[i] == EventRequest::SystemDataUsage && r[i + 1]
                == EventRequest::SystemInspect
            &&& (elapsed_ms(t.update_time, now) <= 1000 || tab == Tab::System) ==> r.len()
                == system_request_count(t, now)
        }),
{
    assert(inspect_due(t, now) <==> elapsed_ms(t.system_inspect, now) >= 31000);
    assert(usage_due(t, now) <==> elapsed_ms(t.data_usage, now) >= 31000);
}

/// Law: a refresh of the containers tab lists all the containers, stopped
/// ones included, whatever container is shown (or none). After the listing it
/// asks for the details and the logs of the container shown, and for its
/// statistics only where it runs. No request lists the running containers
/// alone.
pub proof fn lemma_containers_refresh(
    t: Timers,
    now: u64,
    container: Option<bool>,
    pulling: bool,
    image_id: Option<String>,
)
    requires
        elapsed_ms(t.update_time, now) > 1000,
    ensures
        ({
            let r = update_requests(t, now, Tab::Containers, container, pulling, image_id);
            let k = system_request_count(t, now);
            let listing = EventRequest::Container(
                ContainerEvent::List(Some(ContainerListOptions { all: true })),
            );
            &&& r.len() == k + match container {
                None => 1int,
                Some(running) => if running {
                    4int
                } else {
                    3int
                },
            }
            &&& r[k] == listing
            &&& container matches Some(running) ==> {
                &&& r[k + 1] == EventRequest::Container(ContainerEvent::Details)
                &&& r[k + 2] == EventRequest::Container(ContainerEvent::Logs)
                &&& running ==> r[k + 3] == EventRequest::Container(ContainerEvent::Stats)
            }
            &&& forall|i: int|
                0 <= i < r.len() ==> r[i] != EventRequest::Container(
                    ContainerEvent::List(Some(ContainerListOptions { all: false })),
                )
        }),
{
    let r = update_requests(t, now, Tab::Containers, container, pulling, image_id);
    let k = system_request_count(t, now);
    let sys = (if inspect_due(t, now) {
        seq![EventRequest::SystemInspect]
    } else {
        Seq::empty()
    }) + (if usage_due(t, now) {
        seq![EventRequest::SystemDataUsage, EventRequest::SystemInspect]
    } else {
        Seq::empty()
    });
    let tail = tab_requests(Tab::Containers, container, pulling, image_id);
    assert(r =~= sys + tail);
    assert(sys.len() == k);
    assert forall|i: int| 0 <= i < r.len() implies r[i] != EventRequest::Container(
        ContainerEvent::List(Some(ContainerListOptions { all: false })),
    ) by {
        if i < k {
            assert(r[i] == sys[i]);
        } else {
            assert(r[i] == tail[i - k]);
        }
    }
}

/// Law: a refresh of the images tab lists the images (with the default
/// options), asks for the chunks of a pull exactly while one runs, and for the
/// details of the image shown where there is one.
pub proof fn lemma_images_refresh(
    t: Timers,
    now: u64,
    container: Option<bool>,
    pulling: bool,
    image_id: Option<String>,
)
    requires
        elapsed_ms(t.update_time, now) > 1000,
    ensures
        ({
            let r = update_requests(t, now, Tab::Images, container, pulling, image_id);
            let k = system_request_count(t, now);
            let p: int = if pulling {
                1
            } else {
                0
            };
            &&& r.len() == k + 1 + p + (if image_id is Some {
                1int
            } else {
                0int
            })
            &&& r[k] == EventRequest::Image(ImageEvent::List(None))
            &&& pulling ==> r[k + 1] == EventRequest::Image(ImageEvent::PullChunks)
            &&& image_id matches Some(id) ==> r[k + 1 + p] == EventRequest::Image(
                ImageEvent::Inspect { id },
            )
        }),
{
    let r = update_requests(t, now, Tab::Images, container, pulling, image_id);
    let sys = (if inspect_due(t, now) {
        seq![EventRequest::SystemInspect]
    } else {
        Seq::empty()
    }) + (if usage_due(t, now) {
        seq![EventRequest::SystemDataUsage, EventRequest::SystemInspect]
    } else {
        Seq::empty()
    });
    assert(r =~= sys + tab_requests(Tab::Images, container, pulling, image_id));
}

/// Law: the system tab is never refreshed by the timer of the tabs: its
/// frames ask only for the system information and the data usage, where they
/// are due, and leave the refresh timer as it is.
pub proof fn lemma_system_tab_refresh(
    t: Timers,
    now: u64,
    container: Option<bool>,
    pulling: bool,
    image_id: Option<String>,
)
    ensures
        update_requests(t, now, Tab::System, container, pulling, image_id).len()
            == system_request_count(t, now),
        updated_timers(t, now, Tab::System).update_time == t.update_time,
{
}

/// What the GUI shows when the worker asks it to switch to `tab`: the tab,
/// and in it the details of the container or the image that was chosen.
pub fn switch_to_tab<C, D, S, I, ID, CH>(
    current: &mut Tab,
    tab: Tab,
    containers: &mut containers::ContainersTab<C, D, S>,
    images: &mut images::ImagesTab<I, ID, CH>,
)
    ensures
        *final(current) == tab,
        tab == Tab::Containers ==> final(containers).central_view
            == containers::CentralView::Container && final(containers).container_view
            == containers::ContainerView::Details,
        tab != Tab::Containers ==> final(containers).central_view == old(containers).central_view
            && final(containers).container_view == old(containers).container_view,
        tab == Tab::Images ==> final(images).current_image_view == images::ImagesView::Image,
        tab != Tab::Images ==> final(images).current_image_view
            == old(images).current_image_view,
        final(containers).containers == old(containers).containers,
        final(containers).current_container == old(containers).current_container,
        final(images).images == old(images).images,
        final(images).current_image == old(images).current_image,
{
    *current = tab;
    match tab {
        Tab::Containers => {
            containers.central_view = containers::CentralView::Container;
            containers.container_view = containers::ContainerView::Details;
        },
        Tab::Images => {
            images.current_image_view = images::ImagesView::Image;
        },
        Tab::System => {},
    }
}

/// The notice that lists what a prune removed: the header, then one line
/// ` - item` per item.
pub open spec fn bullet_list(header: Seq<char>, items: Seq<String>) -> Seq<char>
    decreases items.len(),
{
    if items.len() == 0 {
        header
    } else {
        bullet_list(header, items.drop_last()) + " - "@ + items.last()@ + "\n"@
    }
}

/// Lists `items` under `header`, one ` - item` line each.
pub fn bulleted(header: &str, items: &Vec<String>) -> (r: String)
    ensures
        r@ == bullet_list(header@, items@),
{
    let mut acc = String::from_str(header);
    let mut i: usize = 0;
    while i < items.len()
        invariant
            i <= items@.len(),
            acc@ == bullet_list(header@, items@.take(i as int)),
        decreases items@.len() - i,
    {
        assert(items@.take(i as int + 1).drop_last() =~= items@.take(i as int));
        acc.append(" - ");
        acc.append(items[i].as_str());
        acc.append("\n");
        i = i + 1;
    }
    assert(items@.take(i as int) =~= items@);
    acc
}

/// What the GUI asks for after a prune or a clearing of the build cache: the
/// data usage again where it succeeded, since the space taken has changed;
/// nothing where it failed.
pub fn cleanup_followup(succeeded: bool) -> (r: Option<EventRequest>)
    ensures
        r == (if succeeded {
            Some(EventRequest::SystemDataUsage)
        } else {
            None::<EventRequest>
        }),
{
    if succeeded {
        Some(EventRequest::SystemDataUsage)
    } else {
        None
    }
}

/// How long a notification or an error stays on screen, in milliseconds.
pub const NOTICE_LIFETIME_MS: u64 = 5000;

/// The queue `q` after the entries at its front that have been shown for
/// `NOTICE_LIFETIME_MS` or longer at time `now` are dropped.
pub open spec fn expired(q: Seq<(u64, String)>, now: u64) -> Seq<(u64, String)>
    decreases q.len(),
{
    if q.len() > 0 && elapsed_ms(q[0].0, now) >= NOTICE_LIFETIME_MS {
        expired(q.drop_first(), now)
    } else {
        q
    }
}

/// The notifications and errors shown in the corner of the window, each with
/// the time (in milliseconds since the Unix epoch) it was added at.
#[derive(Debug)]
pub struct Notices {
    pub notifications: std::collections::VecDeque<(u64, String)>,
    pub errors: std::collections::VecDeque<(u64, String)>,
}

impl Notices {
    pub fn new() -> (r: Notices)
        ensures
            r.notifications@.len() == 0,
            r.errors@.len() == 0,
    {
        Notices {
            notifications: std::collections::VecDeque::new(),
            errors: std::collections::VecDeque::new(),
        }
    }

    pub fn add_notification(&mut self, now: u64, text: String)
        ensures
            final(self).notifications@ == old(self).notifications@.push((now, text)),
            final(self).errors@ == old(self).errors@,
    {
        self.notifications.push_back((now, text));
    }

    pub fn add_error(&mut self, now: u64, text: String)
        ensures
            final(self).notifications@ == old(self).notifications@,
            final(self).errors@ == old(self).errors@.push((now, text)),
    {
        self.errors.push_back((now, text));
    }

    /// Drops the notifications and errors that have been shown long enough.
    pub fn expire(&mut self, now: u64)
        ensures
            final(self).notifications@ == expired(old(self).notifications@, now),
            final(self).errors@ == expired(old(self).errors@, now),
    {
        expire_queue(&mut self.notifications, now);
        expire_queue(&mut self.errors, now);
    }
}

fn expire_queue(q: &mut std::collections::VecDeque<(u64, String)>, now: u64)
    ensures
        final(q)@ == expired(old(q)@, now),
{
    loop
        invariant
            expired(q@, now) == expired(old(q)@, now),
        ensures
            q@ == expired(old(q)@, now),
        decreases q@.len(),
    {
        if q.len() == 0 {
            return;
        }
        if elapsed(q[0].0, now) < NOTICE_LIFETIME_MS {
            return;
        }
        let _ = q.pop_front();
    }
}

/// Law: expiring keeps a suffix of the queue in its order; every entry it
/// drops was shown for at least `NOTICE_LIFETIME_MS`, and the entry left in
/// front, if any, was shown for less.
pub proof fn lemma_expired_is_suffix(q: Seq<(u64, String)>, now: u64)
    ensures
        exists|k: int|
            0 <= k <= q.len() && expired(q, now) == q.skip(k) && (forall|i: int|
                0 <= i < k ==> elapsed_ms(#[trigger] q[i].0, now) >= NOTICE_LIFETIME_MS),
        expired(q, now).len() > 0 ==> elapsed_ms(expired(q, now)[0].0, now)
            < NOTICE_LIFETIME_MS,
    decreases q.len(),
{
    if q.len() > 0 && elapsed_ms(q[0].0, now) >= NOTICE_LIFETIME_MS {
        lemma_expired_is_suffix(q.drop_first(), now);
        let k = choose|k: int|
            0 <= k <= q.drop_first().len() && expired(q.drop_first(), now) == q.drop_first().skip(
                k,
            ) && (forall|i: int|
                0 <= i < k ==> elapsed_ms(#[trigger] q.drop_first()[i].0, now)
                    >= NOTICE_LIFETIME_MS);
        assert(q.drop_first().skip(k) =~= q.skip(k + 1));
        assert forall|i: int| 0 <= i < k + 1 implies elapsed_ms(#[trigger] q[i].0, now)
            >= NOTICE_LIFETIME_MS by {
            if i > 0 {
                assert(q[i] == q.drop_first()[i - 1]);
            }
        }
    } else {
        assert(q.skip(0) =~= q);
    }
}


/// Law: a bulleted list is its header followed by one ` - item` line per
/// item, in order: the list of two runs of items is that of the first run
/// followed by the lines of the second, and the list of no items is the
/// header alone.
pub proof fn lemma_bullet_list_lines(header: Seq<char>, a: Seq<String>, b: Seq<String>, x: String)
    ensures
        bullet_list(header, a + b) == bullet_list(header, a) + bullet_list(Seq::empty(), b),
        bullet_list(header, Seq::<String>::empty()) == header,
        bullet_list(header, seq![x]) == header + " - "@ + x@ + "\n"@,
    decreases b.len(),
{
    if b.len() > 0 {
        lemma_bullet_list_lines(header, a, b.drop_last(), x);
        assert((a + b).drop_last() =~= a + b.drop_last());
        assert((a + b).last() == b.last());
        assert(bullet_list(header, a + b) =~= bullet_list(header, a) + bullet_list(
            Seq::empty(),
            b,
        ));
    } else {
        assert(a + b =~= a);
        assert(bullet_list(header, a) + bullet_list(Seq::empty(), b) =~= bullet_list(header, a));
    }
    assert(seq![x].drop_last() =~= Seq::<String>::empty());
}

} // verus!
