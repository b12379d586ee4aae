//! The containers tab: its state, the form that creates a container, and what
//! the GUI answers to the results of container requests.
use vstd::prelude::*;
use vstd::string::*;

use crate::app::images::Feedback;
use crate::app::ui::ActionPopup;
use crate::event::{ContainerCreateOptions, ContainerEvent, EventRequest};
use vstd::utf8::*;

use crate::text::{
    ascii_words, byte_prefix, first_bytes, split_ascii_whitespace, str_eq, strings_view,
    trim_start_all, trim_start_matches,
};

verus! {

broadcast use vstd::utf8::group_utf8_lib;

/// Decides which main view is displayed on the central panel
#[derive(Clone, Copy, Debug, PartialEq, Eq, Structural)]
pub enum CentralView {
    /// The main view, with no container shown.
    Main,
    Container,
    Create,
}

impl Default for CentralView {
    fn default() -> (r: Self)
        ensures
            r == CentralView::Main,
    {
        CentralView::Main
    }
}

/// Decides which tab is open when displaying a detailed view of a container
#[derive(Clone, Copy, Debug, PartialEq, Eq, Structural)]
pub enum ContainerView {
    Details,
    Logs,
    Attach,
}

/// The form that creates a container.
#[derive(Debug)]
pub struct ContainerCreateData {
    pub image: String,
    pub command: String,
    pub name: String,
    pub working_dir: String,
    pub user: String,
    pub tty: bool,
    pub stdin: bool,
    pub stderr: bool,
    pub stdout: bool,
    pub env: Vec<(String, String)>,
}

impl ContainerCreateData {
    /// The form holds nothing: empty texts, no flags, no variables.
    pub open spec fn is_blank(&self) -> bool {
        &&& self.image@.len() == 0
        &&& self.command@.len() == 0
        &&& self.name@.len() == 0
        &&& self.working_dir@.len() == 0
        &&& self.user@.len() == 0
        &&& !self.tty && !self.stdin && !self.stderr && !self.stdout
        &&& self.env@.len() == 0
    }
}

impl Default for ContainerCreateData {
    fn default() -> (r: Self)
        ensures
            r.is_blank(),
    {
        ContainerCreateData {
            image: String::new(),
            command: String::new(),
            name: String::new(),
            working_dir: String::new(),
            user: String::new(),
            tty: false,
            stdin: false,
            stderr: false,
            stdout: false,
            env: Vec::new(),
        }
    }
}

/// An environment variable as the engine takes it: `KEY=VALUE`.
pub open spec fn env_entry(kv: (String, String)) -> Seq<char> {
    kv.0@ + "="@ + kv.1@
}

/// A text field of the form as an option: `None` where it is empty.
pub open spec fn optional_text(field: String, opt: Option<String>) -> bool {
    match opt {
        Some(v) => field@.len() > 0 && v@ == field@,
        None => field@.len() == 0,
    }
}

fn optional(field: &String) -> (r: Option<String>)
    ensures
        optional_text(*field, r),
{
    if field.as_str().unicode_len() == 0 {
        None
    } else {
        Some(field.clone())
    }
}

impl ContainerCreateData {
    /// `o` are the options of the container that the form describes: the
    /// command split at ASCII whitespace, each variable as `KEY=VALUE`, and
    /// each empty text field left out.
    pub open spec fn describes(&self, r: ContainerCreateOptions) -> bool {
        &&& r.image@ == self.image@
        &&& match r.cmd {
            Some(c) => self.command@.len() > 0 && strings_view(c@) == ascii_words(self.command@),
            None => self.command@.len() == 0,
        }
        &&& optional_text(self.name, r.name)
        &&& optional_text(self.working_dir, r.working_dir)
        &&& optional_text(self.user, r.user)
        &&& r.tty == self.tty
        &&& r.attach_stdin == self.stdin
        &&& r.attach_stderr == self.stderr
        &&& r.attach_stdout == self.stdout
        &&& match r.env {
            Some(e) => self.env@.len() > 0 && strings_view(e@) == self.env@.map_values(
                |kv: (String, String)| env_entry(kv),
            ),
            None => self.env@.len() == 0,
        }
    }

    pub fn reset(&mut self)
        ensures
            final(self).is_blank(),
    {
        *self = ContainerCreateData::default();
    }

    /// What pressing `create` does: without an image it is refused ("Image
    /// name is required to create a container"); otherwise it gives the
    /// request that creates the container of `as_opts`.
    pub fn create_request(&self) -> (r: Option<EventRequest>)
        ensures
            self.image@.len() == 0 <==> r is None,
            match r {
                Some(EventRequest::Container(ContainerEvent::Create(o))) => self.describes(o),
                Some(_) => false,
                None => true,
            },
    {
        if self.image.as_str().unicode_len() == 0 {
            None
        } else {
            Some(EventRequest::Container(ContainerEvent::Create(self.as_opts())))
        }
    }

    /// The options of the container that the form describes: the command
    /// split at ASCII whitespace, each variable as `KEY=VALUE`, and each empty
    /// text field left out.
    pub fn as_opts(&self) -> (r: ContainerCreateOptions)
        ensures
            self.describes(r),
    {
        let cmd = if self.command.as_str().unicode_len() == 0 {
            None
        } else {
            Some(split_ascii_whitespace(self.command.as_str()))
        };
        let env = if self.env.len() == 0 {
            None
        } else {
            let mut e: Vec<String> = Vec::new();
            let mut i: usize = 0;
            while i < self.env.len()
                invariant
                    i <= self.env@.len(),
                    strings_view(e@) == self.env@.take(i as int).map_values(
                        |kv: (String, String)| env_entry(kv),
                    ),
                decreases self.env@.len() - i,
            {
                let mut entry = self.env[i].0.clone();
                entry.append("=");
                entry.append(self.env[i].1.as_str());
                let ghost e0 = e@;
                assert(entry@ == env_entry(self.env@[i as int]));
                e.push(entry);
                assert(strings_view(e@) =~= strings_view(e0).push(entry@));
                assert(self.env@.take(i as int + 1) =~= self.env@.take(i as int).push(
                    self.env@[i as int],
                ));
                assert(strings_view(e@) =~= self.env@.take(i as int + 1).map_values(
                    |kv: (String, String)| env_entry(kv),
                ));
                i = i + 1;
            }
            assert(self.env@.take(i as int) =~= self.env@);
            Some(e)
        };
        ContainerCreateOptions {
            image: self.image.clone(),
            cmd,
            name: optional(&self.name),
            working_dir: optional(&self.working_dir),
            user: optional(&self.user),
            tty: self.tty,
            attach_stdin: self.stdin,
            attach_stderr: self.stderr,
            attach_stdout: self.stdout,
            env,
        }
    }
}

/// The window that renames a container.
#[derive(Debug)]
pub struct RenameWindow {
    pub show: bool,
    pub id: String,
    pub new_name: String,
}

impl Default for RenameWindow {
    fn default() -> (r: Self)
        ensures
            !r.show,
            r.id@ == Seq::<char>::empty(),
            r.new_name@ == Seq::<char>::empty(),
    {
        RenameWindow { show: false, id: String::new(), new_name: String::new() }
    }
}

impl RenameWindow {
    pub fn toggle(&mut self)
        ensures
            final(self).show == !old(self).show,
            final(self).id == old(self).id,
            final(self).new_name == old(self).new_name,
    {
        self.show = !self.show;
    }

    /// What pressing `OK` does: an empty name is refused ("Name of the
    /// container can't be empty"); otherwise the window closes and the rename
    /// request is given.
    pub fn confirm(&mut self) -> (r: Option<EventRequest>)
        ensures
            old(self).new_name@.len() == 0 ==> r is None && *final(self) == *old(self),
            old(self).new_name@.len() > 0 ==> {
                &&& r == Some(
                    EventRequest::Container(
                        ContainerEvent::Rename { id: old(self).id, name: old(self).new_name },
                    ),
                )
                &&& final(self).show == !old(self).show
                &&& final(self).id == old(self).id
                &&& final(self).new_name == old(self).new_name
            },
    {
        if self.new_name.as_str().unicode_len() == 0 {
            return None;
        }
        let r = EventRequest::Container(
            ContainerEvent::Rename { id: self.id.clone(), name: self.new_name.clone() },
        );
        self.toggle();
        Some(r)
    }
}

/// The colour of the icon of a container.
#[derive(Clone, Copy, Debug, PartialEq, Eq, Structural)]
pub enum StateColor {
    Green,
    Yellow,
    Red,
}

/// Green for a running container, yellow for a paused one, red otherwise.
pub fn color_for_state(state: &str) -> (r: StateColor)
    ensures
        r == (if state@ == "running"@ {
            StateColor::Green
        } else if state@ == "paused"@ {
            StateColor::Yellow
        } else {
            StateColor::Red
        }),
{
    if str_eq(state, "running") {
        StateColor::Green
    } else if str_eq(state, "paused") {
        StateColor::Yellow
    } else {
        StateColor::Red
    }
}

/// What the GUI does when the engine refused to delete container `id` with
/// HTTP status `code` and `message`: a conflict (409) becomes a question
/// whether to force the deletion; anything else is an error.
pub fn container_delete_refused(id: String, code: u16, message: String) -> (r: Feedback)
    ensures
        match r {
            Feedback::Confirm(p) => {
                &&& code == 409
                &&& p.action == EventRequest::Container(ContainerEvent::ForceDelete { id })
                &&& p.popup.title@ == "Force delete container"@
                &&& p.popup.text@ == message@
                    + "\nAre you sure you want to forcefully delete this container?"@
                &&& !p.popup.finished && !p.popup.confirmed
            },
            Feedback::Error(e) => {
                &&& code != 409
                &&& e@ == "cannot force delete container "@ + id@ + ": "@ + message@
            },
        },
{
    if code == 409 {
        let mut text = message.clone();
        text.append("\nAre you sure you want to forcefully delete this container?");
        Feedback::Confirm(
            ActionPopup::builder(EventRequest::Container(ContainerEvent::ForceDelete { id })).title(
                "Force delete container",
            ).text(text.as_str()).build(),
        )
    } else {
        let mut e = String::from_str("cannot force delete container ");
        e.append(id.as_str());
        e.append(": ");
        e.append(message.as_str());
        Feedback::Error(e)
    }
}

/// A container name without its leading slashes.
pub open spec fn bare_name(name: Seq<char>) -> Seq<char> {
    trim_start_all(name, seq!['/'])
}

/// The label of a container in the lists: its first name without the
/// leading slashes, or, where it has no name, the first 12 bytes of its id.
pub open spec fn container_label_of(names: Seq<String>, id: Seq<char>) -> Seq<char> {
    if names.len() > 0 {
        bare_name(names[0]@)
    } else {
        byte_prefix(id, 12)
    }
}

/// The label of a container in the lists; see `container_label_of`. An id
/// of which 12 bytes cannot be cut off is left out, where the container has
/// no name.
pub fn container_label<'a>(names: &'a Vec<String>, id: &'a str) -> (r: &'a str)
    requires
        names@.len() == 0 ==> is_char_boundary(encode_utf8(id@), 12),
    ensures
        r@ == container_label_of(names@, id@),
{
    let slash = "/";
    proof {
        reveal_strlit("/");
        assert(slash@ =~= seq!['/']);
    }
    if names.len() > 0 {
        trim_start_matches(names[0].as_str(), slash)
    } else {
        first_bytes(id, 12)
    }
}

/// The text of a link to a container: its name without the leading slashes
/// where it is given, else its id.
pub fn link_label<'a>(name: Option<&'a str>, id: &'a str) -> (r: &'a str)
    ensures
        r@ == match name {
            Some(n) => bare_name(n@),
            None => id@,
        },
{
    let slash = "/";
    proof {
        reveal_strlit("/");
        assert(slash@ =~= seq!['/']);
    }
    match name {
        Some(n) => trim_start_matches(n, slash),
        None => id,
    }
}

/// Whether the container with id `new_id` is another one than the container
/// shown, so that the GUI starts tracing it (and drops what it showed).
pub fn container_changed(current: Option<&str>, new_id: &str) -> (r: bool)
    ensures
        r == match current {
            Some(c) => c@ != new_id@,
            None => true,
        },
{
    match current {
        Some(c) => !str_eq(c, new_id),
        None => true,
    }
}

/// The state of the containers tab. `C` is a container of the list, `D` the
/// details of the container shown, and `S` its statistics.
#[derive(Debug)]
pub struct ContainersTab<C, D, S> {
    pub containers: Vec<C>,
    pub current_container: Option<D>,
    pub current_stats: Option<S>,
    pub container_view: ContainerView,
    pub central_view: CentralView,
    pub current_logs: Option<String>,
    pub logs_page: usize,
    pub follow_logs: bool,
    pub create_data: ContainerCreateData,
    pub rename_window: RenameWindow,
}

impl<C, D, S> ContainersTab<C, D, S> {
    /// No container is shown: no details, statistics or logs, first page.
    pub open spec fn shows_no_container(&self) -> bool {
        &&& self.current_container is None
        &&& self.current_stats is None
        &&& self.current_logs is None
        &&& self.logs_page == 0
    }

    pub fn new() -> (r: Self)
        ensures
            r.containers@.len() == 0,
            r.shows_no_container(),
            r.container_view == ContainerView::Details,
            r.central_view == CentralView::Main,
            !r.follow_logs,
            r.create_data.is_blank(),
            !r.rename_window.show,
    {
        ContainersTab {
            containers: Vec::new(),
            current_container: None,
            current_stats: None,
            container_view: ContainerView::Details,
            central_view: CentralView::default(),
            current_logs: None,
            logs_page: 0,
            follow_logs: false,
            create_data: ContainerCreateData::default(),
            rename_window: RenameWindow::default(),
        }
    }

    /// Shows the details of a container; where it is another container than
    /// the one shown (see `container_changed`), first drops what was shown of
    /// the previous one.
    pub fn show_container(&mut self, container: D, changed: bool)
        ensures
            final(self).current_container == Some(container),
            changed ==> final(self).current_stats is None && final(self).current_logs is None
                && final(self).logs_page == 0,
            !changed ==> final(self).current_stats == old(self).current_stats
                && final(self).current_logs == old(self).current_logs && final(self).logs_page
                == old(self).logs_page,
            final(self).containers == old(self).containers,
            final(self).container_view == old(self).container_view,
            final(self).central_view == old(self).central_view,
            final(self).follow_logs == old(self).follow_logs,
            final(self).create_data == old(self).create_data,
            final(self).rename_window == old(self).rename_window,
    {
        if changed {
            self.clear_container();
        }
        self.current_container = Some(container);
    }

    pub fn clear(&mut self)
        ensures
            final(self).containers@.len() == 0,
            final(self).shows_no_container(),
            final(self).container_view == old(self).container_view,
            final(self).central_view == old(self).central_view,
            final(self).follow_logs == old(self).follow_logs,
            final(self).create_data == old(self).create_data,
            final(self).rename_window == old(self).rename_window,
    {
        self.containers.clear();
        self.clear_container();
    }

    pub fn clear_container(&mut self)
        ensures
            final(self).shows_no_container(),
            final(self).containers == old(self).containers,
            final(self).container_view == old(self).container_view,
            final(self).central_view == old(self).central_view,
            final(self).follow_logs == old(self).follow_logs,
            final(self).create_data == old(self).create_data,
            final(self).rename_window == old(self).rename_window,
    {
        self.current_container = None;
        self.current_stats = None;
        self.current_logs = None;
        self.logs_page = 0;
    }
}

} // verus!
