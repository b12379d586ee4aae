//! The images tab: how images are named, what a pull request holds, and what
//! the GUI answers to the results of image requests.
use vstd::prelude::*;
use vstd::string::*;
use vstd::utf8::*;

use crate::app::order::{arranged, in_display_order, is_display_order, is_permutation, ListKey};
use crate::app::ui::ActionPopup;
use crate::event::{EventRequest, ImageEvent, RegistryAuth};
use crate::text::{contains, has_infix, str_eq, trim_start_all, trim_start_matches};

verus! {

broadcast use vstd::utf8::group_utf8_lib;

/// The prefix that Docker puts in front of image digests.
pub open spec fn sha_prefix() -> Seq<char> {
    seq!['s', 'h', 'a', '2', '5', '6', ':']
}

/// An image id without its leading `sha256:` prefixes.
pub open spec fn trimmed_id(id: Seq<char>) -> Seq<char> {
    trim_start_all(id, sha_prefix())
}

/// The trimmed id has a character that ends at byte 12, so its first
/// 12 bytes can be cut off.
pub open spec fn short_id_fits(id: Seq<char>) -> bool {
    is_char_boundary(encode_utf8(trimmed_id(id)), 12)
}

/// The characters of the first 12 bytes of the trimmed id.
pub open spec fn short_id(id: Seq<char>) -> Seq<char> {
    decode_utf8(encode_utf8(trimmed_id(id)).subrange(0, 12))
}

/// The short form of an image id: the first 12 bytes after the `sha256:` prefix.
pub fn trim_id(id: &str) -> (r: &str)
    requires
        short_id_fits(id@),
    ensures
        r@ == short_id(id@),
        is_ascii_chars(trimmed_id(id@)) ==> r@ == trimmed_id(id@).take(12),
{
    let prefix = "sha256:";
    proof {
        reveal_strlit("sha256:");
        assert(prefix@ =~= sha_prefix());
    }
    let t = trim_start_matches(id, prefix);
    let a = crate::text::first_bytes(t, 12);
    proof {
        let tr = trimmed_id(id@);
        assert(encode_utf8(a@) == encode_utf8(tr).subrange(0, 12));
        assert(decode_utf8(encode_utf8(a@)) == a@);
        if is_ascii_chars(tr) {
            vstd::utf8::is_ascii_chars_encode_utf8(tr);
            let tk = tr.take(12);
            assert(is_ascii_chars(tk));
            vstd::utf8::is_ascii_chars_encode_utf8(tk);
            assert(encode_utf8(tk) =~= encode_utf8(tr).subrange(0, 12));
            assert(decode_utf8(encode_utf8(tk)) == tk);
        }
    }
    a
}

/// The name shown for an image: its first tag, unless there is none or the
/// first one is `<none>`-ish, in which case its short id.
pub open spec fn image_name(id: Seq<char>, tags: Option<Seq<Seq<char>>>) -> Seq<char> {
    match tags {
        Some(t) => if t.len() > 0 && !has_infix(t[0], "<none>"@) {
            t[0]
        } else {
            short_id(id)
        },
        None => short_id(id),
    }
}

/// The tags of an image, as character sequences.
pub open spec fn tags_view(tags: Option<&Vec<String>>) -> Option<Seq<Seq<char>>> {
    match tags {
        Some(v) => Some(v@.map_values(|s: String| s@)),
        None => None,
    }
}

/// The name of an image, from its id and its tags.
pub fn name(id: &str, tags: Option<&Vec<String>>) -> (r: String)
    requires
        short_id_fits(id@),
    ensures
        r@ == image_name(id@, tags_view(tags)),
{
    let id = trim_id(id);
    let none = "<none>";
    match tags {
        Some(v) => {
            if v.len() > 0 {
                let tag = &v[0];
                if contains(tag.as_str(), none) {
                    id.to_owned()
                } else {
                    tag.clone()
                }
            } else {
                id.to_owned()
            }
        },
        None => id.to_owned(),
    }
}

/// The form that pulls an image from a registry.
#[derive(Debug)]
pub struct PullView {
    pub image: String,
    pub user: String,
    pub password: String,
    pub in_progress: bool,
}

impl Default for PullView {
    fn default() -> (r: Self)
        ensures
            r.image@ == Seq::<char>::empty(),
            r.user@ == Seq::<char>::empty(),
            r.password@ == Seq::<char>::empty(),
            !r.in_progress,
    {
        PullView {
            image: String::new(),
            user: String::new(),
            password: String::new(),
            in_progress: false,
        }
    }
}

/// Why a pull was not started.
#[derive(Debug, PartialEq, Eq, Structural, Clone, Copy)]
pub enum PullRefusal {
    /// "Image pull already in progress"
    InProgress,
    /// "Image name can't be empty"
    EmptyName,
}

impl PullRefusal {
    /// The notification shown for the refusal.
    pub fn message(&self) -> (r: &'static str)
        ensures
            *self == PullRefusal::InProgress ==> r@ == "Image pull already in progress"@,
            *self == PullRefusal::EmptyName ==> r@ == "Image name can't be empty"@,
    {
        match self {
            PullRefusal::InProgress => "Image pull already in progress",
            PullRefusal::EmptyName => "Image name can't be empty",
        }
    }
}

/// What pressing `pull` does to the form `before`, leaving it as `after` and
/// answering `r`: while a pull runs, or without an image name, it refuses and
/// changes nothing; otherwise it marks the pull as running and gives the pull
/// request, with credentials where a user is given (and its password, where
/// one is given too).
pub open spec fn pull_requested(
    before: PullView,
    after: PullView,
    r: Result<EventRequest, PullRefusal>,
) -> bool {
    if before.in_progress {
        r == Err::<EventRequest, PullRefusal>(PullRefusal::InProgress) && after == before
    } else if before.image@.len() == 0 {
        r == Err::<EventRequest, PullRefusal>(PullRefusal::EmptyName) && after == before
    } else {
        &&& after.in_progress
        &&& after.image == before.image
        &&& after.user == before.user
        &&& after.password == before.password
        &&& r matches Ok(EventRequest::Image(ImageEvent::Pull { image, auth }))
        &&& image == before.image
        &&& if before.user@.len() == 0 {
            auth is None
        } else {
            &&& auth matches Some(a)
            &&& a.username == before.user
            &&& if before.password@.len() == 0 {
                a.password is None
            } else {
                a.password == Some(before.password)
            }
        }
    }
}

impl PullView {
    /// What pressing `pull` does: refuse while a pull runs or without an
    /// image name; otherwise mark the pull as running and give the request,
    /// with credentials where a user is given (and its password, where one is
    /// given too).
    pub fn request_pull(&mut self) -> (r: Result<EventRequest, PullRefusal>)
        ensures
            pull_requested(*old(self), *final(self), r),
    {
        if self.in_progress {
            return Err(PullRefusal::InProgress);
        }
        if self.image.as_str().unicode_len() == 0 {
            return Err(PullRefusal::EmptyName);
        }
        let auth = if self.user.as_str().unicode_len() != 0 {
            let password = if self.password.as_str().unicode_len() != 0 {
                Some(self.password.clone())
            } else {
                None
            };
            Some(RegistryAuth { username: self.user.clone(), password })
        } else {
            None
        };
        self.in_progress = true;
        Ok(EventRequest::Image(ImageEvent::Pull { image: self.image.clone(), auth }))
    }
}

/// Which view the central panel of the images tab shows.
#[derive(Debug, PartialEq, Eq, Structural, Clone, Copy)]
pub enum ImagesView {
    Image,
    Pull,
    /// The main view, with nothing selected.
    Main,
}

/// The state of the images tab. `I` is an image of the list, `D` the details
/// of the image shown and `C` a chunk of the progress of a pull.
#[derive(Debug)]
pub struct ImagesTab<I, D, C> {
    pub images: Vec<I>,
    pub current_image: Option<D>,
    pub current_pull_chunks: Option<Vec<C>>,
    pub current_image_view: ImagesView,
    pub pull_view: PullView,
}

impl<I, D, C> ImagesTab<I, D, C> {
    pub fn new() -> (r: Self)
        ensures
            r.images@.len() == 0,
            r.current_image is None,
            r.current_pull_chunks is None,
            r.current_image_view == ImagesView::Main,
            !r.pull_view.in_progress,
    {
        ImagesTab {
            images: Vec::new(),
            current_image: None,
            current_pull_chunks: None,
            current_image_view: ImagesView::Main,
            pull_view: PullView::default(),
        }
    }

    /// Keeps the chunks of progress of a pull that the worker sent, after
    /// those kept so far.
    pub fn add_pull_chunks(&mut self, chunks: Vec<C>)
        ensures
            final(self).current_pull_chunks matches Some(c) && c@ == match old(self).current_pull_chunks {
                Some(o) => o@,
                None => Seq::<C>::empty(),
            } + chunks@,
            final(self).images == old(self).images,
            final(self).current_image == old(self).current_image,
            final(self).pull_view == old(self).pull_view,
    {
        let mut chunks = chunks;
        match &mut self.current_pull_chunks {
            Some(c) => {
                c.append(&mut chunks);
            },
            None => {
                self.current_pull_chunks = Some(chunks);
            },
        }
    }

    /// Takes the list of images that the worker sent, in the order the list
    /// shows them (see `in_display_order`; `keys` holds the key of each image).
    pub fn set_images(&mut self, images: Vec<I>, keys: &Vec<ListKey>)
        requires
            images@.len() == keys@.len(),
        ensures
            exists|p: Seq<usize>|
                is_permutation(p, keys@.len()) && is_display_order(keys@, p)
                    && final(self).images@ == arranged(images@, p),
            final(self).current_image == old(self).current_image,
            final(self).current_pull_chunks == old(self).current_pull_chunks,
            final(self).current_image_view == old(self).current_image_view,
            final(self).pull_view == old(self).pull_view,
    {
        self.images = in_display_order(images, keys);
    }

    /// Shows the details of an image that the worker sent.
    pub fn show_image(&mut self, image: D)
        ensures
            final(self).current_image == Some(image),
            final(self).images == old(self).images,
            final(self).current_pull_chunks == old(self).current_pull_chunks,
            final(self).current_image_view == old(self).current_image_view,
            final(self).pull_view == old(self).pull_view,
    {
        self.current_image = Some(image);
    }

    /// What pressing `pull` does to the tab: the form answers as
    /// `PullView::request_pull` does, and where the pull starts the chunks of
    /// progress of an earlier pull are dropped.
    pub fn start_pull(&mut self) -> (r: Result<EventRequest, PullRefusal>)
        ensures
            pull_requested(old(self).pull_view, final(self).pull_view, r),
            r is Ok ==> final(self).current_pull_chunks is None,
            r is Err ==> final(self).current_pull_chunks == old(self).current_pull_chunks,
            final(self).images == old(self).images,
            final(self).current_image == old(self).current_image,
            final(self).current_image_view == old(self).current_image_view,
    {
        let r = self.pull_view.request_pull();
        if r.is_ok() {
            self.current_pull_chunks = None;
        }
        r
    }

    /// The worker reported that the pull succeeded: the form may start
    /// another. (Where the pull failed the form stays marked as running.)
    pub fn pull_succeeded(&mut self)
        ensures
            !final(self).pull_view.in_progress,
            final(self).pull_view.image == old(self).pull_view.image,
            final(self).pull_view.user == old(self).pull_view.user,
            final(self).pull_view.password == old(self).pull_view.password,
            final(self).images == old(self).images,
            final(self).current_image == old(self).current_image,
            final(self).current_pull_chunks == old(self).current_pull_chunks,
            final(self).current_image_view == old(self).current_image_view,
    {
        self.pull_view.in_progress = false;
    }

    /// Forgets the images and the image shown, and goes back to the main view.
    pub fn clear(&mut self)
        ensures
            final(self).images@.len() == 0,
            final(self).current_image is None,
            final(self).current_pull_chunks is None,
            final(self).current_image_view == ImagesView::Main,
            final(self).pull_view == old(self).pull_view,
    {
        self.images.clear();
        self.current_image = None;
        self.current_pull_chunks = None;
        self.current_image_view = ImagesView::Main;
    }
}

/// One entry of the answer to an image deletion.
#[derive(Debug)]
pub enum DeleteStatus {
    Deleted(String),
    Untagged(String),
}

/// The line that describes one entry of a deletion answer.
pub open spec fn status_line(s: DeleteStatus) -> Seq<char> {
    match s {
        DeleteStatus::Deleted(x) => "Deleted: "@ + x@ + "\n"@,
        DeleteStatus::Untagged(x) => "Untagged: "@ + x@ + "\n"@,
    }
}

/// The text of a deletion answer: one line per entry.
pub open spec fn status_text(s: Seq<DeleteStatus>) -> Seq<char>
    decreases s.len(),
{
    if s.len() == 0 {
        Seq::empty()
    } else {
        status_text(s.drop_last()) + status_line(s.last())
    }
}

/// The notification shown when images were deleted.
pub fn format_status(status: Vec<DeleteStatus>) -> (r: String)
    ensures
        r@ == status_text(status@),
{
    let mut acc = String::new();
    let mut i: usize = 0;
    while i < status.len()
        invariant
            i <= status@.len(),
            acc@ == status_text(status@.take(i as int)),
        decreases status@.len() - i,
    {
        proof {
            assert(status@.take(i as int + 1).drop_last() =~= status@.take(i as int));
        }
        match &status[i] {
            DeleteStatus::Deleted(s) => {
                acc.append("Deleted: ");
                acc.append(s.as_str());
            },
            DeleteStatus::Untagged(s) => {
                acc.append("Untagged: ");
                acc.append(s.as_str());
            },
        }
        acc.append("\n");
        i = i + 1;
    }
    assert(status@.take(i as int) =~= status@);
    acc
}

/// The values that are given, in order.
pub open spec fn given(s: Seq<Option<String>>) -> Seq<String>
    decreases s.len(),
{
    if s.len() == 0 {
        Seq::empty()
    } else {
        given(s.drop_last()) + match s.last() {
            Some(x) => seq![x],
            None => Seq::empty(),
        }
    }
}

/// The untagged and the deleted images of a prune, each list under its
/// header; two empty texts where the engine listed no images.
pub fn prune_report(items: Option<&Vec<(Option<String>, Option<String>)>>) -> (r: (String, String))
    ensures
        match items {
            Some(v) => r.0@ == crate::app::bullet_list(
                "Untagged:\n"@,
                given(v@.map_values(|p: (Option<String>, Option<String>)| p.0)),
            ) && r.1@ == crate::app::bullet_list(
                "Deleted:\n"@,
                given(v@.map_values(|p: (Option<String>, Option<String>)| p.1)),
            ),
            None => r.0@ == Seq::<char>::empty() && r.1@ == Seq::<char>::empty(),
        },
{
    match items {
        None => (String::new(), String::new()),
        Some(v) => {
            let mut untagged: Vec<String> = Vec::new();
            let mut deleted: Vec<String> = Vec::new();
            let mut i: usize = 0;
            while i < v.len()
                invariant
                    i <= v@.len(),
                    untagged@ == given(
                        v@.take(i as int).map_values(|p: (Option<String>, Option<String>)| p.0),
                    ),
                    deleted@ == given(
                        v@.take(i as int).map_values(|p: (Option<String>, Option<String>)| p.1),
                    ),
                decreases v@.len() - i,
            {
                let ghost u0 = untagged@;
                let ghost d0 = deleted@;
                proof {
                    let a = v@.take(i as int + 1).map_values(
                        |p: (Option<String>, Option<String>)| p.0,
                    );
                    let b = v@.take(i as int + 1).map_values(
                        |p: (Option<String>, Option<String>)| p.1,
                    );
                    assert(a.drop_last() =~= v@.take(i as int).map_values(
                        |p: (Option<String>, Option<String>)| p.0,
                    ));
                    assert(b.drop_last() =~= v@.take(i as int).map_values(
                        |p: (Option<String>, Option<String>)| p.1,
                    ));
                }
                match &v[i].0 {
                    Some(u) => {
                        untagged.push(u.clone());
                    },
                    None => {},
                }
                match &v[i].1 {
                    Some(d) => {
                        deleted.push(d.clone());
                    },
                    None => {},
                }
                assert(untagged@ =~= given(
                    v@.take(i as int + 1).map_values(|p: (Option<String>, Option<String>)| p.0),
                ));
                assert(deleted@ =~= given(
                    v@.take(i as int + 1).map_values(|p: (Option<String>, Option<String>)| p.1),
                ));
                i = i + 1;
            }
            assert(v@.take(i as int) =~= v@);
            (
                crate::app::bulleted("Untagged:\n", &untagged),
                crate::app::bulleted("Deleted:\n", &deleted),
            )
        },
    }
}

/// What the GUI does with a failed request: ask before forcing it, or show an
/// error.
#[derive(Debug)]
pub enum Feedback {
    Confirm(ActionPopup),
    Error(String),
}

/// What the GUI does when the engine refused to delete image `id` with HTTP
/// status `code` and `message`: a conflict (409) that may be forced is turned
/// into a question whether to force the deletion; anything else is an error.
pub fn image_delete_refused(id: String, code: u16, message: String) -> (r: Feedback)
    ensures
        match r {
            Feedback::Confirm(p) => {
                &&& code == 409 && !has_infix(message@, "cannot be forced"@)
                &&& p.action == EventRequest::Image(ImageEvent::ForceDelete { id })
                &&& p.popup.title@ == "Force delete image"@
                &&& p.popup.text@ == message@
                    + "\n Are you sure you want to forcefully delete this image?"@
                &&& !p.popup.finished && !p.popup.confirmed
            },
            Feedback::Error(e) => {
                &&& !(code == 409 && !has_infix(message@, "cannot be forced"@))
                &&& e@ == "cannot force delete image "@ + id@ + ": "@ + message@
            },
        },
{
    if code == 409 && !contains(message.as_str(), "cannot be forced") {
        let mut text = message.clone();
        text.append("\n Are you sure you want to forcefully delete this image?");
        Feedback::Confirm(
            ActionPopup::builder(EventRequest::Image(ImageEvent::ForceDelete { id })).title(
                "Force delete image",
            ).text(text.as_str()).build(),
        )
    } else {
        let mut e = String::from_str("cannot force delete image ");
        e.append(id.as_str());
        e.append(": ");
        e.append(message.as_str());
        Feedback::Error(e)
    }
}


/// Law: the text of a deletion answer has one line per entry, in order:
/// the text of two answers one after the other is the text of the first
/// followed by that of the second, and one entry reads `Deleted: <image>` or
/// `Untagged: <image>` on a line of its own.
pub proof fn lemma_status_text_lines(a: Seq<DeleteStatus>, b: Seq<DeleteStatus>, x: String)
    ensures
        status_text(a + b) == status_text(a) + status_text(b),
        status_text(seq![DeleteStatus::Deleted(x)]) == "Deleted: "@ + x@ + "\n"@,
        status_text(seq![DeleteStatus::Untagged(x)]) == "Untagged: "@ + x@ + "\n"@,
        status_text(Seq::<DeleteStatus>::empty()) == Seq::<char>::empty(),
    decreases b.len(),
{
    if b.len() > 0 {
        lemma_status_text_lines(a, b.drop_last(), x);
        assert((a + b).drop_last() =~= a + b.drop_last());
        assert((a + b).last() == b.last());
    } else {
        assert(a + b =~= a);
    }
    let d = seq![DeleteStatus::Deleted(x)];
    let u = seq![DeleteStatus::Untagged(x)];
    assert(d.drop_last() =~= Seq::<DeleteStatus>::empty());
    assert(u.drop_last() =~= Seq::<DeleteStatus>::empty());
    assert(status_text(d.drop_last()) == Seq::<char>::empty());
    assert(status_text(u.drop_last()) == Seq::<char>::empty());
    assert(d.last() == DeleteStatus::Deleted(x));
    assert(u.last() == DeleteStatus::Untagged(x));
    assert(status_text(d) =~= "Deleted: "@ + x@ + "\n"@);
    assert(status_text(u) =~= "Untagged: "@ + x@ + "\n"@);
}

/// Law: the names kept of a list of optional names are the given ones, in
/// order: none is lost, none is added.
pub proof fn lemma_given_keeps_names(a: Seq<Option<String>>, b: Seq<Option<String>>, x: String)
    ensures
        given(a + b) == given(a) + given(b),
        given(seq![Some(x)]) == seq![x],
        given(seq![None::<String>]) == Seq::<String>::empty(),
    decreases b.len(),
{
    if b.len() > 0 {
        lemma_given_keeps_names(a, b.drop_last(), x);
        assert((a + b).drop_last() =~= a + b.drop_last());
        assert((a + b).last() == b.last());
        assert(given(a + b) =~= given(a) + given(b));
    } else {
        assert(a + b =~= a);
        assert(given(a + b) =~= given(a) + given(b));
    }
    assert(seq![Some(x)].drop_last() =~= Seq::<Option<String>>::empty());
    assert(seq![None::<String>].drop_last() =~= Seq::<Option<String>>::empty());
    assert(given(seq![Some(x)].drop_last()) == Seq::<String>::empty());
    assert(given(seq![None::<String>].drop_last()) == Seq::<String>::empty());
    assert(seq![Some(x)].last() == Some(x));
    assert(seq![None::<String>].last() == None::<String>);
    assert(given(seq![Some(x)]) =~= seq![x]);
    assert(given(seq![None::<String>]) =~= Seq::<String>::empty());
}

} // verus!
