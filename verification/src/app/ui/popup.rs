//! Confirmation popups: a question with a yes/no answer, and the request that
//! a confirmed answer sends.
use vstd::prelude::*;

use crate::event::EventRequest;

verus! {

/// A popup that has a specified action to run on confirmation.
#[derive(Debug)]
pub struct ActionPopup {
    /// The action to run on confirmation
    pub action: EventRequest,
    /// The popup definition
    pub popup: Popup,
}

impl ActionPopup {
    /// Starts a popup that runs `action` once confirmed.
    pub fn builder(action: EventRequest) -> (r: ActionPopupBuilder)
        ensures
            r.action == action,
            r.builder.title@ == Seq::<char>::empty(),
            r.builder.text@ == Seq::<char>::empty(),
    {
        ActionPopupBuilder { action, builder: PopupBuilder::default() }
    }

    /// Wether the user has made a choice
    pub fn is_finished(&self) -> (r: bool)
        ensures
            r == self.popup.finished,
    {
        self.popup.finished
    }

    /// The choice of the user
    pub fn is_confirmed(&self) -> (r: bool)
        ensures
            r == self.popup.confirmed,
    {
        self.popup.confirmed
    }

    /// Consume this popup returning the action that should be run
    pub fn action(self) -> (r: EventRequest)
        ensures
            r == self.action,
    {
        self.action
    }
}

/// A question shown in a window with the buttons `yes` and `no`.
#[derive(Debug)]
pub struct Popup {
    pub title: String,
    pub text: String,
    pub confirmed: bool,
    pub window_enabled: bool,
    pub finished: bool,
}

impl Popup {
    pub fn builder() -> (r: PopupBuilder)
        ensures
            r.title@ == Seq::<char>::empty(),
            r.text@ == Seq::<char>::empty(),
    {
        PopupBuilder::default()
    }

    /// Takes the buttons clicked in one frame of the window: `Some(true)` for
    /// `yes`, `Some(false)` for `no`, `None` for no click. A popup that is
    /// finished keeps its state; otherwise a click finishes it with that
    /// answer and disables its window, and no click leaves the window enabled.
    pub fn respond(&mut self, choice: Option<bool>)
        ensures
            final(self).title == old(self).title,
            final(self).text == old(self).text,
            old(self).finished ==> final(self).finished == old(self).finished
                && final(self).confirmed == old(self).confirmed
                && final(self).window_enabled == old(self).window_enabled,
            !old(self).finished ==> match choice {
                Some(yes) => final(self).finished && final(self).confirmed == yes
                    && !final(self).window_enabled,
                None => !final(self).finished && final(self).confirmed == old(self).confirmed
                    && final(self).window_enabled,
            },
    {
        if !self.finished {
            match choice {
                Some(yes) => {
                    self.confirmed = yes;
                    self.finished = true;
                    self.window_enabled = false;
                },
                None => {
                    self.window_enabled = true;
                },
            }
        }
    }
}

#[derive(Debug)]
pub struct ActionPopupBuilder {
    pub action: EventRequest,
    pub builder: PopupBuilder,
}

impl ActionPopupBuilder {
    pub fn title(self, title: &str) -> (r: Self)
        ensures
            r.action == self.action,
            r.builder.title@ == title@,
            r.builder.text == self.builder.text,
    {
        ActionPopupBuilder { action: self.action, builder: self.builder.title(title) }
    }

    pub fn text(self, text: &str) -> (r: Self)
        ensures
            r.action == self.action,
            r.builder.title == self.builder.title,
            r.builder.text@ == text@,
    {
        ActionPopupBuilder { action: self.action, builder: self.builder.text(text) }
    }

    pub fn build(self) -> (r: ActionPopup)
        ensures
            r.action == self.action,
            r.popup.title == self.builder.title,
            r.popup.text == self.builder.text,
            !r.popup.confirmed,
            !r.popup.finished,
            !r.popup.window_enabled,
    {
        ActionPopup { action: self.action, popup: self.builder.build() }
    }
}

#[derive(Debug)]
pub struct PopupBuilder {
    pub title: String,
    pub text: String,
}

impl Default for PopupBuilder {
    fn default() -> (r: Self)
        ensures
            r.title@ == Seq::<char>::empty(),
            r.text@ == Seq::<char>::empty(),
    {
        PopupBuilder { title: String::new(), text: String::new() }
    }
}

impl PopupBuilder {
    pub fn build(self) -> (r: Popup)
        ensures
            r.title == self.title,
            r.text == self.text,
            !r.confirmed,
            !r.finished,
            !r.window_enabled,
    {
        Popup {
            title: self.title,
            text: self.text,
            confirmed: false,
            finished: false,
            window_enabled: false,
        }
    }

    pub fn title(self, title: &str) -> (r: Self)
        ensures
            r.title@ == title@,
            r.text == self.text,
    {
        PopupBuilder { title: title.to_owned(), text: self.text }
    }

    pub fn text(self, text: &str) -> (r: Self)
        ensures
            r.title == self.title,
            r.text@ == text@,
    {
        PopupBuilder { title: self.title, text: text.to_owned() }
    }
}

/// Looks at the popup in front of the queue, as the GUI does once a frame:
/// a popup still waiting for an answer goes to the back, a finished one
/// leaves the queue, and its action is handed back where it was confirmed.
pub fn next_popup_action(popups: &mut std::collections::VecDeque<ActionPopup>) -> (r: Option<
    EventRequest,
>)
    ensures
        old(popups)@.len() == 0 ==> final(popups)@ == old(popups)@ && r is None,
        old(popups)@.len() > 0 ==> {
            let p = old(popups)@[0];
            if !p.popup.finished {
                &&& final(popups)@ == old(popups)@.drop_first().push(p)
                &&& r is None
            } else {
                &&& final(popups)@ == old(popups)@.drop_first()
                &&& r == (if p.popup.confirmed {
                    Some(p.action)
                } else {
                    None::<EventRequest>
                })
            }
        },
{
    match popups.pop_front() {
        Some(popup) => {
            if !popup.is_finished() {
                popups.push_back(popup);
                None
            } else if popup.is_confirmed() {
                Some(popup.action())
            } else {
                None
            }
        },
        None => None,
    }
}

} // verus!
