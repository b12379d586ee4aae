//! The settings window.
use vstd::prelude::*;

verus! {

/// The message that the settings window shows after saving.
#[derive(Debug)]
pub enum Message {
    Error(String),
    /// The settings were saved.
    Success(String),
}

} // verus!
