//! Widgets of the GUI whose state is kept apart from the drawing.
pub mod popup;

pub use popup::{ActionPopup, ActionPopupBuilder, Popup, PopupBuilder};
