//! The parts of the screens that decide what is shown, apart from drawing.
pub mod captions;
pub mod form_view;
pub mod help_popup;
