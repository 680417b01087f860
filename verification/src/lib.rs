//! A terminal application that runs a project's processes side by side: a sidebar
//! with the targets, the log of the selected one, a search in it, and keys to start,
//! stop and restart.
//!
//! The application is a state machine. [`app::App`] holds the state, and
//! [`app::App::handle`] takes it from one event to the next; what each event does is
//! written down over [`model::AppModel`]. What has to be done outside comes back as
//! [`event::Effect`]s, and [`view::render`] says what is on the screen.

pub mod action_laws;
pub mod app;
pub mod area;
pub mod dispatch;
pub mod drawing_laws;
pub mod dump;
pub mod editor;
pub mod event;
pub mod event_laws;
pub mod fdlimit;
pub mod feed_laws;
pub mod handle;
pub mod highlight;
pub mod input;
pub mod key_laws;
pub mod keymap;
pub mod log_buffer;
pub mod log_laws;
pub mod model;
pub mod model_laws;
pub mod names;
pub mod ops;
pub mod row_laws;
pub mod rows;
pub mod screen;
pub mod search_laws;
pub mod session;
pub mod sidebar_laws;
pub mod spans;
pub mod subscriber;
pub mod target;
pub mod text;
pub mod text_laws;
pub mod view;
