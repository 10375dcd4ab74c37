//! Wire format, text rendering and decision logic of a small TCP/HTTP message server.

pub mod app_state;
pub mod bytes;
pub mod flight_hours;
pub mod live_server;
pub mod tcp_message;
pub mod text;
pub mod tui_app;

