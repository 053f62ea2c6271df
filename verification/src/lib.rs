//! The logic of the OpenFrame Console desktop application: the session and its tokens, the
//! notifications and what their buttons do, start at login, updates, and what windows, tray
//! and process do about each event.
//!
//! Everything here decides and computes. Reading files, talking to servers, and the
//! platform's own windows and notifications are the application's, which hands plain values
//! in and carries out what comes back.

pub mod agent_document;
pub mod autostart;
pub mod chat_api;
pub mod config;
pub mod json;
pub mod link;
pub mod login;
pub mod macos_un;
pub mod markup;
pub mod nats;
pub mod notification_actions;
pub mod notifications;
pub mod percent;
pub mod text;
pub mod toast_document;
pub mod tokens;
pub mod updater;
pub mod window;
pub mod windows_activator;
pub mod windows_toast;
