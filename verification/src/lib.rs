//! Decision logic of the Muni dictation app: hotkey gestures, shortcut
//! bindings, the "My Words" substitution layer, and the rules around them.

pub mod boot;
pub mod calendar;
pub mod config;
pub mod error;
pub mod history_store;
pub mod hotkey;
pub mod hotkey_binding;
pub mod hud;
pub mod injection;
pub mod launch_item;
pub mod my_words;
pub mod order;
pub mod parakeet;
pub mod permissions;
pub mod press_timing;
pub mod prices_client;
pub mod pricing;
pub mod regex_engine;
pub mod session;
pub mod settings;
pub mod shortcuts;
pub mod substitution;
pub mod text;
