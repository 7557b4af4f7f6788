//! A point-and-click horror game engine, without its window: the scripting
//! core (listeners and their dispatch, the expression markup, the arithmetic
//! reader) and the state of the game that scripts act on.
//!
//! What needs a screen, a sound card, a clock, files or floating-point
//! numbers is left to the program around the library, which the engine
//! reaches through the traits [`engine::Platform`], [`event_manager::Engine`]
//! and [`expression::Numbers`].

pub mod text;
pub mod table;
pub mod math_evaluator;
pub mod markup;
pub mod expression;
pub mod game_loader;
pub mod scripting_api;
pub mod event_manager;
pub mod scheduler;
pub mod office_data;
pub mod button;
pub mod tick_manager;
pub mod audio_manager;
pub mod menu_manager;
pub mod office_manager;
pub mod engine;
pub mod tick_events;
pub mod logger;
