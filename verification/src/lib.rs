//! Core logic of a lightweight calendar screen: colors and themes, pixel
//! compositing, calendar dates, text tables, the node/layout tree model and
//! the application state machine that drives the screen.

pub mod app;
pub mod builder;
pub mod calendar;
pub mod components;
pub mod dates;
pub mod display;
pub mod grid;
pub mod ics;
pub mod layout;
pub mod node;
pub mod pixel;
pub mod screen;
pub mod style;
pub mod table;
pub mod text;
pub mod theme;
pub mod touch;
