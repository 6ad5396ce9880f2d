//! A process dashboard's model: the state it keeps, the keys it answers,
//! the `/proc` text it reads and the text it shows.

pub mod text;
pub mod types;
pub mod parse;
pub mod sorting;
pub mod stable;
pub mod proc_info;
pub mod history;
pub mod app;
pub mod input;
pub mod ui;
