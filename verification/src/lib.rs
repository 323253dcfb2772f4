//! Turns a short description of how screens stand relative to each other
//! into an absolute pixel layout: position, size, scale and orientation of
//! each output, usable by a window manager.
//!
//! - [`geometry`] holds the interval and rectangle algebra,
//! - [`info`] holds the tables of connectors and named resolutions,
//! - [`parse`] reads the textual description into a [`relative::Layout`],
//! - [`convert`] places the screens one after another and yields an
//!   [`absolute::Layout`], whose least corner sits at the origin,
//! - [`comms`] holds what is exchanged with the window manager: ports, and
//!   the texts in which it names them and takes its commands,
//! - [`text`] holds the tools that read and write text.
//!
//! Talking to a window manager is left to the program around the library:
//! the library takes what the window manager told and gives the commands
//! to tell it.

pub mod absolute;
pub mod comms;
pub mod convert;
pub mod geometry;
pub mod info;
pub mod parse;
pub mod relative;
pub mod text;
