//! The core of a library that provisions, observes and tears down containers
//! for tests, against a container daemon.
//!
//! The core talks to no daemon. It says what is to be asked of one and reads
//! what the daemon answers: the image descriptor and the requests made from
//! it, the handle of a container with its way from creation to removal, the
//! resolver of published ports, and the wait for a line of a log. A backend
//! sends the requests and hands the answers back.

pub mod address;
pub mod client;
pub mod container;
pub mod creation;
pub mod image;
pub mod logs;
pub mod port_laws;
pub mod ports;
pub mod string_map;
pub mod text;
pub mod wait;
