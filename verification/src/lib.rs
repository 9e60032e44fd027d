//! Sorts the files of one directory by extension: the decisions of a run, from
//! the command line to the desktop notification, as verified state machines.
//! Reading the disk, asking the user and reaching the desktop are left to the
//! caller, who performs each request and reports back what happened.

pub mod notification;
pub mod scan;
pub mod session;
pub mod text;
