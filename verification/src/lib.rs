//! A startup helper that lets firmware start its display drivers before the
//! installed Limine boot menu runs, and a manager that installs it next to
//! Limine without disturbing the firmware's other boot choices.
//!
//! This crate holds the logic of both halves: the bounded boot report, the
//! decisions taken about firmware display controllers, the parsing of
//! `efibootmgr` output, PE image validation, boot order edits, and the
//! installation and management procedures as step machines whose outside
//! work (commands, files, firmware calls) is carried out by the caller.

use vstd::prelude::*;

pub mod bootmgr;
pub mod cli;
pub mod digest;
pub mod display;
pub mod error;
pub mod image;
pub mod install;
pub mod lock;
pub mod manage;
pub mod procedure;
pub mod report;
pub mod text;

verus! {

} // verus!
