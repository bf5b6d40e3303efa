//! Replays dated snapshots of a corpus of laws as a linear commit history.
//!
//! The laws are published as zip archives, one for each law, and a law says
//! in its status comments when it was last changed and where that change was
//! announced. A [`snapshot::Snapshot`] holds one such archive as it was found.
//! [`status`] reads the comments, [`entry`] unpacks the archive, and a
//! [`synthesis::Synthesis`] places the snapshot in the history of a
//! repository: it finds the commit that precedes the day on which the
//! snapshot took effect ([`history`]), has the snapshot committed on a branch
//! from there, and replays that branch onto the trunk, where the trunk's
//! version of whatever both have changed prevails ([`reconcile`]).
//!
//! Nothing here reads or writes files, repositories or the network. The
//! functions take what was read as plain values and say what is to be
//! written. Whatever they promise is stated in their contracts and proved,
//! but for what a few functions of other crates are taken to return: the
//! matches of a regular expression in [`status`], the members of a zip
//! archive in [`entry`], the calendar in [`date`], the decoding of UTF-8 in
//! [`snapshot`] and the joining of URLs in [`gii`].

pub mod date;
pub mod entry;
pub mod error;
pub mod gazette;
pub mod gii;
pub mod history;
pub mod path;
pub mod query;
pub mod reconcile;
pub mod snapshot;
pub mod status;
pub mod synthesis;
pub mod text;
