//! Restores capture metadata and caption overlays to the media files of a
//! "memories" export.
//!
//! An export holds a manifest, which lists for each media item the instant
//! and the place of its capture and a download link, and directories of
//! media files, some with an overlay image beside them. The library decodes
//! the manifest ([`manifest`], [`date`], [`location`], [`link`]), finds the
//! record of a file by the identifier in its name ([`index`], [`names`]), and
//! decides file by file what is to be done ([`task`], [`policy`]): stamp the
//! file with its record, render the overlay onto it or onto a duplicate,
//! clear up. It touches no file and runs no tool itself: it hands out
//! actions, and says how the tools are to be called ([`commands`]) and which
//! files are to be moved in the end ([`mover`]).
//!
//! What holds of every run of a task is proved in [`trace`], [`script`] and
//! [`effects`].

pub mod commands;
pub mod date;
pub mod discovery;
pub mod effects;
pub mod error;
pub mod index;
pub mod link;
pub mod location;
pub mod manifest;
pub mod mover;
pub mod names;
pub mod policy;
pub mod report;
pub mod script;
pub mod task;
pub mod text;
pub mod trace;
