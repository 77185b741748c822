//! The task of one media file: the record that its name stands for, and
//! the overlay policy that follows.

use crate::index::{lookup, RecordIndex};
use crate::manifest::{Media, MediaView};
use crate::names::{file_identifier, identifier_of, is_main, is_main_name, role_name, sibling};
use crate::policy::{Action, FileRole, OverlayMode, TaskState};
use vstd::prelude::*;
use vstd::string::StringExecFns;

verus! {

/// What the metadata writer is to stamp a file with.
#[derive(Clone, Debug, PartialEq, Eq)]
pub struct Stamp {
    /// The instant of the capture, as `YYYY:MM:DD HH:MM:SS`.
    pub date: String,
    /// The latitude in degrees, as a decimal number.
    pub lat: String,
    /// The longitude in degrees, as a decimal number.
    pub lon: String,
}

/// What a stamp holds.
pub struct StampView {
    pub date: Seq<char>,
    pub lat: Seq<char>,
    pub lon: Seq<char>,
}

impl View for Stamp {
    type V = StampView;

    open spec fn view(&self) -> StampView {
        StampView { date: self.date@, lat: self.lat@, lon: self.lon@ }
    }
}

/// What an optional stamp holds.
pub open spec fn stamp_view(stamp: Option<Stamp>) -> Option<StampView> {
    match stamp {
        Some(s) => Some(s@),
        None => None,
    }
}

/// The stamp of a record whose instant is written as `date`. A record whose
/// instant cannot be written has none.
pub open spec fn stamp_of(media: MediaView, date: Option<Seq<char>>) -> Option<StampView> {
    match date {
        Some(d) => Some(StampView { date: d, lat: media.lat, lon: media.lon }),
        None => None,
    }
}

/// The stamp for the file `name`: that of its record.
pub open spec fn metadata_of(records: Seq<MediaView>, name: Seq<char>) -> Option<StampView> {
    match record_of(records, name) {
        None => None,
        Some(m) => stamp_of(m, m.date.stamp()),
    }
}

/// The record for the file `name`: the one that the identifier in its name
/// stands for. A file without an identifier, or without a record for it,
/// has none.
pub open spec fn record_of(records: Seq<MediaView>, name: Seq<char>) -> Option<MediaView> {
    match file_identifier(name) {
        None => None,
        Some(id) => lookup(records, id),
    }
}

/// The record for the file `name`, if there is one.
pub fn record_for<'a>(index: &'a RecordIndex, name: &str) -> (r: Option<&'a Media>)
    ensures
        match r {
            Some(m) => record_of(index.entries(), name@) == Some(m@),
            None => record_of(index.entries(), name@) is None,
        },
{
    match identifier_of(name) {
        None => None,
        Some(id) => index.get(id.as_str()),
    }
}

/// The stamp of `media`, whose instant is written as `date`.
pub fn stamp_from(media: &Media, date: Option<String>) -> (r: Option<Stamp>)
    ensures
        stamp_view(r) == stamp_of(
            media@,
            match date {
                Some(d) => Some(d@),
                None => None,
            },
        ),
{
    match date {
        Some(d) => Some(
            Stamp { date: d, lat: media.coordinate.lat.clone(), lon: media.coordinate.lon.clone() },
        ),
        None => None,
    }
}

/// The stamp for the file `name`, if a record is found for it.
pub fn metadata_for(index: &RecordIndex, name: &str) -> (r: Option<Stamp>)
    ensures
        stamp_view(r) == metadata_of(index.entries(), name@),
{
    match record_for(index, name) {
        None => None,
        Some(media) => stamp_from(media, media.date.exif_stamp()),
    }
}

/// The task of one media file: its name, the stamp of its record, and the
/// state of its overlay policy.
#[derive(Clone, Debug, PartialEq, Eq)]
pub struct FileTask {
    pub name: String,
    /// What the metadata writer is to write. A task whose record has an
    /// instant that cannot be written has none, and its metadata step fails.
    pub stamp: Option<Stamp>,
    pub state: TaskState,
}

impl FileTask {
    /// Begins the task of the file `name`. The metadata step is taken where
    /// a record is found for the name; the overlay step is open to the file
    /// where its name is that of a main file.
    pub fn open(index: &RecordIndex, name: &str, mode: OverlayMode) -> (r: (FileTask, Action))
        ensures
            r.0.name@ == name@,
            stamp_view(r.0.stamp) == metadata_of(index.entries(), name@),
            (r.0.state, r.1) == TaskState::start(
                mode,
                record_of(index.entries(), name@) is Some,
                is_main_name(name@),
            ),
    {
        let (matched, stamp) = match record_for(index, name) {
            None => (false, None),
            Some(media) => (true, stamp_from(media, media.date.exif_stamp())),
        };
        let (state, action) = TaskState::begin(mode, matched, is_main(name));
        (FileTask { name: String::from_str(name), stamp, state }, action)
    }

    /// Takes the outcome of the pending action and hands out the next one.
    pub fn advance(&mut self, outcome: bool) -> (action: Action)
        ensures
            final(self).name == old(self).name,
            final(self).stamp == old(self).stamp,
            (final(self).state, action) == old(self).state.next(outcome),
    {
        self.state.advance(outcome)
    }

    /// The name of the file that has `role` beside the media file.
    pub fn file(&self, role: FileRole) -> (r: Option<String>)
        ensures
            match r {
                Some(o) => role_name(self.name@, role) == Some(o@),
                None => role_name(self.name@, role) is None,
            },
    {
        sibling(self.name.as_str(), role)
    }
}

} // verus!
