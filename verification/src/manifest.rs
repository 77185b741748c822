//! The manifest of an export: its entries as they are written, and the
//! records that they decode to.

use crate::date::{date_of, parse_date, CaptureTime};
use crate::error::DecodeError;
use crate::link::{link_identifier, parse_id};
use crate::location::{coordinates_of, parse_coords, Coordinates};
use vstd::prelude::*;
use vstd::string::StringExecFns;

verus! {

/// The kind of a media item.
#[derive(Clone, Copy, Debug, PartialEq, Eq, Structural)]
pub enum MediaType {
    Image,
    Video,
}

/// One entry of the manifest, decoded.
#[derive(Clone, Debug, PartialEq, Eq)]
pub struct Media {
    pub date: CaptureTime,
    pub media_type: MediaType,
    pub coordinate: Coordinates,
    pub id: String,
}

/// What a record holds.
pub struct MediaView {
    pub date: CaptureTime,
    pub media_type: MediaType,
    pub lat: Seq<char>,
    pub lon: Seq<char>,
    pub id: Seq<char>,
}

impl View for Media {
    type V = MediaView;

    open spec fn view(&self) -> MediaView {
        MediaView {
            date: self.date,
            media_type: self.media_type,
            lat: self.coordinate.lat@,
            lon: self.coordinate.lon@,
            id: self.id@,
        }
    }
}

/// One entry of the manifest as it is written: the texts of its four fields.
#[derive(Clone, Debug, PartialEq, Eq)]
pub struct RawMedia {
    pub date: String,
    pub media_type: String,
    pub location: String,
    pub download_link: String,
}

/// What an entry holds.
pub struct RawMediaView {
    pub date: Seq<char>,
    pub media_type: Seq<char>,
    pub location: Seq<char>,
    pub download_link: Seq<char>,
}

impl View for RawMedia {
    type V = RawMediaView;

    open spec fn view(&self) -> RawMediaView {
        RawMediaView {
            date: self.date@,
            media_type: self.media_type@,
            location: self.location@,
            download_link: self.download_link@,
        }
    }
}

/// The records of a manifest, in its order.
#[derive(Clone, Debug, PartialEq, Eq)]
pub struct MemoriesHistory {
    pub saved_media: Vec<Media>,
}

/// The entry that could not be decoded, and why.
#[derive(Clone, Copy, Debug, PartialEq, Eq, Structural)]
pub struct ManifestError {
    /// The index of the first malformed entry.
    pub index: usize,
    pub cause: DecodeError,
}

/// The kind that a media type names.
pub open spec fn media_type_of(s: Seq<char>) -> Result<MediaType, DecodeError> {
    if s == "Image"@ {
        Ok(MediaType::Image)
    } else if s == "Video"@ {
        Ok(MediaType::Video)
    } else {
        Err(DecodeError::UnknownMediaType)
    }
}

/// The record that an entry decodes to. The fields are decoded in the
/// order date, media type, location, download link, and the first that is
/// malformed gives the error.
pub open spec fn decoded(raw: RawMediaView) -> Result<MediaView, DecodeError> {
    match date_of(raw.date) {
        Err(e) => Err(e),
        Ok(date) => match media_type_of(raw.media_type) {
            Err(e) => Err(e),
            Ok(media_type) => match coordinates_of(raw.location) {
                Err(e) => Err(e),
                Ok((lat, lon)) => match link_identifier(raw.download_link) {
                    None => Err(DecodeError::MalformedLink),
                    Some(id) => Ok(MediaView { date, media_type, lat, lon, id }),
                },
            },
        },
    }
}

/// Decodes a media type: `Image` or `Video`, and nothing else.
pub fn parse_media_type(s: &String) -> (r: Result<MediaType, DecodeError>)
    ensures
        r == media_type_of(s@),
{
    if *s == String::from_str("Image") {
        Ok(MediaType::Image)
    } else if *s == String::from_str("Video") {
        Ok(MediaType::Video)
    } else {
        Err(DecodeError::UnknownMediaType)
    }
}

/// Decodes one entry.
pub fn decode(raw: &RawMedia) -> (r: Result<Media, DecodeError>)
    ensures
        match r {
            Ok(m) => decoded(raw@) == Ok::<_, DecodeError>(m@) && m.coordinate.well_formed(),
            Err(e) => decoded(raw@) == Err::<MediaView, _>(e),
        },
{
    let date = match parse_date(raw.date.as_str()) {
        Ok(d) => d,
        Err(e) => {
            return Err(e);
        },
    };
    let media_type = match parse_media_type(&raw.media_type) {
        Ok(t) => t,
        Err(e) => {
            return Err(e);
        },
    };
    let coordinate = match parse_coords(raw.location.as_str()) {
        Ok(c) => c,
        Err(e) => {
            return Err(e);
        },
    };
    let id = match parse_id(raw.download_link.as_str()) {
        Ok(i) => i,
        Err(e) => {
            return Err(e);
        },
    };
    Ok(Media { date, media_type, coordinate, id })
}

/// Decodes the entries of a manifest, in their order. One malformed entry
/// fails the whole: the error names the first of them.
pub fn decode_manifest(entries: &Vec<RawMedia>) -> (r: Result<MemoriesHistory, ManifestError>)
    ensures
        match r {
            Ok(h) => {
                &&& h.saved_media.len() == entries.len()
                &&& forall|i: int|
                    0 <= i < entries.len() ==> decoded(#[trigger] entries[i]@) == Ok::<
                        _,
                        DecodeError,
                    >(h.saved_media[i]@)
            },
            Err(e) => {
                &&& e.index < entries.len()
                &&& decoded(entries[e.index as int]@) == Err::<MediaView, _>(e.cause)
                &&& forall|i: int| 0 <= i < e.index ==> decoded(#[trigger] entries[i]@) is Ok
            },
        },
{
    let mut records: Vec<Media> = Vec::new();
    let mut i: usize = 0;
    while i < entries.len()
        invariant
            i <= entries.len(),
            records.len() == i,
            forall|j: int|
                0 <= j < i ==> decoded(#[trigger] entries[j]@) == Ok::<_, DecodeError>(records[j]@),
        decreases entries.len() - i,
    {
        match decode(&entries[i]) {
            Ok(m) => {
                records.push(m);
            },
            Err(cause) => {
                return Err(ManifestError { index: i, cause });
            },
        }
        i += 1;
    }
    Ok(MemoriesHistory { saved_media: records })
}

} // verus!
