//! How the two outside tools are called: the metadata writer and the
//! compositor. Nothing here runs them.

use vstd::prelude::*;
use vstd::string::StringExecFns;

verus! {

/// One call of an outside tool.
#[derive(Clone, Debug, PartialEq, Eq)]
pub struct Invocation {
    pub program: String,
    pub arguments: Vec<String>,
}

/// The texts of a list of strings.
pub open spec fn texts(v: Seq<String>) -> Seq<Seq<char>> {
    v.map_values(|s: String| s@)
}

/// The arguments that stamp the file `target` with a date, a latitude and a
/// longitude, in place and without a report.
pub open spec fn metadata_arguments(
    date: Seq<char>,
    lat: Seq<char>,
    lon: Seq<char>,
    target: Seq<char>,
) -> Seq<Seq<char>> {
    seq![
        "-overwrite_original"@,
        "-DateTimeOriginal="@ + date,
        "-GPSLatitude="@ + lat,
        "-GPSLatitudeRef="@ + lat,
        "-GPSLongitude="@ + lon,
        "-GPSLongitudeRef="@ + lon,
        "-q"@,
        target,
    ]
}

/// The arguments that render `overlay`, scaled to `base`, on top of `base`
/// and write the result to `output`. For a video the overlay is shown for as
/// long as the video lasts and the sound is copied as it is; for an image
/// one frame is written.
pub open spec fn compositor_arguments(
    base: Seq<char>,
    overlay: Seq<char>,
    output: Seq<char>,
    video: bool,
) -> Seq<Seq<char>> {
    let head = seq!["-y"@, "-loglevel"@, "error"@, "-i"@, base];
    let filter = seq![
        "-filter_complex"@,
        "[1:v][0:v]scale=rw:rh[ol];[0:v][ol]overlay=0:0"@,
    ];
    if video {
        head + seq!["-loop"@, "1"@, "-i"@, overlay, "-shortest"@] + filter + seq![
            "-c:a"@,
            "copy"@,
            output,
        ]
    } else {
        head + seq!["-i"@, overlay] + filter + seq![
            "-pix_fmt"@,
            "yuvj420p"@,
            "-update"@,
            "1"@,
            "-frames:v"@,
            "1"@,
            output,
        ]
    }
}

fn put(arguments: &mut Vec<String>, text: &str)
    ensures
        texts(final(arguments)@) == texts(old(arguments)@).push(text@),
{
    arguments.push(String::from_str(text));
}

fn put_pair(arguments: &mut Vec<String>, key: &str, value: &str)
    ensures
        texts(final(arguments)@) == texts(old(arguments)@).push(key@ + value@),
{
    arguments.push(String::from_str(key).concat(value));
}

/// The call of the metadata writer that stamps `target`.
pub fn metadata_writer(date: &str, lat: &str, lon: &str, target: &str) -> (r: Invocation)
    ensures
        r.program@ == "exiftool"@,
        texts(r.arguments@) == metadata_arguments(date@, lat@, lon@, target@),
{
    let mut arguments: Vec<String> = Vec::new();
    put(&mut arguments, "-overwrite_original");
    put_pair(&mut arguments, "-DateTimeOriginal=", date);
    put_pair(&mut arguments, "-GPSLatitude=", lat);
    put_pair(&mut arguments, "-GPSLatitudeRef=", lat);
    put_pair(&mut arguments, "-GPSLongitude=", lon);
    put_pair(&mut arguments, "-GPSLongitudeRef=", lon);
    put(&mut arguments, "-q");
    put(&mut arguments, target);
    Invocation { program: String::from_str("exiftool"), arguments }
}

/// The call of the compositor that renders `overlay` on top of `base` into
/// `output`.
pub fn compositor(base: &str, overlay: &str, output: &str, video: bool) -> (r: Invocation)
    ensures
        r.program@ == "ffmpeg"@,
        texts(r.arguments@) == compositor_arguments(base@, overlay@, output@, video),
{
    let mut arguments: Vec<String> = Vec::new();
    put(&mut arguments, "-y");
    put(&mut arguments, "-loglevel");
    put(&mut arguments, "error");
    put(&mut arguments, "-i");
    put(&mut arguments, base);
    if video {
        put(&mut arguments, "-loop");
        put(&mut arguments, "1");
    }
    put(&mut arguments, "-i");
    put(&mut arguments, overlay);
    if video {
        put(&mut arguments, "-shortest");
    }
    put(&mut arguments, "-filter_complex");
    put(&mut arguments, "[1:v][0:v]scale=rw:rh[ol];[0:v][ol]overlay=0:0");
    if video {
        put(&mut arguments, "-c:a");
        put(&mut arguments, "copy");
    } else {
        put(&mut arguments, "-pix_fmt");
        put(&mut arguments, "yuvj420p");
        put(&mut arguments, "-update");
        put(&mut arguments, "1");
        put(&mut arguments, "-frames:v");
        put(&mut arguments, "1");
    }
    put(&mut arguments, output);
    Invocation { program: String::from_str("ffmpeg"), arguments }
}

} // verus!
