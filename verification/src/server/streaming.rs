//! How a track is streamed over HTTP: its target format, whether it must be
//! transcoded, and the content type of the response.
use vstd::prelude::*;
use crate::text::str_eq;
use crate::transcode::needs_transcoding;

verus! {

/// What a stream request may ask for: a target format.
#[derive(Debug)]
pub struct StreamParams {
    pub format: Option<String>,
}

/// How a track will be streamed.
#[derive(Debug)]
pub struct StreamPlan {
    pub target_format: String,
    pub transcode: bool,
}

/// The format asked for, or the file's own; transcoding where they differ.
pub fn plan_stream(source_format: &str, params: &StreamParams) -> (r: StreamPlan)
    ensures
        r.target_format@ == (match params.format {
            Some(f) => f@,
            None => source_format@,
        }),
        r.transcode == (source_format@ != r.target_format@),
{
    let target = match &params.format {
        Some(f) => f.clone(),
        None => crate::text::string_of(source_format),
    };
    let transcode = needs_transcoding(source_format, target.as_str());
    StreamPlan { target_format: target, transcode }
}

/// The content type of a file sent as it is.
pub open spec fn direct_content_type_spec(format: Seq<char>) -> Seq<char> {
    if format == "mp3"@ {
        "audio/mpeg"@
    } else if format == "flac"@ {
        "audio/flac"@
    } else if format == "wav"@ {
        "audio/wav"@
    } else if format == "m4a"@ || format == "aac"@ {
        "audio/aac"@
    } else if format == "ogg"@ {
        "audio/ogg"@
    } else {
        "application/octet-stream"@
    }
}

/// The content type of a file sent as it is.
pub fn direct_content_type(format: &str) -> (r: &'static str)
    ensures
        r@ == direct_content_type_spec(format@),
{
    if str_eq(format, "mp3") {
        "audio/mpeg"
    } else if str_eq(format, "flac") {
        "audio/flac"
    } else if str_eq(format, "wav") {
        "audio/wav"
    } else if str_eq(format, "m4a") || str_eq(format, "aac") {
        "audio/aac"
    } else if str_eq(format, "ogg") {
        "audio/ogg"
    } else {
        "application/octet-stream"
    }
}

/// The content type of a transcoded stream.
pub open spec fn transcoded_content_type_spec(format: Seq<char>) -> Seq<char> {
    if format == "mp3"@ {
        "audio/mpeg"@
    } else if format == "flac"@ {
        "audio/flac"@
    } else if format == "wav"@ {
        "audio/wav"@
    } else {
        "application/octet-stream"@
    }
}

/// The content type of a transcoded stream.
pub fn transcoded_content_type(format: &str) -> (r: &'static str)
    ensures
        r@ == transcoded_content_type_spec(format@),
{
    if str_eq(format, "mp3") {
        "audio/mpeg"
    } else if str_eq(format, "flac") {
        "audio/flac"
    } else if str_eq(format, "wav") {
        "audio/wav"
    } else {
        "application/octet-stream"
    }
}

} // verus!
