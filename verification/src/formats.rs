//! Audio container formats: which parser handles which extension, and the
//! readers of the DSD containers (DSDIFF `.dff` and DSF `.dsf`) over the
//! bytes of a file. Tags read through an audio tagging library, durations
//! in floating point and file timestamps are the caller's business.
use vstd::prelude::*;
use crate::protocol::bytes::{be16, be32, be64, le32, le64, read_be16, read_be32, read_be64, read_le32, read_le64};
use crate::protocol::messages::tag4;
use crate::text::{
    decimal, eq_ignore_ascii_case_spec, push_decimal, str_eq, str_eq_ignore_ascii_case, string_from_chars,
    to_lowercase, unicode_lowercase,
};

verus! {

// ---------------------------------------------------------------------------
// Parsers by extension
// ---------------------------------------------------------------------------

/// The audio formats the library has a parser for.
#[derive(Debug, Clone, Copy, PartialEq, Eq, Structural)]
pub enum FormatKind {
    Mp3,
    Flac,
    Wav,
    Aiff,
    M4a,
    Ogg,
    Opus,
    Wma,
    Ape,
    WavPack,
    Dsf,
    Dff,
}

/// The parser for an extension already in lower case.
pub open spec fn parser_for(ext: Seq<char>) -> Option<FormatKind> {
    if ext == "mp3"@ {
        Some(FormatKind::Mp3)
    } else if ext == "flac"@ {
        Some(FormatKind::Flac)
    } else if ext == "wav"@ {
        Some(FormatKind::Wav)
    } else if ext == "aiff"@ || ext == "aif"@ || ext == "aifc"@ {
        Some(FormatKind::Aiff)
    } else if ext == "m4a"@ || ext == "aac"@ || ext == "mp4"@ || ext == "alac"@ {
        Some(FormatKind::M4a)
    } else if ext == "ogg"@ {
        Some(FormatKind::Ogg)
    } else if ext == "opus"@ {
        Some(FormatKind::Opus)
    } else if ext == "wma"@ {
        Some(FormatKind::Wma)
    } else if ext == "ape"@ {
        Some(FormatKind::Ape)
    } else if ext == "wv"@ {
        Some(FormatKind::WavPack)
    } else if ext == "dsf"@ {
        Some(FormatKind::Dsf)
    } else if ext == "dff"@ {
        Some(FormatKind::Dff)
    } else {
        None
    }
}

/// The parser for a lower-case extension.
pub fn parser_for_lowercase(ext: &str) -> (r: Option<FormatKind>)
    ensures
        r == parser_for(ext@),
{
    if str_eq(ext, "mp3") {
        Some(FormatKind::Mp3)
    } else if str_eq(ext, "flac") {
        Some(FormatKind::Flac)
    } else if str_eq(ext, "wav") {
        Some(FormatKind::Wav)
    } else if str_eq(ext, "aiff") || str_eq(ext, "aif") || str_eq(ext, "aifc") {
        Some(FormatKind::Aiff)
    } else if str_eq(ext, "m4a") || str_eq(ext, "aac") || str_eq(ext, "mp4") || str_eq(ext, "alac") {
        Some(FormatKind::M4a)
    } else if str_eq(ext, "ogg") {
        Some(FormatKind::Ogg)
    } else if str_eq(ext, "opus") {
        Some(FormatKind::Opus)
    } else if str_eq(ext, "wma") {
        Some(FormatKind::Wma)
    } else if str_eq(ext, "ape") {
        Some(FormatKind::Ape)
    } else if str_eq(ext, "wv") {
        Some(FormatKind::WavPack)
    } else if str_eq(ext, "dsf") {
        Some(FormatKind::Dsf)
    } else if str_eq(ext, "dff") {
        Some(FormatKind::Dff)
    } else {
        None
    }
}

/// The parser for a file extension, compared in lower case.
pub fn get_parser(ext: &str) -> (r: Option<FormatKind>)
    ensures
        r == parser_for(unicode_lowercase(ext@)),
{
    let lower = to_lowercase(ext);
    parser_for_lowercase(lower.as_str())
}

/// The parser for a file, by its extension (none counts as empty); an
/// extension no parser takes is "Unsupported format: {ext}".
pub fn parser_for_file(path: &str) -> (r: Result<FormatKind, String>)
    ensures
        ({
            let ext = match crate::transcode::path_extension(path@) {
                Some(e) => e,
                None => Seq::<char>::empty(),
            };
            match parser_for(unicode_lowercase(ext)) {
                Some(k) => r == Ok::<FormatKind, String>(k),
                None => r matches Err(m) && m@ == "Unsupported format: "@ + ext,
            }
        }),
{
    let ext = match crate::transcode::extension_of(path) {
        Some(e) => e,
        None => String::new(),
    };
    match get_parser(ext.as_str()) {
        Some(k) => Ok(k),
        None => Err(crate::plugins::concat_str("Unsupported format: ", ext.as_str())),
    }
}

/// The DSDIFF parser.
pub struct DffParser;

/// The DSF parser.
pub struct DsfParser;

/// The M4A/AAC/ALAC parser.
pub struct M4aParser;

/// The WMA parser.
pub struct WmaParser;

impl DffParser {
    /// `dff`, in any ASCII case.
    pub fn supports_extension(&self, ext: &str) -> (r: bool)
        ensures
            r == eq_ignore_ascii_case_spec(ext@, "dff"@),
    {
        str_eq_ignore_ascii_case(ext, "dff")
    }
}

impl DsfParser {
    /// `dsf`, in any ASCII case.
    pub fn supports_extension(&self, ext: &str) -> (r: bool)
        ensures
            r == eq_ignore_ascii_case_spec(ext@, "dsf"@),
    {
        str_eq_ignore_ascii_case(ext, "dsf")
    }
}

impl WmaParser {
    /// `wma`, in any ASCII case.
    pub fn supports_extension(&self, ext: &str) -> (r: bool)
        ensures
            r == eq_ignore_ascii_case_spec(ext@, "wma"@),
    {
        str_eq_ignore_ascii_case(ext, "wma")
    }
}

impl M4aParser {
    /// `m4a`, `aac`, `mp4` or `alac`, compared in lower case.
    pub fn supports_extension(&self, ext: &str) -> (r: bool)
        ensures
            r == ({
                let l = unicode_lowercase(ext@);
                l == "m4a"@ || l == "aac"@ || l == "mp4"@ || l == "alac"@
            }),
    {
        let lower = to_lowercase(ext);
        let l = lower.as_str();
        str_eq(l, "m4a") || str_eq(l, "aac") || str_eq(l, "mp4") || str_eq(l, "alac")
    }
}

// ---------------------------------------------------------------------------
// Errors
// ---------------------------------------------------------------------------

/// Why a container could not be read.
#[derive(Debug, Clone, Copy, PartialEq, Eq, Structural)]
pub enum FormatError {
    /// No `FRM8` at the start.
    NotDff,
    /// No `DSD ` form type after the `FRM8` header.
    NotDsdiff,
    /// No `DSD ` at the start.
    NotDsf,
    /// No `fmt ` chunk after the DSF header.
    InvalidFmtChunk,
    /// The file ended inside a field that had to be read.
    UnexpectedEof,
    /// A seek to a position past the largest file offset.
    InvalidSeek,
    /// The chunk sizes lead back to a chunk already read, so the walk
    /// would go round for ever.
    EndlessWalk,
    /// A size computation overflowed.
    Overflow,
}

impl FormatError {
    /// The text shown for the error.
    pub fn message(&self) -> (s: String)
        ensures
            s@ == format_error_text(*self),
    {
        match self {
            FormatError::NotDff => crate::text::string_of("Not a valid DFF file"),
            FormatError::NotDsdiff => crate::text::string_of("Not a valid DSDIFF file"),
            FormatError::NotDsf => crate::text::string_of("Not a valid DSF file"),
            FormatError::InvalidFmtChunk => crate::text::string_of("Invalid DSF format chunk"),
            FormatError::UnexpectedEof => crate::text::string_of("failed to fill whole buffer"),
            FormatError::InvalidSeek => crate::text::string_of("invalid seek to a negative or overflowing position"),
            FormatError::EndlessWalk => crate::text::string_of("chunk sizes lead back to a chunk already read"),
            FormatError::Overflow => crate::text::string_of("chunk size overflow"),
        }
    }
}

pub open spec fn format_error_text(e: FormatError) -> Seq<char> {
    match e {
        FormatError::NotDff => "Not a valid DFF file"@,
        FormatError::NotDsdiff => "Not a valid DSDIFF file"@,
        FormatError::NotDsf => "Not a valid DSF file"@,
        FormatError::InvalidFmtChunk => "Invalid DSF format chunk"@,
        FormatError::UnexpectedEof => "failed to fill whole buffer"@,
        FormatError::InvalidSeek => "invalid seek to a negative or overflowing position"@,
        FormatError::EndlessWalk => "chunk sizes lead back to a chunk already read"@,
        FormatError::Overflow => "chunk size overflow"@,
    }
}

// ---------------------------------------------------------------------------
// DSDIFF
// ---------------------------------------------------------------------------

/// What a DSDIFF file says of itself.
pub struct DffFields {
    pub sample_rate: u32,
    pub channels: u16,
    pub sample_count: u64,
    pub title: Option<Seq<char>>,
    pub artist: Option<Seq<char>>,
}

/// Where the chunk walk is: among the top-level chunks at a position, or
/// inside a sound property chunk at a position, up to its end; with the
/// positions of the top-level chunks read so far, and of the sub-chunks
/// read so far in the current sound property chunk.
pub enum DffWalk {
    Chunks(int, DffFields, Set<int>),
    Sound(int, int, DffFields, Set<int>, Set<int>),
}

/// The largest file offset.
pub open spec fn max_offset() -> int {
    0x7fff_ffff_ffff_ffff
}

/// Seeking from `pos` by a chunk size read as a signed 64-bit offset (a
/// size above `i64::MAX` moves backwards); a position below zero or past
/// the largest file offset is refused.
pub open spec fn seek_spec(pos: int, size: int) -> Result<int, FormatError> {
    let off = if size > max_offset() {
        size - 0x1_0000_0000_0000_0000
    } else {
        size
    };
    if pos + off < 0 || pos + off > max_offset() {
        Err(FormatError::InvalidSeek)
    } else {
        Ok(pos + off)
    }
}

/// `s` without trailing NUL characters.
pub open spec fn trim_nul(s: Seq<char>) -> Seq<char>
    decreases s.len(),
{
    if s.len() > 0 && s.last() == '\0' {
        trim_nul(s.drop_last())
    } else {
        s
    }
}

/// The text of a metadata chunk: its bytes as UTF-8 without trailing NULs,
/// where they are valid UTF-8.
pub open spec fn chunk_text(bytes: Seq<u8>) -> Option<Seq<char>> {
    if vstd::utf8::valid_utf8(bytes) {
        Some(trim_nul(vstd::utf8::decode_utf8(bytes)))
    } else {
        None
    }
}

/// The positions are all offsets in the data, finitely many.
pub open spec fn seen_in(seen: Set<int>, len: int) -> bool {
    seen.finite() && forall|x: int| #[trigger] seen.contains(x) ==> 0 <= x < len
}

/// The walk's position sets are positions in the data.
pub open spec fn walk_ok(len: int, w: DffWalk) -> bool {
    match w {
        DffWalk::Chunks(_, _, c) => seen_in(c, len),
        DffWalk::Sound(_, _, _, c, s) => seen_in(c, len) && seen_in(s, len),
    }
}

/// The top-level chunk positions not yet read.
pub open spec fn dff_rank_chunks(len: int, w: DffWalk) -> int {
    match w {
        DffWalk::Chunks(_, _, c) => len - c.len(),
        DffWalk::Sound(_, _, _, c, _) => len - c.len(),
    }
}

/// One inside a sound property chunk, none among the top-level chunks.
pub open spec fn dff_rank_mode(w: DffWalk) -> int {
    match w {
        DffWalk::Chunks(..) => 0,
        DffWalk::Sound(..) => 1,
    }
}

/// The sub-chunk positions not yet read in the current sound property chunk.
pub open spec fn dff_rank_sound(len: int, w: DffWalk) -> int {
    match w {
        DffWalk::Chunks(..) => 0,
        DffWalk::Sound(_, _, _, _, s) => len - s.len(),
    }
}

/// Adding a new position of the data keeps the set among the data's
/// positions and makes it one larger, at most as large as the data.
pub proof fn lemma_seen_insert(seen: Set<int>, len: int, pos: int)
    requires
        seen_in(seen, len),
        0 <= pos < len,
        !seen.contains(pos),
    ensures
        seen_in(seen.insert(pos), len),
        seen.insert(pos).len() == seen.len() + 1,
        seen.insert(pos).len() <= len,
{
    vstd::set_lib::lemma_int_range(0, len);
    assert(seen.insert(pos).subset_of(vstd::set_lib::set_int_range(0, len)));
    vstd::set_lib::lemma_len_subset(seen.insert(pos), vstd::set_lib::set_int_range(0, len));
}

/// A set among the data's positions is no larger than the data.
pub proof fn lemma_seen_bound(seen: Set<int>, len: int)
    requires
        seen_in(seen, len),
        0 <= len,
    ensures
        seen.len() <= len,
{
    vstd::set_lib::lemma_int_range(0, len);
    assert(seen.subset_of(vstd::set_lib::set_int_range(0, len)));
    vstd::set_lib::lemma_len_subset(seen, vstd::set_lib::set_int_range(0, len));
}

/// The fields after one top-level chunk whose text has been read.
pub open spec fn with_text(f: DffFields, id: Seq<u8>, text: Option<Seq<char>>) -> DffFields {
    match text {
        Some(t) => if id == tag4('D', 'I', 'T', 'I') && t.len() > 0 {
            DffFields { title: Some(t), ..f }
        } else if id == tag4('D', 'I', 'A', 'R') && t.len() > 0 {
            DffFields { artist: Some(t), ..f }
        } else {
            f
        },
        None => f,
    }
}

/// The chunk walk of a DSDIFF file from a position: `FVER` and unknown
/// chunks are skipped; a `PROP` chunk of type `SND ` is entered and its
/// `FS  `, `CHNL` and `CMPR` sub-chunks read; `DSD ` gives the sample
/// count; `DITI` and `DIAR` give title and artist (from at most their
/// first 1024 bytes). A size may move the walk backwards. The walk ends
/// where no further chunk header fits; coming back to a chunk already read
/// means it would never end.
pub open spec fn dff_walk(data: Seq<u8>, w: DffWalk) -> Result<DffFields, FormatError>
    decreases dff_rank_chunks(data.len() as int, w), dff_rank_mode(w), dff_rank_sound(data.len() as int, w)
        when walk_ok(data.len() as int, w)
{
    match w {
        DffWalk::Chunks(pos, f, c) => {
            if pos < 0 || pos + 12 > data.len() {
                Ok(f)
            } else if c.contains(pos) {
                Err(FormatError::EndlessWalk)
            } else {
                proof {
                    lemma_seen_insert(c, data.len() as int, pos);
                }
                let c2 = c.insert(pos);
                let id = data.subrange(pos, pos + 4);
                let size = be64(data, pos + 4) as int;
                let p = pos + 12;
                if id == tag4('P', 'R', 'O', 'P') {
                    if p + 4 > data.len() {
                        Err(FormatError::UnexpectedEof)
                    } else if data.subrange(p, p + 4) == tag4('S', 'N', 'D', ' ') {
                        if p + 4 + size > u64::MAX {
                            Err(FormatError::Overflow)
                        } else {
                            dff_walk(data, DffWalk::Sound(p + 4, p + size, f, c2, Set::empty()))
                        }
                    } else if size < 4 {
                        Err(FormatError::Overflow)
                    } else {
                        match seek_spec(p + 4, size - 4) {
                            Ok(np) => dff_walk(data, DffWalk::Chunks(np, f, c2)),
                            Err(e) => Err(e),
                        }
                    }
                } else if id == tag4('D', 'S', 'D', ' ') {
                    match seek_spec(p, size) {
                        Ok(np) => dff_walk(
                            data,
                            DffWalk::Chunks(np, DffFields { sample_count: size as u64, ..f }, c2),
                        ),
                        Err(e) => Err(e),
                    }
                } else if id == tag4('D', 'I', 'I', 'N') || id == tag4('D', 'I', 'T', 'I') || id == tag4(
                    'D',
                    'I',
                    'A',
                    'R',
                ) {
                    let n = if size < 1024 {
                        size
                    } else {
                        1024
                    };
                    if p + n > data.len() {
                        Err(FormatError::UnexpectedEof)
                    } else {
                        let f2 = with_text(f, id, chunk_text(data.subrange(p, p + n)));
                        if size > 1024 {
                            match seek_spec(p + n, size - 1024) {
                                Ok(np) => dff_walk(data, DffWalk::Chunks(np, f2, c2)),
                                Err(e) => Err(e),
                            }
                        } else {
                            dff_walk(data, DffWalk::Chunks(p + n, f2, c2))
                        }
                    }
                } else {
                    match seek_spec(p, size) {
                        Ok(np) => dff_walk(data, DffWalk::Chunks(np, f, c2)),
                        Err(e) => Err(e),
                    }
                }
            }
        },
        DffWalk::Sound(pos, end, f, c, sn) => {
            if pos >= end {
                dff_walk(data, DffWalk::Chunks(pos, f, c))
            } else if pos < 0 || pos + 12 > data.len() {
                Ok(f)
            } else if sn.contains(pos) {
                Err(FormatError::EndlessWalk)
            } else {
                proof {
                    lemma_seen_insert(sn, data.len() as int, pos);
                }
                let sn2 = sn.insert(pos);
                let id = data.subrange(pos, pos + 4);
                let size = be64(data, pos + 4) as int;
                let p = pos + 12;
                if id == tag4('F', 'S', ' ', ' ') || id == tag4('C', 'M', 'P', 'R') {
                    if p + 4 > data.len() {
                        Err(FormatError::UnexpectedEof)
                    } else if size < 4 {
                        Err(FormatError::Overflow)
                    } else {
                        let f2 = if id == tag4('F', 'S', ' ', ' ') {
                            DffFields { sample_rate: be32(data, p) as u32, ..f }
                        } else {
                            f
                        };
                        match seek_spec(p + 4, size - 4) {
                            Ok(np) => dff_walk(data, DffWalk::Sound(np, end, f2, c, sn2)),
                            Err(e) => Err(e),
                        }
                    }
                } else if id == tag4('C', 'H', 'N', 'L') {
                    if p + 2 > data.len() {
                        Err(FormatError::UnexpectedEof)
                    } else if size < 2 {
                        Err(FormatError::Overflow)
                    } else {
                        match seek_spec(p + 2, size - 2) {
                            Ok(np) => dff_walk(
                                data,
                                DffWalk::Sound(np, end, DffFields { channels: be16(data, p) as u16, ..f }, c, sn2),
                            ),
                            Err(e) => Err(e),
                        }
                    }
                } else {
                    match seek_spec(p, size) {
                        Ok(np) => dff_walk(data, DffWalk::Sound(np, end, f, c, sn2)),
                        Err(e) => Err(e),
                    }
                }
            }
        },
    }
}

/// The fields of a file that has said nothing yet.
pub open spec fn empty_fields() -> DffFields {
    DffFields { sample_rate: 0, channels: 0, sample_count: 0, title: None, artist: None }
}

/// Reading a DSDIFF file: a 12-byte `FRM8` header, the form type `DSD `,
/// then the chunk walk from offset 16.
pub open spec fn dff_spec(data: Seq<u8>) -> Result<DffFields, FormatError> {
    if data.len() < 12 {
        Err(FormatError::UnexpectedEof)
    } else if data.subrange(0, 4) != tag4('F', 'R', 'M', '8') {
        Err(FormatError::NotDff)
    } else if data.len() < 16 {
        Err(FormatError::UnexpectedEof)
    } else if data.subrange(12, 16) != tag4('D', 'S', 'D', ' ') {
        Err(FormatError::NotDsdiff)
    } else {
        dff_walk(data, DffWalk::Chunks(16, empty_fields(), Set::empty()))
    }
}

/// What a DSDIFF file says of itself, with text fields as strings.
#[derive(Debug)]
pub struct DffInfo {
    pub sample_rate: u32,
    pub channels: u16,
    pub sample_count: u64,
    pub title: Option<String>,
    pub artist: Option<String>,
}

pub open spec fn opt_view(o: Option<String>) -> Option<Seq<char>> {
    match o {
        Some(s) => Some(s@),
        None => None,
    }
}

pub open spec fn dff_info_view(i: DffInfo) -> DffFields {
    DffFields {
        sample_rate: i.sample_rate,
        channels: i.channels,
        sample_count: i.sample_count,
        title: opt_view(i.title),
        artist: opt_view(i.artist),
    }
}

/// The bytes as a string, where they are valid UTF-8 (`String::from_utf8`).
#[verifier::external_body]
fn utf8_decode(bytes: &[u8]) -> (r: Option<String>)
    ensures
        r is Some <==> vstd::utf8::valid_utf8(bytes@),
        r matches Some(s) ==> s@ == vstd::utf8::decode_utf8(bytes@),
{
    String::from_utf8(bytes.to_vec()).ok()
}

/// The text of a metadata chunk's bytes.
pub fn decode_chunk_text(bytes: &[u8]) -> (r: Option<String>)
    ensures
        opt_view(r) == chunk_text(bytes@),
{
    match utf8_decode(bytes) {
        Some(s) => {
            let c = crate::text::chars_of(s.as_str());
            let mut n = c.len();
            assert(c@.take(n as int) =~= c@);
            while n > 0 && c[n - 1] == '\0'
                invariant
                    n <= c@.len(),
                    trim_nul(c@) == trim_nul(c@.take(n as int)),
                decreases n,
            {
                assert(c@.take(n as int).drop_last() =~= c@.take(n - 1));
                n = n - 1;
            }
            assert(trim_nul(c@.take(n as int)) == c@.take(n as int));
            Some(string_from_chars(vstd::slice::slice_subrange(c.as_slice(), 0, n)))
        },
        None => None,
    }
}

fn is_id(data: &[u8], pos: usize, a: char, b: char, c: char, d: char) -> (r: bool)
    requires
        pos + 4 <= data@.len(),
        (a as u32) < 128,
        (b as u32) < 128,
        (c as u32) < 128,
        (d as u32) < 128,
    ensures
        r == (data@.subrange(pos as int, pos + 4) == tag4(a, b, c, d)),
{
    assert(data@.len() == data.len());
    let r = data[pos] == a as u8 && data[pos + 1] == b as u8 && data[pos + 2] == c as u8 && data[pos + 3] == d as u8;
    if r {
        assert(data@.subrange(pos as int, pos + 4) =~= tag4(a, b, c, d));
    } else {
        assert(data@.subrange(pos as int, pos + 4)[0] != tag4(a, b, c, d)[0] || data@.subrange(pos as int, pos + 4)[1]
            != tag4(a, b, c, d)[1] || data@.subrange(pos as int, pos + 4)[2] != tag4(a, b, c, d)[2] || data@.subrange(
            pos as int,
            pos + 4,
        )[3] != tag4(a, b, c, d)[3]);
    }
    r
}

fn seek_exec(pos: u64, size: u64) -> (r: Result<u64, FormatError>)
    ensures
        match seek_spec(pos as int, size as int) {
            Ok(np) => r matches Ok(q) && q as int == np,
            Err(e) => r == Err::<u64, FormatError>(e),
        },
{
    if size > 0x7fff_ffff_ffff_ffff {
        let back: u64 = (u64::MAX - size) + 1;
        if back > pos || pos - back > 0x7fff_ffff_ffff_ffff {
            Err(FormatError::InvalidSeek)
        } else {
            Ok(pos - back)
        }
    } else if pos > 0x7fff_ffff_ffff_ffff - size {
        Err(FormatError::InvalidSeek)
    } else {
        Ok(pos + size)
    }
}

/// `x` is one of the positions listed in `v`.
pub open spec fn listed(v: Seq<u64>, x: int) -> bool {
    exists|i: int| 0 <= i < v.len() && v[i] as int == x
}

proof fn lemma_listed_push(v: Seq<u64>, a: u64)
    ensures
        forall|x: int| #[trigger] listed(v.push(a), x) == (listed(v, x) || x == a as int),
{
    assert forall|x: int| #[trigger] listed(v.push(a), x) == (listed(v, x) || x == a as int) by {
        if listed(v.push(a), x) {
            let i = choose|i: int| 0 <= i < v.push(a).len() && v.push(a)[i] as int == x;
            if i < v.len() {
                assert(v[i] == v.push(a)[i]);
            }
        }
        if listed(v, x) {
            let i = choose|i: int| 0 <= i < v.len() && v[i] as int == x;
            assert(v.push(a)[i] == v[i]);
        }
        if x == a as int {
            assert(v.push(a)[v.len() as int] == a);
        }
    }
}

/// Whether `x` is listed in `v`.
fn is_listed(v: &Vec<u64>, x: u64) -> (r: bool)
    ensures
        r == listed(v@, x as int),
{
    let mut i: usize = 0;
    while i < v.len()
        invariant
            i <= v@.len(),
            forall|j: int| 0 <= j < i ==> v@[j] != x,
        decreases v@.len() - i,
    {
        if v[i] == x {
            return true;
        }
        i = i + 1;
    }
    false
}

/// Whether `n` bytes can be read at `pos`.
fn fits(pos: u64, n: u64, len: usize) -> (r: bool)
    ensures
        r == (pos + n <= len),
{
    (pos as u128) + (n as u128) <= len as u128
}

/// The walk state of `parse_dff`.
pub open spec fn walk_at(
    in_sound: bool,
    pos: u64,
    end: u64,
    info: DffInfo,
    gc: Set<int>,
    gs: Set<int>,
) -> DffWalk {
    if in_sound {
        DffWalk::Sound(pos as int, end as int, dff_info_view(info), gc, gs)
    } else {
        DffWalk::Chunks(pos as int, dff_info_view(info), gc)
    }
}

/// Reads a DSDIFF file.
pub fn parse_dff(data: &[u8]) -> (r: Result<DffInfo, FormatError>)
    ensures
        match dff_spec(data@) {
            Ok(f) => r matches Ok(info) && dff_info_view(info) == f,
            Err(e) => r matches Err(x) && x == e,
        },
{
    assert(data@.len() == data.len());
    if data.len() < 12 {
        return Err(FormatError::UnexpectedEof);
    }
    if !is_id(data, 0, 'F', 'R', 'M', '8') {
        return Err(FormatError::NotDff);
    }
    if data.len() < 16 {
        return Err(FormatError::UnexpectedEof);
    }
    if !is_id(data, 12, 'D', 'S', 'D', ' ') {
        return Err(FormatError::NotDsdiff);
    }
    let mut info = DffInfo { sample_rate: 0, channels: 0, sample_count: 0, title: None, artist: None };
    let mut pos: u64 = 16;
    let mut in_sound = false;
    let mut end: u64 = 0;
    let mut seen_c: Vec<u64> = Vec::new();
    let mut seen_s: Vec<u64> = Vec::new();
    let ghost mut gc: Set<int> = Set::empty();
    let ghost mut gs: Set<int> = Set::empty();
    let ghost goal = dff_spec(data@);
    let ghost len = data@.len() as int;
    assert(dff_info_view(info) == empty_fields());
    loop
        invariant
            data@.len() == data.len(),
            len == data@.len(),
            goal == dff_spec(data@),
            seen_in(gc, len),
            seen_in(gs, len),
            gc.len() <= len,
            gs.len() <= len,
            forall|x: int| #[trigger] gc.contains(x) == listed(seen_c@, x),
            forall|x: int| #[trigger] gs.contains(x) == listed(seen_s@, x),
            goal == dff_walk(data@, walk_at(in_sound, pos, end, info, gc, gs)),
        decreases
            dff_rank_chunks(len, walk_at(in_sound, pos, end, info, gc, gs)),
            dff_rank_mode(walk_at(in_sound, pos, end, info, gc, gs)),
            dff_rank_sound(len, walk_at(in_sound, pos, end, info, gc, gs)),
    {
        if in_sound {
            if pos >= end {
                in_sound = false;
                continue;
            }
            if !fits(pos, 12, data.len()) {
                return Ok(info);
            }
            if is_listed(&seen_s, pos) {
                return Err(FormatError::EndlessWalk);
            }
            proof {
                lemma_seen_insert(gs, len, pos as int);
                lemma_listed_push(seen_s@, pos);
                gs = gs.insert(pos as int);
            }
            seen_s.push(pos);
            let p = pos as usize;
            let size = read_be64(data, p + 4);
            let q = p + 12;
            if is_id(data, p, 'F', 'S', ' ', ' ') || is_id(data, p, 'C', 'M', 'P', 'R') {
                if !fits(q as u64, 4, data.len()) {
                    return Err(FormatError::UnexpectedEof);
                }
                if size < 4 {
                    return Err(FormatError::Overflow);
                }
                if is_id(data, p, 'F', 'S', ' ', ' ') {
                    info.sample_rate = read_be32(data, q);
                }
                match seek_exec((q + 4) as u64, size - 4) {
                    Ok(np) => {
                        pos = np;
                    },
                    Err(e) => {
                        return Err(e);
                    },
                }
            } else if is_id(data, p, 'C', 'H', 'N', 'L') {
                if !fits(q as u64, 2, data.len()) {
                    return Err(FormatError::UnexpectedEof);
                }
                if size < 2 {
                    return Err(FormatError::Overflow);
                }
                let ch = read_be16(data, q);
                match seek_exec((q + 2) as u64, size - 2) {
                    Ok(np) => {
                        info.channels = ch;
                        pos = np;
                    },
                    Err(e) => {
                        return Err(e);
                    },
                }
            } else {
                match seek_exec(q as u64, size) {
                    Ok(np) => {
                        pos = np;
                    },
                    Err(e) => {
                        return Err(e);
                    },
                }
            }
        } else {
            if !fits(pos, 12, data.len()) {
                return Ok(info);
            }
            if is_listed(&seen_c, pos) {
                return Err(FormatError::EndlessWalk);
            }
            proof {
                lemma_seen_insert(gc, len, pos as int);
                lemma_listed_push(seen_c@, pos);
                gc = gc.insert(pos as int);
            }
            seen_c.push(pos);
            let p = pos as usize;
            let size = read_be64(data, p + 4);
            let q = p + 12;
            if is_id(data, p, 'P', 'R', 'O', 'P') {
                if !fits(q as u64, 4, data.len()) {
                    return Err(FormatError::UnexpectedEof);
                }
                if is_id(data, q, 'S', 'N', 'D', ' ') {
                    if (q as u64) + 4 > u64::MAX - size {
                        return Err(FormatError::Overflow);
                    }
                    end = (q as u64) + size;
                    pos = (q as u64) + 4;
                    in_sound = true;
                    seen_s = Vec::new();
                    proof {
                        gs = Set::empty();
                    }
                } else if size < 4 {
                    return Err(FormatError::Overflow);
                } else {
                    match seek_exec((q + 4) as u64, size - 4) {
                        Ok(np) => {
                            pos = np;
                        },
                        Err(e) => {
                            return Err(e);
                        },
                    }
                }
            } else if is_id(data, p, 'D', 'S', 'D', ' ') {
                match seek_exec(q as u64, size) {
                    Ok(np) => {
                        info.sample_count = size;
                        pos = np;
                    },
                    Err(e) => {
                        return Err(e);
                    },
                }
            } else if is_id(data, p, 'D', 'I', 'I', 'N') || is_id(data, p, 'D', 'I', 'T', 'I') || is_id(
                data,
                p,
                'D',
                'I',
                'A',
                'R',
            ) {
                let n: u64 = if size < 1024 {
                    size
                } else {
                    1024
                };
                if !fits(q as u64, n, data.len()) {
                    return Err(FormatError::UnexpectedEof);
                }
                let nu = n as usize;
                let text = decode_chunk_text(vstd::slice::slice_subrange(data, q, q + nu));
                let ghost f0 = dff_info_view(info);
                let is_title = is_id(data, p, 'D', 'I', 'T', 'I');
                let is_artist = is_id(data, p, 'D', 'I', 'A', 'R');
                match text {
                    Some(t) => {
                        let nonempty = crate::text::chars_of(t.as_str()).len() > 0;
                        if is_title && nonempty {
                            info.title = Some(t);
                        } else if is_artist && nonempty {
                            info.artist = Some(t);
                        }
                    },
                    None => {},
                }
                assert(dff_info_view(info) == with_text(f0, data@.subrange(p as int, p + 4), chunk_text(
                    data@.subrange(q as int, q + nu),
                )));
                if size > 1024 {
                    match seek_exec((q + nu) as u64, size - 1024) {
                        Ok(np) => {
                            pos = np;
                        },
                        Err(e) => {
                            return Err(e);
                        },
                    }
                } else {
                    pos = (q + nu) as u64;
                }
            } else {
                match seek_exec(q as u64, size) {
                    Ok(np) => {
                        pos = np;
                    },
                    Err(e) => {
                        return Err(e);
                    },
                }
            }
        }
    }
}

/// `dff:dsd<n>`, where `n` is the sample rate in multiples of 44.1 kHz.
pub fn dsd_format_name(prefix: &str, sample_rate: u32) -> (r: String)
    ensures
        r@ == prefix@ + "dsd"@ + decimal((sample_rate / 44100) as nat),
{
    let mut v: Vec<char> = Vec::new();
    crate::plugins::push_str_chars(&mut v, prefix);
    crate::plugins::push_str_chars(&mut v, "dsd");
    push_decimal(&mut v, (sample_rate / 44100) as u64);
    string_from_chars(v.as_slice())
}

/// Approximate bitrate in kbit/s: rate times channels, in thousands; none
/// where the product does not fit in 32 bits.
pub fn bitrate_kbps(sample_rate: u32, channels: u32) -> (r: Option<u32>)
    ensures
        sample_rate * channels <= u32::MAX ==> r == Some(((sample_rate * channels) / 1000) as u32),
        sample_rate * channels > u32::MAX ==> r is None,
{
    match sample_rate.checked_mul(channels) {
        Some(p) => Some(p / 1000),
        None => None,
    }
}

// ---------------------------------------------------------------------------
// DSF
// ---------------------------------------------------------------------------

/// What a DSF header says: channel layout, channel count, sampling
/// frequency and sample count.
#[derive(Debug, Clone, Copy, PartialEq, Eq, Structural)]
pub struct DsfInfo {
    pub channel_type: u32,
    pub channel_num: u32,
    pub sampling_frequency: u32,
    pub sample_count: u64,
}

/// Reading a DSF file's header: `DSD ` at offset 0, a 28-byte header, then
/// a 52-byte `fmt ` chunk with the format fields at fixed offsets.
pub open spec fn dsf_spec(data: Seq<u8>) -> Result<DsfInfo, FormatError> {
    if data.len() < 28 {
        Err(FormatError::UnexpectedEof)
    } else if data.subrange(0, 4) != tag4('D', 'S', 'D', ' ') {
        Err(FormatError::NotDsf)
    } else if data.len() < 80 {
        Err(FormatError::UnexpectedEof)
    } else if data.subrange(28, 32) != tag4('f', 'm', 't', ' ') {
        Err(FormatError::InvalidFmtChunk)
    } else {
        Ok(
            DsfInfo {
                channel_type: le32(data, 48) as u32,
                channel_num: le32(data, 52) as u32,
                sampling_frequency: le32(data, 56) as u32,
                sample_count: le64(data, 64) as u64,
            },
        )
    }
}

/// Reads the header of a DSF file.
pub fn parse_dsf_header(data: &[u8]) -> (r: Result<DsfInfo, FormatError>)
    ensures
        r == dsf_spec(data@),
{
    assert(data@.len() == data.len());
    if data.len() < 28 {
        return Err(FormatError::UnexpectedEof);
    }
    if !is_id(data, 0, 'D', 'S', 'D', ' ') {
        return Err(FormatError::NotDsf);
    }
    if data.len() < 80 {
        return Err(FormatError::UnexpectedEof);
    }
    if !is_id(data, 28, 'f', 'm', 't', ' ') {
        return Err(FormatError::InvalidFmtChunk);
    }
    Ok(
        DsfInfo {
            channel_type: read_le32(data, 48),
            channel_num: read_le32(data, 52),
            sampling_frequency: read_le32(data, 56),
            sample_count: read_le64(data, 64),
        },
    )
}

/// The channel count a DSF channel layout stands for; an unknown layout
/// falls back to the stored channel number. Kept to its low 8 bits.
pub open spec fn dsf_channels_spec(channel_type: u32, channel_num: u32) -> u8 {
    let n: u32 = if 1 <= channel_type <= 4 {
        channel_type
    } else if channel_type == 5 {
        4
    } else if channel_type == 6 {
        5
    } else if channel_type == 7 {
        6
    } else {
        channel_num
    };
    (n % 256) as u8
}

impl DsfInfo {
    /// The number of channels.
    pub fn channels(&self) -> (r: u8)
        ensures
            r == dsf_channels_spec(self.channel_type, self.channel_num),
            1 <= self.channel_type <= 4 ==> r == self.channel_type,
    {
        let n: u32 = match self.channel_type {
            1 => 1,
            2 => 2,
            3 => 3,
            4 => 4,
            5 => 4,
            6 => 5,
            7 => 6,
            _ => self.channel_num,
        };
        (n % 256) as u8
    }
}


/// The channel layouts: layout types 1 (mono) to 4 have as many channels
/// as the type number, types 5, 6 and 7 have 4, 5 and 6 channels; for each
/// of these the channel count field plays no part. Any other type takes
/// the channel count field (as a byte).
pub proof fn lemma_dsf_channel_layouts(channel_type: u32, channel_num: u32, other_num: u32)
    ensures
        1 <= channel_type <= 4 ==> dsf_channels_spec(channel_type, channel_num) == channel_type,
        channel_type == 5 ==> dsf_channels_spec(channel_type, channel_num) == 4,
        channel_type == 6 ==> dsf_channels_spec(channel_type, channel_num) == 5,
        channel_type == 7 ==> dsf_channels_spec(channel_type, channel_num) == 6,
        1 <= channel_type <= 7 ==> dsf_channels_spec(channel_type, channel_num) == dsf_channels_spec(
            channel_type,
            other_num,
        ),
        !(1 <= channel_type <= 7) ==> dsf_channels_spec(channel_type, channel_num) == channel_num % 256,
{
}

} // verus!
