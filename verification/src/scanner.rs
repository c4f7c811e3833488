//! The library scanner's decisions: its command line, which files are
//! audio, the fingerprint of a file's metadata that tells whether it
//! changed, what to do with a file already in the database, and the rows
//! that link a track to its contributors.
use vstd::prelude::*;
use crate::db::roles;
use crate::plugins::push_str_chars;
use crate::text::{
    chars_of, decimal, has_prefix, parse_unsigned_spec, parse_usize, push_decimal, starts_with, str_eq, string_from_chars,
    string_of, strings_view, to_hex_lower, to_lowercase, unicode_lowercase, hex_lower,
};
use crate::transcode::{extension_of, path_extension};
use crate::protocol::bytes::{le32_bytes, le64_bytes, le16_bytes, push_le16, push_le32, push_le64};

verus! {

// ---------------------------------------------------------------------------
// Command line
// ---------------------------------------------------------------------------

/// What a scan is asked to do.
#[derive(Debug)]
pub struct ScanOptions {
    pub music_dir: String,
    pub db_path: String,
    pub force_rescan: bool,
    pub update_artwork_only: bool,
    pub progress_interval: usize,
}

/// Why a command line is refused.
#[derive(Debug)]
pub enum ArgsError {
    /// No music directory: the usage text is shown.
    Usage,
    /// `--database` without a path.
    DatabaseNeedsPath,
    /// `--progress` without a number.
    ProgressNeedsNumber,
    /// An option the scanner does not know.
    UnknownOption(String),
}

/// Options as plain values.
pub struct OptionsView {
    pub music_dir: Seq<char>,
    pub db_path: Seq<char>,
    pub force_rescan: bool,
    pub update_artwork_only: bool,
    pub progress_interval: usize,
}

/// A refusal as plain values.
pub enum ArgsErrorView {
    Usage,
    DatabaseNeedsPath,
    ProgressNeedsNumber,
    UnknownOption(Seq<char>),
}

pub open spec fn options_view(o: ScanOptions) -> OptionsView {
    OptionsView {
        music_dir: o.music_dir@,
        db_path: o.db_path@,
        force_rescan: o.force_rescan,
        update_artwork_only: o.update_artwork_only,
        progress_interval: o.progress_interval,
    }
}

pub open spec fn args_error_view(e: ArgsError) -> ArgsErrorView {
    match e {
        ArgsError::Usage => ArgsErrorView::Usage,
        ArgsError::DatabaseNeedsPath => ArgsErrorView::DatabaseNeedsPath,
        ArgsError::ProgressNeedsNumber => ArgsErrorView::ProgressNeedsNumber,
        ArgsError::UnknownOption(s) => ArgsErrorView::UnknownOption(s@),
    }
}

/// The options from argument `i` on, given those set so far.
pub open spec fn options_from(args: Seq<Seq<char>>, i: int, o: OptionsView) -> Result<OptionsView, ArgsErrorView>
    decreases args.len() - i,
{
    if i < 0 || i >= args.len() {
        Ok(o)
    } else if args[i] == "--database"@ {
        if i + 1 < args.len() {
            options_from(args, i + 2, OptionsView { db_path: args[i + 1], ..o })
        } else {
            Err(ArgsErrorView::DatabaseNeedsPath)
        }
    } else if args[i] == "--force-rescan"@ {
        options_from(args, i + 1, OptionsView { force_rescan: true, ..o })
    } else if args[i] == "--update-artwork"@ {
        options_from(args, i + 1, OptionsView { update_artwork_only: true, ..o })
    } else if args[i] == "--progress"@ {
        if i + 1 < args.len() {
            options_from(
                args,
                i + 2,
                OptionsView {
                    progress_interval: match parse_unsigned_spec(args[i + 1], usize::MAX as nat) {
                        Some(n) => n as usize,
                        None => 100,
                    },
                    ..o
                },
            )
        } else {
            Err(ArgsErrorView::ProgressNeedsNumber)
        }
    } else {
        Err(ArgsErrorView::UnknownOption(args[i]))
    }
}

/// The options of a command line (program name first): the music
/// directory, then options; the database defaults to `lyrion-rust.db` and
/// progress is shown every 100 files.
pub open spec fn args_spec(args: Seq<Seq<char>>) -> Result<OptionsView, ArgsErrorView> {
    if args.len() < 2 {
        Err(ArgsErrorView::Usage)
    } else {
        options_from(
            args,
            2,
            OptionsView {
                music_dir: args[1],
                db_path: "lyrion-rust.db"@,
                force_rescan: false,
                update_artwork_only: false,
                progress_interval: 100,
            },
        )
    }
}

impl ArgsError {
    /// The text shown for the refusal.
    pub fn message(&self) -> (r: String)
        ensures
            match *self {
                ArgsError::Usage => r@ == "Usage: lyrion-scanner <music_directory> [options]"@,
                ArgsError::DatabaseNeedsPath => r@ == "Error: --database requires a path"@,
                ArgsError::ProgressNeedsNumber => r@ == "Error: --progress requires a number"@,
                ArgsError::UnknownOption(o) => r@ == "Unknown option: "@ + o@,
            },
    {
        match self {
            ArgsError::Usage => string_of("Usage: lyrion-scanner <music_directory> [options]"),
            ArgsError::DatabaseNeedsPath => string_of("Error: --database requires a path"),
            ArgsError::ProgressNeedsNumber => string_of("Error: --progress requires a number"),
            ArgsError::UnknownOption(o) => crate::plugins::concat_str("Unknown option: ", o.as_str()),
        }
    }
}

/// Reads the scanner's command line.
pub fn parse_args(args: &[String]) -> (r: Result<ScanOptions, ArgsError>)
    ensures
        match args_spec(strings_view(args@)) {
            Ok(o) => r matches Ok(x) && options_view(x) == o,
            Err(e) => r matches Err(x) && args_error_view(x) == e,
        },
{
    let ghost av = strings_view(args@);
    if args.len() < 2 {
        return Err(ArgsError::Usage);
    }
    let mut o = ScanOptions {
        music_dir: args[1].clone(),
        db_path: string_of("lyrion-rust.db"),
        force_rescan: false,
        update_artwork_only: false,
        progress_interval: 100,
    };
    let mut i: usize = 2;
    while i < args.len()
        invariant
            av == strings_view(args@),
            2 <= i <= args@.len(),
            args_spec(av) == options_from(av, i as int, options_view(o)),
        decreases args@.len() - i,
    {
        let a = args[i].as_str();
        assert(av[i as int] == a@);
        if str_eq(a, "--database") {
            if i + 1 < args.len() {
                assert(av[i + 1] == args@[i + 1]@);
                o.db_path = args[i + 1].clone();
                i = i + 2;
            } else {
                return Err(ArgsError::DatabaseNeedsPath);
            }
        } else if str_eq(a, "--force-rescan") {
            o.force_rescan = true;
            i = i + 1;
        } else if str_eq(a, "--update-artwork") {
            o.update_artwork_only = true;
            i = i + 1;
        } else if str_eq(a, "--progress") {
            if i + 1 < args.len() {
                assert(av[i + 1] == args@[i + 1]@);
                o.progress_interval = match parse_usize(args[i + 1].as_str()) {
                    Some(n) => n,
                    None => 100,
                };
                i = i + 2;
            } else {
                return Err(ArgsError::ProgressNeedsNumber);
            }
        } else {
            return Err(ArgsError::UnknownOption(args[i].clone()));
        }
    }
    Ok(o)
}

/// Whether progress is reported after `processed` files; the interval
/// must not be zero.
pub fn report_progress(processed: usize, interval: usize) -> (r: bool)
    requires
        interval > 0,
    ensures
        r == (processed % interval == 0),
{
    processed % interval == 0
}

// ---------------------------------------------------------------------------
// Files
// ---------------------------------------------------------------------------

/// The extensions of audio files, in lower case.
pub open spec fn is_audio_ext(e: Seq<char>) -> bool {
    ||| e == "mp3"@
    ||| e == "flac"@
    ||| e == "m4a"@
    ||| e == "aac"@
    ||| e == "mp4"@
    ||| e == "alac"@
    ||| e == "ogg"@
    ||| e == "opus"@
    ||| e == "wav"@
    ||| e == "aiff"@
    ||| e == "aif"@
    ||| e == "aifc"@
    ||| e == "wma"@
    ||| e == "ape"@
    ||| e == "wv"@
    ||| e == "dsf"@
    ||| e == "dff"@
}

fn audio_ext(e: &str) -> (r: bool)
    ensures
        r == is_audio_ext(e@),
{
    str_eq(e, "mp3") || str_eq(e, "flac") || str_eq(e, "m4a") || str_eq(e, "aac") || str_eq(e, "mp4") || str_eq(
        e,
        "alac",
    ) || str_eq(e, "ogg") || str_eq(e, "opus") || str_eq(e, "wav") || str_eq(e, "aiff") || str_eq(e, "aif")
        || str_eq(e, "aifc") || str_eq(e, "wma") || str_eq(e, "ape") || str_eq(e, "wv") || str_eq(e, "dsf")
        || str_eq(e, "dff")
}

/// Whether a path names an audio file, by its extension in lower case.
pub fn is_audio_file(path: &str) -> (r: bool)
    ensures
        r == match path_extension(path@) {
            Some(e) => is_audio_ext(unicode_lowercase(e)),
            None => false,
        },
{
    match extension_of(path) {
        Some(e) => {
            let lower = to_lowercase(e.as_str());
            audio_ext(lower.as_str())
        },
        None => false,
    }
}

/// The names of cover-art files looked for beside an audio file, in order.
pub open spec fn cover_names_spec() -> Seq<Seq<char>> {
    seq![
        "cover.jpg"@,
        "cover.jpeg"@,
        "cover.png"@,
        "folder.jpg"@,
        "folder.jpeg"@,
        "folder.png"@,
        "front.jpg"@,
        "front.jpeg"@,
        "front.png"@,
        "Cover.jpg"@,
        "Cover.jpeg"@,
        "Folder.jpg"@,
    ]
}

/// The names of cover-art files, in the order they are tried.
pub fn cover_art_names() -> (r: Vec<&'static str>)
    ensures
        r@.map_values(|s: &str| s@) == cover_names_spec(),
{
    let v: Vec<&'static str> = vec![
        "cover.jpg",
        "cover.jpeg",
        "cover.png",
        "folder.jpg",
        "folder.jpeg",
        "folder.png",
        "front.jpg",
        "front.jpeg",
        "front.png",
        "Cover.jpg",
        "Cover.jpeg",
        "Folder.jpg",
    ];
    assert(v@.map_values(|s: &str| s@) =~= cover_names_spec());
    v
}

/// A cover file is used only below 5 MB.
pub fn cover_size_ok(len: usize) -> (r: bool)
    ensures
        r == (len < 5_000_000),
{
    len < 5_000_000
}

/// A scan's elapsed time: hours, minutes and seconds; below ten seconds,
/// seconds and tenths.
pub open spec fn duration_text(total_secs: u64, tenths: u32) -> Seq<char> {
    let h = total_secs / 3600;
    let m = (total_secs % 3600) / 60;
    let s = total_secs % 60;
    if h > 0 {
        decimal(h as nat) + "h "@ + decimal(m as nat) + "m "@ + decimal(s as nat) + "s"@
    } else if m > 0 {
        decimal(m as nat) + "m "@ + decimal(s as nat) + "s"@
    } else if s > 10 {
        decimal(s as nat) + "s"@
    } else {
        decimal(s as nat) + "."@ + decimal(tenths as nat) + "s"@
    }
}

/// The text of a scan's elapsed time, from whole seconds and tenths.
pub fn format_duration(total_secs: u64, tenths: u32) -> (r: String)
    ensures
        r@ == duration_text(total_secs, tenths),
{
    let h = total_secs / 3600;
    let m = (total_secs % 3600) / 60;
    let s = total_secs % 60;
    let mut v: Vec<char> = Vec::new();
    if h > 0 {
        push_decimal(&mut v, h);
        push_str_chars(&mut v, "h ");
        push_decimal(&mut v, m);
        push_str_chars(&mut v, "m ");
        push_decimal(&mut v, s);
        push_str_chars(&mut v, "s");
    } else if m > 0 {
        push_decimal(&mut v, m);
        push_str_chars(&mut v, "m ");
        push_decimal(&mut v, s);
        push_str_chars(&mut v, "s");
    } else if s > 10 {
        push_decimal(&mut v, s);
        push_str_chars(&mut v, "s");
    } else {
        push_decimal(&mut v, s);
        push_str_chars(&mut v, ".");
        push_decimal(&mut v, tenths as u64);
        push_str_chars(&mut v, "s");
    }
    string_from_chars(v.as_slice())
}

// ---------------------------------------------------------------------------
// Metadata fingerprint
// ---------------------------------------------------------------------------

/// The metadata fields that decide whether a file changed. The replay gain
/// is given by the bits of its 32-bit float; the cover by its size.
#[derive(Debug)]
pub struct HashFields {
    pub title: Option<String>,
    pub artist: Option<String>,
    pub album: Option<String>,
    pub year: Option<u32>,
    pub track_number: Option<u32>,
    pub disc_number: Option<u32>,
    pub genre: Option<String>,
    pub composer: Option<String>,
    pub conductor: Option<String>,
    pub bpm: Option<u16>,
    pub lyrics: Option<String>,
    pub musicbrainz_id: Option<String>,
    pub replay_gain_bits: Option<u32>,
    pub cover_size: Option<u64>,
}

pub open spec fn str_bytes_of(o: Option<String>) -> Seq<u8> {
    match o {
        Some(s) => vstd::utf8::encode_utf8(s@),
        None => Seq::empty(),
    }
}

/// The bytes fed to the hash: each field present, in order; text as UTF-8
/// (only the first 100 characters of the lyrics), numbers little-endian.
pub open spec fn hash_input(f: HashFields) -> Seq<u8> {
    str_bytes_of(f.title) + str_bytes_of(f.artist) + str_bytes_of(f.album) + (match f.year {
        Some(y) => le32_bytes(y),
        None => Seq::empty(),
    }) + (match f.track_number {
        Some(t) => le32_bytes(t),
        None => Seq::empty(),
    }) + (match f.disc_number {
        Some(d) => le32_bytes(d),
        None => Seq::empty(),
    }) + str_bytes_of(f.genre) + str_bytes_of(f.composer) + str_bytes_of(f.conductor) + (match f.bpm {
        Some(b) => le16_bytes(b),
        None => Seq::empty(),
    }) + (match f.lyrics {
        Some(l) => vstd::utf8::encode_utf8(if l@.len() > 100 { l@.take(100) } else { l@ }),
        None => Seq::empty(),
    }) + str_bytes_of(f.musicbrainz_id) + (match f.replay_gain_bits {
        Some(g) => le32_bytes(g),
        None => Seq::empty(),
    }) + (match f.cover_size {
        Some(c) => le64_bytes(c),
        None => Seq::empty(),
    })
}

fn push_opt_str(v: &mut Vec<u8>, o: &Option<String>)
    ensures
        final(v)@ == old(v)@ + str_bytes_of(*o),
{
    match o {
        Some(s) => {
            let b = crate::text::utf8_bytes(s.as_str());
            crate::protocol::bytes::push_all(v, b.as_slice());
        },
        None => {
            assert(old(v)@ + Seq::<u8>::empty() =~= old(v)@);
        },
    }
}

/// The bytes fed to the hash for a file's metadata.
pub fn metadata_hash_input(f: &HashFields) -> (r: Vec<u8>)
    ensures
        r@ == hash_input(*f),
{
    let mut v: Vec<u8> = Vec::new();
    push_opt_str(&mut v, &f.title);
    push_opt_str(&mut v, &f.artist);
    push_opt_str(&mut v, &f.album);
    let ghost a = v@;
    match f.year {
        Some(y) => push_le32(&mut v, y),
        None => {},
    }
    assert(v@ =~= a + match f.year {
        Some(y) => le32_bytes(y),
        None => Seq::<u8>::empty(),
    });
    let ghost b = v@;
    match f.track_number {
        Some(t) => push_le32(&mut v, t),
        None => {},
    }
    assert(v@ =~= b + match f.track_number {
        Some(t) => le32_bytes(t),
        None => Seq::<u8>::empty(),
    });
    let ghost c = v@;
    match f.disc_number {
        Some(d) => push_le32(&mut v, d),
        None => {},
    }
    assert(v@ =~= c + match f.disc_number {
        Some(d) => le32_bytes(d),
        None => Seq::<u8>::empty(),
    });
    push_opt_str(&mut v, &f.genre);
    push_opt_str(&mut v, &f.composer);
    push_opt_str(&mut v, &f.conductor);
    let ghost d = v@;
    match f.bpm {
        Some(x) => push_le16(&mut v, x),
        None => {},
    }
    assert(v@ =~= d + match f.bpm {
        Some(x) => le16_bytes(x),
        None => Seq::<u8>::empty(),
    });
    let ghost e = v@;
    match &f.lyrics {
        Some(l) => {
            let ch = chars_of(l.as_str());
            let n = if ch.len() > 100 { 100 } else { ch.len() };
            let first = string_from_chars(vstd::slice::slice_subrange(ch.as_slice(), 0, n));
            assert(ch@.len() <= 100 ==> ch@.subrange(0, n as int) =~= ch@);
            assert(ch@.len() > 100 ==> ch@.subrange(0, n as int) =~= ch@.take(100));
            let bytes = crate::text::utf8_bytes(first.as_str());
            crate::protocol::bytes::push_all(&mut v, bytes.as_slice());
        },
        None => {},
    }
    assert(v@ =~= e + match f.lyrics {
        Some(l) => vstd::utf8::encode_utf8(if l@.len() > 100 { l@.take(100) } else { l@ }),
        None => Seq::<u8>::empty(),
    });
    push_opt_str(&mut v, &f.musicbrainz_id);
    let ghost g = v@;
    match f.replay_gain_bits {
        Some(x) => push_le32(&mut v, x),
        None => {},
    }
    assert(v@ =~= g + match f.replay_gain_bits {
        Some(x) => le32_bytes(x),
        None => Seq::<u8>::empty(),
    });
    let ghost h = v@;
    match f.cover_size {
        Some(x) => push_le64(&mut v, x),
        None => {},
    }
    assert(v@ =~= h + match f.cover_size {
        Some(x) => le64_bytes(x),
        None => Seq::<u8>::empty(),
    });
    v
}

/// The SHA-256 digest of a byte sequence (32 bytes).
pub uninterp spec fn sha256(data: Seq<u8>) -> Seq<u8>;

/// SHA-256 of the bytes (`sha2::Sha256::digest`). Feeding the hasher
/// several pieces gives the digest of their concatenation, so one call on
/// the whole input stands for the updates one by one.
#[verifier::external_body]
fn sha256_digest(data: &[u8]) -> (r: Vec<u8>)
    ensures
        r@ == sha256(data@),
        r@.len() == 32,
{
    <sha2::Sha256 as sha2::Digest>::digest(data).to_vec()
}

/// The fingerprint of a file's metadata: the SHA-256 of its hash input in
/// lower-case hexadecimal.
pub fn compute_metadata_hash(f: &HashFields) -> (r: String)
    ensures
        r@ == hex_lower(sha256(hash_input(*f))),
{
    let input = metadata_hash_input(f);
    let digest = sha256_digest(input.as_slice());
    to_hex_lower(digest.as_slice())
}

// ---------------------------------------------------------------------------
// Processing decisions
// ---------------------------------------------------------------------------

/// How a file was handled.
#[derive(Debug, Clone, Copy, PartialEq, Eq, Structural)]
pub enum ProcessStatus {
    Created,
    Updated,
    Skipped,
}

/// What to do with a scanned file.
#[derive(Debug, Clone, Copy, PartialEq, Eq, Structural)]
pub enum ProcessDecision {
    /// Known and unchanged: leave it.
    SkipUnchanged,
    /// Known and changed, artwork-only mode: update its cover and fingerprint.
    UpdateArtwork(i64),
    /// Known and changed: delete the track and insert it afresh.
    Reinsert(i64),
    /// New, artwork-only mode: leave it.
    SkipNew,
    /// New: insert it.
    Insert,
}

/// The decision for a file, from its database row (id and stored
/// fingerprint) if it has one, and its current fingerprint.
pub open spec fn decide_spec(
    existing: Option<(i64, Option<Seq<char>>)>,
    hash: Seq<char>,
    force_rescan: bool,
    artwork_only: bool,
) -> ProcessDecision {
    match existing {
        Some((id, stored)) => if !force_rescan && stored == Some(hash) {
            ProcessDecision::SkipUnchanged
        } else if artwork_only {
            ProcessDecision::UpdateArtwork(id)
        } else {
            ProcessDecision::Reinsert(id)
        },
        None => if artwork_only {
            ProcessDecision::SkipNew
        } else {
            ProcessDecision::Insert
        },
    }
}

/// Decides what to do with a scanned file.
pub fn decide(
    existing: &Option<(i64, Option<String>)>,
    hash: &str,
    force_rescan: bool,
    artwork_only: bool,
) -> (r: ProcessDecision)
    ensures
        r == decide_spec(
            match *existing {
                Some((id, stored)) => Some(
                    (
                        id,
                        match stored {
                            Some(s) => Some(s@),
                            None => None,
                        },
                    ),
                ),
                None => None,
            },
            hash@,
            force_rescan,
            artwork_only,
        ),
{
    match existing {
        Some((id, stored)) => {
            let same = match stored {
                Some(s) => str_eq(s.as_str(), hash),
                None => false,
            };
            if !force_rescan && same {
                ProcessDecision::SkipUnchanged
            } else if artwork_only {
                ProcessDecision::UpdateArtwork(*id)
            } else {
                ProcessDecision::Reinsert(*id)
            }
        },
        None => if artwork_only {
            ProcessDecision::SkipNew
        } else {
            ProcessDecision::Insert
        },
    }
}

impl ProcessDecision {
    /// How the file counts in the scan's totals.
    pub fn status(&self) -> (r: ProcessStatus)
        ensures
            r == match *self {
                ProcessDecision::SkipUnchanged | ProcessDecision::SkipNew => ProcessStatus::Skipped,
                ProcessDecision::UpdateArtwork(_) | ProcessDecision::Reinsert(_) => ProcessStatus::Updated,
                ProcessDecision::Insert => ProcessStatus::Created,
            },
    {
        match self {
            ProcessDecision::SkipUnchanged | ProcessDecision::SkipNew => ProcessStatus::Skipped,
            ProcessDecision::UpdateArtwork(_) | ProcessDecision::Reinsert(_) => ProcessStatus::Updated,
            ProcessDecision::Insert => ProcessStatus::Created,
        }
    }
}

/// Lossless formats: FLAC, WAV, AIFF, APE, WavPack and the DSD containers.
pub open spec fn lossless_spec(format: Seq<char>) -> bool {
    format == "flac"@ || format == "wav"@ || format == "aiff"@ || format == "ape"@ || format == "wv"@ || has_prefix(
        format,
        "dsf:"@,
    ) || has_prefix(format, "dff:"@)
}

/// Whether a format is lossless.
pub fn is_lossless(format: &str) -> (r: bool)
    ensures
        r == lossless_spec(format@),
{
    str_eq(format, "flac") || str_eq(format, "wav") || str_eq(format, "aiff") || str_eq(format, "ape") || str_eq(
        format,
        "wv",
    ) || starts_with(format, "dsf:") || starts_with(format, "dff:")
}

/// The album a track belongs to: none for the id 0 that stands for no album.
pub fn album_ref(album_id: i64) -> (r: Option<i64>)
    ensures
        r == if album_id > 0 {
            Some(album_id)
        } else {
            None::<i64>
        },
{
    if album_id > 0 {
        Some(album_id)
    } else {
        None
    }
}

/// The contributor rows of a track: artist, composer, conductor, and the
/// album artist where it differs from the artist; each with its role.
pub open spec fn links_spec(
    artist: Option<Seq<char>>,
    composer: Option<Seq<char>>,
    conductor: Option<Seq<char>>,
    album_artist: Option<Seq<char>>,
) -> Seq<(i32, Seq<char>)> {
    (match artist {
        Some(a) => seq![(roles::ARTIST, a)],
        None => Seq::empty(),
    }) + (match composer {
        Some(c) => seq![(roles::COMPOSER, c)],
        None => Seq::empty(),
    }) + (match conductor {
        Some(c) => seq![(roles::CONDUCTOR, c)],
        None => Seq::empty(),
    }) + (match album_artist {
        Some(aa) => if artist != Some(aa) {
            seq![(roles::ALBUMARTIST, aa)]
        } else {
            Seq::empty()
        },
        None => Seq::empty(),
    })
}

pub open spec fn opt_chars(o: Option<String>) -> Option<Seq<char>> {
    match o {
        Some(s) => Some(s@),
        None => None,
    }
}

pub open spec fn links_view(v: Seq<(i32, String)>) -> Seq<(i32, Seq<char>)> {
    v.map_values(|e: (i32, String)| (e.0, e.1@))
}

fn push_link(v: &mut Vec<(i32, String)>, role: i32, name: &Option<String>)
    ensures
        links_view(final(v)@) == links_view(old(v)@) + match opt_chars(*name) {
            Some(n) => seq![(role, n)],
            None => Seq::empty(),
        },
{
    let ghost before = v@;
    match name {
        Some(n) => {
            v.push((role, n.clone()));
            assert(links_view(v@) =~= links_view(before) + seq![(role, n@)]);
        },
        None => {
            assert(links_view(v@) =~= links_view(before) + Seq::<(i32, Seq<char>)>::empty());
        },
    }
}

/// The contributor rows of a track.
pub fn contributor_links(
    artist: &Option<String>,
    composer: &Option<String>,
    conductor: &Option<String>,
    album_artist: &Option<String>,
) -> (r: Vec<(i32, String)>)
    ensures
        links_view(r@) == links_spec(opt_chars(*artist), opt_chars(*composer), opt_chars(*conductor), opt_chars(*album_artist)),
{
    let mut v: Vec<(i32, String)> = Vec::new();
    assert(links_view(v@) =~= Seq::empty());
    push_link(&mut v, roles::ARTIST, artist);
    push_link(&mut v, roles::COMPOSER, composer);
    push_link(&mut v, roles::CONDUCTOR, conductor);
    let ghost before = v@;
    match album_artist {
        Some(aa) => {
            let same = match artist {
                Some(a) => str_eq(a.as_str(), aa.as_str()),
                None => false,
            };
            if !same {
                v.push((roles::ALBUMARTIST, aa.clone()));
                assert(links_view(v@) =~= links_view(before) + seq![(roles::ALBUMARTIST, aa@)]);
            } else {
                assert(links_view(v@) =~= links_view(before) + Seq::<(i32, Seq<char>)>::empty());
            }
        },
        None => {
            assert(links_view(v@) =~= links_view(before) + Seq::<(i32, Seq<char>)>::empty());
        },
    }
    v
}

} // verus!
