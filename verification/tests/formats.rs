use lyrion::formats::{
    bitrate_kbps, dsd_format_name, get_parser, parse_dff, parse_dsf_header, parser_for_file, DffParser, DsfParser,
    FormatError, FormatKind, M4aParser, WmaParser,
};
use lyrion::transcode::{
    get_format_from_path, get_transcode_commands, needs_transcoding, pipeline_commands, substitute_variables,
};

#[test]
fn test_dff_parser_supports() {
    let parser = DffParser;
    assert!(parser.supports_extension("dff"));
    assert!(parser.supports_extension("DFF"));
    assert!(!parser.supports_extension("dsf"));
}

#[test]
fn test_dsf_parser_supports() {
    let parser = DsfParser;
    assert!(parser.supports_extension("dsf"));
    assert!(parser.supports_extension("DSF"));
    assert!(!parser.supports_extension("dff"));
}

#[test]
fn test_m4a_parser_supports() {
    let parser = M4aParser;
    assert!(parser.supports_extension("m4a"));
    assert!(parser.supports_extension("aac"));
    assert!(parser.supports_extension("mp4"));
    assert!(parser.supports_extension("alac"));
    assert!(parser.supports_extension("M4A"));
    assert!(!parser.supports_extension("mp3"));
}

#[test]
fn test_wma_parser_supports() {
    let parser = WmaParser;
    assert!(parser.supports_extension("wma"));
    assert!(parser.supports_extension("WMA"));
    assert!(!parser.supports_extension("mp3"));
}

#[test]
fn test_get_format_from_path() {
    assert_eq!(get_format_from_path("/music/test.mp3"), Some("mp3".to_string()));
    assert_eq!(get_format_from_path("/music/test.flac"), Some("flac".to_string()));
    assert_eq!(get_format_from_path("/music/test"), None);
}

#[test]
fn test_needs_transcoding() {
    assert!(!needs_transcoding("mp3", "mp3"));
    assert!(needs_transcoding("flac", "mp3"));
}

fn chunk(id: &[u8; 4], body: &[u8]) -> Vec<u8> {
    let mut c = id.to_vec();
    c.extend_from_slice(&(body.len() as u64).to_be_bytes());
    c.extend_from_slice(body);
    c
}

fn dff_file() -> Vec<u8> {
    let mut prop_body = b"SND ".to_vec();
    prop_body.extend(chunk(b"FS  ", &2_822_400u32.to_be_bytes()));
    prop_body.extend(chunk(b"CHNL", &2u16.to_be_bytes()));
    let mut body = b"DSD ".to_vec();
    body.extend(chunk(b"FVER", &[1, 5, 0, 0]));
    body.extend(chunk(b"PROP", &prop_body));
    body.extend(chunk(b"DSD ", &[0u8; 8]));
    body.extend(chunk(b"DITI", b"Hello\0\0"));
    body.extend(chunk(b"DIAR", b"Band"));
    let mut file = b"FRM8".to_vec();
    file.extend_from_slice(&(body.len() as u64).to_be_bytes());
    file.extend(body);
    file
}

#[test]
fn dff_chunks_are_read() {
    let info = parse_dff(&dff_file()).unwrap();
    assert_eq!(info.sample_rate, 2_822_400);
    assert_eq!(info.channels, 2);
    assert_eq!(info.sample_count, 8);
    assert_eq!(info.title.as_deref(), Some("Hello"));
    assert_eq!(info.artist.as_deref(), Some("Band"));
    assert_eq!(dsd_format_name("dff:", info.sample_rate), "dff:dsd64");
    assert_eq!(bitrate_kbps(info.sample_rate, info.channels as u32), Some(5644));
    assert_eq!(bitrate_kbps(u32::MAX, 2), None);
}

#[test]
fn dff_errors() {
    assert_eq!(parse_dff(b"RIFF0000000000000000").unwrap_err(), FormatError::NotDff);
    let mut bad = b"FRM8".to_vec();
    bad.extend_from_slice(&[0u8; 8]);
    bad.extend_from_slice(b"WAVE");
    assert_eq!(parse_dff(&bad).unwrap_err(), FormatError::NotDsdiff);
    assert_eq!(parse_dff(b"FRM8").unwrap_err(), FormatError::UnexpectedEof);
}

#[test]
fn dsf_header_fields() {
    let mut d = b"DSD ".to_vec();
    d.extend_from_slice(&[0u8; 24]);
    d.extend_from_slice(b"fmt ");
    d.extend_from_slice(&[0u8; 16]);
    d.extend_from_slice(&2u32.to_le_bytes());
    d.extend_from_slice(&2u32.to_le_bytes());
    d.extend_from_slice(&2_822_400u32.to_le_bytes());
    d.extend_from_slice(&[0u8; 4]);
    d.extend_from_slice(&1_000_000u64.to_le_bytes());
    d.extend_from_slice(&[0u8; 8]);
    assert_eq!(d.len(), 80);
    let info = parse_dsf_header(&d).unwrap();
    assert_eq!(info.channel_type, 2);
    assert_eq!(info.channel_num, 2);
    assert_eq!(info.sampling_frequency, 2_822_400);
    assert_eq!(info.sample_count, 1_000_000);
    assert_eq!(info.channels(), 2);
    assert_eq!(parse_dsf_header(&d[..40]).unwrap_err(), FormatError::UnexpectedEof);
    d[28] = b'x';
    assert_eq!(parse_dsf_header(&d).unwrap_err(), FormatError::InvalidFmtChunk);
    d[0] = b'X';
    assert_eq!(parse_dsf_header(&d).unwrap_err(), FormatError::NotDsf);
}

#[test]
fn parsers_by_extension() {
    assert_eq!(get_parser("MP3"), Some(FormatKind::Mp3));
    assert_eq!(get_parser("aifc"), Some(FormatKind::Aiff));
    assert_eq!(get_parser("wv"), Some(FormatKind::WavPack));
    assert_eq!(get_parser("txt"), None);
    assert_eq!(parser_for_file("/a/b.FLAC"), Ok(FormatKind::Flac));
    assert_eq!(parser_for_file("/a/b.txt"), Err("Unsupported format: txt".to_string()));
    assert_eq!(parser_for_file("/a/b"), Err("Unsupported format: ".to_string()));
}

fn strings(v: &[&str]) -> Vec<String> {
    v.iter().map(|s| s.to_string()).collect()
}

#[test]
fn transcode_rules() {
    assert_eq!(
        get_transcode_commands("flac", "mp3").unwrap(),
        vec![strings(&["flac", "-dcs", "$FILE$"]), strings(&["lame", "-b", "320", "-"])]
    );
    assert_eq!(get_transcode_commands("mp3", "mp3").unwrap(), vec![strings(&["cat", "$FILE$"])]);
    assert_eq!(
        get_transcode_commands("dsf", "wav").unwrap(),
        vec![strings(&["ffmpeg", "-i", "$FILE$", "-f", "wav", "-sample_fmt", "s32", "-ar", "88200", "-"])]
    );
    let e = get_transcode_commands("mp3", "flac").unwrap_err();
    assert_eq!(e.message(), "No transcoding rule for mp3 -> flac");
    assert!(get_transcode_commands("xyz", "xyz").is_err());
}

#[test]
fn file_is_substituted() {
    assert_eq!(
        substitute_variables(&strings(&["cat", "$FILE$", "x$FILE$y$FILE$"]), "/m/a b.wav"),
        strings(&["cat", "/m/a b.wav", "x/m/a b.wavy/m/a b.wav"])
    );
    assert_eq!(
        pipeline_commands("/m/s.wav", "wav", "mp3").unwrap(),
        vec![strings(&["lame", "-b", "320", "/m/s.wav"])]
    );
}

fn dff_head() -> Vec<u8> {
    let mut d = b"FRM8".to_vec();
    d.extend_from_slice(&0u64.to_be_bytes());
    d.extend_from_slice(b"DSD ");
    d
}

#[test]
fn dff_sizes_may_move_backwards() {
    let mut d = dff_head();
    // at 16: skip 14 bytes forward, over a sample-count chunk at 28
    d.extend_from_slice(b"JMPF");
    d.extend_from_slice(&14u64.to_be_bytes());
    d.extend_from_slice(b"DSD ");
    d.extend_from_slice(&26u64.to_be_bytes());
    d.extend_from_slice(&[0u8; 2]);
    // at 42: a size of -26 leads back to 28
    d.extend_from_slice(b"BACK");
    d.extend_from_slice(&(u64::MAX - 25).to_be_bytes());
    d.extend_from_slice(&[0u8; 12]);
    assert_eq!(d.len(), 66);
    let info = parse_dff(&d).unwrap();
    assert_eq!(info.sample_count, 26);
}

#[test]
fn dff_walk_round_in_a_loop_is_refused() {
    let mut d = dff_head();
    // at 16: a size of -12 leads back to 16 itself
    d.extend_from_slice(b"LOOP");
    d.extend_from_slice(&(u64::MAX - 11).to_be_bytes());
    assert_eq!(parse_dff(&d).unwrap_err(), FormatError::EndlessWalk);
    let mut e = dff_head();
    // a size of -100 leads before the start of the file
    e.extend_from_slice(b"NEGA");
    e.extend_from_slice(&(u64::MAX - 99).to_be_bytes());
    assert_eq!(parse_dff(&e).unwrap_err(), FormatError::InvalidSeek);
}
