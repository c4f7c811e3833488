use lyrion::db::roles;
use lyrion::db::{
    attach_sql, like_pattern, lowercase_like_pattern, name_search_key, needs_migration, parse_schema_version,
    schema_version_text, sqlite_url, DatabaseConfig,
};
use lyrion::ids::{parse_uuid, random_id, uuid_string};
use lyrion::scanner::{
    album_ref, compute_metadata_hash, contributor_links, cover_art_names, cover_size_ok, decide, format_duration,
    is_audio_file, is_lossless, metadata_hash_input, parse_args, report_progress, ArgsError, HashFields,
    ProcessDecision, ProcessStatus,
};

fn args(v: &[&str]) -> Vec<String> {
    v.iter().map(|s| s.to_string()).collect()
}

fn no_fields() -> HashFields {
    HashFields {
        title: None,
        artist: None,
        album: None,
        year: None,
        track_number: None,
        disc_number: None,
        genre: None,
        composer: None,
        conductor: None,
        bpm: None,
        lyrics: None,
        musicbrainz_id: None,
        replay_gain_bits: None,
        cover_size: None,
    }
}

#[test]
fn scanner_command_line() {
    let o = parse_args(&args(&["scanner", "/music", "--database", "x.db", "--progress", "7", "--force-rescan"])).unwrap();
    assert_eq!(o.music_dir, "/music");
    assert_eq!(o.db_path, "x.db");
    assert_eq!(o.progress_interval, 7);
    assert!(o.force_rescan);
    assert!(!o.update_artwork_only);
    let o = parse_args(&args(&["scanner", "/m", "--progress", "many"])).unwrap();
    assert_eq!(o.progress_interval, 100);
    assert_eq!(o.db_path, "lyrion-rust.db");
    assert!(matches!(parse_args(&args(&["scanner"])), Err(ArgsError::Usage)));
    assert!(matches!(parse_args(&args(&["s", "/m", "--database"])), Err(ArgsError::DatabaseNeedsPath)));
    assert!(matches!(parse_args(&args(&["s", "/m", "--progress"])), Err(ArgsError::ProgressNeedsNumber)));
    match parse_args(&args(&["s", "/m", "--fast"])) {
        Err(e) => assert_eq!(e.message(), "Unknown option: --fast"),
        Ok(_) => panic!("accepted"),
    }
    assert!(report_progress(200, 100));
    assert!(!report_progress(150, 100));
}

#[test]
fn files_and_covers() {
    assert!(is_audio_file("/a/b.FLAC"));
    assert!(is_audio_file("x.dsf"));
    assert!(!is_audio_file("x.txt"));
    assert!(!is_audio_file("noext"));
    assert_eq!(cover_art_names()[0], "cover.jpg");
    assert_eq!(cover_art_names().len(), 12);
    assert!(cover_size_ok(4_999_999));
    assert!(!cover_size_ok(5_000_000));
    assert_eq!(format_duration(3725, 0), "1h 2m 5s");
    assert_eq!(format_duration(125, 3), "2m 5s");
    assert_eq!(format_duration(42, 3), "42s");
    assert_eq!(format_duration(7, 4), "7.4s");
}

#[test]
fn metadata_fingerprint() {
    assert!(metadata_hash_input(&no_fields()).is_empty());
    assert_eq!(
        compute_metadata_hash(&no_fields()),
        "e3b0c44298fc1c149afbf4c8996fb92427ae41e4649b934ca495991b7852b855"
    );
    let mut f = no_fields();
    f.title = Some("abc".to_string());
    assert_eq!(compute_metadata_hash(&f), "ba7816bf8f01cfea414140de5dae2223b00361a396177a9cb410ff61f20015ad");
    f.year = Some(1999);
    f.bpm = Some(120);
    let bytes = metadata_hash_input(&f);
    assert_eq!(bytes, vec![b'a', b'b', b'c', 0xcf, 0x07, 0, 0, 120, 0]);
    let mut g = no_fields();
    g.lyrics = Some("x".repeat(150));
    assert_eq!(metadata_hash_input(&g).len(), 100);
}

#[test]
fn processing_decisions() {
    let known = Some((4i64, Some("h1".to_string())));
    assert_eq!(decide(&known, "h1", false, false), ProcessDecision::SkipUnchanged);
    assert_eq!(decide(&known, "h1", true, false), ProcessDecision::Reinsert(4));
    assert_eq!(decide(&known, "h2", false, true), ProcessDecision::UpdateArtwork(4));
    assert_eq!(decide(&Some((4, None)), "h1", false, false), ProcessDecision::Reinsert(4));
    assert_eq!(decide(&None, "h1", false, false), ProcessDecision::Insert);
    assert_eq!(decide(&None, "h1", false, true), ProcessDecision::SkipNew);
    assert_eq!(ProcessDecision::Insert.status(), ProcessStatus::Created);
    assert_eq!(ProcessDecision::Reinsert(1).status(), ProcessStatus::Updated);
    assert_eq!(ProcessDecision::SkipNew.status(), ProcessStatus::Skipped);
    assert!(is_lossless("flac"));
    assert!(is_lossless("dff:dsd64"));
    assert!(!is_lossless("mp3"));
    assert_eq!(album_ref(0), None);
    assert_eq!(album_ref(9), Some(9));
}

#[test]
fn contributor_rows() {
    let s = |x: &str| Some(x.to_string());
    assert_eq!(
        contributor_links(&s("A"), &s("C"), &None, &s("B")),
        vec![(roles::ARTIST, "A".to_string()), (roles::COMPOSER, "C".to_string()), (roles::ALBUMARTIST, "B".to_string())]
    );
    assert_eq!(contributor_links(&s("A"), &None, &s("D"), &s("A")), vec![(roles::ARTIST, "A".to_string()), (roles::CONDUCTOR, "D".to_string())]);
    assert!(contributor_links(&None, &None, &None, &None).is_empty());
}

#[test]
fn database_texts() {
    let c = DatabaseConfig::default();
    assert_eq!((c.path.as_str(), c.max_connections), ("lyrion-rust.db", 10));
    assert_eq!(sqlite_url("a.db", true), "sqlite:a.db?mode=rwc");
    assert_eq!(sqlite_url("a.db", false), "sqlite:a.db?mode=rw");
    assert_eq!(parse_schema_version(Some("26")), Some(26));
    assert_eq!(parse_schema_version(Some("x")), None);
    assert_eq!(parse_schema_version(None), None);
    assert_eq!(needs_migration(Some("25")), Some(true));
    assert_eq!(needs_migration(Some("26")), Some(false));
    assert_eq!(needs_migration(Some("junk")), Some(true));
    assert_eq!(needs_migration(None), None);
    assert_eq!(schema_version_text(-3), "-3");
    assert_eq!(like_pattern("Ab"), "%Ab%");
    assert_eq!(lowercase_like_pattern("Ab"), "%ab%");
    assert_eq!(name_search_key("ÀB"), "àb");
    assert_eq!(attach_sql("/x.db"), "ATTACH '/x.db' AS lms (TYPE sqlite);");
}

#[test]
fn uuids() {
    let id = 0x67e55044_10b1_426f_9247_bb680e5fe0c8u128;
    let text = uuid_string(id);
    assert_eq!(text, "67e55044-10b1-426f-9247-bb680e5fe0c8");
    assert_eq!(parse_uuid(&text), Some(id));
    assert_eq!(parse_uuid("nope"), None);
    assert_ne!(random_id(), random_id());
}
