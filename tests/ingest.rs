use komf::ingest::{
    check_declared_length, extension_of, make_identifier, prepare_upload, public_path, FilePart,
    UploadError, LINK_CHARS, MAX_UPLOAD_BYTES,
};
use komf::records::MetadataStore;

fn part(name: &str, bytes: &[u8]) -> FilePart {
    FilePart { filename: name.to_string(), bytes: bytes.to_vec() }
}

#[test]
fn missing_length_is_rejected() {
    assert_eq!(check_declared_length(None), Err(UploadError::LengthRequired));
    let f = part("a.txt", b"abc");
    let r = prepare_upload(None, Some(&f));
    assert!(matches!(r, Err(UploadError::LengthRequired)));
}

#[test]
fn oversized_is_rejected() {
    assert_eq!(check_declared_length(Some(MAX_UPLOAD_BYTES + 1)), Err(UploadError::PayloadTooLarge));
    assert_eq!(check_declared_length(Some(MAX_UPLOAD_BYTES)), Ok(MAX_UPLOAD_BYTES));
    assert_eq!(check_declared_length(Some(0)), Ok(0));
    let f = part("a.txt", b"abc");
    assert!(matches!(prepare_upload(Some(u64::MAX), Some(&f)), Err(UploadError::PayloadTooLarge)));
}

#[test]
fn missing_file_part_is_bad_request() {
    assert!(matches!(prepare_upload(Some(10), None), Err(UploadError::BadRequest)));
}

#[test]
fn accepted_upload_is_hashed() {
    let f = part("notes.txt", b"Hello World!");
    let p = prepare_upload(Some(12), Some(&f)).ok().unwrap();
    assert_eq!(p.extension, "txt");
    assert_eq!(p.content_hash, "2ef7bde608ce5404e97d5f042f95f89f1c232871");
    let e = part("empty.bin", b"");
    let q = prepare_upload(Some(0), Some(&e)).ok().unwrap();
    assert_eq!(q.content_hash, "da39a3ee5e6b4b0d3255bfef95601890afd80709");
    assert!(q.content_hash.chars().all(|c| c.is_ascii_digit() || ('a'..='f').contains(&c)));
}

#[test]
fn extensions() {
    assert_eq!(extension_of("a.tar.gz"), "gz");
    assert_eq!(extension_of("photo.JPG"), "JPG");
    assert_eq!(extension_of("README"), "");
    assert_eq!(extension_of(""), "");
    assert_eq!(extension_of("trailing."), "");
    assert_eq!(extension_of(".hidden"), "hidden");
}

#[test]
fn identifiers_and_paths() {
    assert_eq!(make_identifier("aB3xY9", "png"), "aB3xY9.png");
    assert_eq!(make_identifier("aB3xY9", ""), "aB3xY9.");
    assert_eq!(public_path("aB3xY9.png"), "/file/aB3xY9.png");
}

#[test]
fn candidate_identifier_checks_collisions() {
    let mut m = MetadataStore::new();
    assert_eq!(m.candidate_identifier("abcdef", "txt"), Some("abcdef.txt".to_string()));
    m.record_upload("abcdef.txt".to_string(), "h".to_string(), "day", 10);
    assert_eq!(m.candidate_identifier("abcdef", "txt"), None);
    assert_eq!(m.candidate_identifier("abcdef", "png"), Some("abcdef.png".to_string()));
}

#[test]
fn drawn_identifiers_have_random_stems() {
    let m = MetadataStore::new();
    let id = m.draw_identifier("png").unwrap();
    assert_eq!(id.len(), LINK_CHARS + 4);
    assert!(id.ends_with(".png"));
    assert!(id[..LINK_CHARS].chars().all(|c| c.is_ascii_alphanumeric()));
    let other = m.draw_identifier("png").unwrap();
    assert_ne!(id, other);
    let mut taken = MetadataStore::new();
    taken.record_upload(id.clone(), "h".to_string(), "day", 0);
    match taken.draw_identifier("png") {
        Ok(free) => assert!(!taken.contains(&free)),
        Err(used) => assert_eq!(used, id),
    }
}

#[test]
fn sequential_uploads_get_distinct_identifiers() {
    let mut m = MetadataStore::new();
    let mut ids: Vec<String> = Vec::new();
    for i in 0..200 {
        let id = loop {
            if let Ok(id) = m.draw_identifier("bin") {
                break id;
            }
        };
        assert!(!m.contains(&id));
        m.record_upload(id.clone(), format!("{}", i), "week", 1000);
        ids.push(id);
    }
    assert_eq!(m.len(), 200);
    let mut sorted = ids.clone();
    sorted.sort();
    sorted.dedup();
    assert_eq!(sorted.len(), 200);
}

#[test]
fn upload_round_trip_records_hash_and_expiry() {
    let mut m = MetadataStore::new();
    let f = part("song.ogg", b"some audio bytes");
    let p = prepare_upload(Some(16), Some(&f)).ok().unwrap();
    let id = make_identifier("Zz09aA", &p.extension);
    let path = m.record_upload(id.clone(), p.content_hash.clone(), "month", 2000);
    assert_eq!(path, "/file/Zz09aA.ogg");
    let rec = m.get(&id).unwrap();
    assert_eq!(rec.content_hash, p.content_hash);
    assert_eq!(rec.expiry, 2000 + 28 * 86400);
    assert!(rec.expiry > 2000);
}
