//! Clipboard payload classification and the history synchronization pass.

use deskshell::cliphist::CliphistEntry;
use deskshell::cliphist::CliphistService;

/// A complete one-pixel 24-bit BMP image.
fn tiny_bmp() -> Vec<u8> {
    let mut b: Vec<u8> = Vec::new();
    // file header: magic, file size 58, reserved, pixel data offset 54
    b.extend_from_slice(&[0x42, 0x4D]);
    b.extend_from_slice(&58u32.to_le_bytes());
    b.extend_from_slice(&[0, 0, 0, 0]);
    b.extend_from_slice(&54u32.to_le_bytes());
    // info header: size 40, 1x1, one plane, 24 bits, no compression
    b.extend_from_slice(&40u32.to_le_bytes());
    b.extend_from_slice(&1i32.to_le_bytes());
    b.extend_from_slice(&1i32.to_le_bytes());
    b.extend_from_slice(&1u16.to_le_bytes());
    b.extend_from_slice(&24u16.to_le_bytes());
    b.extend_from_slice(&0u32.to_le_bytes());
    b.extend_from_slice(&4u32.to_le_bytes());
    b.extend_from_slice(&0u32.to_le_bytes());
    b.extend_from_slice(&0u32.to_le_bytes());
    b.extend_from_slice(&0u32.to_le_bytes());
    b.extend_from_slice(&0u32.to_le_bytes());
    // one blue pixel, padded to four bytes
    b.extend_from_slice(&[0xFF, 0x00, 0x00, 0x00]);
    b
}

#[test]
fn image_bytes_classify_as_raster_image() {
    let e = CliphistEntry::classify(tiny_bmp());
    assert!(matches!(e, CliphistEntry::PixelImage(_)));
}

#[test]
fn ascii_text_classifies_as_text() {
    let e = CliphistEntry::classify(b"hello".to_vec());
    match e {
        CliphistEntry::Text(s) => assert_eq!(s, "hello"),
        other => panic!("expected text, got {:?}", other),
    }
}

#[test]
fn svg_document_classifies_as_vector_image() {
    let doc = "<svg xmlns=\"http://www.w3.org/2000/svg\"><rect width=\"1\" height=\"1\"/></svg>";
    let e = CliphistEntry::classify(doc.as_bytes().to_vec());
    match e {
        CliphistEntry::VectorImage(s) => assert_eq!(s, doc),
        other => panic!("expected a vector image, got {:?}", other),
    }
}

#[test]
fn non_utf8_bytes_classify_as_blob() {
    let bytes = vec![0xFFu8, 0xFE, 0x00, 0x01];
    let e = CliphistEntry::classify(bytes.clone());
    match e {
        CliphistEntry::Blob(b) => assert_eq!(b, bytes),
        other => panic!("expected a blob, got {:?}", other),
    }
}

#[test]
fn image_magic_without_valid_image_classifies_as_blob() {
    // begins with the BMP magic but decodes as nothing
    let bytes = b"BMnot really a bitmap".to_vec();
    let e = CliphistEntry::classify(bytes.clone());
    match e {
        CliphistEntry::Blob(b) => assert_eq!(b, bytes),
        other => panic!("expected a blob, got {:?}", other),
    }
}

#[test]
fn blob_round_trips_through_as_bytes() {
    let bytes = vec![0xFFu8, 0x00, 0x10];
    let e = CliphistEntry::classify(bytes.clone());
    assert_eq!(e.as_bytes(), bytes.as_slice());
}

#[test]
fn sync_pass_fetches_only_missing_ids() {
    let mut svc = CliphistService::new(50);
    let listed: Vec<u64> = vec![3, 1, 2];
    let missing = svc.missing_ids(&listed);
    assert_eq!(missing, vec![3, 1, 2]);
    let items: Vec<(u64, Vec<u8>)> = missing
        .iter()
        .map(|id| (*id, format!("entry {}", id).into_bytes()))
        .collect();
    assert!(svc.commit_entries(false, items));
    // entries are keyed and ordered by their issue number
    let ids: Vec<u64> = svc.data.read().entries.iter().map(|p| p.0).collect();
    assert_eq!(ids, vec![1, 2, 3]);
    // a second listing with one new id fetches only that one
    let listed: Vec<u64> = vec![3, 1, 2, 9];
    let missing = svc.missing_ids(&listed);
    assert_eq!(missing, vec![9]);
    assert!(svc.commit_entries(false, vec![(9, b"ninth".to_vec())]));
    let ids: Vec<u64> = svc.data.read().entries.iter().map(|p| p.0).collect();
    assert_eq!(ids, vec![1, 2, 3, 9]);
}

#[test]
fn unchanged_pass_publishes_nothing() {
    let mut svc = CliphistService::new(50);
    assert!(svc.commit_entries(false, vec![(1, b"one".to_vec())]));
    let mut sub = svc.sender.changed.subscribe();
    // everything listed is already held: nothing is fetched, nothing fires
    assert!(!svc.commit_entries(false, Vec::new()));
    assert!(svc.sender.changed.recv(&mut sub).is_none());
    assert_eq!(svc.sender.changed.published_count(), 1);
    assert_eq!(svc.sender.entries.published_count(), 1);
}

#[test]
fn empty_listing_clears_the_history() {
    let mut svc = CliphistService::new(50);
    assert!(svc.commit_entries(false, vec![(1, b"one".to_vec()), (2, b"two".to_vec())]));
    assert_eq!(svc.data.read().entries.len(), 2);
    let mut sub = svc.sender.changed.subscribe();
    // clearing a non-empty history is an observable change and is published
    assert!(svc.commit_entries(true, Vec::new()));
    assert_eq!(svc.data.read().entries.len(), 0);
    let snapshot = svc.sender.changed.recv(&mut sub).expect("the clear is published");
    assert_eq!(snapshot.entries.len(), 0);
    // clearing an already-empty history changes nothing and publishes nothing
    assert!(!svc.commit_entries(true, Vec::new()));
    assert!(svc.sender.changed.recv(&mut sub).is_none());
}
