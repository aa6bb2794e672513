use dupe_scan::fingerprint::{ContentHasher, Fingerprint};

fn hex(fp: &Fingerprint) -> String {
    fp.iter().map(|b| format!("{:02x}", b)).collect()
}

fn fingerprint_in_chunks(data: &[u8], chunk: usize) -> Fingerprint {
    let mut hasher = ContentHasher::new();
    for piece in data.chunks(chunk) {
        hasher.absorb(piece);
    }
    hasher.finish()
}

#[test]
fn empty_content_has_the_empty_digest() {
    let hasher = ContentHasher::new();
    assert_eq!(
        hex(&hasher.finish()),
        "e3b0c44298fc1c149afbf4c8996fb92427ae41e4649b934ca495991b7852b855"
    );
}

#[test]
fn hello_has_its_sha256() {
    let mut hasher = ContentHasher::new();
    hasher.absorb(b"hello");
    assert_eq!(
        hex(&hasher.finish()),
        "2cf24dba5fb0a30e26e83b2ac5b9e29e1b161e5c1fa7425e73043362938b9824"
    );
}

#[test]
fn world_differs_from_hello() {
    assert_eq!(
        hex(&fingerprint_in_chunks(b"world", 5)),
        "486ea46224d1bb4fb680f34f7c9ad96a8f24ec88be73ea8e5a6c65260e9cb8a7"
    );
    assert_ne!(fingerprint_in_chunks(b"world", 5), fingerprint_in_chunks(b"hello", 5));
}

#[test]
fn chunk_size_does_not_change_the_fingerprint() {
    let data: Vec<u8> = (0..5000u32).map(|i| (i * 31 % 251) as u8).collect();
    let whole = fingerprint_in_chunks(&data, data.len());
    for chunk in [1usize, 2, 3, 64, 1000, 4999, 1024 * 1024] {
        assert_eq!(fingerprint_in_chunks(&data, chunk), whole);
    }
}

#[test]
fn empty_chunks_change_nothing() {
    let mut hasher = ContentHasher::new();
    hasher.absorb(b"");
    hasher.absorb(b"hel");
    hasher.absorb(b"");
    hasher.absorb(b"lo");
    assert_eq!(hasher.finish(), fingerprint_in_chunks(b"hello", 1));
}
