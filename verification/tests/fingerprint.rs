use rspack_cache::cache::fingerprint::{fingerprint, Fingerprint, IoFailure, Observed};
use std::collections::hash_map::DefaultHasher;
use std::hash::Hasher;

#[test]
fn nothing_there_is_a_fingerprint() {
    assert_eq!(fingerprint(Observed::Absent), Ok(Fingerprint::Absent));
}

#[test]
fn content_is_summed_up_by_its_hash() {
    let mut hasher = DefaultHasher::new();
    hasher.write(b"export default 1;");
    let expected = hasher.finish();
    assert_eq!(
        fingerprint(Observed::Content(b"export default 1;".to_vec())),
        Ok(Fingerprint::ContentHash(expected))
    );
}

#[test]
fn the_same_content_has_the_same_fingerprint() {
    let first = fingerprint(Observed::Content(b"let a = 1;".to_vec()));
    let second = fingerprint(Observed::Content(b"let a = 1;".to_vec()));
    assert_eq!(first, second);
}

#[test]
fn another_content_has_another_fingerprint() {
    let first = fingerprint(Observed::Content(b"let a = 1;".to_vec()));
    let second = fingerprint(Observed::Content(b"let a = 2;".to_vec()));
    let empty = fingerprint(Observed::Content(Vec::new()));
    assert_ne!(first, second);
    assert_ne!(first, empty);
    assert_ne!(empty, Ok(Fingerprint::Absent));
}

#[test]
fn metadata_is_its_own_fingerprint() {
    assert_eq!(
        fingerprint(Observed::Metadata { modified: 1_700_000_000_000_000_000, size: 42 }),
        Ok(Fingerprint::Metadata { modified: 1_700_000_000_000_000_000, size: 42 })
    );
    assert_eq!(
        fingerprint(Observed::Metadata { modified: 0, size: 0 }),
        Ok(Fingerprint::Metadata { modified: 0, size: 0 })
    );
}

#[test]
fn a_path_that_could_not_be_read_is_a_failure() {
    assert_eq!(
        fingerprint(Observed::Failed("permission denied".to_string())),
        Err(IoFailure { reason: "permission denied".to_string() })
    );
}
