use engram_core::error::{BlobError, BoxError};
use engram_core::traits::storage::{exists_from_head, BlobObjectMeta, Frames};

fn body(frames: &[&[u8]]) -> Vec<u8> {
    let mut all = Frames::new();
    for f in frames {
        all.push(f.to_vec());
    }
    all.finish()
}

#[test]
fn frames_are_joined_in_order() {
    assert_eq!(body(&[]), b"");
    assert_eq!(body(&[b"abc"]), b"abc");
    assert_eq!(body(&[b"", b"abc", b""]), b"abc");
    assert_eq!(body(&[b"ab", b"", b"c", b"de"]), b"abcde");
}

#[test]
fn empty_frames_leave_no_trace() {
    let mut all = Frames::new();
    all.push(vec![]);
    assert!(all.frames.is_empty());
    all.push(vec![1]);
    all.push(vec![]);
    assert_eq!(all.frames.len(), 1);
}

#[test]
fn only_a_missing_key_does_not_exist() {
    let meta = BlobObjectMeta {
        size_bytes: 1,
        etag: None,
    };
    assert!(exists_from_head(Ok(meta)).unwrap());
    assert!(!exists_from_head(Err(BlobError::NotFound)).unwrap());
    let err = exists_from_head(Err(BlobError::Sdk(BoxError::new("503")))).unwrap_err();
    assert_eq!(err.to_string(), "blob sdk error: 503");
}
