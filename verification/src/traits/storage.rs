//! Blob storage: what a whole body is made of, and when a key exists.
use crate::error::BlobError;
use vstd::prelude::*;

verus! {

/// What a store tells of an object without its body.
#[derive(Clone, Debug, PartialEq, Eq)]
pub struct BlobObjectMeta {
    pub size_bytes: u64,
    /// A tag that the store gives out. Two tags are compared for equality and nothing else.
    pub etag: Option<String>,
}

/// The bytes of frames in a row.
pub open spec fn joined(frames: Seq<Vec<u8>>) -> Seq<u8>
    decreases frames.len(),
{
    if frames.len() == 0 {
        Seq::empty()
    } else {
        joined(frames.drop_last()) + frames.last()@
    }
}

/// The frames of a body, as they come. They are kept apart and joined once, at the end; the
/// only frame of a body becomes the body as it is.
#[derive(Debug)]
pub struct Frames {
    pub frames: Vec<Vec<u8>>,
}

impl View for Frames {
    type V = Seq<u8>;

    open spec fn view(&self) -> Seq<u8> {
        joined(self.frames@)
    }
}

impl Frames {
    /// No frame yet.
    pub fn new() -> (res: Frames)
        ensures
            res@ == Seq::<u8>::empty(),
    {
        Frames { frames: Vec::new() }
    }

    /// Takes the next frame. An empty one leaves no trace.
    pub fn push(&mut self, frame: Vec<u8>)
        ensures
            final(self)@ == old(self)@ + frame@,
            frame@.len() == 0 ==> final(self).frames@ == old(self).frames@,
    {
        let ghost before = self.frames@;
        if frame.len() > 0 {
            self.frames.push(frame);
            assert(self.frames@.drop_last() =~= before);
        } else {
            assert(joined(before) =~= joined(before) + frame@);
        }
    }

    /// The whole body.
    pub fn finish(self) -> (res: Vec<u8>)
        ensures
            res@ == self@,
    {
        let ghost all = self.frames@;
        let mut frames = self.frames;
        if frames.len() == 1 {
            assert(all.drop_last().len() == 0);
            assert(joined(all) =~= all[0]@) by {
                reveal_with_fuel(joined, 2);
            }
            return frames.remove(0);
        }
        let mut body: Vec<u8> = Vec::new();
        let mut i: usize = 0;
        while i < frames.len()
            invariant
                i <= frames.len(),
                frames@ == all,
                body@ == joined(all.take(i as int)),
            decreases frames.len() - i,
        {
            body.extend_from_slice(frames[i].as_slice());
            i += 1;
            assert(all.take(i as int).drop_last() =~= all.take(i - 1));
        }
        assert(all.take(i as int) =~= all);
        body
    }
}

/// Whether a key exists, from the answer to a request for its metadata: that there is no such
/// key is an answer, and any other failure stays one.
pub fn exists_from_head(head: Result<BlobObjectMeta, BlobError>) -> (res: Result<bool, BlobError>)
    ensures
        res == (match head {
            Ok(_) => Ok::<bool, BlobError>(true),
            Err(BlobError::NotFound) => Ok(false),
            Err(e) => Err(e),
        }),
{
    match head {
        Ok(_) => Ok(true),
        Err(BlobError::NotFound) => Ok(false),
        Err(e) => Err(e),
    }
}

/// A body is its frames in order: one frame is its bytes, and two rows of frames are the bytes of
/// the first and then those of the second.
pub proof fn frames_add_up(a: Seq<Vec<u8>>, b: Seq<Vec<u8>>, frame: Vec<u8>)
    ensures
        joined(Seq::empty()) == Seq::<u8>::empty(),
        joined(seq![frame]) == frame@,
        joined(a + b) == joined(a) + joined(b),
    decreases b.len(),
{
    assert(seq![frame].drop_last() =~= Seq::<Vec<u8>>::empty());
    reveal_with_fuel(joined, 2);
    assert(Seq::<u8>::empty() + frame@ =~= frame@);
    if b.len() == 0 {
        assert(a + b =~= a);
        assert(joined(a) + joined(b) =~= joined(a));
    } else {
        frames_add_up(a, b.drop_last(), frame);
        assert((a + b).drop_last() =~= a + b.drop_last());
        assert((a + b).last() == b.last());
        assert(joined(a + b) =~= joined(a) + joined(b));
    }
}

} // verus!
