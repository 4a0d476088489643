//! The buffering accumulator and the upload decision.
//!
//! `S3Writer` accepts synchronous writes, seals a part whenever the
//! in-progress buffer reaches the split threshold, and at finalization
//! decides between a single put and a multipart upload. The network calls
//! themselves are the caller's: `finish` hands back an `UploadPlan`.

use crate::location::{parse_location, trim_slashes, uri_host, uri_is_valid, uri_path, uri_scheme,
    Location, WriterError};
use crate::model::{held_bytes, init, lemma_concat_all_singleton, lemma_seal_holds_everything,
    lemma_step_preserves_wf, model_wf, seal, step, AccModel};
use crate::{S3_MIN_PART_SIZE, SPLIT_THRESHOLD};
use vstd::prelude::*;

verus! {

/// The completion call the accumulated data asks for: one atomic put of
/// the whole object, or a multipart session with the sealed parts in
/// write order.
#[derive(Debug)]
pub enum UploadPlan {
    SimplePut(Vec<u8>),
    Multipart(Vec<Vec<u8>>),
}

/// The views of a sequence of byte vectors.
pub open spec fn views_of(ps: Seq<Vec<u8>>) -> Seq<Seq<u8>> {
    Seq::new(ps.len(), |i: int| ps[i]@)
}

/// The simple-put path is taken exactly when nothing was written or when
/// a lone sealed part is below the provider's minimum part size.
pub open spec fn plan_is_simple(sealed: Seq<Seq<u8>>, min_part_size: nat) -> bool {
    sealed.len() == 0 || (sealed.len() == 1 && sealed[0].len() < min_part_size)
}

/// A writer that accumulates parts in memory while being driven
/// synchronously, and uploads nothing until it is finished.
#[derive(Debug)]
pub struct S3Writer {
    /// The upload target, fixed at construction.
    pub location: Location,
    /// The in-progress buffer.
    pub buffer: Vec<u8>,
    /// Sealed parts, in write order; each has reached the split threshold.
    pub parts: Vec<Vec<u8>>,
    /// Bytes ever written.
    pub total_bytes: usize,
    /// Buffer length at which a part is sealed.
    pub split_threshold: usize,
    /// Smallest size the provider accepts for a non-final part.
    pub min_part_size: usize,
}

impl View for S3Writer {
    type V = AccModel;

    open spec fn view(&self) -> AccModel {
        AccModel {
            threshold: self.split_threshold as nat,
            parts: views_of(self.parts@),
            buffer: self.buffer@,
            total: self.total_bytes as nat,
        }
    }
}

impl S3Writer {
    /// The accumulator invariant, established at construction and kept by
    /// every write.
    pub open spec fn wf(&self) -> bool {
        model_wf(self@)
    }

    /// Create a writer for the given `s3://bucket/key` location string,
    /// with the default split threshold and provider minimum.
    pub fn new(uri: &str) -> (r: Result<S3Writer, WriterError>)
        ensures
            !uri_is_valid(uri@) ==> (r matches Err(e) && e == WriterError::InvalidUri),
            uri_is_valid(uri@) && uri_scheme(uri@) != "s3"@ ==> (r matches Err(e) && e
                == WriterError::UnexpectedScheme),
            uri_is_valid(uri@) && uri_scheme(uri@) == "s3"@ && uri_host(uri@) is None ==> (r
                matches Err(e) && e == WriterError::MissingBucket),
            uri_is_valid(uri@) && uri_scheme(uri@) == "s3"@ ==> (uri_host(uri@) matches Some(h)
                ==> (r matches Ok(w) && w.wf() && w@ == init(SPLIT_THRESHOLD as nat)
                && w.split_threshold == SPLIT_THRESHOLD && w.min_part_size == S3_MIN_PART_SIZE
                && w.location.bucket@ == h && w.location.key@ == trim_slashes(uri_path(uri@)))),
    {
        match parse_location(uri) {
            Err(e) => Err(e),
            Ok(location) => Ok(Self::with_limits(location, SPLIT_THRESHOLD, S3_MIN_PART_SIZE)),
        }
    }

    /// Create a writer for an already resolved location, with the given
    /// split threshold and provider minimum part size.
    pub fn with_limits(location: Location, split_threshold: usize, min_part_size: usize) -> (w:
        S3Writer)
        requires
            split_threshold >= 1,
        ensures
            w.wf(),
            w@ == init(split_threshold as nat),
            w.split_threshold == split_threshold,
            w.min_part_size == min_part_size,
            w.location == location,
    {
        let w = S3Writer {
            location,
            buffer: Vec::new(),
            parts: Vec::new(),
            total_bytes: 0,
            split_threshold,
            min_part_size,
        };
        proof {
            assert(w@ =~= init(split_threshold as nat));
        }
        w
    }

    /// Append a byte slice to the in-progress buffer and count it; seal
    /// the buffer into a part once it has reached the split threshold.
    /// Accepts the whole slice, never uploads, never fails.
    pub fn write(&mut self, buf: &[u8]) -> (r: Result<usize, WriterError>)
        requires
            old(self).wf(),
            old(self).total_bytes + buf@.len() <= usize::MAX,
        ensures
            final(self).wf(),
            final(self)@ == step(old(self)@, buf@),
            final(self).location == old(self).location,
            final(self).split_threshold == old(self).split_threshold,
            final(self).min_part_size == old(self).min_part_size,
            r matches Ok(n) && n == buf@.len(),
    {
        let ghost pre = *old(self);
        self.total_bytes = self.total_bytes + buf.len();
        let mut i: usize = 0;
        while i < buf.len()
            invariant
                i <= buf@.len(),
                self.buffer@ == pre.buffer@ + buf@.subrange(0, i as int),
                self.parts == pre.parts,
                self.location == pre.location,
                self.total_bytes == pre.total_bytes + buf@.len(),
                self.split_threshold == pre.split_threshold,
                self.min_part_size == pre.min_part_size,
            decreases buf@.len() - i,
        {
            self.buffer.push(buf[i]);
            i = i + 1;
        }
        proof {
            assert(self.buffer@ =~= pre.buffer@ + buf@);
        }
        if self.buffer.len() >= self.split_threshold {
            let mut sealed: Vec<u8> = Vec::new();
            core::mem::swap(&mut self.buffer, &mut sealed);
            self.parts.push(sealed);
            proof {
                assert(views_of(self.parts@) =~= views_of(pre.parts@).push(
                    pre.buffer@ + buf@,
                ));
            }
        }
        proof {
            assert(self@ =~= step(pre@, buf@));
            lemma_step_preserves_wf(pre@, buf@);
        }
        Ok(buf.len())
    }

    /// No-op by design: no I/O is pending at flush time, because all I/O
    /// belongs to finalization.
    pub fn flush(&mut self) -> (r: Result<(), WriterError>)
        ensures
            *final(self) == *old(self),
            r is Ok,
    {
        Ok(())
    }

    /// Consume the writer: seal the residual buffer as the final part and
    /// choose the completion call. A lone part below the provider minimum
    /// — and likewise an empty object — gets a single put of all bytes
    /// held; anything else gets a multipart session with the sealed parts
    /// in write order. Returns the plan and the total byte count.
    pub fn finish(self) -> (r: (UploadPlan, usize))
        requires
            self.wf(),
        ensures
            r.1 == self.total_bytes,
            plan_is_simple(seal(self@), self.min_part_size as nat) ==> (r.0 matches
                UploadPlan::SimplePut(data) && data@ == held_bytes(self@)),
            !plan_is_simple(seal(self@), self.min_part_size as nat) ==> (r.0 matches
                UploadPlan::Multipart(ps) && views_of(ps@) == seal(self@)),
    {
        let mut this = self;
        let total = this.total_bytes;
        let ghost m = this@;
        proof {
            lemma_seal_holds_everything(m);
        }
        if this.buffer.len() > 0 {
            let mut last: Vec<u8> = Vec::new();
            core::mem::swap(&mut this.buffer, &mut last);
            this.parts.push(last);
        }
        proof {
            assert(views_of(this.parts@) =~= seal(m));
        }
        if this.parts.len() == 0 {
            proof {
                assert(held_bytes(m) =~= Seq::<u8>::empty());
            }
            (UploadPlan::SimplePut(Vec::new()), total)
        } else {
            let first_len = this.parts[0].len();
            if this.parts.len() == 1 && first_len < this.min_part_size {
                let data = this.parts.pop().unwrap();
                proof {
                    assert(seal(m)[0] == data@);
                    lemma_concat_all_singleton(seal(m));
                }
                (UploadPlan::SimplePut(data), total)
            } else {
                (UploadPlan::Multipart(this.parts), total)
            }
        }
    }

    /// Total bytes written so far.
    pub fn total_bytes(&self) -> (r: usize)
        ensures
            r == self.total_bytes,
    {
        self.total_bytes
    }

    /// Total bytes written so far, under the name buffer-oriented callers
    /// use.
    pub fn buffer_size(&self) -> (r: usize)
        ensures
            r == self.total_bytes,
    {
        self.total_bytes
    }

    /// The upload target this writer was constructed for.
    pub fn location(&self) -> (r: &Location)
        ensures
            *r == self.location,
    {
        &self.location
    }
}

} // verus!
