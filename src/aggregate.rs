//! Gathering a chunked request body into one payload.

use vstd::prelude::*;
use crate::response::ErrorKind;

verus! {

/// The bytes of `chunks`, one after another, in order.
pub open spec fn concat_chunks(chunks: Seq<Seq<u8>>) -> Seq<u8>
    decreases chunks.len(),
{
    if chunks.len() == 0 {
        Seq::empty()
    } else {
        concat_chunks(chunks.drop_last()) + chunks.last()
    }
}

/// Collects the chunks of a body as they arrive. Once the stream reports an
/// error the body is abandoned: later chunks are ignored and `finish` yields
/// `StreamError`, never a partial payload.
pub struct Aggregator {
    buf: Vec<u8>,
    failed: bool,
    chunks: Ghost<Seq<Seq<u8>>>,
}

impl Aggregator {
    /// The chunks taken in so far, in arrival order.
    pub closed spec fn received(&self) -> Seq<Seq<u8>> {
        self.chunks@
    }

    /// Whether the stream has reported an error.
    pub closed spec fn has_failed(&self) -> bool {
        self.failed
    }

    pub closed spec fn wf(&self) -> bool {
        self.buf@ == concat_chunks(self.chunks@)
    }

    pub fn new() -> (a: Aggregator)
        ensures
            a.wf(),
            a.received() == Seq::<Seq<u8>>::empty(),
            !a.has_failed(),
    {
        Aggregator { buf: Vec::new(), failed: false, chunks: Ghost(Seq::empty()) }
    }

    /// Appends the next chunk of the body; ignored once the stream has failed.
    pub fn push_chunk(&mut self, chunk: &[u8])
        requires
            old(self).wf(),
        ensures
            final(self).wf(),
            final(self).has_failed() == old(self).has_failed(),
            old(self).has_failed() ==> final(self).received() == old(self).received(),
            !old(self).has_failed() ==> final(self).received() == old(self).received().push(
                chunk@,
            ),
    {
        if self.failed {
            return;
        }
        let ghost before = self.buf@;
        self.buf.extend_from_slice(chunk);
        proof {
            let cs = self.chunks@.push(chunk@);
            assert(cs.drop_last() =~= self.chunks@);
            assert(self.buf@ =~= before + chunk@);
            self.chunks@ = cs;
        }
    }

    /// Records that the stream reported an error.
    pub fn fail(&mut self)
        requires
            old(self).wf(),
        ensures
            final(self).wf(),
            final(self).has_failed(),
            final(self).received() == old(self).received(),
    {
        self.failed = true;
    }

    /// The whole payload, or `StreamError` if the stream failed.
    pub fn finish(self) -> (r: Result<Vec<u8>, ErrorKind>)
        requires
            self.wf(),
        ensures
            self.has_failed() ==> r == Err::<Vec<u8>, ErrorKind>(ErrorKind::StreamError),
            !self.has_failed() ==> r is Ok && r->Ok_0@ == concat_chunks(self.received()),
    {
        if self.failed {
            Err(ErrorKind::StreamError)
        } else {
            Ok(self.buf)
        }
    }
}

} // verus!
