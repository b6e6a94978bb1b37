use vstd::prelude::*;

verus! {

/// The ways an operation on a reader can fail.
#[derive(Clone, Copy, Debug, PartialEq, Eq, Structural)]
pub enum Error {
    /// The underlying byte source reported an I/O failure.
    SourceIo,
    /// A backward seek asked for more than the retained window holds.
    OutOfBufferRange,
    /// A reader was configured with an unusable retention size.
    InvalidConfiguration,
}

/// A forward-only producer of bytes.
///
/// A source hands out its bytes in order, each byte exactly once.  It cannot
/// seek; the adapter built on top of it never asks it to.
pub trait ByteSource {
    /// Internal consistency condition that an implementation maintains.
    spec fn inv(&self) -> bool;

    /// The bytes this source has yet to produce, oldest first.
    spec fn remaining(&self) -> Seq<u8>;

    /// Produce up to `want` of the next bytes.
    ///
    /// The call may return fewer bytes than asked for (a short read).  It
    /// returns an empty vector exactly when nothing was asked for or the
    /// source has reached its end.
    fn fill(&mut self, want: usize) -> (r: Result<Vec<u8>, Error>)
        requires
            old(self).inv(),
        ensures
            final(self).inv(),
            match r {
                Ok(chunk) => {
                    &&& chunk@.len() <= want
                    &&& chunk@.len() <= old(self).remaining().len()
                    &&& chunk@ == old(self).remaining().take(chunk@.len() as int)
                    &&& final(self).remaining() == old(self).remaining().skip(
                        chunk@.len() as int,
                    )
                    &&& (chunk@.len() == 0 <==> (want == 0 || old(self).remaining().len()
                        == 0))
                },
                Err(e) => {
                    &&& e == Error::SourceIo
                    &&& final(self).remaining() == old(self).remaining()
                },
            },
    ;
}

/// An in-memory byte source backed by a vector.
///
/// It produces the vector's bytes front to back and then reports end of
/// stream; it never fails.
pub struct VecSource {
    data: Vec<u8>,
    pos: usize,
}

impl VecSource {
    /// Wrap `data` as a source that will produce exactly those bytes.
    pub fn new(data: Vec<u8>) -> (r: VecSource)
        ensures
            r.inv(),
            r.remaining() == data@,
    {
        let r = VecSource { data, pos: 0 };
        proof {
            assert(r.remaining() =~= r.data@);
        }
        r
    }
}

impl ByteSource for VecSource {
    closed spec fn inv(&self) -> bool {
        self.pos <= self.data@.len()
    }

    closed spec fn remaining(&self) -> Seq<u8> {
        self.data@.skip(self.pos as int)
    }

    fn fill(&mut self, want: usize) -> (r: Result<Vec<u8>, Error>) {
        let avail = self.data.len() - self.pos;
        let n = if want < avail {
            want
        } else {
            avail
        };
        let mut chunk: Vec<u8> = Vec::new();
        let mut i: usize = 0;
        while i < n
            invariant
                i <= n,
                self.pos + n <= self.data@.len(),
                self.data@.len() <= usize::MAX,
                self.data@ == old(self).data@,
                self.pos == old(self).pos,
                chunk@ == self.data@.subrange(self.pos as int, self.pos + i),
            decreases n - i,
        {
            chunk.push(self.data[self.pos + i]);
            proof {
                assert(chunk@ =~= self.data@.subrange(self.pos as int, self.pos + i + 1));
            }
            i = i + 1;
        }
        self.pos = self.pos + n;
        proof {
            assert(chunk@ =~= old(self).remaining().take(n as int));
            assert(self.remaining() =~= old(self).remaining().skip(n as int));
        }
        Ok(chunk)
    }
}

/// A byte source that always reports an I/O failure and never produces a
/// byte.  Useful to exercise how errors travel through an adapter.
pub struct FailingSource;

impl ByteSource for FailingSource {
    closed spec fn inv(&self) -> bool {
        true
    }

    closed spec fn remaining(&self) -> Seq<u8> {
        Seq::empty()
    }

    fn fill(&mut self, want: usize) -> (r: Result<Vec<u8>, Error>) {
        Err(Error::SourceIo)
    }
}

} // verus!
