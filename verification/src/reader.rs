use vstd::prelude::*;

use crate::source::ByteSource;
use crate::source::Error;

verus! {

/// Where the cursor stands: an offset into the front buffer (the most
/// recently filled one) or into the back buffer (the one retired on the
/// previous swap).
#[derive(Clone, Copy)]
enum Position {
    FrontBuffer(usize),
    BackBuffer(usize),
}

/// A seek request.
///
/// The source's total length is unknown in advance, so `End` cannot mean the
/// true end of the stream; this adapter interprets it relative to the
/// current position, exactly like `Current`.
#[derive(Clone, Copy)]
pub enum SeekFrom {
    /// Seek to this absolute stream offset.
    Start(u64),
    /// Seek relative to the current position (see the note on this type).
    End(i64),
    /// Seek relative to the current position.
    Current(i64),
}

/// Mathematical description of the retention window: the two buffers and the
/// stream offset at which the back buffer begins.
pub struct CacheModel {
    /// Bytes retired from the front buffer on the last swap, oldest first.
    pub back: Seq<u8>,
    /// The most recently produced bytes, oldest first.
    pub front: Seq<u8>,
    /// Stream offset of the first byte of `back`.
    pub begins: int,
}

/// How one chunk freshly read from the source reworks the retention window,
/// for a configured retention size `k`.
///
/// If the chunk overruns the whole window, only the newest `k` bytes stay,
/// and they stay in the back buffer so that the front has room to grow.  If
/// it merely overflows the front buffer, the front is topped up to exactly
/// `k` bytes and retired to the back (whose old content is dropped), and the
/// rest of the chunk starts a fresh front.  Otherwise the chunk is appended
/// to the front; a front thereby filled to exactly `k` bytes is retired at
/// once, again so that the front keeps room to grow.
pub open spec fn refill(w: CacheModel, chunk: Seq<u8>, k: int) -> CacheModel {
    let f = w.front.len() as int;
    let n = chunk.len() as int;
    if f + n >= 2 * k {
        let all = w.front + chunk;
        CacheModel {
            back: all.subrange(f + n - k, f + n),
            front: Seq::empty(),
            begins: w.begins + w.back.len() + f + n - k,
        }
    } else if f + n > k {
        CacheModel {
            back: w.front + chunk.take(k - f),
            front: chunk.skip(k - f),
            begins: w.begins + w.back.len(),
        }
    } else if f + n == k {
        CacheModel {
            back: w.front + chunk,
            front: Seq::empty(),
            begins: w.begins + w.back.len(),
        }
    } else {
        CacheModel { back: w.back, front: w.front + chunk, begins: w.begins }
    }
}

/// Append the bytes `src[from..to]` onto `dst`.
fn append_range(dst: &mut Vec<u8>, src: &Vec<u8>, from: usize, to: usize)
    requires
        from <= to <= src@.len(),
    ensures
        final(dst)@ == old(dst)@ + src@.subrange(from as int, to as int),
{
    let mut i: usize = from;
    while i < to
        invariant
            from <= i <= to <= src@.len(),
            dst@ == old(dst)@ + src@.subrange(from as int, i as int),
        decreases to - i,
    {
        dst.push(src[i]);
        proof {
            assert(dst@ =~= old(dst)@ + src@.subrange(from as int, i + 1));
        }
        i = i + 1;
    }
}

/// The absolute stream offset a seek request asks for, given the current
/// cursor position.  `End` counts from the current position, as the note on
/// [`SeekFrom`] explains.
pub open spec fn seek_target(from: SeekFrom, cur: int) -> int {
    match from {
        SeekFrom::Start(t) => t as int,
        SeekFrom::End(d) => cur + d,
        SeekFrom::Current(d) => cur + d,
    }
}

/// A reader adapter that allows seeking a little bit.
///
/// It wraps a [`ByteSource`] and can be read normally; in addition it can
/// seek backwards over at most the retained trailing window of already
/// produced bytes, and forwards by discarding bytes, even though the source
/// itself cannot seek at all.
pub struct PreservingReader<R: ByteSource> {
    /// The wrapped source.
    pub inner: R,
    /// Configured retention size: how many trailing bytes are at least kept
    /// once that much has been read.  At most `2 * keep_size` are kept.
    pub keep_size: usize,
    current_buffer: Vec<u8>,
    older_buffer: Vec<u8>,
    pos: Position,
    /// Bytes read from `inner` so far.
    pub read_bytes: usize,
    buffer_begins_at_pos: usize,
    produced: Ghost<Seq<u8>>,
}

impl<R: ByteSource> PreservingReader<R> {
    /// The configured retention size.
    pub closed spec fn keep(&self) -> int {
        self.keep_size as int
    }

    /// The retention window as a mathematical value.
    pub closed spec fn window(&self) -> CacheModel {
        CacheModel {
            back: self.older_buffer@,
            front: self.current_buffer@,
            begins: self.buffer_begins_at_pos as int,
        }
    }

    /// Every byte ever pulled from the source, oldest first.
    pub closed spec fn produced(&self) -> Seq<u8> {
        self.produced@
    }

    /// The bytes the source has yet to produce.
    pub closed spec fn source_remaining(&self) -> Seq<u8> {
        self.inner.remaining()
    }

    /// The whole logical stream: bytes already pulled from the source
    /// followed by the bytes it has yet to produce.  No operation on the
    /// reader ever changes this sequence.
    pub open spec fn full_stream(&self) -> Seq<u8> {
        self.produced() + self.source_remaining()
    }

    /// How many bytes were pulled from the source so far.  This is also the
    /// stream offset of the write frontier: the point past all cached data.
    pub closed spec fn consumed(&self) -> int {
        self.read_bytes as int
    }

    /// Stream offset the cursor currently denotes.
    pub closed spec fn stream_pos(&self) -> int {
        match self.pos {
            Position::FrontBuffer(p) => self.buffer_begins_at_pos + self.older_buffer@.len()
                + p,
            Position::BackBuffer(p) => self.buffer_begins_at_pos + p,
        }
    }

    /// Stream offset of the oldest retained byte: the earliest position a
    /// backward seek can reach.
    pub closed spec fn cache_start(&self) -> int {
        self.buffer_begins_at_pos as int
    }

    /// Number of retained bytes.
    pub open spec fn buffered(&self) -> int {
        self.window().back.len() + self.window().front.len() as int
    }

    /// Bytes cached at or after the cursor: how far the cursor can move
    /// forward, or how much a read can return, before fresh source bytes are
    /// needed.
    pub open spec fn cached_ahead(&self) -> int {
        self.consumed() - self.stream_pos()
    }

    /// Structural soundness of the reader: the buffers respect the
    /// configured bounds, the counters agree, the buffers hold exactly the
    /// newest produced bytes, and the cursor points into a buffer.
    pub closed spec fn wf(&self) -> bool {
        &&& 1 <= self.keep_size
        &&& 2 * (self.keep_size as int) <= usize::MAX as int
        &&& self.inner.inv()
        &&& self.older_buffer@.len() <= self.keep_size
        &&& self.current_buffer@.len() < self.keep_size
        &&& self.read_bytes as int == self.buffer_begins_at_pos + self.older_buffer@.len()
            + self.current_buffer@.len()
        &&& self.produced@.len() == self.read_bytes
        &&& self.older_buffer@ == self.produced@.subrange(
            self.buffer_begins_at_pos as int,
            self.buffer_begins_at_pos + self.older_buffer@.len(),
        )
        &&& self.current_buffer@ == self.produced@.subrange(
            self.buffer_begins_at_pos + self.older_buffer@.len(),
            self.produced@.len() as int,
        )
        &&& match self.pos {
            Position::FrontBuffer(p) => p <= self.current_buffer@.len(),
            Position::BackBuffer(p) => p <= self.older_buffer@.len(),
        }
    }

    /// The arithmetic a caller may rely on after every operation: the
    /// retained window is a contiguous piece of the stream ending at the
    /// write frontier, the cursor stands inside it, each buffer respects
    /// the configured bound (so at most `2 * keep_size` bytes are retained,
    /// and the front buffer always has room to grow).
    pub open spec fn in_bounds(&self) -> bool {
        &&& 0 <= self.cache_start()
        &&& self.cache_start() <= self.stream_pos()
        &&& self.stream_pos() <= self.consumed()
        &&& self.consumed() == self.produced().len()
        &&& self.buffered() == self.consumed() - self.cache_start()
        &&& 1 <= self.keep()
        &&& self.window().back.len() <= self.keep()
        &&& self.window().front.len() < self.keep()
    }

    /// The retention window, the counters and the source all stand as in
    /// `other`; only the cursor may differ.
    pub open spec fn same_cache(&self, other: &Self) -> bool {
        &&& self.window() == other.window()
        &&& self.produced() == other.produced()
        &&& self.source_remaining() == other.source_remaining()
        &&& self.consumed() == other.consumed()
        &&& self.keep() == other.keep()
    }

    /// Nothing observable changed at all, the cursor included.
    pub open spec fn same_state(&self, other: &Self) -> bool {
        &&& self.same_cache(other)
        &&& self.stream_pos() == other.stream_pos()
    }

    /// Create a new instance of a PreservingReader.
    ///
    /// It wraps around `inner` and allows seeking backwards by keeping at
    /// least `keep_size` bytes of already read data, if this amount of data
    /// is already read.  At most `2 * keep_size` bytes are kept.
    pub fn new(inner: R, keep_size: usize) -> (r: PreservingReader<R>)
        requires
            inner.inv(),
            1 <= keep_size,
            2 * (keep_size as int) <= usize::MAX as int,
        ensures
            r.wf(),
            r.in_bounds(),
            r.keep() == keep_size,
            r.stream_pos() == 0,
            r.consumed() == 0,
            r.buffered() == 0,
            r.cache_start() == 0,
            r.produced() == Seq::<u8>::empty(),
            r.full_stream() == inner.remaining(),
    {
        let r = PreservingReader {
            inner,
            keep_size,
            current_buffer: Vec::with_capacity(keep_size),
            older_buffer: Vec::with_capacity(keep_size),
            pos: Position::FrontBuffer(0),
            read_bytes: 0,
            buffer_begins_at_pos: 0,
            produced: Ghost(Seq::empty()),
        };
        proof {
            assert(r.older_buffer@ =~= r.produced@.subrange(0, 0));
            assert(r.current_buffer@ =~= r.produced@.subrange(0, 0));
            assert(r.full_stream() =~= inner.remaining());
        }
        r
    }

    /// Like [`Self::new`], but rejects an unusable `keep_size` with
    /// [`Error::InvalidConfiguration`] instead of demanding a usable one up
    /// front: zero retains nothing, and a size whose doubled window cannot
    /// be addressed is no better.
    pub fn try_new(inner: R, keep_size: usize) -> (r: Result<PreservingReader<R>, Error>)
        requires
            inner.inv(),
        ensures
            match r {
                Ok(reader) => {
                    &&& 1 <= keep_size
                    &&& 2 * (keep_size as int) <= usize::MAX as int
                    &&& reader.wf()
                    &&& reader.in_bounds()
                    &&& reader.keep() == keep_size
                    &&& reader.stream_pos() == 0
                    &&& reader.consumed() == 0
                    &&& reader.buffered() == 0
                    &&& reader.produced() == Seq::<u8>::empty()
                    &&& reader.full_stream() == inner.remaining()
                },
                Err(e) => {
                    &&& e == Error::InvalidConfiguration
                    &&& (keep_size == 0 || 2 * (keep_size as int) > usize::MAX as int)
                },
            },
    {
        if keep_size == 0 {
            return Err(Error::InvalidConfiguration);
        }
        if keep_size > usize::MAX / 2 {
            return Err(Error::InvalidConfiguration);
        }
        Ok(Self::new(inner, keep_size))
    }

    /// Returns the size of the buffered data: how many bytes are currently
    /// retained.  This is the furthest the cursor can stand from the write
    /// frontier, and so the most that a backward seek from the frontier can
    /// cover; attempts to seek further back result in an error.
    pub fn buffered_size(&self) -> (r: usize)
        requires
            self.wf(),
        ensures
            r as int == self.buffered(),
    {
        self.current_buffer.len() + self.older_buffer.len()
    }

    /// Monotonic count of the bytes pulled from the source so far.  Bytes
    /// re-read from the cache after a backward seek are not counted again.
    pub fn bytes_consumed_from_source(&self) -> (r: usize)
        ensures
            r as int == self.consumed(),
    {
        self.read_bytes
    }

    /// Number of bytes currently held in the front buffer.
    pub fn current_buffer_len(&self) -> (r: usize)
        ensures
            r as int == self.window().front.len(),
    {
        self.current_buffer.len()
    }

    /// Number of bytes currently held in the back buffer.
    pub fn older_buffer_len(&self) -> (r: usize)
        ensures
            r as int == self.window().back.len(),
    {
        self.older_buffer.len()
    }

    /// The stream offset the cursor currently denotes: how many bytes of
    /// the logical stream lie before it.
    pub fn get_stream_position(&self) -> (r: usize)
        requires
            self.wf(),
        ensures
            r as int == self.stream_pos(),
    {
        match self.pos {
            Position::FrontBuffer(p) => self.buffer_begins_at_pos + self.older_buffer.len()
                + p,
            Position::BackBuffer(p) => self.buffer_begins_at_pos + p,
        }
    }

    /// Pull up to `want` fresh bytes from the source into the cache.
    ///
    /// The bytes read are also returned; the retention window is reworked
    /// as [`refill`] describes, and the cursor lands at the write frontier,
    /// past all cached data.  On failure nothing changes.
    #[verifier::rlimit(60)]
    fn read_inner(&mut self, want: usize) -> (r: Result<Vec<u8>, Error>)
        requires
            old(self).wf(),
            old(self).consumed() + want <= usize::MAX,
        ensures
            final(self).wf(),
            final(self).in_bounds(),
            final(self).keep() == old(self).keep(),
            match r {
                Ok(chunk) => {
                    &&& chunk@.len() <= want
                    &&& chunk@ == old(self).source_remaining().take(chunk@.len() as int)
                    &&& (chunk@.len() == 0 <==> (want == 0 || old(
                        self,
                    ).source_remaining().len() == 0))
                    &&& final(self).produced() == old(self).produced() + chunk@
                    &&& final(self).source_remaining() == old(self).source_remaining().skip(
                        chunk@.len() as int,
                    )
                    &&& final(self).full_stream() == old(self).full_stream()
                    &&& final(self).consumed() == old(self).consumed() + chunk@.len()
                    &&& final(self).window() == refill(
                        old(self).window(),
                        chunk@,
                        old(self).keep(),
                    )
                    &&& final(self).stream_pos() == final(self).consumed()
                },
                Err(e) => {
                    &&& e == Error::SourceIo
                    &&& final(self).same_state(old(self))
                },
            },
    {
        let chunk = match self.inner.fill(want) {
            Ok(c) => c,
            Err(e) => {
                return Err(e);
            },
        };
        let n = chunk.len();
        let k = self.keep_size;
        self.read_bytes = self.read_bytes + n;
        proof {
            self.produced@ = self.produced@ + chunk@;
        }
        if self.current_buffer.len() + n >= 2 * k {
            // The window is overrun: only the newest `k` bytes stay, and they
            // go to the back buffer so the front keeps room to grow.
            proof {
                assert(n > k);
            }
            self.older_buffer.clear();
            append_range(&mut self.older_buffer, &chunk, n - k, n);
            self.current_buffer.clear();
            self.buffer_begins_at_pos = self.read_bytes - k;
            proof {
                let w = refill(old(self).window(), chunk@, k as int);
                assert(self.older_buffer@ =~= w.back);
                assert(self.current_buffer@ =~= w.front);
                assert(self.older_buffer@ =~= self.produced@.subrange(
                    self.buffer_begins_at_pos as int,
                    self.buffer_begins_at_pos + self.older_buffer@.len(),
                ));
                assert(self.current_buffer@ =~= self.produced@.subrange(
                    self.buffer_begins_at_pos + self.older_buffer@.len(),
                    self.produced@.len() as int,
                ));
            }
        } else if n > k - self.current_buffer.len() {
            // The chunk does not fit in the front buffer: top the front up to
            // exactly `k` bytes, retire it to the back, and start a fresh
            // front with the remainder of the chunk.
            let boundary = k - self.current_buffer.len();
            self.buffer_begins_at_pos = self.buffer_begins_at_pos + self.older_buffer.len();
            core::mem::swap(&mut self.older_buffer, &mut self.current_buffer);
            append_range(&mut self.older_buffer, &chunk, 0, boundary);
            self.current_buffer.clear();
            append_range(&mut self.current_buffer, &chunk, boundary, n);
            proof {
                let w = refill(old(self).window(), chunk@, k as int);
                assert(self.older_buffer@ =~= w.back);
                assert(self.current_buffer@ =~= w.front);
                assert(self.older_buffer@ =~= self.produced@.subrange(
                    self.buffer_begins_at_pos as int,
                    self.buffer_begins_at_pos + self.older_buffer@.len(),
                ));
                assert(self.current_buffer@ =~= self.produced@.subrange(
                    self.buffer_begins_at_pos + self.older_buffer@.len(),
                    self.produced@.len() as int,
                ));
            }
        } else {
            append_range(&mut self.current_buffer, &chunk, 0, n);
            if self.current_buffer.len() == k {
                // The front is exactly full: retire it so it keeps room to
                // grow on the next call.
                self.buffer_begins_at_pos = self.buffer_begins_at_pos
                    + self.older_buffer.len();
                core::mem::swap(&mut self.older_buffer, &mut self.current_buffer);
                self.current_buffer.clear();
            }
            proof {
                let w = refill(old(self).window(), chunk@, k as int);
                assert(self.older_buffer@ =~= w.back);
                assert(self.current_buffer@ =~= w.front);
                assert(self.older_buffer@ =~= self.produced@.subrange(
                    self.buffer_begins_at_pos as int,
                    self.buffer_begins_at_pos + self.older_buffer@.len(),
                ));
                assert(self.current_buffer@ =~= self.produced@.subrange(
                    self.buffer_begins_at_pos + self.older_buffer@.len(),
                    self.produced@.len() as int,
                ));
            }
        }
        self.pos = Position::FrontBuffer(self.current_buffer.len());
        proof {
            assert(n as int <= old(self).source_remaining().len());
            assert(old(self).source_remaining().take(n as int) + old(
                self,
            ).source_remaining().skip(n as int) =~= old(self).source_remaining());
            assert(self.full_stream() =~= old(self).full_stream());
        }
        Ok(chunk)
    }

    /// Read up to `want` bytes at the cursor and advance it past them.
    ///
    /// Cached bytes at the cursor are served first — from the back buffer,
    /// then the front buffer; only if the request is still not satisfied is
    /// a single read issued to the source, whose bytes also enter the cache.
    /// The result can be shorter than `want` only when fresh source bytes
    /// were needed and the source came up short; it is empty exactly when
    /// nothing was asked for or the stream is exhausted.  On failure nothing
    /// changes.
    #[verifier::rlimit(60)]
    pub fn read(&mut self, want: usize) -> (r: Result<Vec<u8>, Error>)
        requires
            old(self).wf(),
            old(self).stream_pos() + want <= usize::MAX,
        ensures
            final(self).wf(),
            final(self).in_bounds(),
            final(self).keep() == old(self).keep(),
            match r {
                Ok(data) => {
                    &&& data@.len() <= want
                    &&& data@ == old(self).full_stream().subrange(
                        old(self).stream_pos(),
                        old(self).stream_pos() + data@.len(),
                    )
                    &&& final(self).full_stream() == old(self).full_stream()
                    &&& final(self).stream_pos() == old(self).stream_pos() + data@.len()
                    &&& (data@.len() == 0 <==> (want == 0 || old(self).stream_pos()
                        == old(self).full_stream().len()))
                    &&& (want <= old(self).cached_ahead() ==> data@.len() == want
                        && final(self).same_cache(old(self)))
                    &&& (want > old(self).cached_ahead() ==> {
                        &&& data@.len() >= old(self).cached_ahead()
                        &&& final(self).consumed() == old(self).consumed() + (data@.len()
                            - old(self).cached_ahead())
                        &&& final(self).stream_pos() == final(self).consumed()
                        &&& final(self).window() == refill(
                            old(self).window(),
                            old(self).source_remaining().take(
                                final(self).consumed() - old(self).consumed(),
                            ),
                            old(self).keep(),
                        )
                    })
                    &&& old(self).produced().is_prefix_of(final(self).produced())
                },
                Err(e) => {
                    &&& e == Error::SourceIo
                    &&& final(self).same_state(old(self))
                    &&& want > old(self).cached_ahead()
                },
            },
            want <= old(self).cached_ahead() ==> r is Ok,
    {
        match self.pos {
            Position::FrontBuffer(p) => {
                let f_len = self.current_buffer.len();
                let avail = f_len - p;
                let c = if want < avail {
                    want
                } else {
                    avail
                };
                let mut out: Vec<u8> = Vec::new();
                append_range(&mut out, &self.current_buffer, p, p + c);
                proof {
                    assert(out@ =~= old(self).full_stream().subrange(
                        old(self).stream_pos(),
                        old(self).stream_pos() + c,
                    ));
                }
                if c == want {
                    self.pos = Position::FrontBuffer(p + c);
                    Ok(out)
                } else {
                    // The front cache is exhausted; pull the rest from the
                    // source.  The cursor is only moved once that succeeds.
                    match self.read_inner(want - c) {
                        Ok(chunk) => {
                            append_range(&mut out, &chunk, 0, chunk.len());
                            proof {
                                assert(out@ =~= old(self).full_stream().subrange(
                                    old(self).stream_pos(),
                                    old(self).stream_pos() + out@.len(),
                                ));
                            }
                            Ok(out)
                        },
                        Err(e) => Err(e),
                    }
                }
            },
            Position::BackBuffer(p) => {
                let b_len = self.older_buffer.len();
                let avail = b_len - p;
                let c1 = if want < avail {
                    want
                } else {
                    avail
                };
                let mut out: Vec<u8> = Vec::new();
                append_range(&mut out, &self.older_buffer, p, p + c1);
                proof {
                    assert(out@ =~= old(self).full_stream().subrange(
                        old(self).stream_pos(),
                        old(self).stream_pos() + c1,
                    ));
                }
                if c1 == want {
                    self.pos = Position::BackBuffer(p + c1);
                    Ok(out)
                } else {
                    // The back cache is exhausted; continue at the start of
                    // the front buffer.
                    let f_len = self.current_buffer.len();
                    let want2 = want - c1;
                    let c2 = if want2 < f_len {
                        want2
                    } else {
                        f_len
                    };
                    append_range(&mut out, &self.current_buffer, 0, c2);
                    proof {
                        assert(out@ =~= old(self).full_stream().subrange(
                            old(self).stream_pos(),
                            old(self).stream_pos() + c1 + c2,
                        ));
                    }
                    if c2 == want2 {
                        self.pos = Position::FrontBuffer(c2);
                        Ok(out)
                    } else {
                        match self.read_inner(want2 - c2) {
                            Ok(chunk) => {
                                append_range(&mut out, &chunk, 0, chunk.len());
                                proof {
                                    assert(out@ =~= old(self).full_stream().subrange(
                                        old(self).stream_pos(),
                                        old(self).stream_pos() + out@.len(),
                                    ));
                                }
                                Ok(out)
                            },
                            Err(e) => Err(e),
                        }
                    }
                }
            },
        }
    }

    /// Move the cursor `shift` bytes backwards over the retained window and
    /// return the new absolute stream position.
    ///
    /// Moving back past the oldest retained byte fails with
    /// [`Error::OutOfBufferRange`] and changes nothing; it is never silently
    /// clamped.  The source is not touched either way.
    pub fn seek_backwards(&mut self, shift: usize) -> (r: Result<u64, Error>)
        requires
            old(self).wf(),
        ensures
            final(self).wf(),
            final(self).in_bounds(),
            match r {
                Ok(npos) => {
                    &&& shift <= old(self).stream_pos() - old(self).cache_start()
                    &&& final(self).same_cache(old(self))
                    &&& final(self).stream_pos() == old(self).stream_pos() - shift
                    &&& npos as int == final(self).stream_pos()
                },
                Err(e) => {
                    &&& e == Error::OutOfBufferRange
                    &&& shift > old(self).stream_pos() - old(self).cache_start()
                    &&& final(self).same_state(old(self))
                },
            },
    {
        match self.pos {
            Position::FrontBuffer(p) => {
                if shift <= p {
                    self.pos = Position::FrontBuffer(p - shift);
                } else {
                    // Cross the boundary into the back buffer.
                    let rest = shift - p;
                    if rest <= self.older_buffer.len() {
                        self.pos = Position::BackBuffer(self.older_buffer.len() - rest);
                    } else {
                        return Err(Error::OutOfBufferRange);
                    }
                }
            },
            Position::BackBuffer(p) => {
                if shift <= p {
                    self.pos = Position::BackBuffer(p - shift);
                } else {
                    return Err(Error::OutOfBufferRange);
                }
            },
        }
        Ok(self.get_stream_position() as u64)
    }

    /// Move the cursor `shift` bytes forwards and return the new absolute
    /// stream position.
    ///
    /// Within the cached window this only repositions the cursor.  Moving
    /// past the write frontier reads the missing bytes from the source and
    /// discards them (they still enter the cache); the source may come up
    /// short, in which case the cursor lands where the source gave out, as
    /// the returned position tells.  On failure nothing changes.
    pub fn seek_forwards(&mut self, shift: usize) -> (r: Result<u64, Error>)
        requires
            old(self).wf(),
            old(self).stream_pos() + shift <= usize::MAX,
        ensures
            final(self).wf(),
            final(self).in_bounds(),
            final(self).keep() == old(self).keep(),
            match r {
                Ok(npos) => {
                    &&& npos as int == final(self).stream_pos()
                    &&& final(self).full_stream() == old(self).full_stream()
                    &&& (shift <= old(self).cached_ahead() ==> {
                        &&& final(self).same_cache(old(self))
                        &&& final(self).stream_pos() == old(self).stream_pos() + shift
                    })
                    &&& (shift > old(self).cached_ahead() ==> {
                        &&& final(self).stream_pos() == final(self).consumed()
                        &&& old(self).consumed() <= final(self).consumed()
                        &&& final(self).stream_pos() <= old(self).stream_pos() + shift
                        &&& (final(self).consumed() == old(self).consumed() <==> old(
                            self,
                        ).source_remaining().len() == 0)
                        &&& final(self).produced() == old(self).produced() + old(
                            self,
                        ).source_remaining().take(final(self).consumed() - old(
                            self,
                        ).consumed())
                        &&& final(self).window() == refill(
                            old(self).window(),
                            old(self).source_remaining().take(
                                final(self).consumed() - old(self).consumed(),
                            ),
                            old(self).keep(),
                        )
                    })
                },
                Err(e) => {
                    &&& e == Error::SourceIo
                    &&& shift > old(self).cached_ahead()
                    &&& final(self).same_state(old(self))
                },
            },
            shift <= old(self).cached_ahead() ==> r is Ok,
    {
        let fp: usize;
        let sh: usize;
        match self.pos {
            Position::BackBuffer(p) => {
                let rem = self.older_buffer.len() - p;
                if shift < rem {
                    self.pos = Position::BackBuffer(p + shift);
                    return Ok(self.get_stream_position() as u64);
                }
                // Cross the boundary to the start of the front buffer.
                sh = shift - rem;
                fp = 0;
            },
            Position::FrontBuffer(p) => {
                sh = shift;
                fp = p;
            },
        }
        let remf = self.current_buffer.len() - fp;
        if sh <= remf {
            self.pos = Position::FrontBuffer(fp + sh);
            Ok(self.get_stream_position() as u64)
        } else {
            // The target lies past everything cached: read the missing
            // bytes and discard them.  The cursor moves only if that
            // succeeds.
            match self.read_inner(sh - remf) {
                Ok(_) => Ok(self.get_stream_position() as u64),
                Err(e) => Err(e),
            }
        }
    }

    /// Move the cursor as `from` asks and return the new absolute stream
    /// position.
    ///
    /// A target inside the retained window only repositions the cursor; a
    /// target past the write frontier reads and discards the bytes in
    /// between, as [`Self::seek_forwards`] describes; a target before the
    /// oldest retained byte fails with [`Error::OutOfBufferRange`] and
    /// changes nothing.
    pub fn seek(&mut self, from: SeekFrom) -> (r: Result<u64, Error>)
        requires
            old(self).wf(),
            seek_target(from, old(self).stream_pos()) <= usize::MAX,
        ensures
            final(self).wf(),
            final(self).in_bounds(),
            final(self).keep() == old(self).keep(),
            ({
                let target = seek_target(from, old(self).stream_pos());
                match r {
                    Ok(npos) => {
                        &&& npos as int == final(self).stream_pos()
                        &&& final(self).full_stream() == old(self).full_stream()
                        &&& target >= old(self).cache_start()
                        &&& (target <= old(self).consumed() ==> {
                            &&& final(self).same_cache(old(self))
                            &&& final(self).stream_pos() == target
                        })
                        &&& (target > old(self).consumed() ==> {
                            &&& final(self).stream_pos() == final(self).consumed()
                            &&& old(self).consumed() <= final(self).consumed() <= target
                            &&& (final(self).consumed() == old(self).consumed() <==> old(
                                self,
                            ).source_remaining().len() == 0)
                            &&& final(self).produced() == old(self).produced() + old(
                                self,
                            ).source_remaining().take(final(self).consumed() - old(
                                self,
                            ).consumed())
                            &&& final(self).window() == refill(
                                old(self).window(),
                                old(self).source_remaining().take(
                                    final(self).consumed() - old(self).consumed(),
                                ),
                                old(self).keep(),
                            )
                        })
                    },
                    Err(e) => {
                        &&& final(self).same_state(old(self))
                        &&& (e == Error::OutOfBufferRange || e == Error::SourceIo)
                        &&& (e == Error::OutOfBufferRange ==> target < old(
                            self,
                        ).cache_start())
                        &&& (e == Error::SourceIo ==> target > old(self).consumed())
                    },
                }
            }),
            (old(self).cache_start() <= seek_target(from, old(self).stream_pos()) <= old(
                self,
            ).consumed()) ==> r is Ok,
    {
        let cur = self.get_stream_position();
        match from {
            SeekFrom::Start(t) => {
                let tu = t as usize;
                if tu >= cur {
                    self.seek_forwards(tu - cur)
                } else {
                    self.seek_backwards(cur - tu)
                }
            },
            SeekFrom::End(d) | SeekFrom::Current(d) => {
                if d >= 0 {
                    self.seek_forwards(d as usize)
                } else {
                    // Magnitude of `d`, computed so that even the most
                    // negative value cannot overflow.
                    let m = ((-(d + 1)) as u64) + 1;
                    if m > cur as u64 {
                        // The target lies before the start of the stream,
                        // so certainly before the retained window.
                        Err(Error::OutOfBufferRange)
                    } else {
                        self.seek_backwards(m as usize)
                    }
                }
            },
        }
    }
}

/// Read-through equivalence: two reads taken one after the other return
/// adjacent pieces of the stream, so reading with no seeks reproduces the
/// source content exactly, whatever the chunking.  The contract of
/// [`PreservingReader::read`] says each read returns `full_stream` from the
/// position it found the cursor at; this lemma says those pieces
/// concatenate seamlessly.
pub proof fn lemma_read_chunking(s: Seq<u8>, p: int, n1: int, n2: int)
    requires
        0 <= p,
        0 <= n1,
        0 <= n2,
        p + n1 + n2 <= s.len(),
    ensures
        s.subrange(p, p + n1) + s.subrange(p + n1, p + n1 + n2) == s.subrange(
            p,
            p + n1 + n2,
        ),
{
    assert(s.subrange(p, p + n1) + s.subrange(p + n1, p + n1 + n2) =~= s.subrange(
        p,
        p + n1 + n2,
    ));
}

/// Round-trip seek: seeking backwards by `k` and then forwards by `k`
/// restores the exact prior stream position and leaves the cache, the
/// counters and the source untouched — so subsequent reads are what they
/// would have been without the detour, since [`PreservingReader::read`]'s
/// contract depends only on what is equated here.  The two `requires`
/// groups state just what the contracts of [`PreservingReader::seek_backwards`]
/// and [`PreservingReader::seek_forwards`] guarantee of the two calls.
pub proof fn lemma_round_trip_seek<R: ByteSource>(
    r0: PreservingReader<R>,
    r1: PreservingReader<R>,
    r2: PreservingReader<R>,
    k: int,
)
    requires
        r1.same_cache(&r0),
        r1.stream_pos() == r0.stream_pos() - k,
        r2.same_cache(&r1),
        r2.stream_pos() == r1.stream_pos() + k,
    ensures
        r2.stream_pos() == r0.stream_pos(),
        r2.same_cache(&r0),
        r2.full_stream() == r0.full_stream(),
{
}

/// Source monotonicity: the consumed counter counts exactly the bytes ever
/// pulled from the source — they form precisely the prefix of that length
/// of the logical stream, so every byte is pulled at most once, in order,
/// and never re-fetched.  Together with the per-call `consumed` clauses of
/// [`PreservingReader::read`] and [`PreservingReader::seek_forwards`], which
/// grow the counter by exactly the bytes no cache could have served, this
/// is the whole accounting of the source.
pub proof fn lemma_source_monotonicity<R: ByteSource>(r: PreservingReader<R>)
    requires
        r.wf(),
    ensures
        r.consumed() == r.produced().len(),
        r.produced() == r.full_stream().take(r.consumed()),
        r.consumed() <= r.full_stream().len(),
        r.stream_pos() <= r.consumed(),
        r.cache_start() <= r.stream_pos(),
{
    assert(r.produced() =~= r.full_stream().take(r.consumed()));
}

} // verus!
