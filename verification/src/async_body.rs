//! The HTTP message body abstraction.
//!
//! A body is in one of three states: absent, fully buffered in memory, or
//! arriving incrementally from an external asynchronous source. The first two
//! are readable directly by verified code; the incremental state is an opaque
//! marker whose bytes are supplied by unverified glue outside this crate.

use vstd::prelude::*;

verus! {

use vstd::slice::slice_subrange;
use vstd::slice::slice_to_vec;

/// The three states of a body.
pub enum Inner {
    /// No payload at all; semantically distinct from a zero-length payload.
    Empty,
    /// A payload held fully in memory, together with a read cursor.
    SyncReader { bytes: Vec<u8>, cursor: usize },
    /// A payload that arrives incrementally from an external source. The
    /// source itself lives outside this crate; a body in this state can be
    /// consumed exactly once and can never be duplicated.
    AsyncReader,
}

/// An HTTP message payload.
pub struct AsyncBody {
    pub inner: Inner,
}

/// The outcome of one read step on a body.
pub enum ReadStep {
    /// Bytes copied out of the body itself. An empty chunk signals the end
    /// of the body, not an error.
    Bytes(Vec<u8>),
    /// The body is incremental: the next chunk must be pulled from the
    /// external source by the caller.
    AwaitSource,
}

impl Inner {
    /// A buffered body never lets its cursor run past its bytes.
    pub open spec fn wf(self) -> bool {
        match self {
            Inner::SyncReader { bytes, cursor } => cursor <= bytes.len(),
            _ => true,
        }
    }

    /// The bytes still to be read from a buffered body.
    pub open spec fn remaining(self) -> Seq<u8>
        recommends
            self is SyncReader,
    {
        self->bytes@.subrange(self->cursor as int, self->bytes@.len() as int)
    }
}

impl AsyncBody {
    pub open spec fn wf(self) -> bool {
        self.inner.wf()
    }

    /// Create a new empty body.
    ///
    /// An empty body represents the *absence* of a body, which is
    /// semantically different than the presence of a body of zero length.
    pub fn empty() -> (r: Self)
        ensures
            r.inner is Empty,
            r.wf(),
    {
        AsyncBody { inner: Inner::Empty }
    }

    /// Create a streaming body whose bytes will be pulled from an external
    /// asynchronous source by whatever drives this body.
    pub fn from_reader() -> (r: Self)
        ensures
            r.inner is AsyncReader,
            r.wf(),
    {
        AsyncBody { inner: Inner::AsyncReader }
    }

    /// Create a buffered body over the given bytes, cursor at the start.
    pub fn from_bytes(bytes: Vec<u8>) -> (r: Self)
        ensures
            r.inner is SyncReader,
            r.inner->bytes@ == bytes@,
            r.inner->cursor == 0,
            r.wf(),
    {
        AsyncBody { inner: Inner::SyncReader { bytes, cursor: 0 } }
    }

    /// Pull up to `max` bytes out of the body. An absent body always reports
    /// zero bytes immediately and never defers to an external source; a
    /// buffered body hands out the next bytes at its cursor and advances it;
    /// an incremental body defers to the external source that owns its bytes.
    pub fn read_step(&mut self, max: usize) -> (r: ReadStep)
        requires
            old(self).wf(),
        ensures
            final(self).wf(),
            old(self).inner is Empty ==> *final(self) == *old(self) && (r matches ReadStep::Bytes(
                d,
            ) && d@ == Seq::<u8>::empty()),
            old(self).inner is AsyncReader ==> *final(self) == *old(self) && r is AwaitSource,
            old(self).inner is SyncReader ==> {
                let rem = old(self).inner.remaining();
                let n = if max <= rem.len() {
                    max as int
                } else {
                    rem.len() as int
                };
                &&& r matches ReadStep::Bytes(d) && d@ == rem.take(n)
                &&& final(self).inner is SyncReader
                &&& final(self).inner->bytes@ == old(self).inner->bytes@
                &&& final(self).inner->cursor == old(self).inner->cursor + n
            },
    {
        match &mut self.inner {
            Inner::Empty => ReadStep::Bytes(Vec::new()),
            Inner::SyncReader { bytes, cursor } => {
                let avail = bytes.len() - *cursor;
                let n = if max <= avail {
                    max
                } else {
                    avail
                };
                let d = slice_to_vec(slice_subrange(bytes.as_slice(), *cursor, *cursor + n));
                *cursor = *cursor + n;
                proof {
                    assert(d@ =~= old(self).inner.remaining().take(n as int));
                }
                ReadStep::Bytes(d)
            },
            Inner::AsyncReader => ReadStep::AwaitSource,
        }
    }

    /// The body can be duplicated: only an incremental body cannot.
    pub open spec fn duplicable(self) -> bool {
        !(self.inner is AsyncReader)
    }

    /// Duplicate the body. An absent body duplicates to an absent body; a
    /// buffered body duplicates to one sharing the same bytes, each copy
    /// advancing its cursor independently from here on. Duplicating an
    /// incremental body is a contract violation, ruled out by precondition.
    pub fn duplicate(&self) -> (r: Self)
        requires
            self.duplicable(),
            self.wf(),
        ensures
            r.wf(),
            self.inner is Empty ==> r.inner is Empty,
            self.inner is SyncReader ==> r.inner is SyncReader && r.inner->bytes@
                == self.inner->bytes@ && r.inner->cursor == self.inner->cursor,
    {
        match &self.inner {
            Inner::Empty => AsyncBody { inner: Inner::Empty },
            Inner::SyncReader { bytes, cursor } => {
                let copy = slice_to_vec(bytes.as_slice());
                AsyncBody { inner: Inner::SyncReader { bytes: copy, cursor: *cursor } }
            },
            Inner::AsyncReader => AsyncBody { inner: Inner::AsyncReader },
        }
    }

    /// Duplicate the body if its state permits it. An incremental body is
    /// flagged by returning nothing: it is never silently duplicated into
    /// two independently readable copies.
    pub fn try_duplicate(&self) -> (r: Option<Self>)
        requires
            self.wf(),
        ensures
            self.inner is AsyncReader <==> r is None,
            self.inner is Empty ==> (r matches Some(b) && b.inner is Empty),
            self.inner is SyncReader ==> (r matches Some(b) && b.inner is SyncReader
                && b.inner->bytes@ == self.inner->bytes@ && b.inner->cursor
                == self.inner->cursor),
            r matches Some(b) ==> b.wf(),
    {
        match &self.inner {
            Inner::AsyncReader => None,
            _ => Some(self.duplicate()),
        }
    }
}

impl Default for AsyncBody {
    /// The default body is the absent body.
    fn default() -> (r: Self)
        ensures
            r.inner is Empty,
            r.wf(),
    {
        AsyncBody::empty()
    }
}

/// The outcome of pulling one chunk from a body.
pub enum ChunkStep {
    /// A non-empty chunk of at most `CHUNK_CAPACITY` bytes.
    Chunk(Vec<u8>),
    /// Clean end of the body: no error, and no further chunks.
    End,
    /// The body is incremental: the next chunk must be pulled from the
    /// external source by the caller.
    AwaitSource,
}

/// The fixed size of the scratch buffer a chunk is read into; a chunk may
/// come back shorter, and callers may not assume any fixed chunk length.
pub const CHUNK_CAPACITY: usize = 1024;

impl AsyncBody {
    /// Pull the next chunk of at most `CHUNK_CAPACITY` bytes. Zero bytes
    /// read means the clean end of the body; a non-empty read yields exactly
    /// the bytes read; an incremental body defers to the external source.
    pub fn next_chunk(&mut self) -> (r: ChunkStep)
        requires
            old(self).wf(),
        ensures
            final(self).wf(),
            old(self).inner is Empty ==> *final(self) == *old(self) && r is End,
            old(self).inner is AsyncReader ==> *final(self) == *old(self) && r is AwaitSource,
            old(self).inner is SyncReader ==> {
                let rem = old(self).inner.remaining();
                let n = if CHUNK_CAPACITY <= rem.len() {
                    CHUNK_CAPACITY as int
                } else {
                    rem.len() as int
                };
                if rem.len() == 0 {
                    &&& r is End
                    &&& final(self).inner is SyncReader
                    &&& final(self).inner->bytes@ == old(self).inner->bytes@
                    &&& final(self).inner->cursor == old(self).inner->cursor
                } else {
                    &&& r matches ChunkStep::Chunk(c) && c@ == rem.take(n) && c@.len() > 0
                    &&& final(self).inner is SyncReader
                    &&& final(self).inner->bytes@ == old(self).inner->bytes@
                    &&& final(self).inner->cursor == old(self).inner->cursor + n
                }
            },
    {
        match self.read_step(CHUNK_CAPACITY) {
            ReadStep::AwaitSource => ChunkStep::AwaitSource,
            ReadStep::Bytes(d) => {
                if d.len() == 0 {
                    proof {
                        if old(self).inner is SyncReader {
                            assert(old(self).inner.remaining().len() == 0);
                        }
                    }
                    ChunkStep::End
                } else {
                    ChunkStep::Chunk(d)
                }
            },
        }
    }

    /// Collect the whole body into memory, chunk by chunk. An absent body
    /// collects to nothing, a buffered body to all its remaining bytes, its
    /// cursor left at the end. An incremental body cannot be collected
    /// without its external source and comes back untouched as nothing.
    pub fn try_read_to_end(&mut self) -> (r: Option<Vec<u8>>)
        requires
            old(self).wf(),
        ensures
            final(self).wf(),
            old(self).inner is AsyncReader ==> *final(self) == *old(self) && r is None,
            old(self).inner is Empty ==> *final(self) == *old(self) && (r matches Some(d) && d@
                == Seq::<u8>::empty()),
            old(self).inner is SyncReader ==> (r matches Some(d) && d@ == old(
                self,
            ).inner.remaining() && final(self).inner is SyncReader && final(self).inner->bytes@
                == old(self).inner->bytes@ && final(self).inner.remaining() == Seq::<u8>::empty()),
    {
        if let Inner::AsyncReader = &self.inner {
            return None;
        }
        if let Inner::Empty = &self.inner {
            return Some(Vec::new());
        }
        let ghost rem0 = self.inner.remaining();
        let ghost bytes0 = self.inner->bytes@;
        let mut out: Vec<u8> = Vec::new();
        loop
            invariant
                self.wf(),
                self.inner is SyncReader,
                self.inner->bytes@ == bytes0,
                out@ + self.inner.remaining() =~= rem0,
            ensures
                self.wf(),
                self.inner is SyncReader,
                self.inner->bytes@ == bytes0,
                out@ == rem0,
                self.inner.remaining() == Seq::<u8>::empty(),
            decreases self.inner.remaining().len(),
        {
            let ghost rem = self.inner.remaining();
            match self.next_chunk() {
                ChunkStep::End => {
                    proof {
                        assert(self.inner.remaining() =~= Seq::<u8>::empty());
                        assert(out@ + self.inner.remaining() =~= out@);
                        assert(out@ =~= rem0);
                    }
                    break ;
                },
                ChunkStep::Chunk(mut c) => {
                    proof {
                        let n = c@.len() as int;
                        assert(self.inner.remaining() =~= rem.skip(n));
                        assert((out@ + rem.take(n)) + rem.skip(n) =~= out@ + rem);
                    }
                    out.append(&mut c);
                },
                ChunkStep::AwaitSource => {
                    proof {
                        assert(false);
                    }
                },
            }
        }
        Some(out)
    }
}

} // verus!
