//! Chunked delivery of one completed in-memory audio buffer: a transient,
//! single-use cursor that hands the optional header bytes out first, then
//! the buffer in chunks of at most `chunk_size` bytes, and finally signals
//! the end of the sequence.  The concatenation of everything emitted is
//! exactly the header followed by the buffer.
use vstd::prelude::*;

verus! {

/// The chunk size used when no other one is configured.
pub const DEFAULT_CHUNK_SIZE: usize = 4096;

/// A mid-stream read failure, surfaced exactly once as a terminal element
/// of the chunk sequence.
#[derive(Debug)]
pub struct StreamError {
    pub message: String,
}

/// Where the stream stands; no state is ever revisited.
pub enum StreamState {
    /// Non-empty header bytes are configured and still to be emitted.
    HeaderPending,
    /// Data chunks are being handed out.
    Streaming,
    /// Terminal: every further pull signals end of sequence.
    Drained,
    /// A read failure was recorded; one terminal error item is still owed.
    Failed,
}

/// The concatenation of a sequence of chunks, in emission order.
pub open spec fn concat_chunks(cs: Seq<Seq<u8>>) -> Seq<u8>
    decreases cs.len(),
{
    if cs.len() == 0 {
        Seq::empty()
    } else {
        cs[0] + concat_chunks(cs.drop_first())
    }
}

pub proof fn lemma_concat_push(cs: Seq<Seq<u8>>, x: Seq<u8>)
    ensures
        concat_chunks(cs.push(x)) == concat_chunks(cs) + x,
    decreases cs.len(),
{
    if cs.len() == 0 {
        assert(cs.push(x)[0] == x);
        assert(cs.push(x).drop_first() =~= Seq::<Seq<u8>>::empty());
        assert(concat_chunks(cs.push(x)) == x + concat_chunks(Seq::<Seq<u8>>::empty()));
        assert(x + Seq::<u8>::empty() =~= x);
        assert(Seq::<u8>::empty() + x =~= x);
        assert(concat_chunks(cs.push(x)) =~= concat_chunks(cs) + x);
    } else {
        assert(cs.push(x)[0] == cs[0]);
        assert(cs.push(x).drop_first() =~= cs.drop_first().push(x));
        assert(concat_chunks(cs.push(x)) == cs[0] + concat_chunks(cs.drop_first().push(x)));
        lemma_concat_push(cs.drop_first(), x);
        assert(cs[0] + (concat_chunks(cs.drop_first()) + x) =~= (cs[0] + concat_chunks(
            cs.drop_first(),
        )) + x);
        assert(concat_chunks(cs.push(x)) =~= concat_chunks(cs) + x);
    }
}

/// A transient, single-use cursor over one completed audio buffer.
pub struct AudioStream {
    /// The complete audio buffer.
    pub data: Vec<u8>,
    /// Header bytes emitted first, empty when none are configured.
    pub header: Vec<u8>,
    /// Upper bound on the size of each data chunk.
    pub chunk_size: usize,
    /// How many buffer bytes were already emitted.
    pub offset: usize,
    pub state: StreamState,
    /// Whether a read failure was ever recorded.
    pub failed: bool,
    /// The recorded failure, present exactly while `state` is `Failed`.
    pub error: Option<String>,
    /// History of every chunk emitted so far, in order.
    pub emitted: Ghost<Seq<Seq<u8>>>,
}

impl AudioStream {
    /// The value of the optional header configuration: absent or empty
    /// header bytes both mean that no header chunk is owed.
    pub open spec fn header_seq(header: Option<Vec<u8>>) -> Seq<u8> {
        match header {
            Some(h) => h@,
            None => Seq::empty(),
        }
    }

    pub open spec fn wf(self) -> bool {
        &&& self.chunk_size >= 1
        &&& self.offset <= self.data@.len()
        &&& match self.state {
            StreamState::HeaderPending => {
                &&& !self.failed
                &&& self.error is None
                &&& self.header@.len() > 0
                &&& self.offset == 0
                &&& self.emitted@ == Seq::<Seq<u8>>::empty()
            },
            StreamState::Streaming => {
                &&& !self.failed
                &&& self.error is None
                &&& concat_chunks(self.emitted@) == self.header@ + self.data@.take(
                    self.offset as int,
                )
            },
            StreamState::Drained => {
                &&& self.error is None
                &&& (!self.failed ==> self.offset == self.data@.len() && concat_chunks(
                    self.emitted@,
                ) == self.header@ + self.data@)
            },
            StreamState::Failed => {
                &&& self.failed
                &&& self.error is Some
                &&& concat_chunks(self.emitted@) == self.header@ + self.data@.take(
                    self.offset as int,
                )
            },
        }
    }

    /// Builds the stream over a complete buffer.  With an empty buffer and
    /// no header the stream starts out already drained, with zero chunks
    /// emitted; with non-empty header bytes it owes the header chunk first.
    pub fn new(data: Vec<u8>, header: Option<Vec<u8>>, chunk_size: usize) -> (r: AudioStream)
        requires
            chunk_size >= 1,
        ensures
            r.wf(),
            !r.failed,
            r.offset == 0,
            r.emitted@ == Seq::<Seq<u8>>::empty(),
            r.data@ == data@,
            r.chunk_size == chunk_size,
            r.header@ == AudioStream::header_seq(header),
            r.header@.len() > 0 ==> r.state is HeaderPending,
            r.header@.len() == 0 && data@.len() == 0 ==> r.state is Drained,
            r.header@.len() == 0 && data@.len() > 0 ==> r.state is Streaming,
    {
        let h: Vec<u8> = match header {
            Some(h) => h,
            None => Vec::new(),
        };
        let state = if h.len() > 0 {
            StreamState::HeaderPending
        } else if data.len() == 0 {
            StreamState::Drained
        } else {
            StreamState::Streaming
        };
        let r = AudioStream {
            data,
            header: h,
            chunk_size,
            offset: 0,
            state,
            failed: false,
            error: None,
            emitted: Ghost(Seq::empty()),
        };
        proof {
            assert(concat_chunks(r.emitted@) =~= Seq::<u8>::empty());
            if r.header@.len() == 0 {
                assert(r.header@ + r.data@.take(0) =~= Seq::<u8>::empty());
                assert(r.header@ + r.data@ =~= r.data@);
            }
        }
        r
    }

    /// Total length of the underlying buffer.
    pub fn total_len(&self) -> (r: usize)
        ensures
            r == self.data@.len(),
    {
        self.data.len()
    }

    /// Records a read failure of the underlying buffer source.  The next
    /// pull yields exactly one terminal error item.
    pub fn fail(&mut self, message: String)
        requires
            old(self).wf(),
            old(self).state is Streaming,
        ensures
            final(self).wf(),
            final(self).state is Failed,
            final(self).failed,
            final(self).error matches Some(m) && m@ == message@,
            final(self).data@ == old(self).data@,
            final(self).header@ == old(self).header@,
            final(self).chunk_size == old(self).chunk_size,
            final(self).offset == old(self).offset,
            final(self).emitted@ == old(self).emitted@,
    {
        self.state = StreamState::Failed;
        self.failed = true;
        self.error = Some(message);
    }

    /// One pull by the consumer: the header chunk first if one is owed,
    /// then up to `chunk_size` buffer bytes per call, then end of
    /// sequence; after a recorded failure, one terminal error item.
    pub fn next(&mut self) -> (r: Option<Result<Vec<u8>, StreamError>>)
        requires
            old(self).wf(),
        ensures
            final(self).wf(),
            final(self).data@ == old(self).data@,
            final(self).header@ == old(self).header@,
            final(self).chunk_size == old(self).chunk_size,
            match old(self).state {
                StreamState::HeaderPending => {
                    &&& r matches Some(Ok(c)) && c@ == old(self).header@
                    &&& final(self).state is Streaming
                    &&& !final(self).failed
                    &&& final(self).offset == 0
                    &&& final(self).emitted@ == old(self).emitted@.push(old(self).header@)
                },
                StreamState::Streaming => {
                    if old(self).offset < old(self).data@.len() {
                        let end = if old(self).offset + old(self).chunk_size <= old(
                            self,
                        ).data@.len() {
                            old(self).offset + old(self).chunk_size
                        } else {
                            old(self).data@.len() as int
                        };
                        &&& r matches Some(Ok(c)) && c@ == old(self).data@.subrange(
                            old(self).offset as int,
                            end,
                        )
                        &&& final(self).offset == end
                        &&& !final(self).failed
                        &&& (end == old(self).data@.len() ==> final(self).state is Drained)
                        &&& (end < old(self).data@.len() ==> final(self).state is Streaming)
                        &&& final(self).emitted@ == old(self).emitted@.push(
                            old(self).data@.subrange(old(self).offset as int, end),
                        )
                    } else {
                        &&& r is None
                        &&& final(self).state is Drained
                        &&& !final(self).failed
                        &&& final(self).offset == old(self).offset
                        &&& final(self).emitted@ == old(self).emitted@
                    }
                },
                StreamState::Drained => {
                    &&& r is None
                    &&& final(self).state is Drained
                    &&& final(self).failed == old(self).failed
                    &&& final(self).offset == old(self).offset
                    &&& final(self).emitted@ == old(self).emitted@
                },
                StreamState::Failed => {
                    &&& r matches Some(Err(e)) && e.message@ == old(self).error->Some_0@
                    &&& final(self).state is Drained
                    &&& final(self).failed
                    &&& final(self).offset == old(self).offset
                    &&& final(self).emitted@ == old(self).emitted@
                },
            },
    {
        match self.state {
            StreamState::HeaderPending => {
                let mut chunk: Vec<u8> = Vec::new();
                let mut i: usize = 0;
                while i < self.header.len()
                    invariant
                        i <= self.header@.len(),
                        chunk@ == self.header@.take(i as int),
                    decreases self.header@.len() - i,
                {
                    proof {
                        assert(self.header@.take(i as int).push(self.header@[i as int])
                            =~= self.header@.take(i as int + 1));
                    }
                    chunk.push(self.header[i]);
                    i = i + 1;
                }
                proof {
                    assert(self.header@.take(self.header@.len() as int) =~= self.header@);
                }
                self.state = StreamState::Streaming;
                proof {
                    lemma_concat_push(self.emitted@, self.header@);
                    assert(concat_chunks(self.emitted@) =~= Seq::<u8>::empty());
                }
                self.emitted = Ghost(self.emitted@.push(chunk@));
                proof {
                    assert(concat_chunks(self.emitted@) =~= self.header@);
                    assert(self.header@ + self.data@.take(0) =~= self.header@);
                }
                Some(Ok(chunk))
            },
            StreamState::Streaming => {
                if self.offset < self.data.len() {
                    let end = if self.data.len() - self.offset >= self.chunk_size {
                        self.offset + self.chunk_size
                    } else {
                        self.data.len()
                    };
                    let mut chunk: Vec<u8> = Vec::new();
                    let mut i: usize = self.offset;
                    proof {
                        assert(self.data@.subrange(self.offset as int, self.offset as int)
                            =~= Seq::<u8>::empty());
                    }
                    while i < end
                        invariant
                            self.offset <= i <= end,
                            end <= self.data@.len(),
                            chunk@ == self.data@.subrange(self.offset as int, i as int),
                        decreases end - i,
                    {
                        proof {
                            assert(self.data@.subrange(self.offset as int, i as int).push(
                                self.data@[i as int],
                            ) =~= self.data@.subrange(self.offset as int, i as int + 1));
                        }
                        chunk.push(self.data[i]);
                        i = i + 1;
                    }
                    let ghost old_offset = self.offset as int;
                    proof {
                        lemma_concat_push(self.emitted@, chunk@);
                    }
                    self.emitted = Ghost(self.emitted@.push(chunk@));
                    self.offset = end;
                    if end == self.data.len() {
                        self.state = StreamState::Drained;
                    }
                    proof {
                        assert((self.header@ + self.data@.take(old_offset)) + self.data@.subrange(
                            old_offset,
                            end as int,
                        ) =~= self.header@ + self.data@.take(end as int));
                        if end == self.data@.len() {
                            assert(self.data@.take(end as int) =~= self.data@);
                        }
                    }
                    Some(Ok(chunk))
                } else {
                    self.state = StreamState::Drained;
                    proof {
                        assert(self.data@.take(self.offset as int) =~= self.data@);
                    }
                    None
                }
            },
            StreamState::Drained => None,
            StreamState::Failed => {
                let message = match &self.error {
                    Some(m) => m.clone(),
                    None => String::new(),
                };
                self.state = StreamState::Drained;
                self.error = None;
                Some(Err(StreamError { message }))
            },
        }
    }
}

/// Law: a stream that drained without a recorded failure emitted, in
/// order, chunks whose concatenation is exactly the optional header
/// followed by the whole buffer — no byte duplicated, reordered or
/// dropped, for every buffer length and chunk size.
pub proof fn lemma_emitted_complete(s: AudioStream)
    requires
        s.wf(),
        s.state is Drained,
        !s.failed,
    ensures
        concat_chunks(s.emitted@) == s.header@ + s.data@,
{
}

} // verus!
