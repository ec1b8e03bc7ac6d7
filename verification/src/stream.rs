use vstd::arithmetic::div_mod::{
    lemma_fundamental_div_mod, lemma_fundamental_div_mod_converse, lemma_small_mod,
};
use vstd::prelude::*;
use vstd::seq_lib::lemma_flatten_concat;

verus! {

/// Chunk bound used when streaming a file resource, in bytes.
pub const CHUNK_SIZE: usize = 4096;

/// The non-empty data chunks of `data` under chunk bound `c`, in order: the
/// first `c` bytes as one chunk, then the chunks of the rest. The end-of-stream
/// sentinel is not part of this sequence.
pub open spec fn chunk_seq(data: Seq<u8>, c: nat) -> Seq<Seq<u8>>
    recommends
        c >= 1,
    decreases data.len(),
{
    if data.len() == 0 {
        Seq::empty()
    } else if c == 0 || data.len() <= c {
        // a chunk bound of zero never occurs (see the recommends); the extra
        // test only keeps the recursion well-founded
        seq![data]
    } else {
        seq![data.take(c as int)] + chunk_seq(data.skip(c as int), c)
    }
}

/// Every message one complete streaming session hands to the transport, in
/// order: the data chunks of the resource, then the empty sentinel.
pub open spec fn message_seq(data: Seq<u8>, c: nat) -> Seq<Seq<u8>> {
    chunk_seq(data, c).push(Seq::empty())
}

/// The byte sequences carried by a vector of messages, in order.
pub open spec fn views_of(msgs: Seq<Vec<u8>>) -> Seq<Seq<u8>> {
    msgs.map_values(|m: Vec<u8>| m@)
}

/// Law: a resource of `n` bytes streams as exactly `ceil(n / c)` data chunks,
/// each of 1 to `c` bytes, whose concatenation reproduces the resource
/// exactly, followed by exactly one empty sentinel and nothing after it.
pub proof fn lemma_stream_shape(data: Seq<u8>, c: nat)
    requires
        c >= 1,
    ensures
        chunk_seq(data, c).len() == (data.len() + c - 1) / (c as int),
        chunk_seq(data, c).flatten() == data,
        forall|i: int|
            0 <= i < chunk_seq(data, c).len() ==> 1 <= (#[trigger] chunk_seq(data, c)[i]).len()
                <= c,
        message_seq(data, c).len() == chunk_seq(data, c).len() + 1,
        message_seq(data, c).last().len() == 0,
        forall|i: int|
            0 <= i < chunk_seq(data, c).len() ==> #[trigger] message_seq(data, c)[i] == chunk_seq(
                data,
                c,
            )[i],
    decreases data.len(),
{
    let cs = chunk_seq(data, c);
    let n = data.len() as int;
    if data.len() == 0 {
        assert(cs =~= Seq::<Seq<u8>>::empty());
        assert(cs.flatten() =~= data);
        lemma_fundamental_div_mod_converse(n + c - 1, c as int, 0, c - 1);
    } else if data.len() <= c {
        assert(cs == seq![data]);
        cs.lemma_flatten_singleton();
        lemma_fundamental_div_mod_converse(n + c - 1, c as int, 1, n - 1);
    } else {
        let head = seq![data.take(c as int)];
        let rest = data.skip(c as int);
        lemma_stream_shape(rest, c);
        assert(cs == head + chunk_seq(rest, c));
        head.lemma_flatten_singleton();
        lemma_flatten_concat(head, chunk_seq(rest, c));
        assert(data.take(c as int) + data.skip(c as int) =~= data);
        // one more read's worth of bytes means exactly one more chunk
        let q = (n - 1) / (c as int);
        lemma_fundamental_div_mod(n - 1, c as int);
        assert(n + c - 1 == (c as int) * (q + 1) + ((n - 1) % (c as int))) by (nonlinear_arith)
            requires
                n - 1 == (c as int) * q + ((n - 1) % (c as int)),
        ;
        lemma_fundamental_div_mod_converse(n + c - 1, c as int, q + 1, (n - 1) % (c as int));
        assert(chunk_seq(rest, c).len() == (rest.len() + c - 1) / (c as int));
        assert(rest.len() as int + c - 1 == n - 1);
    }
}

/// Law: a zero-length resource streams as exactly one message — the empty
/// sentinel — with no data chunk before it.
pub proof fn lemma_empty_resource(c: nat)
    requires
        c >= 1,
    ensures
        message_seq(Seq::<u8>::empty(), c) =~= seq![Seq::<u8>::empty()],
{
    assert(chunk_seq(Seq::<u8>::empty(), c) =~= Seq::<Seq<u8>>::empty());
}

/// Law: when the resource length is a positive exact multiple of the chunk
/// bound, the final data chunk has length exactly `c` — the sentinel stays a
/// separate, additional message and is never conflated with a full final
/// chunk.
pub proof fn lemma_exact_multiple_last_chunk(data: Seq<u8>, c: nat)
    requires
        c >= 1,
        data.len() > 0,
        data.len() % c == 0,
    ensures
        chunk_seq(data, c).last().len() == c,
    decreases data.len(),
{
    let n = data.len() as int;
    if data.len() <= c {
        if data.len() < c {
            lemma_small_mod(data.len(), c);
        }
        assert(chunk_seq(data, c) == seq![data]);
    } else {
        let rest = data.skip(c as int);
        let q = n / (c as int);
        lemma_fundamental_div_mod(n, c as int);
        assert(n - c == (c as int) * (q - 1)) by (nonlinear_arith)
            requires
                n == (c as int) * q,
        ;
        lemma_fundamental_div_mod_converse(n - c, c as int, q - 1, 0);
        lemma_exact_multiple_last_chunk(rest, c);
        assert(chunk_seq(data, c) == seq![data.take(c as int)] + chunk_seq(rest, c));
        assert(chunk_seq(rest, c).len() >= 1);
        assert(chunk_seq(data, c).last() == chunk_seq(rest, c).last());
    }
}

/// Law: streaming is deterministic. Two complete sessions over the same
/// immutable resource with the same chunk bound hand the transport identical
/// message sequences; no hidden state carries over between sessions.
pub proof fn lemma_stream_deterministic(
    data: Seq<u8>,
    c: nat,
    first: Seq<Seq<u8>>,
    second: Seq<Seq<u8>>,
)
    requires
        first == message_seq(data, c),
        second == message_seq(data, c),
    ensures
        first == second,
{
}

/// Progress of one transfer session.
#[derive(Debug, Clone, Copy, PartialEq, Eq, Structural)]
pub enum SessionStatus {
    Streaming,
    Complete,
    Aborted,
}

/// One chunked transfer. The session turns the reads of a resource into the
/// messages a transport delivers, and records in ghost state every message
/// emitted so far.
pub struct StreamSession {
    chunk_size: usize,
    status: SessionStatus,
    sent: Ghost<Seq<Seq<u8>>>,
}

impl StreamSession {
    /// Messages handed to the transport so far, oldest first.
    pub closed spec fn sent(self) -> Seq<Seq<u8>> {
        self.sent@
    }

    /// The fixed chunk bound of this session.
    pub closed spec fn chunk_size(self) -> nat {
        self.chunk_size as nat
    }

    pub closed spec fn status(self) -> SessionStatus {
        self.status
    }

    pub open spec fn is_streaming(self) -> bool {
        self.status() == SessionStatus::Streaming
    }

    pub open spec fn is_complete(self) -> bool {
        self.status() == SessionStatus::Complete
    }

    pub open spec fn is_aborted(self) -> bool {
        self.status() == SessionStatus::Aborted
    }

    /// Session invariant: every message respects the chunk bound; the empty
    /// sentinel can stand only last; while the session still streams no
    /// sentinel has been sent, and a complete session ends in one.
    pub open spec fn wf(self) -> bool {
        &&& self.chunk_size() >= 1
        &&& forall|i: int|
            0 <= i < self.sent().len() ==> (#[trigger] self.sent()[i]).len() <= self.chunk_size()
        &&& forall|i: int|
            0 <= i < self.sent().len() - 1 ==> (#[trigger] self.sent()[i]).len() >= 1
        &&& self.is_streaming() ==> forall|i: int|
            0 <= i < self.sent().len() ==> (#[trigger] self.sent()[i]).len() >= 1
        &&& self.is_complete() ==> self.sent().len() >= 1 && self.sent().last().len() == 0
    }

    /// Opens a transfer with the given chunk bound and nothing sent yet.
    pub fn new(chunk_size: usize) -> (session: Self)
        requires
            chunk_size >= 1,
        ensures
            session.wf(),
            session.is_streaming(),
            session.sent() == Seq::<Seq<u8>>::empty(),
            session.chunk_size() == chunk_size as nat,
    {
        StreamSession { chunk_size, status: SessionStatus::Streaming, sent: Ghost(Seq::empty()) }
    }

    /// Accepts the bytes of one read — empty means the resource is exhausted —
    /// and returns the message to hand to the transport: exactly the bytes
    /// read, or the empty sentinel, which also completes the session.
    pub fn next_message(&mut self, data: Vec<u8>) -> (msg: Vec<u8>)
        requires
            old(self).wf(),
            old(self).is_streaming(),
            data@.len() <= old(self).chunk_size(),
        ensures
            final(self).wf(),
            msg@ == data@,
            final(self).chunk_size() == old(self).chunk_size(),
            final(self).sent() == old(self).sent().push(data@),
            data@.len() == 0 ==> final(self).is_complete(),
            data@.len() > 0 ==> final(self).is_streaming(),
    {
        if data.len() == 0 {
            self.status = SessionStatus::Complete;
        }
        self.sent = Ghost(self.sent@.push(data@));
        proof {
            let prev = old(self).sent();
            let cur = self.sent@;
            assert forall|i: int|
                0 <= i < cur.len() implies (#[trigger] cur[i]).len() <= self.chunk_size as nat by {
                if i < prev.len() {
                    assert(cur[i] == prev[i]);
                    assert(prev[i].len() <= old(self).chunk_size());
                } else {
                    assert(cur[i] == data@);
                }
            }
            assert forall|i: int| 0 <= i < cur.len() - 1 implies (#[trigger] cur[i]).len() >= 1 by {
                assert(cur[i] == prev[i]);
                assert(prev[i].len() >= 1);
            }
            assert forall|i: int|
                0 <= i < cur.len() && data@.len() > 0 implies (#[trigger] cur[i]).len() >= 1 by {
                if i < prev.len() {
                    assert(cur[i] == prev[i]);
                    assert(prev[i].len() >= 1);
                } else {
                    assert(cur[i] == data@);
                }
            }
        }
        data
    }

    /// The transport refused a send: the remote endpoint is gone. The session
    /// aborts at once — it never counts as complete and emits nothing further;
    /// what was already handed over stays recorded.
    pub fn abort(&mut self)
        requires
            old(self).wf(),
        ensures
            final(self).wf(),
            final(self).is_aborted(),
            !final(self).is_complete(),
            final(self).sent() == old(self).sent(),
            final(self).chunk_size() == old(self).chunk_size(),
    {
        self.status = SessionStatus::Aborted;
        proof {
            let s = self.sent@;
            assert forall|i: int|
                0 <= i < s.len() implies (#[trigger] s[i]).len() <= self.chunk_size as nat by {
                assert(old(self).sent()[i].len() <= old(self).chunk_size());
            }
            assert forall|i: int| 0 <= i < s.len() - 1 implies (#[trigger] s[i]).len() >= 1 by {
                assert(old(self).sent()[i].len() >= 1);
            }
        }
    }

    pub fn completed(&self) -> (done: bool)
        ensures
            done == self.is_complete(),
    {
        self.status == SessionStatus::Complete
    }

    pub fn aborted(&self) -> (failed: bool)
        ensures
            failed == self.is_aborted(),
    {
        self.status == SessionStatus::Aborted
    }
}

/// Streams an in-memory resource through a fresh session and returns the full
/// message transcript: every data chunk in byte order, then the sentinel —
/// exactly `message_seq` of the resource.
pub fn stream_all(data: &Vec<u8>, chunk_size: usize) -> (msgs: Vec<Vec<u8>>)
    requires
        chunk_size >= 1,
    ensures
        views_of(msgs@) == message_seq(data@, chunk_size as nat),
{
    let ghost c = chunk_size as nat;
    let mut session = StreamSession::new(chunk_size);
    let mut msgs: Vec<Vec<u8>> = Vec::new();
    let mut pos: usize = 0;
    proof {
        assert(data@.skip(0) =~= data@);
        assert(Seq::<Seq<u8>>::empty() + chunk_seq(data@, c) =~= chunk_seq(data@, c));
        assert(views_of(msgs@) =~= Seq::<Seq<u8>>::empty());
    }
    while pos < data.len()
        invariant
            chunk_size >= 1,
            pos <= data.len(),
            session.wf(),
            session.is_streaming(),
            session.chunk_size() == c,
            c == chunk_size as nat,
            views_of(msgs@) == session.sent(),
            session.sent() + chunk_seq(data@.skip(pos as int), c) == chunk_seq(data@, c),
        decreases data.len() - pos,
    {
        let remaining: usize = data.len() - pos;
        let take_n: usize = if remaining < chunk_size {
            remaining
        } else {
            chunk_size
        };
        let end: usize = pos + take_n;
        let mut chunk: Vec<u8> = Vec::new();
        let mut i: usize = pos;
        while i < end
            invariant
                pos <= i <= end,
                end <= data.len(),
                chunk@ == data@.subrange(pos as int, i as int),
            decreases end - i,
        {
            chunk.push(data[i]);
            i = i + 1;
        }
        proof {
            let rest = data@.skip(pos as int);
            if rest.len() <= c {
                assert(chunk_seq(rest, c) == seq![rest]);
                assert(chunk@ =~= rest);
                assert(data@.skip(end as int) =~= Seq::<u8>::empty());
                assert(chunk_seq(rest, c) =~= seq![chunk@] + chunk_seq(data@.skip(end as int), c));
            } else {
                assert(chunk_seq(rest, c) == seq![rest.take(c as int)] + chunk_seq(
                    rest.skip(c as int),
                    c,
                ));
                assert(chunk@ =~= rest.take(c as int));
                assert(rest.skip(c as int) =~= data@.skip(end as int));
            }
            assert(session.sent().push(chunk@) + chunk_seq(data@.skip(end as int), c)
                =~= session.sent() + chunk_seq(data@.skip(pos as int), c));
        }
        let msg = session.next_message(chunk);
        msgs.push(msg);
        proof {
            assert(views_of(msgs@) =~= session.sent());
        }
        pos = end;
    }
    proof {
        assert(data@.skip(pos as int) =~= Seq::<u8>::empty());
        assert(session.sent() + Seq::<Seq<u8>>::empty() =~= session.sent());
        assert(session.sent() == chunk_seq(data@, c));
    }
    let sentinel = session.next_message(Vec::new());
    msgs.push(sentinel);
    proof {
        assert(views_of(msgs@) =~= session.sent());
        assert(session.sent() == message_seq(data@, c));
    }
    msgs
}

} // verus!
