//! The fragment stream orchestrator.
//!
//! A pull-driven state machine with three phases. In the sending phase the
//! request has been given the protocol's negotiation header and the
//! transport's answer is awaited; a transport failure or a status other than
//! 200 ends the stream with exactly one failure item. In the streaming phase
//! each arriving body chunk is assembled into lines and classified into
//! fragments; a read failure ends the stream with exactly one failure item,
//! and the clean end of the body ends it with none. Once done, no event
//! produces any further item. Bytes of an unterminated final line are
//! deliberately discarded when the body ends: a missing final terminator is
//! treated as malformed, never flushed as a line.
//!
//! The machine produces items only as return values of the event methods:
//! a consumer that stops calling them receives nothing further, and no work
//! happens between calls.

use vstd::prelude::*;

use crate::event_source::fragments_of;
use crate::event_source::parse_line;
use crate::event_source::EventSourceFragment;
use crate::event_source::FragmentModel;
use crate::lines::asm_lines;
use crate::lines::asm_rest;
use crate::lines::LineAssembler;
use crate::message::Request;

verus! {

/// A terminal failure of the fragment stream.
#[derive(Debug)]
pub enum StreamError {
    /// The transport collaborator could not complete the exchange.
    Transport { message: String },
    /// The initial response carried a status other than 200.
    Status { status: u16 },
    /// The incremental body source failed while being read.
    Io { message: String },
}

/// The phase of the orchestrator.
#[derive(Debug, PartialEq, Eq, Structural)]
pub enum Phase {
    /// The transport's answer to the request is awaited.
    Sending,
    /// The response body is being assembled and classified.
    Streaming,
    /// The stream has ended; no further item is ever produced.
    Done,
}

/// Items match fragments when each is a success carrying the fragment at
/// its position.
pub open spec fn items_match(
    items: Seq<Result<EventSourceFragment, StreamError>>,
    frags: Seq<FragmentModel>,
) -> bool {
    items.len() == frags.len() && forall|i: int|
        0 <= i < frags.len() ==> (#[trigger] items[i] matches Ok(f) && f@ == frags[i])
}

/// The name of the negotiation header.
pub open spec fn accept_name() -> Seq<u8> {
    seq![65u8, 99u8, 99u8, 101u8, 112u8, 116u8]
}

/// The negotiated media type.
pub open spec fn event_stream_media_type() -> Seq<u8> {
    seq![
        116u8,
        101u8,
        120u8,
        116u8,
        47u8,
        101u8,
        118u8,
        101u8,
        110u8,
        116u8,
        45u8,
        115u8,
        116u8,
        114u8,
        101u8,
        97u8,
        109u8,
    ]
}

/// Classify a batch of completed lines into stream items, every one a
/// success.
fn fragment_items(lines: &Vec<Vec<u8>>) -> (items: Vec<Result<EventSourceFragment, StreamError>>)
    ensures
        items_match(items@, fragments_of(lines.deep_view())),
{
    let mut items: Vec<Result<EventSourceFragment, StreamError>> = Vec::new();
    let mut i: usize = 0;
    proof {
        assert(lines.deep_view().take(0) =~= Seq::<Seq<u8>>::empty());
    }
    while i < lines.len()
        invariant
            i <= lines.len(),
            lines.deep_view().len() == lines@.len(),
            forall|j: int| 0 <= j < lines@.len() ==> lines.deep_view()[j] == #[trigger] lines@[j]@,
            items_match(items@, fragments_of(lines.deep_view().take(i as int))),
        decreases lines.len() - i,
    {
        let ghost dv = lines.deep_view();
        proof {
            assert(dv.take(i + 1) =~= dv.take(i as int) + seq![dv[i as int]]);
            crate::event_source::lemma_fragments_append(dv.take(i as int), seq![dv[i as int]]);
            crate::event_source::lemma_fragments_singleton(dv[i as int]);
        }
        match parse_line(&lines[i]) {
            Some(f) => {
                items.push(Ok(f));
            },
            None => {
                proof {
                    assert(fragments_of(dv.take(i as int)) + Seq::<FragmentModel>::empty()
                        =~= fragments_of(dv.take(i as int)));
                }
            },
        }
        i = i + 1;
    }
    proof {
        assert(lines.deep_view().take(lines@.len() as int) =~= lines.deep_view());
    }
    items
}

/// The orchestrator: drives one fragment stream from request to completion.
pub struct FragmentStream {
    pub phase: Phase,
    pub assembler: LineAssembler,
}

impl FragmentStream {
    /// The bytes of the line still being assembled.
    pub open spec fn buffered(self) -> Seq<u8> {
        self.assembler.acc@
    }

    /// Prepare the stream over the caller's request: the negotiation header
    /// `Accept: text/event-stream` is appended to the request, everything
    /// else of it kept, and the machine starts in the sending phase.
    pub fn begin(request: &mut Request) -> (s: Self)
        ensures
            final(request).method@ == old(request).method@,
            final(request).target@ == old(request).target@,
            final(request).body == old(request).body,
            final(request).headers.model() == old(request).headers.model().push(
                (accept_name(), event_stream_media_type()),
            ),
            s.phase == Phase::Sending,
            s.buffered() == Seq::<u8>::empty(),
    {
        let name: Vec<u8> = vec![65u8, 99u8, 99u8, 101u8, 112u8, 116u8];
        let value: Vec<u8> = vec![
            116u8,
            101u8,
            120u8,
            116u8,
            47u8,
            101u8,
            118u8,
            101u8,
            110u8,
            116u8,
            45u8,
            115u8,
            116u8,
            114u8,
            101u8,
            97u8,
            109u8,
        ];
        proof {
            assert(name@ =~= accept_name());
            assert(value@ =~= event_stream_media_type());
        }
        request.headers.append(name, value);
        FragmentStream { phase: Phase::Sending, assembler: LineAssembler::new() }
    }

    /// The transport could not complete the exchange: exactly one failure
    /// item wrapping the transport failure, and the stream is done. Outside
    /// the sending phase the event is not accepted and yields nothing.
    pub fn on_transport_error(&mut self, message: String) -> (items: Vec<
        Result<EventSourceFragment, StreamError>,
    >)
        ensures
            old(self).phase == Phase::Sending ==> final(self).phase == Phase::Done
                && items@.len() == 1 && (items@[0] matches Err(e) && e matches StreamError::Transport {
                message: m,
            } && m@ == message@),
            old(self).phase != Phase::Sending ==> final(self).phase == old(self).phase && final(self).buffered() == old(self).buffered() && items@.len() == 0,
    {
        match self.phase {
            Phase::Sending => {
                self.phase = Phase::Done;
                let mut items: Vec<Result<EventSourceFragment, StreamError>> = Vec::new();
                items.push(Err(StreamError::Transport { message }));
                items
            },
            _ => Vec::new(),
        }
    }

    /// The transport answered with the given status. Status 200 starts the
    /// streaming phase and yields nothing; any other status yields exactly
    /// one failure item carrying the status, and the stream is done without
    /// the body ever being read. Outside the sending phase the event is not
    /// accepted and yields nothing.
    pub fn on_response_status(&mut self, status: u16) -> (items: Vec<
        Result<EventSourceFragment, StreamError>,
    >)
        ensures
            old(self).phase == Phase::Sending && status == 200 ==> final(self).phase
                == Phase::Streaming && final(self).buffered() == old(self).buffered()
                && items@.len() == 0,
            old(self).phase == Phase::Sending && status != 200 ==> final(self).phase == Phase::Done
                && items@.len() == 1 && (items@[0] matches Err(e) && e matches StreamError::Status {
                status: st,
            } && st == status),
            old(self).phase != Phase::Sending ==> final(self).phase == old(self).phase && final(self).buffered() == old(self).buffered() && items@.len() == 0,
    {
        match self.phase {
            Phase::Sending => {
                if status == 200 {
                    self.phase = Phase::Streaming;
                    Vec::new()
                } else {
                    self.phase = Phase::Done;
                    let mut items: Vec<Result<EventSourceFragment, StreamError>> = Vec::new();
                    items.push(Err(StreamError::Status { status }));
                    items
                }
            },
            _ => Vec::new(),
        }
    }

    /// One chunk of the response body arrived: every line it completes is
    /// classified, and the fragments come back in order, each as a success
    /// item; the unterminated tail stays buffered for the next chunk.
    /// Outside the streaming phase the event is not accepted and yields
    /// nothing.
    pub fn on_chunk(&mut self, chunk: &Vec<u8>) -> (items: Vec<
        Result<EventSourceFragment, StreamError>,
    >)
        ensures
            old(self).phase == Phase::Streaming ==> final(self).phase == Phase::Streaming && final(self).buffered() == asm_rest(old(self).buffered(), chunk@) && items_match(
                items@,
                fragments_of(asm_lines(old(self).buffered(), chunk@)),
            ),
            old(self).phase != Phase::Streaming ==> final(self).phase == old(self).phase && final(self).buffered() == old(self).buffered() && items@.len() == 0,
    {
        match self.phase {
            Phase::Streaming => {
                let lines = self.assembler.push_chunk(chunk);
                fragment_items(&lines)
            },
            _ => Vec::new(),
        }
    }

    /// The body source failed mid-stream: exactly one failure item, any
    /// pending partial line is discarded, and the stream is done. Outside
    /// the streaming phase the event is not accepted and yields nothing.
    pub fn on_read_error(&mut self, message: String) -> (items: Vec<
        Result<EventSourceFragment, StreamError>,
    >)
        ensures
            old(self).phase == Phase::Streaming ==> final(self).phase == Phase::Done && final(self).buffered() == Seq::<u8>::empty() && items@.len() == 1 && (items@[0] matches Err(e)
                && e matches StreamError::Io { message: m } && m@ == message@),
            old(self).phase != Phase::Streaming ==> final(self).phase == old(self).phase && final(self).buffered() == old(self).buffered() && items@.len() == 0,
    {
        match self.phase {
            Phase::Streaming => {
                self.phase = Phase::Done;
                self.assembler = LineAssembler::new();
                let mut items: Vec<Result<EventSourceFragment, StreamError>> = Vec::new();
                items.push(Err(StreamError::Io { message }));
                items
            },
            _ => Vec::new(),
        }
    }

    /// The body ended cleanly: the stream is done with no further item, the
    /// sole non-failure termination. Bytes of an unterminated final line are
    /// deliberately discarded, never yielded. Outside the streaming phase
    /// the event is not accepted and yields nothing.
    pub fn on_end(&mut self) -> (items: Vec<Result<EventSourceFragment, StreamError>>)
        ensures
            old(self).phase == Phase::Streaming ==> final(self).phase == Phase::Done && final(self).buffered() == Seq::<u8>::empty() && items@.len() == 0,
            old(self).phase != Phase::Streaming ==> final(self).phase == old(self).phase && final(self).buffered() == old(self).buffered() && items@.len() == 0,
    {
        match self.phase {
            Phase::Streaming => {
                self.phase = Phase::Done;
                self.assembler = LineAssembler::new();
                Vec::new()
            },
            _ => Vec::new(),
        }
    }
}

} // verus!
