//! Sending and receiving payloads.

use vstd::prelude::*;

use super::{Error, ErrorView};
use crate::proto::data_model::PayloadDigest;
use crate::text::{byte_views, copy_bytes};

verus! {

/// Calls `bao_tree::ChunkNum::full_chunks`: the number of whole chunks of 1024 bytes in
/// this many bytes.
#[verifier::external_body]
fn full_chunks(size: u64) -> (r: u64)
    ensures
        r == size / 1024,
{
    bao_tree::ChunkNum::full_chunks(size).0
}

// ---------------------------------------------------------------------------
// Sending
// ---------------------------------------------------------------------------

/// What is to be done next when a payload is sent.
#[derive(Debug)]
pub enum SendAction {
    /// Ask the storage whether it has the payload.
    AskStorage,
    /// Have the storage stream the payload from this chunk on, and take the first item.
    Stream { from_chunk: u64 },
    /// Send these bytes to the peer.
    Send(Vec<u8>),
    /// Take the next item of the stream.
    TakeNext,
    /// Nothing: the payload was sent, or the storage does not have it, or an error occurred.
    Finish(Result<bool, Error>),
}

pub enum SendActionView {
    AskStorage,
    Stream { from_chunk: int },
    Send(Seq<u8>),
    TakeNext,
    Finish(Result<bool, ErrorView>),
}

impl View for SendAction {
    type V = SendActionView;

    open spec fn view(&self) -> SendActionView {
        match self {
            SendAction::AskStorage => SendActionView::AskStorage,
            SendAction::Stream { from_chunk } => SendActionView::Stream {
                from_chunk: *from_chunk as int,
            },
            SendAction::Send(bytes) => SendActionView::Send(bytes@),
            SendAction::TakeNext => SendActionView::TakeNext,
            SendAction::Finish(Ok(sent)) => SendActionView::Finish(Ok(*sent)),
            SendAction::Finish(Err(e)) => SendActionView::Finish(Err(e@)),
        }
    }
}

/// What came of an action.
#[derive(Debug)]
pub enum SendEvent {
    /// The storage said whether it has the payload, or failed.
    Asked(Result<bool, String>),
    /// The stream gave bytes, or failed.
    Item(Result<Vec<u8>, String>),
    /// The stream is at its end.
    End,
    /// The bytes were sent, or could not be.
    Sent(Result<(), String>),
}

/// What is to be done after an event, when a payload is sent from an offset on: nothing is
/// sent of a payload that the storage does not have; otherwise all that the stream gives is
/// sent, in order; the first error ends it.
pub open spec fn next_send_action(offset: u64, event: SendEvent) -> SendActionView {
    match event {
        SendEvent::Asked(Ok(false)) => SendActionView::Finish(Ok(false)),
        SendEvent::Asked(Ok(true)) => SendActionView::Stream { from_chunk: (offset / 1024) as int },
        SendEvent::Asked(Err(text)) => SendActionView::Finish(Err(ErrorView::PayloadStore(text@))),
        SendEvent::Item(Ok(bytes)) => SendActionView::Send(bytes@),
        SendEvent::Item(Err(text)) => SendActionView::Finish(Err(ErrorView::PayloadStore(text@))),
        SendEvent::End => SendActionView::Finish(Ok(true)),
        SendEvent::Sent(Ok(())) => SendActionView::TakeNext,
        SendEvent::Sent(Err(text)) => SendActionView::Finish(Err(ErrorView::Send(text@))),
    }
}

/// Starts sending a payload.
pub fn send_payload_chunked() -> (r: SendAction)
    ensures
        r@ == SendActionView::AskStorage,
{
    SendAction::AskStorage
}

/// Goes on sending a payload from an offset on.
pub fn send_payload_next(offset: u64, event: SendEvent) -> (r: SendAction)
    ensures
        r@ == next_send_action(offset, event),
{
    match event {
        SendEvent::Asked(Ok(has)) => {
            if has {
                SendAction::Stream { from_chunk: full_chunks(offset) }
            } else {
                SendAction::Finish(Ok(false))
            }
        },
        SendEvent::Asked(Err(text)) => SendAction::Finish(Err(Error::PayloadStore(text))),
        SendEvent::Item(Ok(bytes)) => SendAction::Send(bytes),
        SendEvent::Item(Err(text)) => SendAction::Finish(Err(Error::PayloadStore(text))),
        SendEvent::End => SendAction::Finish(Ok(true)),
        SendEvent::Sent(Ok(())) => SendAction::TakeNext,
        SendEvent::Sent(Err(text)) => SendAction::Finish(Err(Error::Send(text))),
    }
}

/// The events of sending the chunks of a stream, all of which can be sent, to its end.
pub open spec fn smooth_events(chunks: Seq<Vec<u8>>) -> Seq<SendEvent>
    decreases chunks.len(),
{
    if chunks.len() == 0 {
        seq![SendEvent::Asked(Ok(true))]
    } else {
        smooth_events(chunks.drop_last()).push(SendEvent::Item(Ok(chunks.last()))).push(
            SendEvent::Sent(Ok(())),
        )
    }
}

/// The bytes that the actions after the events send.
pub open spec fn sent_bytes(offset: u64, events: Seq<SendEvent>) -> Seq<Seq<u8>>
    decreases events.len(),
{
    if events.len() == 0 {
        seq![]
    } else {
        let before = sent_bytes(offset, events.drop_last());
        match next_send_action(offset, events.last()) {
            SendActionView::Send(bytes) => before.push(bytes),
            _ => before,
        }
    }
}

/// Of a payload that the storage has, exactly what the stream gives is sent, in order.
pub proof fn law_all_chunks_are_sent(offset: u64, chunks: Seq<Vec<u8>>)
    ensures
        sent_bytes(offset, smooth_events(chunks)) == byte_views(chunks),
    decreases chunks.len(),
{
    let events = smooth_events(chunks);
    if chunks.len() == 0 {
        assert(events.drop_last() =~= Seq::empty());
        reveal_with_fuel(sent_bytes, 2);
        assert(sent_bytes(offset, events) =~= byte_views(chunks));
    } else {
        let rest = chunks.drop_last();
        law_all_chunks_are_sent(offset, rest);
        let one = smooth_events(rest).push(SendEvent::Item(Ok(chunks.last())));
        assert(events.drop_last() =~= one);
        assert(one.drop_last() =~= smooth_events(rest));
        reveal_with_fuel(sent_bytes, 3);
        assert(byte_views(chunks) =~= byte_views(rest).push(chunks.last()@));
    }
}

// ---------------------------------------------------------------------------
// Receiving
// ---------------------------------------------------------------------------

/// A payload that is being received. `chunks` is `None` until the first one has come.
pub struct IncomingPayload {
    pub payload_digest: PayloadDigest,
    pub expected_length: int,
    pub received_length: int,
    pub total_length: int,
    pub offset: int,
    pub chunks: Option<Seq<Seq<u8>>>,
}

#[derive(Debug)]
struct PayloadWriter {
    chunks: Vec<Vec<u8>>,
}

#[derive(Debug)]
struct CurrentPayloadInner {
    payload_digest: PayloadDigest,
    expected_length: u64,
    received_length: u64,
    total_length: u64,
    offset: u64,
    writer: Option<PayloadWriter>,
}

/// The payload that is being received, if there is one.
#[derive(Debug)]
pub struct CurrentPayload {
    state: Option<CurrentPayloadInner>,
}

/// What to hand to the storage once a payload has been received: the chunks, put together,
/// are the encoding of the payload from a chunk on.
#[derive(Debug)]
pub struct PayloadImport {
    pub payload_digest: PayloadDigest,
    pub from_chunk: u64,
    pub data: Vec<u8>,
}

pub struct PayloadImportView {
    pub payload_digest: PayloadDigest,
    pub from_chunk: int,
    pub data: Seq<u8>,
}

impl View for PayloadImport {
    type V = PayloadImportView;

    open spec fn view(&self) -> PayloadImportView {
        PayloadImportView {
            payload_digest: self.payload_digest,
            from_chunk: self.from_chunk as int,
            data: self.data@,
        }
    }
}

closed spec fn inner_view(inner: CurrentPayloadInner) -> IncomingPayload {
    IncomingPayload {
        payload_digest: inner.payload_digest,
        expected_length: inner.expected_length as int,
        received_length: inner.received_length as int,
        total_length: inner.total_length as int,
        offset: inner.offset as int,
        chunks: match inner.writer {
            Some(writer) => Some(byte_views(writer.chunks@)),
            None => None,
        },
    }
}

impl View for CurrentPayload {
    type V = Option<IncomingPayload>;

    closed spec fn view(&self) -> Option<IncomingPayload> {
        match self.state {
            Some(inner) => Some(inner_view(inner)),
            None => None,
        }
    }
}

impl Default for CurrentPayload {
    fn default() -> (r: Self)
        ensures
            r@ is None,
    {
        CurrentPayload { state: None }
    }
}

/// The value of a length or an offset that may be missing.
pub open spec fn or_else(value: Option<u64>, default: u64) -> u64 {
    match value {
        Some(v) => v,
        None => default,
    }
}

/// The number of bytes in all the chunks together.
pub open spec fn bytes_in(chunks: Option<Seq<Seq<u8>>>) -> int {
    match chunks {
        Some(chunks) => chunks.flatten().len() as int,
        None => 0,
    }
}

impl CurrentPayload {
    /// The bytes that were counted are those that came.
    #[verifier::type_invariant]
    spec fn counted(&self) -> bool {
        self@ matches Some(state) ==> state.received_length == bytes_in(state.chunks)
    }

    /// Sets the payload that is to be received.
    pub fn set(
        &mut self,
        payload_digest: PayloadDigest,
        total_length: u64,
        available_length: Option<u64>,
        offset: Option<u64>,
    ) -> (r: Result<(), Error>)
        requires
            old(self)@ is None ==> or_else(offset, 0) <= or_else(available_length, total_length),
        ensures
            match old(self)@ {
                Some(_) => r matches Err(e) && e@ == ErrorView::InvalidMessageInCurrentState
                    && final(self)@ == old(self)@,
                None => r is Ok && final(self)@ == Some(
                    IncomingPayload {
                        payload_digest,
                        expected_length: or_else(available_length, total_length) - or_else(offset, 0),
                        received_length: 0,
                        total_length: total_length as int,
                        offset: or_else(offset, 0) as int,
                        chunks: None,
                    },
                ),
            },
    {
        if self.state.is_some() {
            return Err(Error::InvalidMessageInCurrentState);
        }
        let offset: u64 = match offset {
            Some(o) => o,
            None => 0,
        };
        let available: u64 = match available_length {
            Some(a) => a,
            None => total_length,
        };
        self.state = Some(
            CurrentPayloadInner {
                payload_digest,
                expected_length: available - offset,
                received_length: 0,
                total_length,
                offset,
                writer: None,
            },
        );
        Ok(())
    }

    /// Takes a chunk of the payload.
    pub fn recv_chunk(&mut self, chunk: Vec<u8>) -> (r: Result<(), Error>)
        requires
            old(self)@ matches Some(state) ==> state.received_length + chunk@.len() <= u64::MAX,
        ensures
            match old(self)@ {
                None => r matches Err(e) && e@ == ErrorView::InvalidMessageInCurrentState
                    && final(self)@ is None,
                Some(state) => r is Ok && final(self)@ == Some(
                    IncomingPayload {
                        received_length: state.received_length + chunk@.len(),
                        chunks: Some(
                            match state.chunks {
                                Some(chunks) => chunks.push(chunk@),
                                None => seq![chunk@],
                            },
                        ),
                        ..state
                    },
                ),
            },
    {
        proof {
            use_type_invariant(&*self);
        }
        let ghost before = self@;
        let ghost bytes = chunk@;
        let mut state: Option<CurrentPayloadInner> = None;
        std::mem::swap(&mut state, &mut self.state);
        match state {
            None => Err(Error::InvalidMessageInCurrentState),
            Some(inner) => {
                let len: u64 = chunk.len() as u64;
                let mut chunks = match inner.writer {
                    Some(writer) => writer.chunks,
                    None => Vec::new(),
                };
                let ghost earlier = byte_views(chunks@);
                chunks.push(chunk);
                proof {
                    assert(byte_views(chunks@) =~= earlier.push(bytes));
                    if before->0.chunks is None {
                        assert(earlier =~= Seq::empty());
                        assert(byte_views(chunks@) =~= seq![bytes]);
                    }
                    lemma_flatten_push(earlier, bytes);
                }
                self.state = Some(
                    CurrentPayloadInner {
                        payload_digest: inner.payload_digest,
                        expected_length: inner.expected_length,
                        received_length: inner.received_length + len,
                        total_length: inner.total_length,
                        offset: inner.offset,
                        writer: Some(PayloadWriter { chunks }),
                    },
                );
                Ok(())
            },
        }
    }

    /// Whether as many bytes have come as are expected.
    pub fn is_complete(&self) -> (r: bool)
        ensures
            r == (self@ matches Some(state) && state.received_length >= state.expected_length),
    {
        match &self.state {
            Some(state) => state.received_length >= state.expected_length,
            None => false,
        }
    }

    /// Ends the payload, and gives what is to be handed to the storage: nothing where no
    /// chunk has come.
    pub fn finalize(&mut self) -> (r: Result<Option<PayloadImport>, Error>)
        ensures
            final(self)@ is None,
            match old(self)@ {
                None => r matches Err(e) && e@ == ErrorView::InvalidMessageInCurrentState,
                Some(state) => match state.chunks {
                    None => r matches Ok(import) && import is None,
                    Some(chunks) => r matches Ok(Some(import)) && import@ == (PayloadImportView {
                        payload_digest: state.payload_digest,
                        from_chunk: state.offset / 1024,
                        data: chunks.flatten(),
                    }),
                },
            },
    {
        let mut state: Option<CurrentPayloadInner> = None;
        std::mem::swap(&mut state, &mut self.state);
        match state {
            None => Err(Error::InvalidMessageInCurrentState),
            Some(state) => match state.writer {
                None => Ok(None),
                Some(writer) => {
                    let data = concatenate(&writer.chunks);
                    Ok(
                        Some(
                            PayloadImport {
                                payload_digest: state.payload_digest,
                                from_chunk: full_chunks(state.offset),
                                data,
                            },
                        ),
                    )
                },
            },
        }
    }

    /// Whether a chunk of a payload has come.
    pub fn is_active(&self) -> (r: bool)
        ensures
            r == (self@ matches Some(state) && state.chunks is Some),
    {
        match &self.state {
            Some(state) => state.writer.is_some(),
            None => false,
        }
    }

    /// Checks that no payload is being received.
    pub fn ensure_none(&self) -> (r: Result<(), Error>)
        ensures
            match r {
                Ok(()) => !(self@ matches Some(state) && state.chunks is Some),
                Err(e) => (self@ matches Some(state) && state.chunks is Some) && e@
                    == ErrorView::InvalidMessageInCurrentState,
            },
    {
        if self.is_active() {
            Err(Error::InvalidMessageInCurrentState)
        } else {
            Ok(())
        }
    }
}

/// Puts chunks together.
fn concatenate(chunks: &Vec<Vec<u8>>) -> (r: Vec<u8>)
    ensures
        r@ == byte_views(chunks@).flatten(),
{
    let ghost views = byte_views(chunks@);
    let mut out: Vec<u8> = Vec::new();
    let mut i: usize = 0;
    assert(views.take(0).flatten() =~= Seq::empty());
    while i < chunks.len()
        invariant
            i <= chunks.len(),
            views == byte_views(chunks@),
            out@ == views.take(i as int).flatten(),
        decreases chunks.len() - i,
    {
        let mut more = copy_bytes(chunks[i].as_slice());
        out.append(&mut more);
        proof {
            assert(views.take(i as int).push(views[i as int]) =~= views.take(i + 1));
            lemma_flatten_push(views.take(i as int), views[i as int]);
        }
        i += 1;
    }
    assert(views.take(views.len() as int) =~= views);
    out
}

proof fn lemma_flatten_push(parts: Seq<Seq<u8>>, part: Seq<u8>)
    ensures
        parts.push(part).flatten() == parts.flatten() + part,
    decreases parts.len(),
{
    let more = parts.push(part);
    if parts.len() == 0 {
        assert(more.drop_first() =~= Seq::empty());
        reveal_with_fuel(Seq::flatten, 2);
        assert(more.flatten() =~= parts.flatten() + part);
    } else {
        assert(more.drop_first() =~= parts.drop_first().push(part));
        lemma_flatten_push(parts.drop_first(), part);
        assert(more.flatten() =~= parts.flatten() + part);
    }
}

/// Each answer while a payload is sent calls for one thing: a payload that the storage has is
/// streamed from the chunk on in which the offset lies, each item of the stream is sent, after
/// each the next is taken, and the end of the stream is the end; a payload that it does not have
/// is not sent. What fails ends it, with the error of the storage or of sending.
pub proof fn law_what_is_done_to_send(offset: u64, event: SendEvent)
    ensures
        match (event, next_send_action(offset, event)) {
            (SendEvent::Asked(Ok(true)), SendActionView::Stream { from_chunk }) => from_chunk * 1024
                <= offset < from_chunk * 1024 + 1024,
            (SendEvent::Asked(Ok(false)), SendActionView::Finish(Ok(sent))) => !sent,
            (SendEvent::Asked(Err(text)), SendActionView::Finish(Err(e))) => e
                == ErrorView::PayloadStore(text@),
            (SendEvent::Item(Ok(bytes)), SendActionView::Send(sent)) => sent == bytes@,
            (SendEvent::Item(Err(text)), SendActionView::Finish(Err(e))) => e
                == ErrorView::PayloadStore(text@),
            (SendEvent::Sent(Ok(())), SendActionView::TakeNext) => true,
            (SendEvent::Sent(Err(text)), SendActionView::Finish(Err(e))) => e == ErrorView::Send(
                text@,
            ),
            (SendEvent::End, SendActionView::Finish(Ok(sent))) => sent,
            _ => false,
        },
{
}

/// A length or an offset that is given counts, and else the default.
pub proof fn law_given_lengths_count(value: u64, default: u64)
    ensures
        or_else(Some(value), default) == value,
        or_else(None, default) == default,
{
}

/// A payload that is announced where none is being received is received from then on, from the
/// given offset to the given length, or from its start to its end.
pub proof fn law_announcing_a_payload(
    payload: &mut CurrentPayload,
    digest: PayloadDigest,
    total_length: u64,
    available_length: Option<u64>,
    offset: Option<u64>,
    r: Result<(), Error>,
)
    requires
        call_ensures(
            CurrentPayload::set,
            (payload, digest, total_length, available_length, offset),
            r,
        ),
    ensures
        r is Ok <==> old(payload)@ is None,
        r is Err ==> final(payload)@ == old(payload)@,
        r is Ok ==> {
            let state = final(payload)@->0;
            &&& final(payload)@ is Some
            &&& state.payload_digest == digest
            &&& state.total_length == total_length
            &&& state.received_length == 0
            &&& state.chunks is None
            &&& offset is None ==> state.offset == 0
            &&& offset is Some ==> state.offset == offset->0
            &&& available_length is None ==> state.expected_length + state.offset == total_length
            &&& available_length is Some ==> state.expected_length + state.offset
                == available_length->0
        },
{
}

/// The bytes that have come of a payload.
pub open spec fn bytes_so_far(state: IncomingPayload) -> Seq<u8> {
    match state.chunks {
        Some(chunks) => chunks.flatten(),
        None => seq![],
    }
}

/// A chunk of a payload goes behind the bytes that have come, and is counted with them.
pub proof fn law_receiving_a_chunk(
    payload: &mut CurrentPayload,
    chunk: Vec<u8>,
    r: Result<(), Error>,
)
    requires
        call_ensures(CurrentPayload::recv_chunk, (payload, chunk), r),
    ensures
        r is Ok <==> old(payload)@ is Some,
        final(payload)@ is Some <==> old(payload)@ is Some,
        r is Ok ==> {
            let (before, after) = (old(payload)@->0, final(payload)@->0);
            &&& bytes_so_far(after) == bytes_so_far(before) + chunk@
            &&& after.received_length == before.received_length + chunk@.len()
            &&& after.chunks is Some
            &&& after.payload_digest == before.payload_digest
            &&& after.expected_length == before.expected_length
            &&& after.total_length == before.total_length
            &&& after.offset == before.offset
        },
{
    if old(payload)@ is Some {
        match old(payload)@->0.chunks {
            Some(chunks) => {
                chunks.lemma_flatten_push(chunk@);
            },
            None => {
                seq![chunk@].lemma_flatten_singleton();
            },
        }
    }
}

/// When a payload ends, all bytes that have come are handed to the storage, in order, from the
/// chunk of 1024 bytes on that the offset lies in; after that none is being received.
pub proof fn law_ending_a_payload(
    payload: &mut CurrentPayload,
    r: Result<Option<PayloadImport>, Error>,
)
    requires
        call_ensures(CurrentPayload::finalize, (payload,), r),
    ensures
        final(payload)@ is None,
        r is Ok <==> old(payload)@ is Some,
        r is Ok ==> {
            let state = old(payload)@->0;
            &&& r->Ok_0 is Some <==> state.chunks is Some
            &&& r->Ok_0 is Some ==> r->Ok_0->0@.data == bytes_so_far(state)
            &&& r->Ok_0 is Some ==> r->Ok_0->0@.payload_digest == state.payload_digest
            &&& r->Ok_0 is Some ==> r->Ok_0->0@.from_chunk == state.offset / 1024
        },
{
}

} // verus!
