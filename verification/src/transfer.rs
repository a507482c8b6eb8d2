use vstd::prelude::*;
use crate::protocol::{Control, CHUNK_SIZE, MAX_FRAME_SIZE};

verus! {

/// Why a transfer is abandoned by either end.
#[derive(Clone, Copy, Debug, PartialEq, Eq, Structural)]
pub enum ProtocolError {
    /// The sender expected `Accept` or `Reject` and got something else.
    UnexpectedMessage,
    /// The payload is larger than `MAX_FRAME_SIZE` bytes.
    PayloadTooLarge { bytes: u64 },
    /// The receiver expected `Meta` and got something else.
    ExpectedMeta,
    /// More payload bytes arrived than `Meta` announced.
    MoreDataThanDeclared,
    /// The receiver expected `Done` and got something else.
    ExpectedDone,
    /// The sender expected the receiver's final acknowledgement and got something else.
    UnexpectedResponse,
    /// The first encrypted message after the handshake is not the key
    /// confirmation.
    BadConfirmation,
}

/// The plaintext of the key confirmation: the first message the sender
/// encrypts once the handshake is done, which shows the receiver that the
/// peer derived the same session keys (the handshake's last message is the
/// receiver's own, so the handshake alone does not show it).
pub open spec fn confirmation_message() -> Seq<u8> {
    Seq::empty()
}

// ---------------------------------------------------------------- sender

/// What the sender makes of the receiver's answer to the pairing:
/// `Ok(true)` to go on, `Ok(false)` when the user refused.
pub open spec fn decision_of(reply: Control) -> Result<bool, ProtocolError> {
    match reply {
        Control::Accept => Ok(true),
        Control::Reject => Ok(false),
        _ => Err(ProtocolError::UnexpectedMessage),
    }
}

/// Interprets the receiver's answer: `Accept` goes on, `Reject` ends the
/// transfer quietly, anything else is an error.
pub fn sender_on_decision(reply: Control) -> (res: Result<bool, ProtocolError>)
    ensures
        res == decision_of(reply),
{
    match reply {
        Control::Accept => Ok(true),
        Control::Reject => Ok(false),
        _ => Err(ProtocolError::UnexpectedMessage),
    }
}

/// The `Meta` message announcing a packed payload, or the refusal of a
/// payload above `MAX_FRAME_SIZE`.
pub open spec fn meta_of(data_len: nat, file_count: u64) -> Result<Control, ProtocolError> {
    if data_len > MAX_FRAME_SIZE {
        Err(ProtocolError::PayloadTooLarge { bytes: data_len as u64 })
    } else {
        Ok(Control::Meta { file_count, bytes: data_len as u64 })
    }
}

/// Builds the `Meta` message for a packed payload of `data_len` bytes holding
/// `file_count` files.
pub fn transfer_meta(data_len: usize, file_count: u64) -> (res: Result<Control, ProtocolError>)
    ensures
        res == meta_of(data_len as nat, file_count),
{
    if data_len > MAX_FRAME_SIZE {
        Err(ProtocolError::PayloadTooLarge { bytes: data_len as u64 })
    } else {
        Ok(Control::Meta { file_count, bytes: data_len as u64 })
    }
}

/// The payload cut into consecutive pieces of `CHUNK_SIZE` bytes; the last
/// piece may be shorter, and an empty payload has no pieces.
pub open spec fn chunks_of(data: Seq<u8>) -> Seq<Seq<u8>>
    decreases data.len(),
{
    if data.len() == 0 {
        Seq::empty()
    } else if data.len() <= CHUNK_SIZE {
        seq![data]
    } else {
        seq![data.take(CHUNK_SIZE as int)] + chunks_of(data.skip(CHUNK_SIZE as int))
    }
}

/// The concatenation of a sequence of byte strings.
pub open spec fn flatten(pieces: Seq<Seq<u8>>) -> Seq<u8>
    decreases pieces.len(),
{
    if pieces.len() == 0 {
        Seq::empty()
    } else {
        pieces[0] + flatten(pieces.drop_first())
    }
}

/// Cuts the payload into the pieces the sender encrypts one frame each.
pub fn split_chunks(data: &[u8]) -> (chunks: Vec<Vec<u8>>)
    ensures
        chunks.deep_view() == chunks_of(data@),
{
    let mut out: Vec<Vec<u8>> = Vec::new();
    let mut start: usize = 0;
    assert(data@.skip(0) =~= data@);
    while start < data.len()
        invariant
            start <= data@.len(),
            out.deep_view() + chunks_of(data@.skip(start as int)) == chunks_of(data@),
        decreases data@.len() - start,
    {
        let end: usize = if data.len() - start > CHUNK_SIZE {
            start + CHUNK_SIZE
        } else {
            data.len()
        };
        let piece = vstd::slice::slice_to_vec(vstd::slice::slice_subrange(data, start, end));
        let ghost rest = data@.skip(start as int);
        proof {
            assert(piece@ =~= data@.subrange(start as int, end as int));
            if rest.len() <= CHUNK_SIZE {
                assert(piece@ =~= rest);
                assert(data@.skip(end as int) =~= Seq::<u8>::empty());
                assert(chunks_of(rest) == seq![rest]);
            } else {
                assert(piece@ =~= rest.take(CHUNK_SIZE as int));
                assert(rest.skip(CHUNK_SIZE as int) =~= data@.skip(end as int));
            }
            assert(chunks_of(rest) =~= seq![piece@] + chunks_of(data@.skip(end as int)));
        }
        let ghost before = out.deep_view();
        let ghost old_v = out@;
        proof {
            assert(piece.deep_view() =~= piece@);
        }
        out.push(piece);
        proof {
            assert(out.deep_view() =~= before.push(piece@)) by {
                assert forall|i: int| 0 <= i < out.deep_view().len() implies out.deep_view()[i]
                    == before.push(piece@)[i] by {
                    if i < before.len() {
                        assert(out@[i] == old_v[i]);
                    }
                }
            }
            assert(before.push(piece@) + chunks_of(data@.skip(end as int)) =~= before + (seq![
                piece@,
            ] + chunks_of(data@.skip(end as int))));
        }
        start = end;
    }
    proof {
        assert(data@.skip(start as int) =~= Seq::<u8>::empty());
        assert(out.deep_view() + Seq::<Seq<u8>>::empty() =~= out.deep_view());
    }
    out
}

/// What the sender makes of the receiver's last message.
pub open spec fn completion_of(reply: Control) -> Result<(), ProtocolError> {
    match reply {
        Control::Ack => Ok(()),
        _ => Err(ProtocolError::UnexpectedResponse),
    }
}

/// Checks the receiver's final acknowledgement.
pub fn sender_on_completion(reply: Control) -> (res: Result<(), ProtocolError>)
    ensures
        res == completion_of(reply),
{
    match reply {
        Control::Ack => Ok(()),
        _ => Err(ProtocolError::UnexpectedResponse),
    }
}

// ---------------------------------------------------------------- receiver

/// The receiver's answer after asking its user.
pub open spec fn reply_of(accepted: bool) -> Control {
    if accepted {
        Control::Accept
    } else {
        Control::Reject
    }
}

/// The control message the receiver sends once its user has answered.
pub fn decision_reply(accepted: bool) -> (reply: Control)
    ensures
        reply == reply_of(accepted),
{
    if accepted {
        Control::Accept
    } else {
        Control::Reject
    }
}

/// What the receiver makes of the message that should announce the payload:
/// the file count and byte count it announces.
pub open spec fn announced(ctrl: Control) -> Result<(u64, u64), ProtocolError> {
    match ctrl {
        Control::Meta { file_count, bytes } => if bytes > MAX_FRAME_SIZE {
            Err(ProtocolError::PayloadTooLarge { bytes })
        } else {
            Ok((file_count, bytes))
        },
        _ => Err(ProtocolError::ExpectedMeta),
    }
}

/// Reads the `Meta` announcement, refusing payloads above `MAX_FRAME_SIZE`.
pub fn receiver_on_meta(ctrl: Control) -> (res: Result<(u64, u64), ProtocolError>)
    ensures
        res == announced(ctrl),
{
    match ctrl {
        Control::Meta { file_count, bytes } => {
            if bytes > MAX_FRAME_SIZE as u64 {
                Err(ProtocolError::PayloadTooLarge { bytes })
            } else {
                Ok((file_count, bytes))
            }
        },
        _ => Err(ProtocolError::ExpectedMeta),
    }
}

/// What the receiver makes of the message that should close the payload.
pub open spec fn closed_by(ctrl: Control) -> Result<(), ProtocolError> {
    match ctrl {
        Control::Done => Ok(()),
        _ => Err(ProtocolError::ExpectedDone),
    }
}

/// Checks that the payload is followed by `Done`.
pub fn receiver_on_done(ctrl: Control) -> (res: Result<(), ProtocolError>)
    ensures
        res == closed_by(ctrl),
{
    match ctrl {
        Control::Done => Ok(()),
        _ => Err(ProtocolError::ExpectedDone),
    }
}

/// One step of reassembly: append the chunk, and fail if the buffer now holds
/// more than was announced.
pub open spec fn push_step(received: Seq<u8>, expected: nat, chunk: Seq<u8>) -> Result<
    Seq<u8>,
    ProtocolError,
> {
    if received.len() + chunk.len() > expected {
        Err(ProtocolError::MoreDataThanDeclared)
    } else {
        Ok(received + chunk)
    }
}

/// The payload being collected by the receiver, chunk by chunk.
pub struct Reassembly {
    expected: u64,
    received: Vec<u8>,
}

impl Reassembly {
    /// Number of bytes the sender announced.
    pub closed spec fn expected(&self) -> nat {
        self.expected as nat
    }

    /// Bytes collected so far.
    pub closed spec fn received(&self) -> Seq<u8> {
        self.received@
    }

    /// Starts collecting a payload of `expected` bytes.
    pub fn new(expected: u64) -> (r: Reassembly)
        ensures
            r.expected() == expected,
            r.received() == Seq::<u8>::empty(),
    {
        Reassembly { expected, received: Vec::new() }
    }

    /// Whether the announced length has been reached; the receiver reads
    /// chunks while this is false.
    pub fn is_complete(&self) -> (done: bool)
        ensures
            done == (self.received().len() >= self.expected()),
    {
        self.received.len() as u64 >= self.expected
    }

    /// Appends a decrypted chunk; fails once more bytes arrived than announced.
    pub fn push_chunk(&mut self, chunk: &[u8]) -> (res: Result<(), ProtocolError>)
        ensures
            final(self).expected() == old(self).expected(),
            final(self).received() == old(self).received() + chunk@,
            match push_step(old(self).received(), old(self).expected(), chunk@) {
                Ok(_) => res == Ok::<(), ProtocolError>(()),
                Err(e) => res == Err::<(), ProtocolError>(e),
            },
    {
        self.received.extend_from_slice(chunk);
        assert(self.received@ =~= old(self).received@ + chunk@);
        if self.received.len() as u64 > self.expected {
            Err(ProtocolError::MoreDataThanDeclared)
        } else {
            Ok(())
        }
    }

    /// The collected payload.
    pub fn into_data(self) -> (data: Vec<u8>)
        ensures
            data@ == self.received(),
    {
        self.received
    }
}

// ---------------------------------------------------------------- machines

/// A message of the payload phase, as the sender queues it: a control message
/// (sent as JSON) or a chunk of the payload (sent as raw bytes).
#[derive(Debug)]
pub enum Outgoing {
    Control(Control),
    Data(Vec<u8>),
}

/// What the sender queues after the receiver accepted: `Meta`, the payload's
/// chunks in order, then `Done`.
pub open spec fn plan_shape(msgs: Seq<Outgoing>, data: Seq<u8>, file_count: u64) -> bool {
    let cs = chunks_of(data);
    &&& msgs.len() == cs.len() + 2
    &&& msgs[0] == Outgoing::Control(Control::Meta { file_count, bytes: data.len() as u64 })
    &&& msgs.last() == Outgoing::Control(Control::Done)
    &&& forall|i: int|
        1 <= i <= cs.len() ==> (#[trigger] msgs[i] matches Outgoing::Data(v) && v@ == cs[i - 1])
}

/// Where the sender stands.
#[derive(Clone, Copy, Debug, PartialEq, Eq, Structural)]
pub enum SenderPhase {
    /// Handshake done: the key confirmation is to be sent.
    Confirming,
    /// Waiting for the receiver's user to accept or refuse.
    AwaitDecision,
    /// Accepted: the payload may be packed and queued.
    Accepted,
    /// Payload sent; waiting for the receiver's acknowledgement.
    AwaitAck,
    /// The receiver acknowledged the restore.
    Complete,
    /// The receiver's user refused.
    Rejected,
}

/// What the sender does with a control message in a phase that waits for one.
pub open spec fn sender_step(phase: SenderPhase, reply: Control) -> Result<SenderPhase, ProtocolError> {
    match phase {
        SenderPhase::AwaitDecision => match decision_of(reply) {
            Ok(true) => Ok(SenderPhase::Accepted),
            Ok(false) => Ok(SenderPhase::Rejected),
            Err(e) => Err(e),
        },
        _ => match completion_of(reply) {
            Ok(()) => Ok(SenderPhase::Complete),
            Err(e) => Err(e),
        },
    }
}

/// The sender's side of the transfer, from the end of the handshake on.
pub struct Sender {
    phase: SenderPhase,
}

impl Sender {
    pub closed spec fn phase(&self) -> SenderPhase {
        self.phase
    }

    /// A sender that has just finished the handshake.
    pub fn new() -> (s: Sender)
        ensures
            s.phase() == SenderPhase::Confirming,
    {
        Sender { phase: SenderPhase::Confirming }
    }

    /// The key confirmation to encrypt and send first; the sender then waits
    /// for the receiver's decision.
    pub fn confirm(&mut self) -> (m: Vec<u8>)
        requires
            old(self).phase() == SenderPhase::Confirming,
        ensures
            m@ == confirmation_message(),
            final(self).phase() == SenderPhase::AwaitDecision,
    {
        self.phase = SenderPhase::AwaitDecision;
        Vec::new()
    }

    /// The current phase.
    pub fn current(&self) -> (p: SenderPhase)
        ensures
            p == self.phase(),
    {
        self.phase
    }

    /// Handles the receiver's decision (`AwaitDecision`) or its final
    /// acknowledgement (`AwaitAck`).
    pub fn on_control(&mut self, reply: Control) -> (res: Result<(), ProtocolError>)
        requires
            old(self).phase() == SenderPhase::AwaitDecision || old(self).phase()
                == SenderPhase::AwaitAck,
        ensures
            match sender_step(old(self).phase(), reply) {
                Ok(p) => res is Ok && final(self).phase() == p,
                Err(e) => res == Err::<(), ProtocolError>(e) && final(self).phase() == old(
                    self,
                ).phase(),
            },
    {
        if self.phase == SenderPhase::AwaitDecision {
            match sender_on_decision(reply) {
                Ok(true) => {
                    self.phase = SenderPhase::Accepted;
                    Ok(())
                },
                Ok(false) => {
                    self.phase = SenderPhase::Rejected;
                    Ok(())
                },
                Err(e) => Err(e),
            }
        } else {
            match sender_on_completion(reply) {
                Ok(()) => {
                    self.phase = SenderPhase::Complete;
                    Ok(())
                },
                Err(e) => Err(e),
            }
        }
    }

    /// Queues the packed payload: `Meta`, its chunks, `Done`. A payload over
    /// `MAX_FRAME_SIZE` bytes is refused before anything is queued.
    pub fn plan(&mut self, data: &[u8], file_count: u64) -> (res: Result<Vec<Outgoing>, ProtocolError>)
        requires
            old(self).phase() == SenderPhase::Accepted,
        ensures
            data@.len() > MAX_FRAME_SIZE ==> res == Err::<Vec<Outgoing>, ProtocolError>(
                ProtocolError::PayloadTooLarge { bytes: data@.len() as u64 },
            ) && final(self).phase() == old(self).phase(),
            data@.len() <= MAX_FRAME_SIZE ==> (res matches Ok(msgs) && plan_shape(
                msgs@,
                data@,
                file_count,
            ) && final(self).phase() == SenderPhase::AwaitAck),
    {
        let meta = match transfer_meta(data.len(), file_count) {
            Ok(m) => m,
            Err(e) => {
                return Err(e);
            },
        };
        let mut rest = split_chunks(data);
        let ghost cs = chunks_of(data@);
        let mut msgs: Vec<Outgoing> = Vec::new();
        msgs.push(Outgoing::Control(meta));
        let ghost mut k: int = 0;
        proof {
            assert(cs.skip(0) =~= cs);
        }
        while rest.len() > 0
            invariant
                0 <= k <= cs.len(),
                rest.deep_view() == cs.skip(k),
                msgs@.len() == k + 1,
                msgs@[0] == Outgoing::Control(meta),
                forall|i: int|
                    1 <= i <= k ==> (#[trigger] msgs@[i] matches Outgoing::Data(v) && v@ == cs[i
                        - 1]),
            decreases rest.len(),
        {
            let ghost before = rest@;
            let ghost old_dv = rest.deep_view();
            let piece = rest.remove(0);
            proof {
                assert(old_dv == cs.skip(k));
                assert(old_dv[0] == before[0].deep_view());
                assert(piece.deep_view() =~= piece@);
                assert(rest@ == before.remove(0));
                assert(rest.deep_view().len() == cs.skip(k + 1).len());
                assert forall|j: int| 0 <= j < rest.deep_view().len() implies rest.deep_view()[j]
                    == cs.skip(k + 1)[j] by {
                    assert(rest@[j] == before[j + 1]);
                    assert(old_dv[j + 1] == before[j + 1].deep_view());
                    assert(cs.skip(k)[j + 1] == cs.skip(k + 1)[j]);
                }
                assert(rest.deep_view() =~= cs.skip(k + 1));
            }
            let ghost old_msgs = msgs@;
            msgs.push(Outgoing::Data(piece));
            proof {
                assert(cs[k] == piece@);
                k = k + 1;
                assert forall|i: int| 1 <= i <= k implies (#[trigger] msgs@[i] matches Outgoing::Data(
                    v,
                ) && v@ == cs[i - 1]) by {
                    if i < k {
                        assert(msgs@[i] == old_msgs[i]);
                    }
                }
            }
        }
        proof {
            assert(cs.skip(k).len() == 0);
        }
        let ghost before_done = msgs@;
        msgs.push(Outgoing::Control(Control::Done));
        proof {
            assert forall|i: int| 1 <= i <= cs.len() implies (#[trigger] msgs@[i] matches Outgoing::Data(
                v,
            ) && v@ == cs[i - 1]) by {
                assert(msgs@[i] == before_done[i]);
            }
        }
        self.phase = SenderPhase::AwaitAck;
        Ok(msgs)
    }
}

/// Where the receiver stands.
#[derive(Clone, Copy, Debug, PartialEq, Eq, Structural)]
pub enum ReceiverPhase {
    /// Handshake done: waiting for the sender's key confirmation.
    AwaitConfirmation,
    /// The sender proved the key: waiting for the user's answer.
    AwaitUser,
    /// The user refused.
    Declined,
    /// Waiting for `Meta`.
    AwaitMeta,
    /// Collecting payload chunks.
    Receiving,
    /// The whole payload arrived; waiting for `Done`.
    AwaitDone,
    /// `Done` arrived: the payload can be restored.
    Finished,
}

/// The receiver's state in the abstract: its phase, the announced file count
/// and byte count, and the bytes collected.
pub type ReceiverState = (ReceiverPhase, u64, nat, Seq<u8>);

/// The state right after the handshake.
pub open spec fn receiver_initial() -> ReceiverState {
    (ReceiverPhase::AwaitConfirmation, 0, 0, Seq::empty())
}

/// What the first decrypted message does to the receiver: the key
/// confirmation lets it ask its user, anything else ends the session.
pub open spec fn confirmation_step(st: ReceiverState, plain: Seq<u8>) -> Result<ReceiverState, ProtocolError> {
    if plain == confirmation_message() {
        Ok((ReceiverPhase::AwaitUser, st.1, st.2, st.3))
    } else {
        Err(ProtocolError::BadConfirmation)
    }
}

/// The state right after the user accepted.
pub open spec fn receiver_start() -> ReceiverState {
    (ReceiverPhase::AwaitMeta, 0, 0, Seq::empty())
}

/// The state after the user's answer.
pub open spec fn answered(accepted: bool) -> ReceiverState {
    if accepted {
        receiver_start()
    } else {
        (ReceiverPhase::Declined, 0, 0, Seq::empty())
    }
}

/// The phase that follows once `received` bytes of `expected` are in.
pub open spec fn after_bytes(received: Seq<u8>, expected: nat) -> ReceiverPhase {
    if received.len() >= expected {
        ReceiverPhase::AwaitDone
    } else {
        ReceiverPhase::Receiving
    }
}

/// What a control message does to the receiver, in a phase that waits for one.
pub open spec fn receive_control(st: ReceiverState, ctrl: Control) -> Result<ReceiverState, ProtocolError> {
    if st.0 == ReceiverPhase::AwaitMeta {
        match announced(ctrl) {
            Ok((file_count, bytes)) => Ok(
                (after_bytes(Seq::empty(), bytes as nat), file_count, bytes as nat, Seq::empty()),
            ),
            Err(e) => Err(e),
        }
    } else {
        match closed_by(ctrl) {
            Ok(()) => Ok((ReceiverPhase::Finished, st.1, st.2, st.3)),
            Err(e) => Err(e),
        }
    }
}

/// What a payload chunk does to the receiver while it collects.
pub open spec fn receive_data(st: ReceiverState, chunk: Seq<u8>) -> Result<ReceiverState, ProtocolError> {
    match push_step(st.3, st.2, chunk) {
        Ok(r) => Ok((after_bytes(r, st.2), st.1, st.2, r)),
        Err(e) => Err(e),
    }
}

/// One message handed to the receiver. Control messages are only read in
/// `AwaitMeta` and `AwaitDone`, chunks only in `Receiving`; any other pairing
/// is never handed over (`None`).
pub open spec fn receiver_step(st: ReceiverState, msg: Outgoing) -> Option<Result<ReceiverState, ProtocolError>> {
    match msg {
        Outgoing::Control(c) => if st.0 == ReceiverPhase::AwaitMeta || st.0
            == ReceiverPhase::AwaitDone {
            Some(receive_control(st, c))
        } else {
            None
        },
        Outgoing::Data(v) => if st.0 == ReceiverPhase::Receiving {
            Some(receive_data(st, v@))
        } else {
            None
        },
    }
}

/// The receiver run over a sequence of messages.
pub open spec fn receiver_run(st: ReceiverState, msgs: Seq<Outgoing>) -> Option<Result<ReceiverState, ProtocolError>>
    decreases msgs.len(),
{
    if msgs.len() == 0 {
        Some(Ok(st))
    } else {
        match receiver_step(st, msgs[0]) {
            Some(Ok(next)) => receiver_run(next, msgs.drop_first()),
            other => other,
        }
    }
}

/// The receiver's side of the payload phase.
pub struct Receiver {
    phase: ReceiverPhase,
    file_count: u64,
    buffer: Reassembly,
}

impl Receiver {
    pub closed spec fn state(&self) -> ReceiverState {
        (self.phase, self.file_count, self.buffer.expected(), self.buffer.received())
    }

    /// A receiver that has just finished the handshake.
    pub fn new() -> (r: Receiver)
        ensures
            r.state() == receiver_initial(),
    {
        Receiver {
            phase: ReceiverPhase::AwaitConfirmation,
            file_count: 0,
            buffer: Reassembly::new(0),
        }
    }

    /// Checks the first decrypted message, the sender's key confirmation;
    /// anything else is refused and the user is never asked.
    pub fn on_confirmation(&mut self, plain: &[u8]) -> (res: Result<(), ProtocolError>)
        requires
            old(self).state().0 == ReceiverPhase::AwaitConfirmation,
        ensures
            match confirmation_step(old(self).state(), plain@) {
                Ok(st) => res is Ok && final(self).state() == st,
                Err(e) => res == Err::<(), ProtocolError>(e) && final(self).state() == old(
                    self,
                ).state(),
            },
    {
        if plain.len() == 0 {
            assert(plain@ =~= confirmation_message());
            self.phase = ReceiverPhase::AwaitUser;
            Ok(())
        } else {
            Err(ProtocolError::BadConfirmation)
        }
    }

    /// Records the user's answer and returns the reply to send: `Accept`
    /// starts the payload phase, `Reject` ends the session.
    pub fn on_user_answer(&mut self, accepted: bool) -> (reply: Control)
        requires
            old(self).state().0 == ReceiverPhase::AwaitUser,
        ensures
            reply == reply_of(accepted),
            final(self).state() == answered(accepted),
    {
        self.phase = if accepted {
            ReceiverPhase::AwaitMeta
        } else {
            ReceiverPhase::Declined
        };
        self.file_count = 0;
        self.buffer = Reassembly::new(0);
        decision_reply(accepted)
    }

    /// The current phase; in `Receiving` the next frame is a payload chunk,
    /// otherwise a control message.
    pub fn current(&self) -> (p: ReceiverPhase)
        ensures
            p == self.state().0,
    {
        self.phase
    }

    /// Handles `Meta` (in `AwaitMeta`) or `Done` (in `AwaitDone`).
    pub fn on_control(&mut self, ctrl: Control) -> (res: Result<(), ProtocolError>)
        requires
            old(self).state().0 == ReceiverPhase::AwaitMeta || old(self).state().0
                == ReceiverPhase::AwaitDone,
        ensures
            match receive_control(old(self).state(), ctrl) {
                Ok(st) => res is Ok && final(self).state() == st,
                Err(e) => res == Err::<(), ProtocolError>(e),
            },
    {
        if self.phase == ReceiverPhase::AwaitMeta {
            match receiver_on_meta(ctrl) {
                Ok((file_count, bytes)) => {
                    self.file_count = file_count;
                    self.buffer = Reassembly::new(bytes);
                    self.phase = if self.buffer.is_complete() {
                        ReceiverPhase::AwaitDone
                    } else {
                        ReceiverPhase::Receiving
                    };
                    Ok(())
                },
                Err(e) => Err(e),
            }
        } else {
            match receiver_on_done(ctrl) {
                Ok(()) => {
                    self.phase = ReceiverPhase::Finished;
                    Ok(())
                },
                Err(e) => Err(e),
            }
        }
    }

    /// Handles a decrypted payload chunk (in `Receiving`).
    pub fn on_data(&mut self, chunk: &[u8]) -> (res: Result<(), ProtocolError>)
        requires
            old(self).state().0 == ReceiverPhase::Receiving,
        ensures
            match receive_data(old(self).state(), chunk@) {
                Ok(st) => res is Ok && final(self).state() == st,
                Err(e) => res == Err::<(), ProtocolError>(e),
            },
    {
        match self.buffer.push_chunk(chunk) {
            Ok(()) => {
                self.phase = if self.buffer.is_complete() {
                    ReceiverPhase::AwaitDone
                } else {
                    ReceiverPhase::Receiving
                };
                Ok(())
            },
            Err(e) => Err(e),
        }
    }

    /// The announced file count and the collected payload.
    pub fn into_payload(self) -> (res: (u64, Vec<u8>))
        ensures
            res.0 == self.state().1,
            res.1@ == self.state().3,
    {
        (self.file_count, self.buffer.into_data())
    }
}

// ---------------------------------------------------------------- laws

/// The pieces of a payload are non-empty, at most `CHUNK_SIZE` long, and
/// concatenate back to the payload.
pub proof fn lemma_chunks(data: Seq<u8>)
    ensures
        flatten(chunks_of(data)) == data,
        forall|i: int|
            0 <= i < chunks_of(data).len() ==> 0 < #[trigger] chunks_of(data)[i].len()
                <= CHUNK_SIZE,
    decreases data.len(),
{
    if data.len() == 0 {
    } else if data.len() <= CHUNK_SIZE {
        let cs = chunks_of(data);
        assert(cs == seq![data]);
        assert(cs.drop_first() =~= Seq::<Seq<u8>>::empty());
        assert(flatten(cs.drop_first()) == Seq::<u8>::empty());
        assert(flatten(cs) == cs[0] + flatten(cs.drop_first()));
        assert(flatten(cs) =~= data);
    } else {
        let rest = data.skip(CHUNK_SIZE as int);
        lemma_chunks(rest);
        let cs = chunks_of(data);
        assert(cs.drop_first() =~= chunks_of(rest));
        assert(data.take(CHUNK_SIZE as int) + rest =~= data);
        assert forall|i: int| 0 <= i < cs.len() implies 0 < #[trigger] cs[i].len()
            <= CHUNK_SIZE by {
            if i > 0 {
                assert(cs[i] == chunks_of(rest)[i - 1]);
            }
        }
    }
}

proof fn lemma_run_payload(
    received: Seq<u8>,
    expected: nat,
    file_count: u64,
    pieces: Seq<Seq<u8>>,
    ms: Seq<Outgoing>,
)
    requires
        received.len() + flatten(pieces).len() == expected,
        forall|i: int| 0 <= i < pieces.len() ==> 0 < #[trigger] pieces[i].len(),
        ms.len() == pieces.len() + 1,
        forall|i: int|
            0 <= i < pieces.len() ==> (#[trigger] ms[i] matches Outgoing::Data(v) && v@ == pieces[i]),
        ms.last() == Outgoing::Control(Control::Done),
    ensures
        receiver_run((after_bytes(received, expected), file_count, expected, received), ms) == Some(
            Ok::<ReceiverState, ProtocolError>(
                (ReceiverPhase::Finished, file_count, expected, received + flatten(pieces)),
            ),
        ),
    decreases pieces.len(),
{
    let st: ReceiverState = (after_bytes(received, expected), file_count, expected, received);
    if pieces.len() == 0 {
        assert(received + flatten(pieces) =~= received);
        assert(ms[0] == Outgoing::Control(Control::Done));
        assert(st.0 == ReceiverPhase::AwaitDone);
        let fin: ReceiverState = (ReceiverPhase::Finished, file_count, expected, received);
        assert(receiver_step(st, ms[0]) == Some(Ok::<ReceiverState, ProtocolError>(fin)));
        assert(ms.drop_first().len() == 0);
        assert(receiver_run(fin, ms.drop_first()) == Some(Ok::<ReceiverState, ProtocolError>(fin)));
    } else {
        let p0 = pieces[0];
        let rest = pieces.drop_first();
        assert(flatten(pieces) == p0 + flatten(rest));
        assert(0 < p0.len());
        assert(st.0 == ReceiverPhase::Receiving);
        let r = received + p0;
        assert(receiver_step(st, ms[0]) == Some(
            Ok::<ReceiverState, ProtocolError>((after_bytes(r, expected), file_count, expected, r)),
        ));
        assert forall|i: int| 0 <= i < rest.len() implies 0 < #[trigger] rest[i].len() by {
            assert(rest[i] == pieces[i + 1]);
        }
        let ms2 = ms.drop_first();
        assert forall|i: int| 0 <= i < rest.len() implies (#[trigger] ms2[i] matches Outgoing::Data(
            v,
        ) && v@ == rest[i]) by {
            assert(ms2[i] == ms[i + 1]);
            assert(rest[i] == pieces[i + 1]);
        }
        lemma_run_payload(r, expected, file_count, rest, ms2);
        assert(receiver_run(st, ms) == receiver_run(
            (after_bytes(r, expected), file_count, expected, r),
            ms2,
        ));
        assert(r + flatten(rest) =~= received + flatten(pieces));
    }
}

/// A whole transfer, end to end: whatever the sender queues for a payload of
/// at most `MAX_FRAME_SIZE` bytes, handed in order to a receiver whose user
/// accepted, leaves it `Finished` with the announced file count and exactly
/// that payload.
pub proof fn lemma_transfer_roundtrip(data: Seq<u8>, file_count: u64, msgs: Seq<Outgoing>)
    requires
        data.len() <= MAX_FRAME_SIZE,
        plan_shape(msgs, data, file_count),
    ensures
        receiver_run(receiver_start(), msgs) == Some(
            Ok::<ReceiverState, ProtocolError>(
                (ReceiverPhase::Finished, file_count, data.len(), data),
            ),
        ),
{
    let cs = chunks_of(data);
    lemma_chunks(data);
    let len = data.len();
    assert(announced(Control::Meta { file_count, bytes: len as u64 }) == Ok::<
        (u64, u64),
        ProtocolError,
    >((file_count, len as u64)));
    let st1: ReceiverState = (after_bytes(Seq::empty(), len), file_count, len, Seq::empty());
    assert(receiver_step(receiver_start(), msgs[0]) == Some(Ok::<ReceiverState, ProtocolError>(st1)));
    let ms = msgs.drop_first();
    assert forall|i: int| 0 <= i < cs.len() implies 0 < #[trigger] cs[i].len() by {}
    assert forall|i: int| 0 <= i < cs.len() implies (#[trigger] ms[i] matches Outgoing::Data(v)
        && v@ == cs[i]) by {
        assert(ms[i] == msgs[i + 1]);
    }
    assert(ms.last() == msgs.last());
    lemma_run_payload(Seq::empty(), len, file_count, cs, ms);
    assert(Seq::<u8>::empty() + flatten(cs) =~= data);
}

/// The sender refuses a payload over `MAX_FRAME_SIZE` bytes before anything
/// is sent, naming its size.
pub proof fn lemma_oversized_payload_refused(data_len: nat, file_count: u64)
    requires
        data_len > MAX_FRAME_SIZE,
    ensures
        meta_of(data_len, file_count) == Err::<Control, ProtocolError>(
            ProtocolError::PayloadTooLarge { bytes: data_len as u64 },
        ),
{
}

/// The sender's run ends `Complete` exactly when the receiver accepts and then
/// acknowledges; a refusal ends it `Rejected`.
pub proof fn lemma_sender_outcomes()
    ensures
        sender_step(SenderPhase::AwaitDecision, Control::Accept) == Ok::<SenderPhase, ProtocolError>(
            SenderPhase::Accepted,
        ),
        sender_step(SenderPhase::AwaitDecision, Control::Reject) == Ok::<SenderPhase, ProtocolError>(
            SenderPhase::Rejected,
        ),
        sender_step(SenderPhase::AwaitAck, Control::Ack) == Ok::<SenderPhase, ProtocolError>(
            SenderPhase::Complete,
        ),
        forall|c: Control| c != Control::Ack ==> sender_step(SenderPhase::AwaitAck, c) is Err,
        forall|c: Control|
            c != Control::Accept && c != Control::Reject ==> sender_step(
                SenderPhase::AwaitDecision,
                c,
            ) is Err,
{
}

/// Both ends agree on the user's answer: the sender goes on exactly when the
/// receiver's user accepted.
pub proof fn lemma_decision_agreement(accepted: bool)
    ensures
        decision_of(reply_of(accepted)) == Ok::<bool, ProtocolError>(accepted),
{
}

/// The receiver asks its user only after the key confirmation: the sender's
/// confirmation moves a fresh receiver to the question, any other first
/// message is refused, and an accepting answer starts the payload phase.
pub proof fn lemma_confirmation_gates_question(plain: Seq<u8>)
    ensures
        confirmation_step(receiver_initial(), confirmation_message()) == Ok::<
            ReceiverState,
            ProtocolError,
        >((ReceiverPhase::AwaitUser, 0u64, 0nat, Seq::<u8>::empty())),
        plain != confirmation_message() ==> confirmation_step(receiver_initial(), plain)
            == Err::<ReceiverState, ProtocolError>(ProtocolError::BadConfirmation),
        answered(true) == receiver_start(),
        answered(false).0 == ReceiverPhase::Declined,
{
}

} // verus!
