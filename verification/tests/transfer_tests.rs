use ssh_migrator::protocol::{Control, CHUNK_SIZE, MAX_FRAME_SIZE};
use ssh_migrator::transfer::{
    decision_reply, receiver_on_done, receiver_on_meta, sender_on_completion, sender_on_decision,
    split_chunks, transfer_meta, Outgoing, ProtocolError, Reassembly, Receiver, ReceiverPhase,
    Sender, SenderPhase,
};

fn payload(n: usize) -> Vec<u8> {
    (0..n).map(|i| (i * 7 % 256) as u8).collect()
}

/// A receiver that got the key confirmation and whose user accepted.
fn accepted_receiver() -> Receiver {
    let mut r = Receiver::new();
    r.on_confirmation(&[]).unwrap();
    assert_eq!(r.on_user_answer(true), Control::Accept);
    assert_eq!(r.current(), ReceiverPhase::AwaitMeta);
    r
}

/// A sender that sent its key confirmation.
fn confirmed_sender() -> Sender {
    let mut s = Sender::new();
    assert_eq!(s.current(), SenderPhase::Confirming);
    assert!(s.confirm().is_empty());
    assert_eq!(s.current(), SenderPhase::AwaitDecision);
    s
}

/// Feeds the sender's queued messages to a receiver, as the two ends do over
/// the wire.
fn deliver(msgs: Vec<Outgoing>) -> Result<Receiver, ProtocolError> {
    let mut r = accepted_receiver();
    for m in msgs {
        match m {
            Outgoing::Control(c) => {
                assert_ne!(r.current(), ReceiverPhase::Receiving);
                r.on_control(c)?
            }
            Outgoing::Data(d) => {
                assert_eq!(r.current(), ReceiverPhase::Receiving);
                r.on_data(&d)?
            }
        }
    }
    Ok(r)
}

#[test]
fn chunks_cover_the_payload() {
    assert!(split_chunks(&[]).is_empty());
    assert_eq!(split_chunks(&payload(1)).len(), 1);
    assert_eq!(split_chunks(&payload(CHUNK_SIZE)).len(), 1);
    let data = payload(2 * CHUNK_SIZE + 5);
    let chunks = split_chunks(&data);
    let sizes: Vec<usize> = chunks.iter().map(|c| c.len()).collect();
    assert_eq!(sizes, vec![CHUNK_SIZE, CHUNK_SIZE, 5]);
    assert_eq!(chunks.concat(), data);
}

#[test]
fn chunks_match_slice_chunks() {
    let data = payload(3 * CHUNK_SIZE + 17);
    let ours = split_chunks(&data);
    let std_chunks: Vec<Vec<u8>> = data.chunks(CHUNK_SIZE).map(|c| c.to_vec()).collect();
    assert_eq!(ours, std_chunks);
}

#[test]
fn decisions() {
    assert_eq!(sender_on_decision(Control::Accept), Ok(true));
    assert_eq!(sender_on_decision(Control::Reject), Ok(false));
    assert_eq!(sender_on_decision(Control::Done), Err(ProtocolError::UnexpectedMessage));
    assert_eq!(decision_reply(true), Control::Accept);
    assert_eq!(decision_reply(false), Control::Reject);
    for accepted in [true, false] {
        assert_eq!(sender_on_decision(decision_reply(accepted)), Ok(accepted));
    }
}

#[test]
fn meta_and_completion() {
    assert_eq!(
        transfer_meta(10, 3),
        Ok(Control::Meta { file_count: 3, bytes: 10 })
    );
    assert_eq!(
        transfer_meta(MAX_FRAME_SIZE + 1, 3),
        Err(ProtocolError::PayloadTooLarge { bytes: MAX_FRAME_SIZE as u64 + 1 })
    );
    assert_eq!(sender_on_completion(Control::Ack), Ok(()));
    assert_eq!(sender_on_completion(Control::Reject), Err(ProtocolError::UnexpectedResponse));
}

#[test]
fn receiver_checks_meta_and_done() {
    assert_eq!(
        receiver_on_meta(Control::Meta { file_count: 2, bytes: 100 }),
        Ok((2, 100))
    );
    assert_eq!(
        receiver_on_meta(Control::Meta { file_count: 2, bytes: MAX_FRAME_SIZE as u64 + 1 }),
        Err(ProtocolError::PayloadTooLarge { bytes: MAX_FRAME_SIZE as u64 + 1 })
    );
    assert_eq!(receiver_on_meta(Control::Done), Err(ProtocolError::ExpectedMeta));
    assert_eq!(receiver_on_done(Control::Done), Ok(()));
    assert_eq!(receiver_on_done(Control::Accept), Err(ProtocolError::ExpectedDone));
}

#[test]
fn reassembly_refuses_extra_bytes() {
    let mut r = Reassembly::new(4);
    assert!(!r.is_complete());
    assert_eq!(r.push_chunk(&[1, 2]), Ok(()));
    assert!(!r.is_complete());
    assert_eq!(r.push_chunk(&[3, 4, 5]), Err(ProtocolError::MoreDataThanDeclared));
    let mut r = Reassembly::new(3);
    assert_eq!(r.push_chunk(&[1, 2, 3]), Ok(()));
    assert!(r.is_complete());
    assert_eq!(r.into_data(), vec![1, 2, 3]);
}

#[test]
fn full_transfer_delivers_the_payload() {
    for n in [0usize, 1, 100, CHUNK_SIZE, CHUNK_SIZE + 1, 3 * CHUNK_SIZE + 9] {
        let data = payload(n);
        let mut s = confirmed_sender();
        assert_eq!(s.on_control(Control::Accept), Ok(()));
        assert_eq!(s.current(), SenderPhase::Accepted);
        let msgs = s.plan(&data, 5).unwrap();
        assert_eq!(s.current(), SenderPhase::AwaitAck);
        assert_eq!(msgs.len(), data.chunks(CHUNK_SIZE).count() + 2);
        let r = deliver(msgs).unwrap();
        assert_eq!(r.current(), ReceiverPhase::Finished);
        let (count, restored) = r.into_payload();
        assert_eq!(count, 5);
        assert_eq!(restored, data);
        assert_eq!(s.on_control(Control::Ack), Ok(()));
        assert_eq!(s.current(), SenderPhase::Complete);
    }
}

#[test]
fn rejected_transfer_ends_quietly() {
    let mut s = confirmed_sender();
    assert_eq!(s.on_control(Control::Reject), Ok(()));
    assert_eq!(s.current(), SenderPhase::Rejected);
}

#[test]
fn sender_refuses_unexpected_messages() {
    let mut s = confirmed_sender();
    assert_eq!(s.on_control(Control::Ack), Err(ProtocolError::UnexpectedMessage));
    assert_eq!(s.current(), SenderPhase::AwaitDecision);
    assert_eq!(s.on_control(Control::Accept), Ok(()));
    let _ = s.plan(&payload(3), 1).unwrap();
    assert_eq!(s.on_control(Control::Done), Err(ProtocolError::UnexpectedResponse));
}

#[test]
fn sender_refuses_oversized_payload() {
    let data = vec![0u8; MAX_FRAME_SIZE + 1];
    let mut s = confirmed_sender();
    s.on_control(Control::Accept).unwrap();
    assert_eq!(
        s.plan(&data, 1).unwrap_err(),
        ProtocolError::PayloadTooLarge { bytes: MAX_FRAME_SIZE as u64 + 1 }
    );
    assert_eq!(s.current(), SenderPhase::Accepted);
}

#[test]
fn receiver_errors() {
    let mut r = accepted_receiver();
    assert_eq!(r.on_control(Control::Done), Err(ProtocolError::ExpectedMeta));
    let mut r = accepted_receiver();
    assert_eq!(
        r.on_control(Control::Meta { file_count: 1, bytes: MAX_FRAME_SIZE as u64 + 1 }),
        Err(ProtocolError::PayloadTooLarge { bytes: MAX_FRAME_SIZE as u64 + 1 })
    );
    let mut r = accepted_receiver();
    r.on_control(Control::Meta { file_count: 1, bytes: 3 }).unwrap();
    assert_eq!(r.current(), ReceiverPhase::Receiving);
    assert_eq!(r.on_data(&[1, 2, 3, 4]), Err(ProtocolError::MoreDataThanDeclared));
    let mut r = accepted_receiver();
    r.on_control(Control::Meta { file_count: 1, bytes: 3 }).unwrap();
    r.on_data(&[1, 2]).unwrap();
    assert_eq!(r.current(), ReceiverPhase::Receiving);
    r.on_data(&[3]).unwrap();
    assert_eq!(r.current(), ReceiverPhase::AwaitDone);
    assert_eq!(r.on_control(Control::Ack), Err(ProtocolError::ExpectedDone));
}

#[test]
fn empty_payload_goes_straight_to_done() {
    let mut r = accepted_receiver();
    r.on_control(Control::Meta { file_count: 0, bytes: 0 }).unwrap();
    assert_eq!(r.current(), ReceiverPhase::AwaitDone);
    r.on_control(Control::Done).unwrap();
    assert_eq!(r.into_payload(), (0, vec![]));
}

#[test]
fn receiver_asks_only_after_key_confirmation() {
    let mut r = Receiver::new();
    assert_eq!(r.current(), ReceiverPhase::AwaitConfirmation);
    assert_eq!(r.on_confirmation(&[0]), Err(ProtocolError::BadConfirmation));
    assert_eq!(r.current(), ReceiverPhase::AwaitConfirmation);
    assert_eq!(r.on_confirmation(&[]), Ok(()));
    assert_eq!(r.current(), ReceiverPhase::AwaitUser);
}

#[test]
fn declined_receiver_replies_reject() {
    let mut r = Receiver::new();
    r.on_confirmation(&[]).unwrap();
    assert_eq!(r.on_user_answer(false), Control::Reject);
    assert_eq!(r.current(), ReceiverPhase::Declined);
    let mut s = confirmed_sender();
    assert_eq!(s.on_control(Control::Reject), Ok(()));
    assert_eq!(s.current(), SenderPhase::Rejected);
}
