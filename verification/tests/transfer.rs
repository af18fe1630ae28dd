use transit::chunk::MAX_CHUNK;
use transit::chunk::chunk_payload;
use transit::instruction::Operation;
use transit::transfer::FileEntry;
use transit::transfer::InboundTransfer;
use transit::transfer::TransferKind;
use transit::transfer::TransferState;
use transit::transfer::Verdict;
use transit::transfer::file_frames;
use transit::transfer::message_frame;
use transit::transfer::on_request_answer;

fn sample_bytes(n: usize) -> Vec<u8> {
    let mut v = Vec::with_capacity(n);
    for i in 0..n {
        v.push((i % 251) as u8);
    }
    v
}

#[test]
fn chunking_shapes() {
    assert_eq!(chunk_payload(&Vec::new()), vec![Vec::new()]);
    let one = sample_bytes(MAX_CHUNK);
    assert_eq!(chunk_payload(&one), vec![one.clone()]);
    let two = sample_bytes(MAX_CHUNK + 1);
    let chunks = chunk_payload(&two);
    assert_eq!(chunks.len(), 2);
    assert_eq!(chunks[0].len(), MAX_CHUNK);
    assert_eq!(chunks[1].len(), 1);
    let mut glued = chunks[0].clone();
    glued.extend_from_slice(&chunks[1]);
    assert_eq!(glued, two);
}

#[test]
fn file_transfer_end_to_end() {
    // A 150 000-byte file against the 65 535-byte frame cap: at least
    // 3 content frames before EndSendFile, and the payloads glued in
    // arrival order are exactly the original bytes.
    let data = sample_bytes(150_000);
    let entry = FileEntry { meta: b"big.bin".to_vec(), data: data.clone() };
    let frames = file_frames(7, &entry);

    assert_eq!(frames[0].header.operation, Operation::PreSendFile);
    assert_eq!(frames[0].payload, b"big.bin".to_vec());
    let content = &frames[1..frames.len() - 1];
    assert!(content.len() >= 3);
    assert_eq!(content.len(), 3);
    assert_eq!(content[0].header.operation, Operation::PreSendContent);
    assert!(content[0].header.buffer);
    assert_eq!(content[1].header.operation, Operation::ContinueContent);
    assert!(content[1].header.buffer);
    assert_eq!(content[2].header.operation, Operation::ContinueContent);
    assert!(!content[2].header.buffer);
    let last = &frames[frames.len() - 1];
    assert_eq!(last.header.operation, Operation::EndSendFile);
    assert!(!last.header.buffer);
    assert_eq!(last.header.length, 0);

    // Every declared length matches the payload written after the header.
    for f in frames.iter() {
        assert_eq!(f.header.length as usize, f.payload.len());
    }

    // The receiver accumulates the chunks in order and completes.
    let mut t = InboundTransfer::new(7, TransferKind::File);
    assert_eq!(t.answer_request(Verdict::Accept), Operation::RequestSuccess);
    for f in &frames[1..] {
        t.on_file_frame(f.header.operation, &f.payload);
    }
    assert_eq!(t.state, TransferState::Completed);
    assert_eq!(t.data, data);
}

#[test]
fn abort_mid_stream_discards() {
    // AbortFile after 2 of 3 expected chunks: never Completed, partial
    // bytes discarded.
    let data = sample_bytes(150_000);
    let entry = FileEntry { meta: b"big.bin".to_vec(), data };
    let frames = file_frames(7, &entry);
    let mut t = InboundTransfer::new(7, TransferKind::File);
    t.answer_request(Verdict::Accept);
    t.on_file_frame(frames[1].header.operation, &frames[1].payload);
    t.on_file_frame(frames[2].header.operation, &frames[2].payload);
    assert_eq!(t.state, TransferState::Streaming);
    assert!(!t.data.is_empty());
    let no_payload = Vec::new();
    t.on_file_frame(Operation::AbortFile, &no_payload);
    assert_eq!(t.state, TransferState::Aborted);
    assert_ne!(t.state, TransferState::Completed);
    assert!(t.data.is_empty());
    // Later frames change nothing: the state is terminal.
    t.on_file_frame(Operation::EndSendFile, &no_payload);
    assert_eq!(t.state, TransferState::Aborted);
    assert!(t.data.is_empty());
}

#[test]
fn content_before_accept_is_violation() {
    // ContinueContent before PreSendContent is rejected, not ignored.
    let payload = sample_bytes(10);
    let mut t = InboundTransfer::new(3, TransferKind::File);
    t.answer_request(Verdict::Accept);
    t.on_file_frame(Operation::ContinueContent, &payload);
    assert_eq!(t.state, TransferState::Failed);
    assert!(t.data.is_empty());
}

#[test]
fn refuse_and_fail_answers() {
    let mut t = InboundTransfer::new(1, TransferKind::File);
    assert_eq!(t.answer_request(Verdict::Refuse), Operation::RequestRefuse);
    assert_eq!(t.state, TransferState::Rejected);
    let mut t2 = InboundTransfer::new(2, TransferKind::File);
    assert_eq!(t2.answer_request(Verdict::Fail), Operation::RequestFail);
    assert_eq!(t2.state, TransferState::Failed);
}

#[test]
fn message_frame_carries_whole_text() {
    let text = b"hello there".to_vec();
    let f = message_frame(4, &text);
    assert_eq!(f.header.id, 4);
    assert_eq!(f.header.operation, Operation::PreSendMsg);
    assert!(!f.header.buffer);
    assert_eq!(f.header.length, 11);
    assert_eq!(f.payload, text);
}

#[test]
fn empty_file_still_sends_one_content_frame() {
    let entry = FileEntry { meta: b"empty".to_vec(), data: Vec::new() };
    let frames = file_frames(2, &entry);
    assert_eq!(frames.len(), 3);
    assert_eq!(frames[1].header.operation, Operation::PreSendContent);
    assert_eq!(frames[1].header.length, 0);
    assert!(!frames[1].header.buffer);
    let mut t = InboundTransfer::new(2, TransferKind::File);
    t.answer_request(Verdict::Accept);
    for f in &frames[1..] {
        t.on_file_frame(f.header.operation, &f.payload);
    }
    assert_eq!(t.state, TransferState::Completed);
    assert!(t.data.is_empty());
}

#[test]
fn message_delivery_completes_at_once() {
    let text = b"see you at noon".to_vec();
    let mut t = InboundTransfer::new(5, TransferKind::Message);
    assert_eq!(t.answer_message(Verdict::Accept, &text), Operation::RequestSuccess);
    assert_eq!(t.state, TransferState::Completed);
    assert_eq!(t.data, text);

    let mut refused = InboundTransfer::new(6, TransferKind::Message);
    assert_eq!(refused.answer_message(Verdict::Refuse, &text), Operation::RequestRefuse);
    assert_eq!(refused.state, TransferState::Rejected);
    assert!(refused.data.is_empty());
}

#[test]
fn request_answer_mapping() {
    assert_eq!(on_request_answer(Operation::RequestSuccess), TransferState::Accepted);
    assert_eq!(on_request_answer(Operation::RequestRefuse), TransferState::Rejected);
    assert_eq!(on_request_answer(Operation::RequestFail), TransferState::Failed);
    assert_eq!(on_request_answer(Operation::AbortFile), TransferState::Aborted);
    assert_eq!(on_request_answer(Operation::AbortDir), TransferState::Aborted);
    assert_eq!(on_request_answer(Operation::EndConn), TransferState::Failed);
}
