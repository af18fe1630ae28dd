use transit::driver::DirectoryReceiver;
use transit::driver::Dispatch;
use transit::driver::TransferTable;
use transit::driver::dispatch_frame;
use transit::transfer::InboundTransfer;
use transit::instruction::Operation;
use transit::session::SessionState;
use transit::transfer::FileEntry;
use transit::transfer::TransferKind;
use transit::transfer::TransferState;
use transit::transfer::Verdict;
use transit::transfer::dir_frames;

#[test]
fn dispatch_by_session_state() {
    assert_eq!(
        dispatch_frame(SessionState::Disconnected, Operation::ConnWithPass),
        Dispatch::Handshake
    );
    assert_eq!(
        dispatch_frame(SessionState::Established, Operation::PreSendFile),
        Dispatch::BeginTransfer(TransferKind::File)
    );
    assert_eq!(
        dispatch_frame(SessionState::Established, Operation::PreSendDir),
        Dispatch::BeginTransfer(TransferKind::Directory)
    );
    assert_eq!(
        dispatch_frame(SessionState::Established, Operation::PreSendMsg),
        Dispatch::BeginTransfer(TransferKind::Message)
    );
    assert_eq!(
        dispatch_frame(SessionState::Established, Operation::ContinueContent),
        Dispatch::TransferFrame
    );
    assert_eq!(dispatch_frame(SessionState::Established, Operation::EndConn), Dispatch::CloseConn);
    // Requests outside Established are protocol violations.
    assert_eq!(dispatch_frame(SessionState::Handshaking, Operation::PreSendFile), Dispatch::Invalid);
    assert_eq!(dispatch_frame(SessionState::Refused, Operation::PreSendMsg), Dispatch::Invalid);
    assert_eq!(
        dispatch_frame(SessionState::Established, Operation::ConnWithoutPass),
        Dispatch::Invalid
    );
}

fn entries() -> Vec<FileEntry> {
    vec![
        FileEntry { meta: b"a.txt".to_vec(), data: b"alpha".to_vec() },
        FileEntry { meta: b"b.txt".to_vec(), data: Vec::new() },
        FileEntry { meta: b"c.txt".to_vec(), data: vec![9u8; 70_000] },
    ]
}

#[test]
fn directory_of_n_files_yields_n_cycles() {
    let files = entries();
    let frames = dir_frames(9, &files);
    assert_eq!(frames[0].header.operation, Operation::PreSendDir);
    assert_eq!(frames[frames.len() - 1].header.operation, Operation::EndSendDir);
    let announced =
        frames.iter().filter(|f| f.header.operation == Operation::PreSendFile).count();
    let ended = frames.iter().filter(|f| f.header.operation == Operation::EndSendFile).count();
    assert_eq!(announced, 3);
    assert_eq!(ended, 3);

    // A receiver that accepts every entry collects exactly the files'
    // bytes, in order.
    let mut d = DirectoryReceiver::new(9);
    for f in &frames[1..] {
        if d.nested_active {
            d.on_nested_frame(f.header.operation, &f.payload);
        } else if f.header.operation == Operation::PreSendFile {
            assert_eq!(d.answer_entry(Verdict::Accept), Operation::RequestSuccess);
        } else {
            d.on_dir_frame(f.header.operation);
        }
    }
    assert_eq!(d.state, TransferState::Completed);
    assert_eq!(d.files.len(), 3);
    assert_eq!(d.files[0], b"alpha".to_vec());
    assert_eq!(d.files[1], Vec::new());
    assert_eq!(d.files[2], vec![9u8; 70_000]);
}

#[test]
fn abort_dir_discards_everything() {
    let files = entries();
    let frames = dir_frames(9, &files);
    let mut d = DirectoryReceiver::new(9);
    let mut seen_cycles = 0;
    for f in &frames[1..] {
        if d.nested_active {
            d.on_nested_frame(f.header.operation, &f.payload);
        } else if f.header.operation == Operation::PreSendFile {
            if seen_cycles == 2 {
                break;
            }
            seen_cycles += 1;
            d.answer_entry(Verdict::Accept);
        } else {
            break;
        }
    }
    assert_eq!(d.files.len(), 2);
    let no_payload = Vec::new();
    // The third announcement arrives; accept it, then the sender aborts
    // the directory mid-cycle.
    d.answer_entry(Verdict::Accept);
    d.on_nested_frame(Operation::AbortDir, &no_payload);
    assert_eq!(d.state, TransferState::Aborted);
    assert_ne!(d.state, TransferState::Completed);
    assert!(d.files.is_empty());
}

#[test]
fn transfer_table_keys_by_id() {
    let mut table = TransferTable::new();
    assert!(table.adopt(InboundTransfer::new(1, TransferKind::File)));
    assert!(table.adopt(InboundTransfer::new(2, TransferKind::Message)));
    // A second item under a live id is refused: concurrent items never
    // collide.
    assert!(!table.adopt(InboundTransfer::new(1, TransferKind::Directory)));
    assert_eq!(table.find(1), Some(0));
    assert_eq!(table.find(2), Some(1));
    assert_eq!(table.find(3), None);

    let taken = table.release(1).unwrap();
    assert_eq!(taken.id, 1);
    assert_eq!(taken.kind, TransferKind::File);
    assert_eq!(table.find(1), None);
    assert!(table.release(1).is_none());
    // The id is free again once its transfer is gone.
    assert!(table.adopt(InboundTransfer::new(1, TransferKind::File)));
}

#[test]
fn abort_file_skips_one_entry() {
    let mut d = DirectoryReceiver::new(4);
    d.answer_entry(Verdict::Accept);
    let chunk = b"part".to_vec();
    d.on_nested_frame(Operation::PreSendContent, &chunk);
    let no_payload = Vec::new();
    d.on_nested_frame(Operation::AbortFile, &no_payload);
    // The directory itself stays open; the aborted entry left no bytes.
    assert_eq!(d.state, TransferState::Accepted);
    assert!(!d.nested_active);
    assert!(d.files.is_empty());
    // The next entry still goes through.
    d.answer_entry(Verdict::Accept);
    d.on_nested_frame(Operation::PreSendContent, &chunk);
    d.on_nested_frame(Operation::EndSendFile, &no_payload);
    d.on_dir_frame(Operation::EndSendDir);
    assert_eq!(d.state, TransferState::Completed);
    assert_eq!(d.files, vec![b"part".to_vec()]);
}
