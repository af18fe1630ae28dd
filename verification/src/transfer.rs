//! Per-item transfer machine and the frame scripts a sender emits.
//!
//! A transfer is one file, directory, or message negotiation keyed by the
//! frame `id`. The sender side is captured as a *script*: the exact
//! sequence of frames emitted for an item once the peer has accepted it.
//! The receiver side is a state machine that consumes frames one by one,
//! accumulating content bytes in arrival order. Directory entries reuse
//! the directory's own `id` for their nested file cycles, and a sender
//! walks the entries in the order it was handed them.

use vstd::prelude::*;
use crate::chunk::MAX_CHUNK;
use crate::chunk::append_bytes;
use crate::chunk::chunk_payload;
use crate::chunk::chunk_views;
use crate::chunk::copy_bytes;
use crate::chunk::lemma_chunks_flatten;
use crate::chunk::lemma_chunks_shape;
use crate::chunk::spec_chunks;
use crate::instruction::Instruction;
use crate::instruction::Operation;

verus! {

/// What a transfer carries.
#[derive(Clone, Copy, PartialEq, Eq, Structural, Debug)]
pub enum TransferKind {
    File,
    Directory,
    Message,
}

/// The states of one transfer. `Rejected`, `Failed`, `Aborted` and
/// `Completed` are terminal.
#[derive(Clone, Copy, PartialEq, Eq, Structural, Debug)]
pub enum TransferState {
    Requested,
    Accepted,
    Streaming,
    Completed,
    Rejected,
    Failed,
    Aborted,
}

/// The receiver's policy decision on a request: accept it, refuse it
/// deliberately, or report an operational failure.
#[derive(Clone, Copy, PartialEq, Eq, Structural, Debug)]
pub enum Verdict {
    Accept,
    Refuse,
    Fail,
}

/// States of a transfer no frame leads out of.
pub open spec fn is_terminal_transfer(s: TransferState) -> bool {
    s == TransferState::Completed || s == TransferState::Rejected || s == TransferState::Failed
        || s == TransferState::Aborted
}

/// One frame as written to the stream: a header and the payload bytes
/// that immediately follow it.
pub struct Frame {
    pub header: Instruction,
    pub payload: Vec<u8>,
}

/// The mathematical model of a frame.
pub struct FrameModel {
    pub header: Instruction,
    pub payload: Seq<u8>,
}

impl View for Frame {
    type V = FrameModel;

    open spec fn view(&self) -> FrameModel {
        FrameModel { header: self.header, payload: self.payload@ }
    }
}

/// The models of a sequence of frames.
pub open spec fn frame_views(frames: Seq<Frame>) -> Seq<FrameModel> {
    frames.map_values(|f: Frame| f@)
}

/// One directory entry a sender was handed: the metadata announced with
/// `PreSendFile` (name and the like) and the file's bytes.
pub struct FileEntry {
    pub meta: Vec<u8>,
    pub data: Vec<u8>,
}

/// The mathematical model of a directory entry.
pub struct FileEntryModel {
    pub meta: Seq<u8>,
    pub data: Seq<u8>,
}

impl View for FileEntry {
    type V = FileEntryModel;

    open spec fn view(&self) -> FileEntryModel {
        FileEntryModel { meta: self.meta@, data: self.data@ }
    }
}

/// A frame with no trailing payload.
pub open spec fn bare_frame(id: u16, op: Operation) -> FrameModel {
    FrameModel {
        header: Instruction { id, operation: op, buffer: false, length: 0 },
        payload: Seq::empty(),
    }
}

/// The content frames streaming the given chunks: the first is
/// `PreSendContent` when `first` holds (the chunk opens the file),
/// `ContinueContent` otherwise, and every frame announces with `buffer`
/// whether another content frame follows.
pub open spec fn spec_content_frames(id: u16, chunks: Seq<Seq<u8>>, first: bool) -> Seq<FrameModel>
    decreases chunks.len(),
{
    if chunks.len() == 0 {
        Seq::empty()
    } else {
        seq![
            FrameModel {
                header: Instruction {
                    id,
                    operation: if first {
                        Operation::PreSendContent
                    } else {
                        Operation::ContinueContent
                    },
                    buffer: chunks.len() > 1,
                    length: chunks[0].len() as u16,
                },
                payload: chunks[0],
            },
        ] + spec_content_frames(id, chunks.skip(1), false)
    }
}

/// Everything a sender emits for an accepted file after the answer to
/// `PreSendFile`: the content frames of the canonical chunking, then
/// `EndSendFile`.
pub open spec fn spec_file_body(id: u16, data: Seq<u8>) -> Seq<FrameModel> {
    spec_content_frames(id, spec_chunks(data), true) + seq![
        bare_frame(id, Operation::EndSendFile),
    ]
}

/// One whole file cycle: the `PreSendFile` announcement carrying the
/// entry's metadata, then the file body. The script assumes the peer
/// accepts; a refusal cuts the cycle short after the first frame.
pub open spec fn spec_file_script(id: u16, entry: FileEntryModel) -> Seq<FrameModel> {
    seq![
        FrameModel {
            header: Instruction {
                id,
                operation: Operation::PreSendFile,
                buffer: false,
                length: entry.meta.len() as u16,
            },
            payload: entry.meta,
        },
    ] + spec_file_body(id, entry.data)
}

/// The nested file cycles of a directory, in entry order, all under the
/// directory's own `id`.
pub open spec fn spec_dir_inner(id: u16, files: Seq<FileEntryModel>) -> Seq<FrameModel>
    decreases files.len(),
{
    if files.len() == 0 {
        Seq::empty()
    } else {
        spec_file_script(id, files[0]) + spec_dir_inner(id, files.skip(1))
    }
}

/// One whole directory cycle: `PreSendDir`, one file cycle per entry in
/// order, `EndSendDir`.
pub open spec fn spec_dir_script(id: u16, files: Seq<FileEntryModel>) -> Seq<FrameModel> {
    seq![bare_frame(id, Operation::PreSendDir)] + spec_dir_inner(id, files) + seq![
        bare_frame(id, Operation::EndSendDir),
    ]
}

/// A message is one `PreSendMsg` frame carrying the whole text: no
/// chunking is defined for messages, so the text is capped at one frame.
pub open spec fn spec_msg_frame(id: u16, text: Seq<u8>) -> FrameModel {
    FrameModel {
        header: Instruction {
            id,
            operation: Operation::PreSendMsg,
            buffer: false,
            length: text.len() as u16,
        },
        payload: text,
    }
}

/// How many frames of a sequence carry the given operation.
pub open spec fn count_op(frames: Seq<FrameModel>, op: Operation) -> int
    decreases frames.len(),
{
    if frames.len() == 0 {
        0
    } else {
        (if frames[0].header.operation == op {
            1int
        } else {
            0int
        }) + count_op(frames.skip(1), op)
    }
}

/// Counting a single frame.
pub proof fn lemma_count_op_singleton(f: FrameModel, op: Operation)
    ensures
        count_op(seq![f], op) == if f.header.operation == op {
            1int
        } else {
            0int
        },
{
    assert(seq![f].skip(1) =~= Seq::<FrameModel>::empty());
    assert(count_op(Seq::<FrameModel>::empty(), op) == 0);
}

/// Counting distributes over concatenation.
pub proof fn lemma_count_op_concat(a: Seq<FrameModel>, b: Seq<FrameModel>, op: Operation)
    ensures
        count_op(a + b, op) == count_op(a, op) + count_op(b, op),
    decreases a.len(),
{
    if a.len() == 0 {
        assert(a + b =~= b);
    } else {
        assert((a + b).skip(1) =~= a.skip(1) + b);
        lemma_count_op_concat(a.skip(1), b, op);
    }
}

/// Content frames announce content only: none of them is a `PreSendFile`,
/// `EndSendFile`, or any other non-content operation.
pub proof fn lemma_content_frames_ops(id: u16, chunks: Seq<Seq<u8>>, first: bool, op: Operation)
    requires
        op != Operation::PreSendContent,
        op != Operation::ContinueContent,
    ensures
        count_op(spec_content_frames(id, chunks, first), op) == 0,
    decreases chunks.len(),
{
    if chunks.len() > 0 {
        assert(spec_content_frames(id, chunks, first).skip(1) =~= spec_content_frames(
            id,
            chunks.skip(1),
            false,
        ));
        lemma_content_frames_ops(id, chunks.skip(1), false, op);
    }
}

/// One file cycle announces exactly one file and ends it exactly once.
pub proof fn lemma_file_script_counts(id: u16, entry: FileEntryModel)
    ensures
        count_op(spec_file_script(id, entry), Operation::PreSendFile) == 1,
        count_op(spec_file_script(id, entry), Operation::EndSendFile) == 1,
{
    let script = spec_file_script(id, entry);
    let announce = seq![script[0]];
    let body = spec_file_body(id, entry.data);
    assert(script =~= announce + body);
    lemma_count_op_concat(announce, body, Operation::PreSendFile);
    lemma_count_op_concat(announce, body, Operation::EndSendFile);
    let content2 = spec_content_frames(id, spec_chunks(entry.data), true);
    let endf = seq![bare_frame(id, Operation::EndSendFile)];
    lemma_count_op_concat(content2, endf, Operation::PreSendFile);
    lemma_count_op_concat(content2, endf, Operation::EndSendFile);
    lemma_content_frames_ops(id, spec_chunks(entry.data), true, Operation::PreSendFile);
    lemma_content_frames_ops(id, spec_chunks(entry.data), true, Operation::EndSendFile);
    lemma_count_op_singleton(script[0], Operation::PreSendFile);
    lemma_count_op_singleton(script[0], Operation::EndSendFile);
    lemma_count_op_singleton(bare_frame(id, Operation::EndSendFile), Operation::PreSendFile);
    lemma_count_op_singleton(bare_frame(id, Operation::EndSendFile), Operation::EndSendFile);
    assert(script[0].header.operation == Operation::PreSendFile);
}

/// No frame of a file cycle declares a `length` other than its
/// payload's: the announced metadata and every chunk fit one frame each,
/// so a sender emitting the script never writes a payload that differs
/// from what the header before it promised.
pub proof fn lemma_file_script_lengths(id: u16, entry: FileEntryModel)
    requires
        entry.meta.len() <= MAX_CHUNK,
    ensures
        forall|i: int|
            0 <= i < spec_file_script(id, entry).len() ==> (#[trigger] spec_file_script(
                id,
                entry,
            )[i]).header.length == spec_file_script(id, entry)[i].payload.len(),
{
    let script = spec_file_script(id, entry);
    let chunks = spec_chunks(entry.data);
    lemma_chunks_shape(entry.data);
    lemma_content_frames_index(id, chunks, true);
    assert forall|i: int| 0 <= i < script.len() implies (#[trigger] script[i]).header.length
        == script[i].payload.len() by {
        if i == 0 {
        } else if i <= chunks.len() {
            assert(script[i] == spec_content_frames(id, chunks, true)[i - 1]);
            assert(script[i] == content_frame_at(id, chunks, true, i - 1));
            assert(chunks[i - 1].len() <= MAX_CHUNK);
        } else {
            assert(script[i] == bare_frame(id, Operation::EndSendFile));
        }
    }
}

/// A directory of `N` entries yields exactly `N` nested file cycles
/// between `PreSendDir` and `EndSendDir`: the inner frames are, by
/// construction, the concatenation of the entries' file scripts in
/// order, and they announce exactly `N` files and end exactly `N`.
pub proof fn lemma_dir_script_cycles(id: u16, files: Seq<FileEntryModel>)
    ensures
        count_op(spec_dir_inner(id, files), Operation::PreSendFile) == files.len(),
        count_op(spec_dir_inner(id, files), Operation::EndSendFile) == files.len(),
        count_op(spec_dir_script(id, files), Operation::PreSendFile) == files.len(),
        count_op(spec_dir_script(id, files), Operation::EndSendFile) == files.len(),
    decreases files.len(),
{
    if files.len() == 0 {
    } else {
        lemma_dir_script_cycles(id, files.skip(1));
        lemma_file_script_counts(id, files[0]);
        lemma_count_op_concat(
            spec_file_script(id, files[0]),
            spec_dir_inner(id, files.skip(1)),
            Operation::PreSendFile,
        );
        lemma_count_op_concat(
            spec_file_script(id, files[0]),
            spec_dir_inner(id, files.skip(1)),
            Operation::EndSendFile,
        );
    }
    let pre = seq![bare_frame(id, Operation::PreSendDir)];
    let inner = spec_dir_inner(id, files);
    let post = seq![bare_frame(id, Operation::EndSendDir)];
    assert(spec_dir_script(id, files) =~= pre + (inner + post));
    lemma_count_op_concat(pre, inner + post, Operation::PreSendFile);
    lemma_count_op_concat(pre, inner + post, Operation::EndSendFile);
    lemma_count_op_concat(inner, post, Operation::PreSendFile);
    lemma_count_op_concat(inner, post, Operation::EndSendFile);
    lemma_count_op_singleton(bare_frame(id, Operation::PreSendDir), Operation::PreSendFile);
    lemma_count_op_singleton(bare_frame(id, Operation::PreSendDir), Operation::EndSendFile);
    lemma_count_op_singleton(bare_frame(id, Operation::EndSendDir), Operation::PreSendFile);
    lemma_count_op_singleton(bare_frame(id, Operation::EndSendDir), Operation::EndSendFile);
}

/// The frame at position `i` of the content frames for `chunks`.
pub open spec fn content_frame_at(id: u16, chunks: Seq<Seq<u8>>, first: bool, i: int) -> FrameModel {
    FrameModel {
        header: Instruction {
            id,
            operation: if first && i == 0 {
                Operation::PreSendContent
            } else {
                Operation::ContinueContent
            },
            buffer: i + 1 < chunks.len(),
            length: chunks[i].len() as u16,
        },
        payload: chunks[i],
    }
}

/// Position-wise reading of the content frames.
pub proof fn lemma_content_frames_index(id: u16, chunks: Seq<Seq<u8>>, first: bool)
    ensures
        spec_content_frames(id, chunks, first).len() == chunks.len(),
        forall|i: int|
            0 <= i < chunks.len() ==> spec_content_frames(id, chunks, first)[i]
                == content_frame_at(id, chunks, first, i),
    decreases chunks.len(),
{
    if chunks.len() > 0 {
        lemma_content_frames_index(id, chunks.skip(1), false);
        assert forall|i: int| 0 <= i < chunks.len() implies spec_content_frames(id, chunks, first)[i]
            == content_frame_at(id, chunks, first, i) by {
            if i == 0 {
                assert(spec_content_frames(id, chunks, first)[0] == FrameModel {
                    header: Instruction {
                        id,
                        operation: if first {
                            Operation::PreSendContent
                        } else {
                            Operation::ContinueContent
                        },
                        buffer: chunks.len() > 1,
                        length: chunks[0].len() as u16,
                    },
                    payload: chunks[0],
                });
            } else {
                assert(spec_content_frames(id, chunks, first)[i] == spec_content_frames(
                    id,
                    chunks.skip(1),
                    false,
                )[i - 1]);
                assert(spec_content_frames(id, chunks.skip(1), false)[i - 1] == content_frame_at(
                    id,
                    chunks.skip(1),
                    false,
                    i - 1,
                ));
                assert(chunks.skip(1)[i - 1] == chunks[i]);
                assert(content_frame_at(id, chunks.skip(1), false, i - 1) == content_frame_at(
                    id,
                    chunks,
                    first,
                    i,
                ));
            }
        }
    }
}

/// Build the one frame of a message transfer: the whole text travels as
/// the payload of a single `PreSendMsg` frame, so it must fit the cap.
pub fn message_frame(id: u16, text: &Vec<u8>) -> (r: Frame)
    requires
        text@.len() <= MAX_CHUNK,
    ensures
        r@ == spec_msg_frame(id, text@),
{
    Frame {
        header: Instruction {
            id,
            operation: Operation::PreSendMsg,
            buffer: false,
            length: text.len() as u16,
        },
        payload: copy_bytes(text),
    }
}

/// Build the full frame sequence of one file cycle, announcement
/// included: exactly the script [`spec_file_script`]. Every frame's
/// declared `length` equals the byte length of the payload built with it.
pub fn file_frames(id: u16, entry: &FileEntry) -> (r: Vec<Frame>)
    requires
        entry.meta@.len() <= MAX_CHUNK,
    ensures
        frame_views(r@) == spec_file_script(id, entry@),
{
    let mut r: Vec<Frame> = Vec::new();
    let meta_len: u16 = entry.meta.len() as u16;
    r.push(
        Frame {
            header: Instruction { id, operation: Operation::PreSendFile, buffer: false, length: meta_len },
            payload: copy_bytes(&entry.meta),
        },
    );
    let chunks = chunk_payload(&entry.data);
    let ghost cv = chunk_views(chunks@);
    proof {
        lemma_chunks_shape(entry.data@);
        lemma_content_frames_index(id, cv, true);
    }
    let n = chunks.len();
    let mut i: usize = 0;
    while i < n
        invariant
            i <= n,
            n == chunks@.len(),
            cv == chunk_views(chunks@),
            cv == spec_chunks(entry.data@),
            forall|k: int| 0 <= k < cv.len() ==> (#[trigger] cv[k]).len() <= MAX_CHUNK,
            r@.len() == 1 + i,
            r@[0]@ == spec_file_script(id, entry@)[0],
            forall|j: int| 1 <= j <= i ==> r@[j]@ == content_frame_at(id, cv, true, j - 1),
        decreases n - i,
    {
        proof {
            assert(cv[i as int] == chunks@[i as int]@);
        }
        let op = if i == 0 {
            Operation::PreSendContent
        } else {
            Operation::ContinueContent
        };
        let buffer = i + 1 < n;
        let length: u16 = chunks[i].len() as u16;
        let payload = copy_bytes(&chunks[i]);
        r.push(Frame { header: Instruction { id, operation: op, buffer, length }, payload });
        i = i + 1;
    }
    r.push(
        Frame {
            header: Instruction { id, operation: Operation::EndSendFile, buffer: false, length: 0 },
            payload: Vec::new(),
        },
    );
    proof {
        let script = spec_file_script(id, entry@);
        lemma_content_frames_index(id, cv, true);
        assert(script.len() == 2 + cv.len());
        assert forall|k: int| 0 <= k < r@.len() implies frame_views(r@)[k] == script[k] by {
            assert(frame_views(r@)[k] == r@[k]@);
            if k == 0 {
            } else if k <= n {
                assert(r@[k]@ == content_frame_at(id, cv, true, k - 1));
                assert(script[k] == spec_content_frames(id, cv, true)[k - 1]);
            } else {
                assert(r@[k]@ == bare_frame(id, Operation::EndSendFile));
                assert(script[k] == bare_frame(id, Operation::EndSendFile));
            }
        }
        assert(frame_views(r@) =~= script);
    }
    r
}

/// The models of the directory entries.
pub open spec fn entry_views(entries: Seq<FileEntry>) -> Seq<FileEntryModel> {
    entries.map_values(|e: FileEntry| e@)
}

/// The nested cycles of a directory grow one file cycle at a time at the
/// back.
pub proof fn lemma_dir_inner_snoc(id: u16, files: Seq<FileEntryModel>)
    requires
        files.len() >= 1,
    ensures
        spec_dir_inner(id, files) == spec_dir_inner(id, files.drop_last()) + spec_file_script(
            id,
            files.last(),
        ),
    decreases files.len(),
{
    if files.len() == 1 {
        assert(files.drop_last() =~= Seq::<FileEntryModel>::empty());
        assert(files.skip(1) =~= Seq::<FileEntryModel>::empty());
        assert(spec_dir_inner(id, Seq::<FileEntryModel>::empty()) == Seq::<FrameModel>::empty());
        assert(files.last() == files[0]);
        assert(spec_dir_inner(id, files) =~= spec_dir_inner(id, files.drop_last())
            + spec_file_script(id, files.last()));
    } else {
        lemma_dir_inner_snoc(id, files.skip(1));
        assert(files.skip(1).drop_last() =~= files.drop_last().skip(1));
        assert(files.skip(1).last() == files.last());
        assert(files.drop_last()[0] == files[0]);
        assert(spec_dir_inner(id, files) =~= spec_dir_inner(id, files.drop_last())
            + spec_file_script(id, files.last()));
    }
}

/// Build the full frame sequence of one directory cycle: exactly the
/// script [`spec_dir_script`], the entries walked in the order given.
pub fn dir_frames(id: u16, entries: &Vec<FileEntry>) -> (r: Vec<Frame>)
    requires
        forall|i: int| 0 <= i < entries@.len() ==> (#[trigger] entries@[i]).meta@.len() <= MAX_CHUNK,
    ensures
        frame_views(r@) == spec_dir_script(id, entry_views(entries@)),
{
    let ghost ev = entry_views(entries@);
    let mut r: Vec<Frame> = Vec::new();
    r.push(
        Frame {
            header: Instruction { id, operation: Operation::PreSendDir, buffer: false, length: 0 },
            payload: Vec::new(),
        },
    );
    proof {
        assert(ev.take(0) =~= Seq::<FileEntryModel>::empty());
        assert(spec_dir_inner(id, Seq::<FileEntryModel>::empty()) == Seq::<FrameModel>::empty());
        assert(frame_views(r@) =~= seq![bare_frame(id, Operation::PreSendDir)] + spec_dir_inner(
            id,
            ev.take(0),
        ));
    }
    let n = entries.len();
    let mut i: usize = 0;
    while i < n
        invariant
            i <= n,
            n == entries@.len(),
            ev == entry_views(entries@),
            forall|k: int| 0 <= k < entries@.len() ==> (#[trigger] entries@[k]).meta@.len()
                <= MAX_CHUNK,
            frame_views(r@) == seq![bare_frame(id, Operation::PreSendDir)] + spec_dir_inner(
                id,
                ev.take(i as int),
            ),
        decreases n - i,
    {
        let mut ff = file_frames(id, &entries[i]);
        proof {
            lemma_dir_inner_snoc(id, ev.take(i + 1));
            assert(ev.take(i + 1).drop_last() =~= ev.take(i as int));
            assert(ev.take(i + 1).last() == ev[i as int]);
            assert(ev[i as int] == entries@[i as int]@);
            assert(frame_views(r@ + ff@) =~= frame_views(r@) + frame_views(ff@));
            assert(frame_views(r@) + frame_views(ff@) =~= seq![
                bare_frame(id, Operation::PreSendDir),
            ] + spec_dir_inner(id, ev.take(i + 1)));
        }
        r.append(&mut ff);
        i = i + 1;
    }
    r.push(
        Frame {
            header: Instruction { id, operation: Operation::EndSendDir, buffer: false, length: 0 },
            payload: Vec::new(),
        },
    );
    proof {
        assert(ev.take(n as int) =~= ev);
        assert(frame_views(r@) =~= spec_dir_script(id, ev));
    }
    r
}

/// How a sender-side transfer reads the peer's answer to a request it
/// announced: success accepts the item, refusal rejects it, failure
/// fails it, an abort cancels it, and anything else is out of place and
/// fails it.
pub open spec fn request_answer(op: Operation) -> TransferState {
    if op == Operation::RequestSuccess {
        TransferState::Accepted
    } else if op == Operation::RequestRefuse {
        TransferState::Rejected
    } else if op == Operation::RequestFail {
        TransferState::Failed
    } else if op == Operation::AbortFile || op == Operation::AbortDir {
        TransferState::Aborted
    } else {
        TransferState::Failed
    }
}

/// Read the peer's answer to an announced request (sender side).
pub fn on_request_answer(op: Operation) -> (r: TransferState)
    ensures
        r == request_answer(op),
{
    match op {
        Operation::RequestSuccess => TransferState::Accepted,
        Operation::RequestRefuse => TransferState::Rejected,
        Operation::RequestFail => TransferState::Failed,
        Operation::AbortFile => TransferState::Aborted,
        Operation::AbortDir => TransferState::Aborted,
        _ => TransferState::Failed,
    }
}

/// How a receiver-side file transfer reacts to one frame: the new state
/// and the content bytes accumulated so far. Content is appended in
/// arrival order; `EndSendFile` completes the file and only then is the
/// accumulation valid; `AbortFile` cancels the item and discards the
/// partial bytes; a frame out of place for the state fails the transfer
/// (also discarding), and a terminal transfer absorbs everything.
pub open spec fn file_recv_step(
    state: TransferState,
    data: Seq<u8>,
    op: Operation,
    payload: Seq<u8>,
) -> (TransferState, Seq<u8>) {
    if is_terminal_transfer(state) {
        (state, data)
    } else if op == Operation::AbortFile {
        (TransferState::Aborted, Seq::empty())
    } else if state == TransferState::Accepted && op == Operation::PreSendContent {
        (TransferState::Streaming, data + payload)
    } else if state == TransferState::Streaming && op == Operation::ContinueContent {
        (TransferState::Streaming, data + payload)
    } else if state == TransferState::Streaming && op == Operation::EndSendFile {
        (TransferState::Completed, data)
    } else {
        (TransferState::Failed, Seq::empty())
    }
}

/// The receiver-side file machine run over a whole frame sequence.
pub open spec fn file_recv_run(
    state: TransferState,
    data: Seq<u8>,
    frames: Seq<FrameModel>,
) -> (TransferState, Seq<u8>)
    decreases frames.len(),
{
    if frames.len() == 0 {
        (state, data)
    } else {
        let next = file_recv_step(state, data, frames[0].header.operation, frames[0].payload);
        file_recv_run(next.0, next.1, frames.skip(1))
    }
}

/// A terminal transfer stays terminal under any further frames.
pub proof fn lemma_recv_terminal_absorbs(
    state: TransferState,
    data: Seq<u8>,
    frames: Seq<FrameModel>,
)
    requires
        is_terminal_transfer(state),
    ensures
        file_recv_run(state, data, frames) == (state, data),
    decreases frames.len(),
{
    if frames.len() > 0 {
        lemma_recv_terminal_absorbs(state, data, frames.skip(1));
    }
}

/// Running the receiver over the content frames of a chunk sequence and
/// the closing `EndSendFile` appends exactly those chunks, in order, and
/// completes the file.
proof fn lemma_run_content(id: u16, chunks: Seq<Seq<u8>>, first: bool, acc: Seq<u8>)
    requires
        first ==> chunks.len() >= 1,
    ensures
        file_recv_run(
            if first {
                TransferState::Accepted
            } else {
                TransferState::Streaming
            },
            acc,
            spec_content_frames(id, chunks, first) + seq![bare_frame(id, Operation::EndSendFile)],
        ) == (TransferState::Completed, acc + chunks.flatten()),
    decreases chunks.len(),
{
    let endf = seq![bare_frame(id, Operation::EndSendFile)];
    let frames = spec_content_frames(id, chunks, first) + endf;
    if chunks.len() == 0 {
        assert(frames =~= endf);
        assert(endf[0] == bare_frame(id, Operation::EndSendFile));
        assert(file_recv_step(TransferState::Streaming, acc, Operation::EndSendFile, Seq::empty())
            == (TransferState::Completed, acc));
        assert(endf.skip(1) =~= Seq::<FrameModel>::empty());
        assert(file_recv_run(TransferState::Completed, acc, Seq::<FrameModel>::empty()) == (
        TransferState::Completed,
        acc,
        ));
        assert(file_recv_run(TransferState::Streaming, acc, endf) == (TransferState::Completed, acc));
        assert(acc + chunks.flatten() =~= acc);
    } else {
        let rest = spec_content_frames(id, chunks.skip(1), false) + endf;
        assert(frames.skip(1) =~= rest);
        lemma_run_content(id, chunks.skip(1), false, acc + chunks[0]);
        assert(chunks.drop_first() =~= chunks.skip(1));
        assert((acc + chunks[0]) + chunks.skip(1).flatten() =~= acc + chunks.flatten());
    }
}

/// Faithful file streaming, end to end: a receiver that has accepted a
/// file and consumes the sender's whole file body observes the content
/// frames in order and ends `Completed`, with the accumulated bytes
/// exactly the original payload.
pub proof fn lemma_file_body_faithful(id: u16, data: Seq<u8>)
    ensures
        file_recv_run(TransferState::Accepted, Seq::empty(), spec_file_body(id, data)).0
            == TransferState::Completed,
        file_recv_run(TransferState::Accepted, Seq::empty(), spec_file_body(id, data)).1 == data,
{
    lemma_chunks_shape(data);
    lemma_run_content(id, spec_chunks(data), true, Seq::empty());
    lemma_chunks_flatten(data);
    assert(Seq::<u8>::empty() + data =~= data);
}

/// An abort in mid-stream cancels the item: the transfer ends `Aborted`,
/// never `Completed`, and the partial bytes are discarded.
pub proof fn lemma_abort_discards(state: TransferState, data: Seq<u8>, payload: Seq<u8>)
    requires
        !is_terminal_transfer(state),
    ensures
        file_recv_step(state, data, Operation::AbortFile, payload).0 == TransferState::Aborted,
        file_recv_step(state, data, Operation::AbortFile, payload).1 == Seq::<u8>::empty(),
{
}

/// Whatever frames arrive after an abort, the transfer stays `Aborted`
/// and is never reported `Completed`.
pub proof fn lemma_abort_never_completes(
    state: TransferState,
    data: Seq<u8>,
    payload: Seq<u8>,
    rest: Seq<FrameModel>,
)
    requires
        !is_terminal_transfer(state),
    ensures
        ({
            let aborted = file_recv_step(state, data, Operation::AbortFile, payload);
            file_recv_run(aborted.0, aborted.1, rest).0 == TransferState::Aborted
                && file_recv_run(aborted.0, aborted.1, rest).0 != TransferState::Completed
        }),
{
    let aborted = file_recv_step(state, data, Operation::AbortFile, payload);
    lemma_recv_terminal_absorbs(aborted.0, aborted.1, rest);
}

/// One receiver-side transfer: the item keyed by one frame `id`, with
/// the bytes accumulated so far in arrival order. The bytes are only
/// meaningful once the state is `Completed`.
pub struct InboundTransfer {
    pub id: u16,
    pub kind: TransferKind,
    pub state: TransferState,
    pub data: Vec<u8>,
}

impl InboundTransfer {
    /// A freshly requested item, nothing received yet.
    pub fn new(id: u16, kind: TransferKind) -> (r: InboundTransfer)
        ensures
            r.id == id,
            r.kind == kind,
            r.state == TransferState::Requested,
            r.data@ == Seq::<u8>::empty(),
    {
        InboundTransfer { id, kind, state: TransferState::Requested, data: Vec::new() }
    }

    /// Decide the announced request: accept it, refuse it, or report a
    /// failure; the answer frame's operation to send back is returned.
    pub fn answer_request(&mut self, verdict: Verdict) -> (r: Operation)
        requires
            old(self).state == TransferState::Requested,
        ensures
            final(self).id == old(self).id,
            final(self).kind == old(self).kind,
            final(self).data@ == old(self).data@,
            verdict == Verdict::Accept ==> final(self).state == TransferState::Accepted && r
                == Operation::RequestSuccess,
            verdict == Verdict::Refuse ==> final(self).state == TransferState::Rejected && r
                == Operation::RequestRefuse,
            verdict == Verdict::Fail ==> final(self).state == TransferState::Failed && r
                == Operation::RequestFail,
    {
        match verdict {
            Verdict::Accept => {
                self.state = TransferState::Accepted;
                Operation::RequestSuccess
            },
            Verdict::Refuse => {
                self.state = TransferState::Rejected;
                Operation::RequestRefuse
            },
            Verdict::Fail => {
                self.state = TransferState::Failed;
                Operation::RequestFail
            },
        }
    }

    /// Decide an announced message. On acceptance delivery and
    /// completion coincide: the frame's whole payload becomes the
    /// delivered text and the transfer is immediately complete.
    pub fn answer_message(&mut self, verdict: Verdict, payload: &Vec<u8>) -> (r: Operation)
        requires
            old(self).kind == TransferKind::Message,
            old(self).state == TransferState::Requested,
        ensures
            final(self).id == old(self).id,
            final(self).kind == old(self).kind,
            verdict == Verdict::Accept ==> final(self).state == TransferState::Completed && final(self).data@ == payload@ && r == Operation::RequestSuccess,
            verdict == Verdict::Refuse ==> final(self).state == TransferState::Rejected && final(self).data@ == old(self).data@ && r == Operation::RequestRefuse,
            verdict == Verdict::Fail ==> final(self).state == TransferState::Failed && final(self).data@ == old(self).data@ && r == Operation::RequestFail,
    {
        match verdict {
            Verdict::Accept => {
                self.state = TransferState::Completed;
                self.data = copy_bytes(payload);
                Operation::RequestSuccess
            },
            Verdict::Refuse => {
                self.state = TransferState::Rejected;
                Operation::RequestRefuse
            },
            Verdict::Fail => {
                self.state = TransferState::Failed;
                Operation::RequestFail
            },
        }
    }

    /// Consume one frame of an accepted file transfer, exactly as the
    /// machine [`file_recv_step`] prescribes.
    pub fn on_file_frame(&mut self, op: Operation, payload: &Vec<u8>)
        requires
            old(self).kind == TransferKind::File,
        ensures
            final(self).id == old(self).id,
            final(self).kind == old(self).kind,
            final(self).state == file_recv_step(old(self).state, old(self).data@, op, payload@).0,
            final(self).data@ == file_recv_step(old(self).state, old(self).data@, op, payload@).1,
    {
        let terminal = match self.state {
            TransferState::Completed => true,
            TransferState::Rejected => true,
            TransferState::Failed => true,
            TransferState::Aborted => true,
            _ => false,
        };
        if terminal {
            return ;
        }
        let is_abort = match op {
            Operation::AbortFile => true,
            _ => false,
        };
        if is_abort {
            self.state = TransferState::Aborted;
            self.data = Vec::new();
            return ;
        }
        let accepted = match self.state {
            TransferState::Accepted => true,
            _ => false,
        };
        let streaming = match self.state {
            TransferState::Streaming => true,
            _ => false,
        };
        let is_first_content = match op {
            Operation::PreSendContent => true,
            _ => false,
        };
        let is_more_content = match op {
            Operation::ContinueContent => true,
            _ => false,
        };
        let is_end = match op {
            Operation::EndSendFile => true,
            _ => false,
        };
        if accepted && is_first_content {
            self.state = TransferState::Streaming;
            append_bytes(&mut self.data, payload);
        } else if streaming && is_more_content {
            append_bytes(&mut self.data, payload);
        } else if streaming && is_end {
            self.state = TransferState::Completed;
        } else {
            self.state = TransferState::Failed;
            self.data = Vec::new();
        }
    }
}

} // verus!
