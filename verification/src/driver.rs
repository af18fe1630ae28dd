//! Driver-level decisions: which machine an arriving frame belongs to,
//! and the receiver side of a directory transfer.
//!
//! The drivers of a running program are loops around a byte stream: read
//! a header, read its payload, react, write the answer. Everything in
//! those loops that is a *decision* stands here, as pure functions and
//! machines over plain values; the caller performs the reads and writes
//! and hands frames in and out. A sender emits the scripts of
//! [`crate::transfer`] — the announcement is the first frame of a script,
//! and the body follows once the peer's answer accepts it.

use vstd::prelude::*;
use crate::chunk::append_bytes;
use crate::chunk::chunk_views;
use crate::chunk::lemma_chunks_flatten;
use crate::chunk::lemma_chunks_shape;
use crate::chunk::spec_chunks;
use crate::instruction::Operation;
use crate::session::SessionState;
use crate::transfer::FileEntryModel;
use crate::transfer::InboundTransfer;
use crate::transfer::FrameModel;
use crate::transfer::TransferKind;
use crate::transfer::TransferState;
use crate::transfer::Verdict;
use crate::transfer::bare_frame;
use crate::transfer::file_recv_step;
use crate::transfer::spec_content_frames;
use crate::transfer::spec_dir_inner;
use crate::transfer::spec_dir_script;
use crate::transfer::spec_file_body;
use crate::transfer::spec_file_script;

verus! {

/// What an arriving frame means to a receiver, given the session state.
#[derive(Clone, Copy, PartialEq, Eq, Structural, Debug)]
pub enum Dispatch {
    /// A connect request: evaluate the credential and answer.
    Handshake,
    /// A new item is announced: decide accept/refuse/fail.
    BeginTransfer(TransferKind),
    /// A frame of the item in flight: content, end, or abort.
    TransferFrame,
    /// The peer ends the session cleanly.
    CloseConn,
    /// The frame is invalid for the current session state: a protocol
    /// violation, fatal to the connection.
    Invalid,
}

/// The receiver's control flow is driven entirely by which operation
/// arrives next and the session state: connects only while disconnected,
/// item announcements and item frames only while established. Anything
/// else is a protocol violation.
pub open spec fn receiver_dispatch(s: SessionState, op: Operation) -> Dispatch {
    if s == SessionState::Disconnected && (op == Operation::ConnWithoutPass || op
        == Operation::ConnWithPass) {
        Dispatch::Handshake
    } else if s == SessionState::Established && op == Operation::PreSendFile {
        Dispatch::BeginTransfer(TransferKind::File)
    } else if s == SessionState::Established && op == Operation::PreSendDir {
        Dispatch::BeginTransfer(TransferKind::Directory)
    } else if s == SessionState::Established && op == Operation::PreSendMsg {
        Dispatch::BeginTransfer(TransferKind::Message)
    } else if s == SessionState::Established && (op == Operation::PreSendContent || op
        == Operation::ContinueContent || op == Operation::EndSendFile || op
        == Operation::EndSendDir || op == Operation::AbortFile || op == Operation::AbortDir) {
        Dispatch::TransferFrame
    } else if s == SessionState::Established && op == Operation::EndConn {
        Dispatch::CloseConn
    } else {
        Dispatch::Invalid
    }
}

/// Classify one arriving frame for the receiver.
pub fn dispatch_frame(s: SessionState, op: Operation) -> (r: Dispatch)
    ensures
        r == receiver_dispatch(s, op),
{
    let established = match s {
        SessionState::Established => true,
        _ => false,
    };
    let disconnected = match s {
        SessionState::Disconnected => true,
        _ => false,
    };
    match op {
        Operation::ConnWithoutPass | Operation::ConnWithPass => {
            if disconnected {
                Dispatch::Handshake
            } else {
                Dispatch::Invalid
            }
        },
        Operation::PreSendFile => {
            if established {
                Dispatch::BeginTransfer(TransferKind::File)
            } else {
                Dispatch::Invalid
            }
        },
        Operation::PreSendDir => {
            if established {
                Dispatch::BeginTransfer(TransferKind::Directory)
            } else {
                Dispatch::Invalid
            }
        },
        Operation::PreSendMsg => {
            if established {
                Dispatch::BeginTransfer(TransferKind::Message)
            } else {
                Dispatch::Invalid
            }
        },
        Operation::PreSendContent | Operation::ContinueContent | Operation::EndSendFile
            | Operation::EndSendDir | Operation::AbortFile | Operation::AbortDir => {
            if established {
                Dispatch::TransferFrame
            } else {
                Dispatch::Invalid
            }
        },
        Operation::EndConn => {
            if established {
                Dispatch::CloseConn
            } else {
                Dispatch::Invalid
            }
        },
        _ => Dispatch::Invalid,
    }
}

/// The receiver side of one directory transfer: the directory item's own
/// state, the completed entries' bytes in arrival order, and the nested
/// file cycle in flight, if any. Nested cycles reuse the directory's
/// frame `id`; entries arrive in the order the sender walks them.
pub struct DirectoryReceiver {
    pub id: u16,
    pub state: TransferState,
    pub files: Vec<Vec<u8>>,
    pub nested_active: bool,
    pub nested_state: TransferState,
    pub nested_data: Vec<u8>,
}

impl DirectoryReceiver {
    /// A directory item just accepted: no entry yet, no cycle in flight.
    pub fn new(id: u16) -> (r: DirectoryReceiver)
        ensures
            r.id == id,
            r.state == TransferState::Accepted,
            r.files@ == Seq::<Vec<u8>>::empty(),
            !r.nested_active,
            r.nested_data@ == Seq::<u8>::empty(),
    {
        DirectoryReceiver {
            id,
            state: TransferState::Accepted,
            files: Vec::new(),
            nested_active: false,
            nested_state: TransferState::Requested,
            nested_data: Vec::new(),
        }
    }

    /// A nested file was announced: decide it. Accepting opens a nested
    /// cycle; refusing or failing answers without one, and the sender
    /// decides whether to go on or abort the directory.
    pub fn answer_entry(&mut self, verdict: Verdict) -> (r: Operation)
        requires
            old(self).state == TransferState::Accepted,
            !old(self).nested_active,
            old(self).nested_data@ == Seq::<u8>::empty(),
        ensures
            final(self).id == old(self).id,
            final(self).state == old(self).state,
            final(self).files@ == old(self).files@,
            final(self).nested_data@ == Seq::<u8>::empty(),
            verdict == Verdict::Accept ==> final(self).nested_active && final(self).nested_state
                == TransferState::Accepted && r == Operation::RequestSuccess,
            verdict == Verdict::Refuse ==> !final(self).nested_active && r
                == Operation::RequestRefuse,
            verdict == Verdict::Fail ==> !final(self).nested_active && r == Operation::RequestFail,
    {
        match verdict {
            Verdict::Accept => {
                self.nested_active = true;
                self.nested_state = TransferState::Accepted;
                Operation::RequestSuccess
            },
            Verdict::Refuse => Operation::RequestRefuse,
            Verdict::Fail => Operation::RequestFail,
        }
    }

    /// Consume one frame of the directory body while a nested file cycle
    /// is open. The nested machine takes the frame exactly as
    /// [`file_recv_step`] prescribes: a completed cycle appends its bytes
    /// to the entries and closes, an aborted or failed one closes
    /// discarding them, and the directory stays open for the next entry.
    /// `AbortDir` cancels the whole directory, nested cycle included,
    /// and discards every entry received so far.
    pub fn on_nested_frame(&mut self, op: Operation, payload: &Vec<u8>)
        requires
            old(self).state == TransferState::Accepted,
            old(self).nested_active,
            old(self).nested_state == TransferState::Accepted || old(self).nested_state
                == TransferState::Streaming,
        ensures
            final(self).id == old(self).id,
            op == Operation::AbortDir ==> final(self).state == TransferState::Aborted && final(self).files@ == Seq::<Vec<u8>>::empty() && !final(self).nested_active,
            op != Operation::AbortDir ==> ({
                let stepped = file_recv_step(
                    old(self).nested_state,
                    old(self).nested_data@,
                    op,
                    payload@,
                );
                &&& final(self).state == TransferState::Accepted
                &&& stepped.0 == TransferState::Completed ==> !final(self).nested_active
                    && chunk_views(final(self).files@) == chunk_views(old(self).files@).push(
                    stepped.1,
                ) && final(self).nested_data@ == Seq::<u8>::empty()
                &&& (stepped.0 == TransferState::Aborted || stepped.0 == TransferState::Failed)
                    ==> !final(self).nested_active && final(self).files@ == old(self).files@
                    && final(self).nested_data@ == Seq::<u8>::empty()
                &&& (stepped.0 == TransferState::Accepted || stepped.0 == TransferState::Streaming)
                    ==> final(self).nested_active && final(self).nested_state == stepped.0
                    && final(self).nested_data@ == stepped.1 && final(self).files@ == old(self).files@
            }),
    {
        let is_abort_dir = match op {
            Operation::AbortDir => true,
            _ => false,
        };
        if is_abort_dir {
            self.state = TransferState::Aborted;
            self.files = Vec::new();
            self.nested_active = false;
            self.nested_data = Vec::new();
            return ;
        }
        let is_abort_file = match op {
            Operation::AbortFile => true,
            _ => false,
        };
        if is_abort_file {
            self.nested_active = false;
            self.nested_state = TransferState::Aborted;
            self.nested_data = Vec::new();
            return ;
        }
        let accepted = match self.nested_state {
            TransferState::Accepted => true,
            _ => false,
        };
        let is_first_content = match op {
            Operation::PreSendContent => true,
            _ => false,
        };
        let is_more_content = match op {
            Operation::ContinueContent => true,
            _ => false,
        };
        let is_end = match op {
            Operation::EndSendFile => true,
            _ => false,
        };
        if accepted && is_first_content {
            self.nested_state = TransferState::Streaming;
            append_bytes(&mut self.nested_data, payload);
        } else if !accepted && is_more_content {
            append_bytes(&mut self.nested_data, payload);
        } else if !accepted && is_end {
            let mut done: Vec<u8> = Vec::new();
            core::mem::swap(&mut done, &mut self.nested_data);
            let ghost old_files = self.files@;
            self.files.push(done);
            self.nested_active = false;
            self.nested_state = TransferState::Completed;
            proof {
                assert(chunk_views(self.files@) =~= chunk_views(old_files).push(done@));
            }
        } else {
            self.nested_active = false;
            self.nested_state = TransferState::Failed;
            self.nested_data = Vec::new();
        }
    }

    /// Consume a directory-level frame while no nested cycle is open:
    /// `EndSendDir` completes the directory with the entries kept,
    /// `AbortDir` cancels it discarding them, and anything else is out of
    /// place and fails the item, also discarding.
    pub fn on_dir_frame(&mut self, op: Operation)
        requires
            old(self).state == TransferState::Accepted,
            !old(self).nested_active,
            op != Operation::PreSendFile,
        ensures
            final(self).id == old(self).id,
            !final(self).nested_active,
            op == Operation::EndSendDir ==> final(self).state == TransferState::Completed && final(self).files@ == old(self).files@,
            op == Operation::AbortDir ==> final(self).state == TransferState::Aborted && final(self).files@ == Seq::<Vec<u8>>::empty(),
            op != Operation::EndSendDir && op != Operation::AbortDir ==> final(self).state
                == TransferState::Failed && final(self).files@ == Seq::<Vec<u8>>::empty(),
    {
        match op {
            Operation::EndSendDir => {
                self.state = TransferState::Completed;
            },
            Operation::AbortDir => {
                self.state = TransferState::Aborted;
                self.files = Vec::new();
            },
            _ => {
                self.state = TransferState::Failed;
                self.files = Vec::new();
            },
        }
    }
}

/// No two live transfers share an `id`.
pub open spec fn distinct_ids(items: Seq<InboundTransfer>) -> bool {
    forall|i: int, j: int| 0 <= i < j < items.len() ==> items[i].id != items[j].id
}

/// The live transfers of one connection, keyed by the frame `id`: the
/// explicit per-connection ownership unit. Several items may be
/// logically in flight at once on one stream; their frames still arrive
/// strictly in order, so the driver takes a transfer out by its `id`,
/// steps it with the frame just read, and puts it back — or drops it
/// once it reaches a terminal state.
pub struct TransferTable {
    pub items: Vec<InboundTransfer>,
}

impl TransferTable {
    /// An empty table.
    pub fn new() -> (r: TransferTable)
        ensures
            r.items@.len() == 0,
            distinct_ids(r.items@),
    {
        TransferTable { items: Vec::new() }
    }

    /// The position of the live transfer keyed by `id`, if any.
    pub fn find(&self, id: u16) -> (r: Option<usize>)
        ensures
            match r {
                Option::Some(i) => i < self.items@.len() && self.items@[i as int].id == id,
                Option::None => forall|i: int|
                    0 <= i < self.items@.len() ==> self.items@[i].id != id,
            },
    {
        let n = self.items.len();
        let mut i: usize = 0;
        while i < n
            invariant
                i <= n,
                n == self.items@.len(),
                forall|j: int| 0 <= j < i ==> self.items@[j].id != id,
            decreases n - i,
        {
            if self.items[i].id == id {
                return Some(i);
            }
            i = i + 1;
        }
        None
    }

    /// Adopt a new transfer; refused when its `id` is already live, so
    /// concurrently in-flight items never collide.
    pub fn adopt(&mut self, t: InboundTransfer) -> (r: bool)
        requires
            distinct_ids(old(self).items@),
        ensures
            distinct_ids(final(self).items@),
            r ==> final(self).items@ == old(self).items@.push(t),
            !r ==> final(self).items@ == old(self).items@ && (exists|i: int|
                0 <= i < old(self).items@.len() && #[trigger] old(self).items@[i].id == t.id),
    {
        match self.find(t.id) {
            Some(_) => false,
            None => {
                self.items.push(t);
                true
            },
        }
    }

    /// Take the transfer keyed by `id` out of the table, if it is live.
    /// A transfer the driver is done with simply never returns; one it
    /// has stepped comes back through [`TransferTable::adopt`].
    pub fn release(&mut self, id: u16) -> (r: Option<InboundTransfer>)
        requires
            distinct_ids(old(self).items@),
        ensures
            distinct_ids(final(self).items@),
            match r {
                Option::Some(t) => t.id == id && (exists|i: int|
                    0 <= i < old(self).items@.len() && #[trigger] old(self).items@[i] == t && final(self).items@ == old(self).items@.remove(i)),
                Option::None => final(self).items@ == old(self).items@ && (forall|i: int|
                    0 <= i < old(self).items@.len() ==> old(self).items@[i].id != id),
            },
    {
        match self.find(id) {
            Some(i) => {
                let t = self.items.remove(i);
                proof {
                    old(self).items@.remove_ensures(i as int);
                    assert(distinct_ids(self.items@));
                }
                Some(t)
            },
            None => None,
        }
    }
}

/// The model of a directory receiver mid-run: the directory item's
/// state, the entries collected so far, and the nested file cycle in
/// flight, mirroring [`DirectoryReceiver`].
pub struct DirModel {
    pub state: TransferState,
    pub files: Seq<Seq<u8>>,
    pub nested_active: bool,
    pub nested_state: TransferState,
    pub nested_data: Seq<u8>,
}

/// A directory item just accepted, with nothing received.
pub open spec fn fresh_dir_model() -> DirModel {
    DirModel {
        state: TransferState::Accepted,
        files: Seq::empty(),
        nested_active: false,
        nested_state: TransferState::Requested,
        nested_data: Seq::empty(),
    }
}

/// How a receiver that accepts every entry reacts to one frame of a
/// directory body. While a nested file cycle is open the nested machine
/// takes the frame as [`file_recv_step`] prescribes — completion appends
/// the cycle's bytes to the entries, an abort or failure closes the
/// cycle discarding them. With no cycle open, `PreSendFile` opens the
/// next (accepted) one, `EndSendDir` completes the directory, and
/// `AbortDir` cancels it anywhere, discarding every entry.
pub open spec fn dir_recv_step(m: DirModel, op: Operation, payload: Seq<u8>) -> DirModel {
    if m.state != TransferState::Accepted {
        m
    } else if op == Operation::AbortDir {
        DirModel {
            state: TransferState::Aborted,
            files: Seq::empty(),
            nested_active: false,
            nested_state: TransferState::Aborted,
            nested_data: Seq::empty(),
        }
    } else if m.nested_active {
        let stepped = file_recv_step(m.nested_state, m.nested_data, op, payload);
        if stepped.0 == TransferState::Completed {
            DirModel {
                files: m.files.push(stepped.1),
                nested_active: false,
                nested_state: TransferState::Completed,
                nested_data: Seq::empty(),
                ..m
            }
        } else if stepped.0 == TransferState::Aborted || stepped.0 == TransferState::Failed {
            DirModel {
                nested_active: false,
                nested_state: stepped.0,
                nested_data: Seq::empty(),
                ..m
            }
        } else {
            DirModel { nested_state: stepped.0, nested_data: stepped.1, ..m }
        }
    } else if op == Operation::PreSendFile {
        DirModel {
            nested_active: true,
            nested_state: TransferState::Accepted,
            nested_data: Seq::empty(),
            ..m
        }
    } else if op == Operation::EndSendDir {
        DirModel { state: TransferState::Completed, ..m }
    } else {
        DirModel { state: TransferState::Failed, files: Seq::empty(), ..m }
    }
}

/// The accepting directory receiver run over a whole frame sequence.
pub open spec fn dir_recv_run(m: DirModel, frames: Seq<FrameModel>) -> DirModel
    decreases frames.len(),
{
    if frames.len() == 0 {
        m
    } else {
        dir_recv_run(
            dir_recv_step(m, frames[0].header.operation, frames[0].payload),
            frames.skip(1),
        )
    }
}

/// The run splits at any seam.
pub proof fn lemma_dir_run_concat(m: DirModel, a: Seq<FrameModel>, b: Seq<FrameModel>)
    ensures
        dir_recv_run(m, a + b) == dir_recv_run(dir_recv_run(m, a), b),
    decreases a.len(),
{
    if a.len() == 0 {
        assert(a + b =~= b);
    } else {
        assert((a + b).skip(1) =~= a.skip(1) + b);
        lemma_dir_run_concat(dir_recv_step(m, a[0].header.operation, a[0].payload), a.skip(1), b);
    }
}

/// Running one open nested cycle over the content frames of its chunks
/// and the closing `EndSendFile` appends exactly those bytes as the next
/// entry and leaves the directory open for the next one.
proof fn lemma_dir_nested_run(id: u16, chunks: Seq<Seq<u8>>, first: bool, m: DirModel)
    requires
        m.state == TransferState::Accepted,
        m.nested_active,
        m.nested_state == if first {
            TransferState::Accepted
        } else {
            TransferState::Streaming
        },
        first ==> chunks.len() >= 1,
    ensures
        dir_recv_run(
            m,
            spec_content_frames(id, chunks, first) + seq![bare_frame(id, Operation::EndSendFile)],
        ) == (DirModel {
            files: m.files.push(m.nested_data + chunks.flatten()),
            nested_active: false,
            nested_state: TransferState::Completed,
            nested_data: Seq::empty(),
            ..m
        }),
    decreases chunks.len(),
{
    let endf = seq![bare_frame(id, Operation::EndSendFile)];
    let frames = spec_content_frames(id, chunks, first) + endf;
    if chunks.len() == 0 {
        assert(frames =~= endf);
        assert(endf[0] == bare_frame(id, Operation::EndSendFile));
        assert(file_recv_step(
            TransferState::Streaming,
            m.nested_data,
            Operation::EndSendFile,
            Seq::empty(),
        ) == (TransferState::Completed, m.nested_data));
        let m1 = dir_recv_step(m, Operation::EndSendFile, Seq::empty());
        assert(m1 == (DirModel {
            files: m.files.push(m.nested_data),
            nested_active: false,
            nested_state: TransferState::Completed,
            nested_data: Seq::empty(),
            ..m
        }));
        assert(endf.skip(1) =~= Seq::<FrameModel>::empty());
        assert(dir_recv_run(m1, Seq::<FrameModel>::empty()) == m1);
        assert(dir_recv_run(m, endf) == m1);
        assert(m.nested_data + chunks.flatten() =~= m.nested_data);
    } else {
        let rest = spec_content_frames(id, chunks.skip(1), false) + endf;
        assert(frames.skip(1) =~= rest);
        let stepped = file_recv_step(
            m.nested_state,
            m.nested_data,
            frames[0].header.operation,
            frames[0].payload,
        );
        assert(stepped == (TransferState::Streaming, m.nested_data + chunks[0]));
        let m2 = DirModel {
            nested_state: TransferState::Streaming,
            nested_data: m.nested_data + chunks[0],
            ..m
        };
        assert(dir_recv_step(m, frames[0].header.operation, frames[0].payload) == m2);
        assert(dir_recv_run(m, frames) == dir_recv_run(m2, rest));
        lemma_dir_nested_run(id, chunks.skip(1), false, m2);
        assert(chunks.drop_first() =~= chunks.skip(1));
        assert((m.nested_data + chunks[0]) + chunks.skip(1).flatten() =~= m.nested_data
            + chunks.flatten());
    }
}

/// One whole accepted file cycle inside a directory appends exactly the
/// entry's bytes and leaves the directory open.
proof fn lemma_dir_entry_cycle(id: u16, entry: FileEntryModel, m: DirModel)
    requires
        m.state == TransferState::Accepted,
        !m.nested_active,
    ensures
        dir_recv_run(m, spec_file_script(id, entry)) == (DirModel {
            files: m.files.push(entry.data),
            nested_active: false,
            nested_state: TransferState::Completed,
            nested_data: Seq::empty(),
            ..m
        }),
{
    let script = spec_file_script(id, entry);
    let body = spec_file_body(id, entry.data);
    assert(script[0].header.operation == Operation::PreSendFile);
    assert(script.skip(1) =~= body);
    let m2 = dir_recv_step(m, Operation::PreSendFile, entry.meta);
    assert(m2 == (DirModel {
        nested_active: true,
        nested_state: TransferState::Accepted,
        nested_data: Seq::empty(),
        ..m
    }));
    lemma_chunks_shape(entry.data);
    lemma_dir_nested_run(id, spec_chunks(entry.data), true, m2);
    lemma_chunks_flatten(entry.data);
    assert(Seq::<u8>::empty() + entry.data =~= entry.data);
}

/// The data of each entry, in order.
pub open spec fn entry_data(files: Seq<FileEntryModel>) -> Seq<Seq<u8>> {
    files.map_values(|e: FileEntryModel| e.data)
}

/// The nested cycles of a directory, consumed in order, collect exactly
/// the entries' bytes and leave the directory open.
proof fn lemma_dir_inner_faithful(id: u16, files: Seq<FileEntryModel>, m: DirModel)
    requires
        m.state == TransferState::Accepted,
        !m.nested_active,
    ensures
        dir_recv_run(m, spec_dir_inner(id, files)).state == TransferState::Accepted,
        !dir_recv_run(m, spec_dir_inner(id, files)).nested_active,
        dir_recv_run(m, spec_dir_inner(id, files)).files == m.files + entry_data(files),
    decreases files.len(),
{
    if files.len() == 0 {
        assert(m.files + entry_data(files) =~= m.files);
    } else {
        lemma_dir_run_concat(m, spec_file_script(id, files[0]), spec_dir_inner(id, files.skip(1)));
        lemma_dir_entry_cycle(id, files[0], m);
        let m2 = dir_recv_run(m, spec_file_script(id, files[0]));
        lemma_dir_inner_faithful(id, files.skip(1), m2);
        assert(m.files.push(files[0].data) + entry_data(files.skip(1)) =~= m.files + entry_data(
            files,
        ));
    }
}

/// Directory transfer, end to end: a receiver that accepts the directory
/// and every entry, and consumes the sender's whole directory script
/// after the announcement, observes one nested file cycle per entry and
/// ends `Completed` holding exactly the entries' bytes, in order.
pub proof fn lemma_dir_transfer_faithful(id: u16, files: Seq<FileEntryModel>)
    ensures
        spec_dir_script(id, files).skip(1) == spec_dir_inner(id, files) + seq![
            bare_frame(id, Operation::EndSendDir),
        ],
        ({
            let inner = spec_dir_inner(id, files) + seq![bare_frame(id, Operation::EndSendDir)];
            let end = dir_recv_run(fresh_dir_model(), inner);
            end.state == TransferState::Completed && end.files == entry_data(files)
        }),
{
    assert(spec_dir_script(id, files).skip(1) =~= spec_dir_inner(id, files) + seq![
        bare_frame(id, Operation::EndSendDir),
    ]);
    let endd = seq![bare_frame(id, Operation::EndSendDir)];
    lemma_dir_run_concat(fresh_dir_model(), spec_dir_inner(id, files), endd);
    lemma_dir_inner_faithful(id, files, fresh_dir_model());
    let m2 = dir_recv_run(fresh_dir_model(), spec_dir_inner(id, files));
    let m3 = dir_recv_step(m2, Operation::EndSendDir, Seq::empty());
    assert(endd[0] == bare_frame(id, Operation::EndSendDir));
    assert(endd.skip(1) =~= Seq::<FrameModel>::empty());
    assert(dir_recv_run(m3, Seq::<FrameModel>::empty()) == m3);
    assert(dir_recv_run(m2, endd) == m3);
    assert(Seq::<Seq<u8>>::empty() + entry_data(files) =~= entry_data(files));
}

} // verus!
