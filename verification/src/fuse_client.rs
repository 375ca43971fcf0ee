//! The director's client: which requests a file operation becomes, and what the replies to them
//! add up to.

use crate::paths;
use crate::text;
use vstd::prelude::*;
use vstd::slice::*;
use vstd::string::*;

verus! {

/// A status that the director answers with.
#[derive(Clone, Copy, Debug, PartialEq, Eq, Structural)]
pub enum RingStatus {
    /// The request was carried out.
    Success,
    /// Nothing serves the path.
    NotFound,
    /// An exclusive create met an existing file.
    Exists,
    /// No writable provider serves the path.
    ReadOnly,
    /// The path is a directory.
    IsDir,
    /// The ring or a provider failed.
    IoError,
    /// A message could not be decoded.
    BadRequest,
    /// Any other status.
    Other(i32),
}

/// What the ring gave back for one request.
pub enum RingReply<T> {
    /// The lock around the ring was poisoned.
    LockPoisoned,
    /// The request could not be submitted.
    SubmitFailed,
    /// The director's status, and the reply's body where it could be decoded.
    Answered(RingStatus, Option<T>),
}

/// The result of a request: the body of a successful reply, the director's own status where it
/// refused, an I/O error where the ring did not carry the request, and a bad request where the
/// body made no sense.
pub open spec fn settled<T>(reply: RingReply<T>) -> Result<T, RingStatus> {
    match reply {
        RingReply::LockPoisoned => Err(RingStatus::IoError),
        RingReply::SubmitFailed => Err(RingStatus::IoError),
        RingReply::Answered(RingStatus::Success, Some(body)) => Ok(body),
        RingReply::Answered(RingStatus::Success, None) => Err(RingStatus::BadRequest),
        RingReply::Answered(status, _) => Err(status),
    }
}

/// [`settled`].
pub fn settle<T>(reply: RingReply<T>) -> (r: Result<T, RingStatus>)
    ensures
        r == settled(reply),
{
    match reply {
        RingReply::LockPoisoned => Err(RingStatus::IoError),
        RingReply::SubmitFailed => Err(RingStatus::IoError),
        RingReply::Answered(status, body) => {
            if status != RingStatus::Success {
                return Err(status);
            }
            match body {
                Some(b) => Ok(b),
                None => Err(RingStatus::BadRequest),
            }
        },
    }
}

/// Why running on the large-stack worker failed.
#[derive(Debug, Clone, Copy, PartialEq, Eq, Structural)]
pub enum LargeStackError {
    /// The worker thread could not be created.
    Spawn,
    /// The closure panicked on the worker.
    Panicked,
}

/// Why no client is attached. Both are fatal to the launch.
#[derive(Debug)]
pub enum FuseInitError {
    /// No ring was named.
    NotConfigured,
    /// A ring was named but the client could not attach, or the heartbeat failed.
    ConnectFailed(String),
}

/// A file's attributes as the director reports them.
#[derive(Clone, Copy, Debug, PartialEq, Eq, Structural)]
pub struct Attr {
    /// Whether anything serves the path.
    pub found: bool,
    /// Whether it is a directory.
    pub is_dir: bool,
    /// Its size in bytes.
    pub size: u64,
    /// Its modification time.
    pub mtime: i64,
}

/// A successful open.
#[derive(Clone, Copy, Debug, PartialEq, Eq, Structural)]
pub struct OpenReply {
    /// The director's handle.
    pub fh: u64,
    /// The file's size in bytes.
    pub size: u64,
    /// Whether it is a directory.
    pub is_dir: bool,
}

/// How a file is opened.
#[derive(Clone, Copy, Debug, PartialEq, Eq, Structural)]
pub struct OpenFlags {
    /// For writing rather than reading.
    pub write: bool,
    /// Create it where it is absent.
    pub create: bool,
    /// Refuse where it is present.
    pub excl: bool,
    /// Cut it to nothing where it is present.
    pub trunc: bool,
}

/// A request to the director.
pub enum RingRequest {
    /// Is the director there?
    Heartbeat,
    /// Attributes of a path.
    Getattr { root: u32, vpath: String },
    /// A directory's entries.
    Readdir { root: u32, vpath: String },
    /// Open a file.
    Open { root: u32, flags: OpenFlags, vpath: String },
    /// Delete a file.
    Delete { root: u32, vpath: String },
    /// Move a file within one root.
    Rename { root: u32, from: String, to: String },
    /// Create a directory.
    Mkdir { root: u32, mode: u32, vpath: String },
    /// Cut or extend an open file.
    Setattr { fh: u64, size: u64 },
    /// Close an open file.
    Close { fh: u64 },
}

/// The limits of the ring that a client is attached to, and the roots that it serves.
pub struct FuseClient {
    /// Bytes of payload that one message carries.
    pub payload_cap: u32,
    /// Bytes of the shared bulk arena; zero where there is none.
    pub arena_len: u64,
    /// Messages that may be in flight.
    pub slot_count: u32,
    /// Every managed root with its id; a staged launch directory is a second spelling of root 0.
    pub roots: Vec<(u32, String)>,
}

/// Concurrent reads in flight.
pub const PIPELINE_DEPTH: u32 = 4;

/// Concurrent reads in flight for a long sequential stream.
pub const PIPELINE_DEPTH_STREAM: u32 = 8;

/// A read of this size or more is a long sequential stream.
pub const STREAM_BYTES: u64 = 4194304;

/// A fragment of this size or more goes through the bulk arena.
pub const BULK_THRESHOLD: u32 = 65536;

/// The smallest bulk fragment.
pub const BANK_MIN: u64 = 262144;

/// The largest bulk fragment.
pub const BANK_MAX: u64 = 1048576;

/// One read request: where in the file, how much, and by which way the bytes come.
#[derive(Clone, Copy, Debug, PartialEq, Eq, Structural)]
pub struct ReadPiece {
    /// Offset in the file.
    pub offset: u64,
    /// Bytes asked for.
    pub len: u32,
    /// Whether they come through the bulk arena.
    pub bulk: bool,
}

/// What came back for one read request.
pub enum ReadReply {
    /// The director refused.
    Refused(RingStatus),
    /// The reply could not be decoded.
    Undecodable,
    /// The reply named bytes outside the arena.
    ArenaFault,
    /// The bytes.
    Bytes(Vec<u8>),
}

/// How a batch of reads ended.
#[derive(Clone, Copy, Debug, PartialEq, Eq, Structural)]
pub enum BatchEnd {
    /// Every reply was as long as it was asked to be.
    Full,
    /// A reply was short.
    Short,
    /// A reply failed.
    Failed(RingStatus),
}

/// What a run of reads or writes does next.
#[derive(Clone, Copy, Debug, PartialEq, Eq, Structural)]
pub enum RunStep {
    /// Another batch is due.
    More,
    /// The run is over with this many bytes.
    Done(u64),
    /// The run failed.
    Failed(RingStatus),
}

pub open spec fn min(a: int, b: int) -> int {
    if a <= b {
        a
    } else {
        b
    }
}

pub open spec fn max(a: int, b: int) -> int {
    if a >= b {
        a
    } else {
        b
    }
}

impl FuseClient {
    /// Bytes of one fragment inside a message: the payload without its eight-byte header.
    pub open spec fn inline_bytes(self) -> int {
        max(self.payload_cap - 8, 0)
    }

    /// Bytes of one fragment through the bulk arena: one slot's share of it, within limits.
    pub open spec fn bank_bytes(self) -> int {
        if self.arena_len == 0 {
            self.inline_bytes()
        } else {
            let share = self.arena_len as int / max(self.slot_count as int, 1);
            max(BANK_MIN as int, min(share, BANK_MAX as int))
        }
    }

    /// Requests in one batch of a read of `total` bytes.
    pub open spec fn depth(self, total: int) -> int {
        let most = if total >= STREAM_BYTES {
            PIPELINE_DEPTH_STREAM as int
        } else {
            PIPELINE_DEPTH as int
        };
        max(min(most, self.slot_count as int), 1)
    }

    /// Whether a fragment with `rem` bytes still to read goes through the arena.
    pub open spec fn takes_bulk(self, rem: int) -> bool {
        rem as u32 >= BULK_THRESHOLD && self.arena_len > 0
    }

    /// The length of the fragment at a place with `rem` bytes still to read.
    pub open spec fn piece_len(self, rem: int) -> int {
        min(
            rem,
            if self.takes_bulk(rem) {
                self.bank_bytes()
            } else {
                self.inline_bytes()
            },
        )
    }

    /// The requests of a batch that starts at `pos` of a read of `total` bytes from `offset`: at
    /// most `room` of them, one behind the other.
    pub open spec fn batch(self, offset: int, total: int, pos: int, room: int) -> Seq<ReadPiece>
        decreases room,
    {
        let len = self.piece_len(total - pos);
        if room <= 0 || pos >= total || len == 0 {
            seq![]
        } else {
            seq![
                ReadPiece {
                    offset: (offset + pos) as u64,
                    len: len as u32,
                    bulk: self.takes_bulk(total - pos),
                },
            ] + self.batch(offset, total, pos + len, room - 1)
        }
    }

    /// Bytes of one write request: the payload without its 24-byte header, at least one.
    pub open spec fn write_chunk(self) -> int {
        max(self.payload_cap - 24, 1)
    }

    /// [`FuseClient::inline_bytes`].
    fn inline_chunk(&self) -> (n: u64)
        ensures
            n == self.inline_bytes(),
    {
        if self.payload_cap >= 8 {
            (self.payload_cap - 8) as u64
        } else {
            0
        }
    }

    /// [`FuseClient::bank_bytes`].
    pub fn bulk_bank_bytes(&self) -> (n: u64)
        ensures
            n == self.bank_bytes(),
    {
        if self.arena_len == 0 {
            return self.inline_chunk();
        }
        let slots: u64 = if self.slot_count == 0 {
            1
        } else {
            self.slot_count as u64
        };
        let share: u64 = self.arena_len / slots;
        if share < BANK_MIN {
            BANK_MIN
        } else if share > BANK_MAX {
            BANK_MAX
        } else {
            share
        }
    }

    /// [`FuseClient::depth`].
    fn pipeline(&self, total: u64) -> (n: u32)
        ensures
            n == self.depth(total as int),
    {
        let most: u32 = if total >= STREAM_BYTES {
            PIPELINE_DEPTH_STREAM
        } else {
            PIPELINE_DEPTH
        };
        let n: u32 = if most <= self.slot_count {
            most
        } else {
            self.slot_count
        };
        if n == 0 {
            1
        } else {
            n
        }
    }

    /// The next batch of a read.
    fn plan_batch(&self, offset: u64, total: u64, filled: u64) -> (out: Vec<ReadPiece>)
        requires
            offset + total <= u64::MAX,
            filled <= total,
        ensures
            out@ == self.batch(
                offset as int,
                total as int,
                filled as int,
                self.depth(total as int),
            ),
    {
        let bank: u64 = self.bulk_bank_bytes();
        let inline: u64 = self.inline_chunk();
        let depth: u32 = self.pipeline(total);
        let mut out: Vec<ReadPiece> = Vec::new();
        let mut pos: u64 = filled;
        let mut room: u32 = depth;
        let ghost all = self.batch(offset as int, total as int, filled as int, depth as int);
        assert(out@ + all =~= all);
        while room > 0 && pos < total
            invariant_except_break
                out@ + self.batch(offset as int, total as int, pos as int, room as int) == all,
            invariant
                offset + total <= u64::MAX,
                filled <= pos <= total,
                bank == self.bank_bytes(),
                inline == self.inline_bytes(),
                inline <= u32::MAX,
                bank <= u32::MAX,
            ensures
                out@ == all,
            decreases room,
        {
            let rem: u64 = total - pos;
            let bulk = rem as u32 >= BULK_THRESHOLD && self.arena_len > 0;
            let cap: u64 = if bulk {
                bank
            } else {
                inline
            };
            let len: u64 = if rem <= cap {
                rem
            } else {
                cap
            };
            let ghost before = out@;
            let ghost rest = self.batch(offset as int, total as int, pos as int, room as int);
            assert(len == self.piece_len(rem as int));
            if len == 0 {
                assert(out@ + rest =~= out@);
                break;
            }
            out.push(ReadPiece { offset: offset + pos, len: len as u32, bulk });
            pos = pos + len;
            room = room - 1;
            assert(out@ + self.batch(offset as int, total as int, pos as int, room as int)
                =~= before + rest);
        }
        out
    }
}

/// The bytes that a batch adds, and how it ended: replies count in the order of their requests,
/// up to the first that is short or failed.
pub open spec fn batch_bytes(pieces: Seq<ReadPiece>, replies: Seq<ReadReply>) -> (
    Seq<u8>,
    BatchEnd,
)
    decreases pieces.len(),
{
    if pieces.len() == 0 || replies.len() == 0 {
        (seq![], BatchEnd::Full)
    } else {
        match replies[0] {
            ReadReply::Refused(status) => (seq![], BatchEnd::Failed(status)),
            ReadReply::Undecodable => (seq![], BatchEnd::Failed(RingStatus::BadRequest)),
            ReadReply::ArenaFault => (seq![], BatchEnd::Failed(RingStatus::IoError)),
            ReadReply::Bytes(b) => {
                if b@.len() < pieces[0].len {
                    (b@, BatchEnd::Short)
                } else {
                    let (rest, end) = batch_bytes(pieces.skip(1), replies.skip(1));
                    (b@.take(pieces[0].len as int) + rest, end)
                }
            },
        }
    }
}

/// A read of `total` bytes from `offset`, in progress.
pub struct ReadRun {
    /// Offset of the first byte in the file.
    pub offset: u64,
    /// Bytes asked for.
    pub total: u64,
    /// The bytes read so far.
    pub data: Vec<u8>,
}

impl ReadRun {
    /// What was read is not more than what was asked for, and every offset fits.
    pub open spec fn wf(self) -> bool {
        &&& self.data@.len() <= self.total
        &&& self.offset + self.total <= u64::MAX
    }
}

/// Bytes copied from the bulk arena for a reply that claims `claimed` of the `want` asked for.
pub fn bulk_take(claimed: u32, want: u32) -> (n: u32)
    ensures
        n == min(claimed as int, want as int),
{
    if claimed <= want {
        claimed
    } else {
        want
    }
}

proof fn lemma_batch_spans(c: FuseClient, offset: int, total: int, pos: int, room: int, i: int)
    requires
        0 <= offset,
        0 <= pos <= total,
        offset + total <= u64::MAX,
        0 <= i < c.batch(offset, total, pos, room).len(),
    ensures
        ({
            let b = c.batch(offset, total, pos, room);
            &&& b[i].len > 0
            &&& b[i].offset + b[i].len <= offset + total
            &&& b[i].offset == offset + pos + pieces_len(b.take(i))
        }),
    decreases room,
{
    let b = c.batch(offset, total, pos, room);
    let len = c.piece_len(total - pos);
    let rest = c.batch(offset, total, pos + len, room - 1);
    assert(len <= u32::MAX);
    assert(b =~= seq![b[0]] + rest);
    if i > 0 {
        lemma_batch_spans(c, offset, total, pos + len, room - 1, i - 1);
        assert(b[i] == rest[i - 1]);
        assert(b.take(i).skip(1) =~= rest.take(i - 1));
        assert(b.take(i)[0] == b[0]);
    } else {
        assert(b.take(0) =~= seq![]);
    }
}

/// The bytes that a row of requests asks for.
pub open spec fn pieces_len(pieces: Seq<ReadPiece>) -> int
    decreases pieces.len(),
{
    if pieces.len() == 0 {
        0
    } else {
        pieces[0].len + pieces_len(pieces.skip(1))
    }
}

proof fn lemma_batch_len(c: FuseClient, offset: int, total: int, pos: int, room: int)
    requires
        0 <= pos <= total,
    ensures
        0 <= pieces_len(c.batch(offset, total, pos, room)) <= total - pos,
    decreases room,
{
    let b = c.batch(offset, total, pos, room);
    let len = c.piece_len(total - pos);
    if b.len() > 0 {
        let rest = c.batch(offset, total, pos + len, room - 1);
        lemma_batch_len(c, offset, total, pos + len, room - 1);
        assert(b.skip(1) =~= rest);
        assert(len <= u32::MAX);
    }
}

proof fn lemma_batch_bytes_len(pieces: Seq<ReadPiece>, replies: Seq<ReadReply>)
    ensures
        batch_bytes(pieces, replies).0.len() <= pieces_len(pieces),
    decreases pieces.len(),
{
    if pieces.len() > 0 {
        lemma_batch_bytes_len(pieces.skip(1), replies.skip(1));
        lemma_pieces_len_positive(pieces.skip(1));
    }
}

proof fn lemma_pieces_len_positive(pieces: Seq<ReadPiece>)
    ensures
        pieces_len(pieces) >= 0,
    decreases pieces.len(),
{
    if pieces.len() > 0 {
        lemma_pieces_len_positive(pieces.skip(1));
    }
}

impl FuseClient {
    /// Starts a read of `total` bytes from `offset`. Large fragments come through the shared
    /// arena, small ones inside the messages.
    pub fn read_fragmented(&self, offset: u64, total: u64) -> (run: ReadRun)
        requires
            offset + total <= u64::MAX,
        ensures
            run.wf(),
            run.offset == offset,
            run.total == total,
            run.data@ == Seq::<u8>::empty(),
    {
        ReadRun { offset, total, data: Vec::new() }
    }

    /// The requests to submit next; none where the run is over.
    pub fn next_reads(&self, run: &ReadRun) -> (out: Vec<ReadPiece>)
        requires
            run.wf(),
        ensures
            out@ == self.batch(
                run.offset as int,
                run.total as int,
                run.data@.len() as int,
                self.depth(run.total as int),
            ),
    {
        self.plan_batch(run.offset, run.total, run.data.len() as u64)
    }

    /// Takes the replies to the requests of [`FuseClient::next_reads`]. The run goes on where
    /// the batch brought bytes, none of its replies was short, and bytes are still missing.
    pub fn accept_reads(&self, run: &mut ReadRun, replies: &[ReadReply]) -> (step: RunStep)
        requires
            old(run).wf(),
        ensures
            final(run).wf(),
            final(run).offset == old(run).offset,
            final(run).total == old(run).total,
            ({
                let pieces = self.batch(
                    old(run).offset as int,
                    old(run).total as int,
                    old(run).data@.len() as int,
                    self.depth(old(run).total as int),
                );
                let (bytes, end) = batch_bytes(pieces, replies@);
                match end {
                    BatchEnd::Failed(status) => step == RunStep::Failed(status)
                        && final(run).data@ == old(run).data@,
                    _ => {
                        &&& final(run).data@ == old(run).data@ + bytes
                        &&& step == if end == BatchEnd::Short || bytes.len() == 0
                            || final(run).data@.len() >= old(run).total {
                            RunStep::Done(final(run).data@.len() as u64)
                        } else {
                            RunStep::More
                        }
                    },
                }
            }),
    {
        let pieces = self.next_reads(run);
        let ghost all = batch_bytes(pieces@, replies@);
        proof {
            lemma_batch_len(
                *self,
                run.offset as int,
                run.total as int,
                run.data@.len() as int,
                self.depth(run.total as int),
            );
            lemma_batch_bytes_len(pieces@, replies@);
        }
        let mut got: Vec<u8> = Vec::new();
        let mut short = false;
        let mut i: usize = 0;
        assert(pieces@.skip(0) =~= pieces@);
        assert(replies@.skip(0) =~= replies@);
        assert(got@ + all.0 =~= all.0);
        while i < pieces.len() && i < replies.len() && !short
            invariant
                i <= pieces@.len(),
                i <= replies@.len(),
                all == batch_bytes(pieces@, replies@),
                short ==> got@ == all.0 && all.1 == BatchEnd::Short,
                !short ==> ({
                    let (rest, end) = batch_bytes(pieces@.skip(i as int), replies@.skip(i as int));
                    got@ + rest == all.0 && end == all.1
                }),
                *run == *old(run),
                old(run).wf(),
                pieces@ == self.batch(
                    old(run).offset as int,
                    old(run).total as int,
                    old(run).data@.len() as int,
                    self.depth(old(run).total as int),
                ),
            decreases pieces@.len() - i,
        {
            let ghost ps = pieces@.skip(i as int);
            let ghost rs = replies@.skip(i as int);
            let ghost before = got@;
            assert(ps.skip(1) =~= pieces@.skip(i + 1));
            assert(rs.skip(1) =~= replies@.skip(i + 1));
            assert(ps[0] == pieces@[i as int]);
            assert(rs[0] == replies@[i as int]);
            match &replies[i] {
                ReadReply::Refused(status) => {
                    return RunStep::Failed(*status);
                },
                ReadReply::Undecodable => {
                    return RunStep::Failed(RingStatus::BadRequest);
                },
                ReadReply::ArenaFault => {
                    return RunStep::Failed(RingStatus::IoError);
                },
                ReadReply::Bytes(b) => {
                    if (b.len() as u64) < pieces[i].len as u64 {
                        crate::bytes::push_bytes(&mut got, b.as_slice());
                        short = true;
                    } else {
                        let part = slice_subrange(b.as_slice(), 0, pieces[i].len as usize);
                        assert(part@ =~= b@.take(ps[0].len as int));
                        crate::bytes::push_bytes(&mut got, part);
                        assert(got@ + batch_bytes(ps.skip(1), rs.skip(1)).0 =~= before
                            + batch_bytes(ps, rs).0);
                    }
                },
            }
            i = i + 1;
        }
        proof {
            if !short {
                assert(got@ + batch_bytes(pieces@.skip(i as int), replies@.skip(i as int)).0
                    =~= got@);
            }
        }
        let n: usize = got.len();
        run.data.append(&mut got);
        if short || n == 0 || run.data.len() as u64 >= run.total {
            RunStep::Done(run.data.len() as u64)
        } else {
            RunStep::More
        }
    }
}

/// Whether every reply that carries bytes carries those of `file` at its request's offset. One
/// that carries none says nothing of the file, wherever it was asked for.
pub open spec fn replies_from(
    file: Seq<u8>,
    pieces: Seq<ReadPiece>,
    replies: Seq<ReadReply>,
) -> bool {
    forall|i: int| #![trigger replies[i]]
        0 <= i < pieces.len() && i < replies.len() ==> (replies[i] matches ReadReply::Bytes(
            b,
        ) ==> b@.len() > 0 ==> {
            &&& pieces[i].offset + b@.len() <= file.len()
            &&& b@ == file.subrange(
                pieces[i].offset as int,
                pieces[i].offset + b@.len(),
            )
        })
}

/// Where each reply carries the file's bytes at the offset that was asked for, a batch's bytes
/// are the file's bytes from the batch's start: no fragment lands at another place, and none is
/// left out, however the read was cut into fragments.
pub proof fn law_reads_are_contiguous(
    c: FuseClient,
    file: Seq<u8>,
    offset: int,
    total: int,
    pos: int,
    room: int,
    replies: Seq<ReadReply>,
)
    requires
        0 <= offset,
        0 <= pos <= total,
        offset + total <= u64::MAX,
        replies_from(file, c.batch(offset, total, pos, room), replies),
    ensures
        ({
            let bytes = batch_bytes(c.batch(offset, total, pos, room), replies).0;
            &&& bytes.len() > 0 ==> offset + pos + bytes.len() <= file.len()
            &&& bytes.len() > 0 ==> bytes == file.subrange(
                offset + pos,
                offset + pos + bytes.len(),
            )
        }),
    decreases room,
{
    let pieces = c.batch(offset, total, pos, room);
    if pieces.len() > 0 && replies.len() > 0 {
        let len = c.piece_len(total - pos);
        let rest = c.batch(offset, total, pos + len, room - 1);
        assert(len <= u32::MAX);
        assert(pieces.skip(1) =~= rest);
        assert(pieces[0].offset == offset + pos);
        assert(replies_from(file, rest, replies.skip(1))) by {
            assert forall|i: int| #![trigger replies.skip(1)[i]]
                0 <= i < rest.len() && i < replies.skip(1).len() implies (replies.skip(
                1,
            )[i] matches ReadReply::Bytes(b) ==> b@.len() > 0 ==> {
                &&& rest[i].offset + b@.len() <= file.len()
                &&& b@ == file.subrange(rest[i].offset as int, rest[i].offset + b@.len())
            }) by {
                assert(replies.skip(1)[i] == replies[i + 1]);
                assert(rest[i] == pieces[i + 1]);
            }
        }
        law_reads_are_contiguous(c, file, offset, total, pos + len, room - 1, replies.skip(1));
        if let ReadReply::Bytes(b) = replies[0] {
            let bytes = batch_bytes(pieces, replies).0;
            if b@.len() >= len {
                let tail = batch_bytes(rest, replies.skip(1)).0;
                assert(bytes =~= b@.take(len) + tail);
                assert(bytes =~= file.subrange(offset + pos, offset + pos + bytes.len()));
            } else {
                assert(bytes =~= b@);
            }
        }
    }
}

/// A read gives back the file: where what was read so far is the file's bytes from the read's
/// first on, and each reply carries the file's bytes at the offset that was asked for, what is
/// read after the next batch is the file's bytes from the read's first on. A read that begins at
/// the end of the file or behind it gives no bytes.
pub proof fn law_a_read_gives_the_files_bytes(
    c: FuseClient,
    file: Seq<u8>,
    run: ReadRun,
    replies: Seq<ReadReply>,
)
    requires
        run.wf(),
        run.data@.len() > 0 ==> run.offset + run.data@.len() <= file.len(),
        run.data@.len() > 0 ==> run.data@ == file.subrange(
            run.offset as int,
            run.offset + run.data@.len(),
        ),
        replies_from(
            file,
            c.batch(
                run.offset as int,
                run.total as int,
                run.data@.len() as int,
                c.depth(run.total as int),
            ),
            replies,
        ),
    ensures
        ({
            let bytes = batch_bytes(
                c.batch(
                    run.offset as int,
                    run.total as int,
                    run.data@.len() as int,
                    c.depth(run.total as int),
                ),
                replies,
            ).0;
            let n = run.data@.len() + bytes.len();
            &&& n <= run.total
            &&& n > 0 ==> run.offset + n <= file.len()
            &&& n > 0 ==> run.data@ + bytes == file.subrange(run.offset as int, run.offset + n)
            &&& run.offset >= file.len() ==> n == 0
        }),
{
    let pos = run.data@.len() as int;
    let room = c.depth(run.total as int);
    let pieces = c.batch(run.offset as int, run.total as int, pos, room);
    let bytes = batch_bytes(pieces, replies).0;
    law_reads_are_contiguous(
        c,
        file,
        run.offset as int,
        run.total as int,
        pos,
        room,
        replies,
    );
    lemma_batch_len(c, run.offset as int, run.total as int, pos, room);
    lemma_batch_bytes_len(pieces, replies);
    if pos + bytes.len() > 0 {
        assert(run.data@ + bytes =~= file.subrange(
            run.offset as int,
            run.offset + pos + bytes.len(),
        ));
    }
}

/// A batch never asks for a byte outside the range of the read, and its requests follow one
/// another without a gap.
pub proof fn law_batch_stays_in_range(c: FuseClient, run: ReadRun, i: int)
    requires
        run.wf(),
        0 <= i < c.batch(
            run.offset as int,
            run.total as int,
            run.data@.len() as int,
            c.depth(run.total as int),
        ).len(),
    ensures
        ({
            let b = c.batch(
                run.offset as int,
                run.total as int,
                run.data@.len() as int,
                c.depth(run.total as int),
            );
            &&& b[i].len > 0
            &&& b[i].offset + b[i].len <= run.offset + run.total
            &&& b[i].offset == run.offset + run.data@.len() + pieces_len(b.take(i))
        }),
{
    lemma_batch_spans(
        c,
        run.offset as int,
        run.total as int,
        run.data@.len() as int,
        c.depth(run.total as int),
        i,
    );
}

// ---------------------------------------------------------------------------------------
// Writing.

/// A write of `total` bytes at `offset`, in progress.
#[derive(Clone, Copy, Debug, PartialEq, Eq, Structural)]
pub struct WriteRun {
    /// Offset of the first byte in the file.
    pub offset: u64,
    /// Bytes to write.
    pub total: u64,
    /// Bytes that the director says it has written.
    pub written: u64,
}

/// One write request: which of the bytes, and where in the file.
#[derive(Clone, Copy, Debug, PartialEq, Eq, Structural)]
pub struct WritePiece {
    /// Offset in the file.
    pub offset: u64,
    /// First of the bytes.
    pub from: u64,
    /// Number of bytes.
    pub len: u32,
}

impl WriteRun {
    /// Every offset fits, and so does what the director may claim to have written.
    pub open spec fn wf(self) -> bool {
        &&& self.offset + self.total <= u64::MAX
        &&& self.total <= i64::MAX
        &&& self.written <= self.total + u32::MAX
    }
}

impl FuseClient {
    /// The next request of a write; `None` where nothing is left to write.
    pub open spec fn write_piece(self, run: WriteRun) -> Option<WritePiece> {
        if run.written >= run.total {
            None
        } else {
            Some(
                WritePiece {
                    offset: (run.offset + run.written) as u64,
                    from: run.written,
                    len: min(run.total - run.written, self.write_chunk()) as u32,
                },
            )
        }
    }

    /// Starts a write of `total` bytes at `offset`.
    pub fn write(&self, offset: u64, total: u64) -> (run: WriteRun)
        requires
            offset + total <= u64::MAX,
            total <= i64::MAX,
        ensures
            run.wf(),
            run == (WriteRun { offset, total, written: 0 }),
    {
        WriteRun { offset, total, written: 0 }
    }

    /// [`FuseClient::write_piece`].
    pub fn next_write(&self, run: &WriteRun) -> (piece: Option<WritePiece>)
        requires
            run.wf(),
        ensures
            piece == self.write_piece(*run),
    {
        if run.written >= run.total {
            return None;
        }
        let chunk: u64 = if self.payload_cap > 25 {
            (self.payload_cap - 24) as u64
        } else {
            1
        };
        let left: u64 = run.total - run.written;
        let len: u64 = if left <= chunk {
            left
        } else {
            chunk
        };
        Some(WritePiece { offset: run.offset + run.written, from: run.written, len: len as u32 })
    }

    /// Takes the reply to the request of [`FuseClient::next_write`]: how many bytes were
    /// written. A short write ends the run.
    pub fn accept_write(&self, run: &mut WriteRun, reply: RingReply<u32>) -> (step: RunStep)
        requires
            old(run).wf(),
            old(run).written < old(run).total,
        ensures
            final(run).wf(),
            final(run).offset == old(run).offset,
            final(run).total == old(run).total,
            match settled(reply) {
                Err(status) => step == RunStep::Failed(status) && *final(run) == *old(run),
                Ok(n) => {
                    &&& final(run).written == old(run).written + n
                    &&& step == if n < self.write_piece(*old(run)).unwrap().len
                        || final(run).written >= old(run).total {
                        RunStep::Done(final(run).written)
                    } else {
                        RunStep::More
                    }
                },
            },
    {
        let len: u32 = match self.next_write(run) {
            Some(p) => p.len,
            None => 0,
        };
        match settle(reply) {
            Err(status) => RunStep::Failed(status),
            Ok(n) => {
                run.written = run.written + n as u64;
                if n < len || run.written >= run.total {
                    RunStep::Done(run.written)
                } else {
                    RunStep::More
                }
            },
        }
    }
}

/// A director that never claims more than it was given never makes a run exceed its length, and
/// each request that goes on moves the run forward.
pub proof fn law_honest_writes_stay_in_range(c: FuseClient, run: WriteRun, n: u32)
    requires
        run.wf(),
        run.written < run.total,
        n <= c.write_piece(run).unwrap().len,
    ensures
        run.written + n <= run.total,
        n == c.write_piece(run).unwrap().len ==> n > 0,
        c.write_piece(run).unwrap().offset == run.offset + run.written,
{
}

// ---------------------------------------------------------------------------------------
// Requests.

impl FuseClient {
    /// Asks whether the director is there.
    pub fn heartbeat(&self) -> (r: RingRequest)
        ensures
            r is Heartbeat,
    {
        RingRequest::Heartbeat
    }

    /// Asks for a path's attributes.
    pub fn getattr(&self, root: u32, vpath: &str) -> (r: RingRequest)
        ensures
            r matches RingRequest::Getattr { root: r0, vpath: v } && r0 == root && v@ == vpath@,
    {
        RingRequest::Getattr { root, vpath: vpath.to_owned() }
    }

    /// Asks for a directory's entries.
    pub fn readdir(&self, root: u32, vpath: &str) -> (r: RingRequest)
        ensures
            r matches RingRequest::Readdir { root: r0, vpath: v } && r0 == root && v@ == vpath@,
    {
        RingRequest::Readdir { root, vpath: vpath.to_owned() }
    }

    /// Opens a file for reading.
    pub fn open(&self, root: u32, vpath: &str) -> (r: RingRequest)
        ensures
            r matches RingRequest::Open { root: r0, flags, vpath: v } && r0 == root && v@ == vpath@
                && flags == (OpenFlags { write: false, create: false, excl: false, trunc: false }),
    {
        RingRequest::Open {
            root,
            flags: OpenFlags { write: false, create: false, excl: false, trunc: false },
            vpath: vpath.to_owned(),
        }
    }

    /// Opens a file for writing, creating, excluding or cutting it as `create_flags` say.
    pub fn open_write(&self, root: u32, vpath: &str, create_flags: OpenFlags) -> (r: RingRequest)
        ensures
            r matches RingRequest::Open { root: r0, flags, vpath: v } && r0 == root && v@ == vpath@
                && flags == (OpenFlags { write: true, ..create_flags }),
    {
        RingRequest::Open {
            root,
            flags: OpenFlags {
                write: true,
                create: create_flags.create,
                excl: create_flags.excl,
                trunc: create_flags.trunc,
            },
            vpath: vpath.to_owned(),
        }
    }

    /// Deletes a path.
    pub fn delete(&self, root: u32, vpath: &str) -> (r: RingRequest)
        ensures
            r matches RingRequest::Delete { root: r0, vpath: v } && r0 == root && v@ == vpath@,
    {
        RingRequest::Delete { root, vpath: vpath.to_owned() }
    }

    /// Moves a path within one root.
    pub fn rename(&self, root: u32, from: &str, to: &str) -> (r: RingRequest)
        ensures
            r matches RingRequest::Rename { root: r0, from: f, to: t } && r0 == root && f@ == from@
                && t@ == to@,
    {
        RingRequest::Rename { root, from: from.to_owned(), to: to.to_owned() }
    }

    /// Creates a directory.
    pub fn mkdir(&self, root: u32, vpath: &str, mode: u32) -> (r: RingRequest)
        ensures
            r matches RingRequest::Mkdir { root: r0, mode: m, vpath: v } && r0 == root && m == mode
                && v@ == vpath@,
    {
        RingRequest::Mkdir { root, mode, vpath: vpath.to_owned() }
    }

    /// Cuts or extends an open file.
    pub fn truncate(&self, fh: u64, size: u64) -> (r: RingRequest)
        ensures
            r == (RingRequest::Setattr { fh, size }),
    {
        RingRequest::Setattr { fh, size }
    }

    /// Closes an open file.
    pub fn close(&self, fh: u64) -> (r: RingRequest)
        ensures
            r == (RingRequest::Close { fh }),
    {
        RingRequest::Close { fh }
    }

    /// A path's root and its path below that root, from the components that it resolved to: they
    /// are joined by `/`, and the name of an alternate data stream stays at the end, so that a
    /// stream is never answered with the file's own bytes. `None` outside every root.
    pub fn vpath_under_root(hit: Option<(u32, Vec<String>)>, stream: Option<&str>) -> (r: Option<
        (u32, String),
    >)
        ensures
            match hit {
                None => r is None,
                Some((root, comps)) => r matches Some((r0, v)) && r0 == root && v@ == vpath_of(
                    text::texts(comps@),
                    match stream {
                        Some(s) => Some(s@),
                        None => None,
                    },
                ),
            },
    {
        match hit {
            None => None,
            Some((root, comps)) => {
                let mut v = paths::join(comps.as_slice());
                if let Some(s) = stream {
                    v.append(s);
                }
                Some((root, v))
            },
        }
    }
}

/// A path below its root: its components, then the stream's suffix.
pub open spec fn vpath_of(comps: Seq<Seq<char>>, stream: Option<Seq<char>>) -> Seq<char> {
    match stream {
        Some(s) => paths::joined(comps) + s,
        None => paths::joined(comps),
    }
}

/// A path with a stream suffix never reads as the path without it.
pub proof fn law_a_stream_is_not_its_file(comps: Seq<Seq<char>>, stream: Seq<char>)
    requires
        stream.len() > 0,
    ensures
        vpath_of(comps, Some(stream)) != vpath_of(comps, None),
{
    assert(vpath_of(comps, Some(stream)).len() != vpath_of(comps, None).len());
}

/// `p` without its device prefix.
pub fn strip_nt_device<'a>(p: &'a str) -> (r: &'a str)
    ensures
        r@ == paths::without_device(p@),
{
    paths::strip_device(p)
}

/// A path as roots are compared: without its device prefix, with backslashes, in lower case.
pub open spec fn normalized(p: Seq<char>) -> Seq<char> {
    text::ascii_lowered(text::replaced(paths::without_device(p), '/', '\\'))
}

/// [`normalized`].
pub fn normalize_path_for_root(p: &str) -> (out: String)
    ensures
        out@ == normalized(p@),
{
    text::lower_text(text::replace_char(strip_nt_device(p), '/', '\\').as_str())
}

/// The staged launch directory as a second spelling of root 0: the launch image's directory,
/// normalized; `None` where there is none.
pub fn stage_root(image_dir: Option<&str>) -> (r: Option<String>)
    ensures
        match image_dir {
            Some(d) if d@.len() > 0 => r matches Some(s) && s@ == normalized(d@),
            _ => r is None,
        },
{
    match image_dir {
        None => None,
        Some(d) => {
            if d.unicode_len() == 0 {
                None
            } else {
                Some(normalize_path_for_root(d))
            }
        },
    }
}

// ---------------------------------------------------------------------------------------
// The declared roots.

/// The values of a list of roots.
pub open spec fn roots_view(v: Seq<(u32, String)>) -> Seq<(u32, Seq<char>)> {
    v.map_values(|r: (u32, String)| (r.0, r.1@))
}

/// The parts of `s` between the occurrences of `sep`.
pub open spec fn split_on(s: Seq<char>, sep: char) -> Seq<Seq<char>>
    decreases s.len(),
{
    if s.len() == 0 {
        seq![seq![]]
    } else {
        let before = split_on(s.drop_last(), sep);
        if s.last() == sep {
            before.push(seq![])
        } else {
            before.drop_last().push(before.last().push(s.last()))
        }
    }
}

/// The index of the first `c` in `s`, or its length where there is none.
pub open spec fn index_of(s: Seq<char>, c: char) -> int
    decreases s.len(),
{
    if s.len() == 0 || s[0] == c {
        0
    } else {
        1 + index_of(s.skip(1), c)
    }
}

/// The root that one `id=path` entry declares; `None` where the entry is malformed or names no
/// path.
pub open spec fn declared_root(entry: Seq<char>) -> Option<(u32, Seq<char>)> {
    let e = text::trimmed(entry);
    let eq = index_of(e, '=');
    let path = text::trimmed(e.skip(eq + 1));
    match text::parsed(text::trimmed(e.take(eq)), 10, u32::MAX as int) {
        Some(id) if eq < e.len() && path.len() > 0 => Some((id as u32, path)),
        _ => None,
    }
}

/// The position of root `id` in a list, or the list's length where it is not there.
pub open spec fn root_index(roots: Seq<(u32, Seq<char>)>, id: u32) -> int
    decreases roots.len(),
{
    if roots.len() == 0 || roots[0].0 == id {
        0
    } else {
        1 + root_index(roots.skip(1), id)
    }
}

/// A list of roots with one more declaration: a known id gets the new path, a new one comes last.
pub open spec fn with_root(roots: Seq<(u32, Seq<char>)>, id: u32, path: Seq<char>) -> Seq<
    (u32, Seq<char>),
> {
    let i = root_index(roots, id);
    if i < roots.len() {
        roots.update(i, (id, path))
    } else {
        roots.push((id, path))
    }
}

/// The roots that `entries` declare on top of `roots`.
pub open spec fn with_entries(roots: Seq<(u32, Seq<char>)>, entries: Seq<Seq<char>>) -> Seq<
    (u32, Seq<char>),
>
    decreases entries.len(),
{
    if entries.len() == 0 {
        roots
    } else {
        let before = with_entries(roots, entries.drop_last());
        match declared_root(entries.last()) {
            Some((id, path)) => with_root(before, id, path),
            None => before,
        }
    }
}

/// The declared roots: root 0 at `virtual_dir`, then what `spec` adds or replaces.
pub open spec fn merged_roots(virtual_dir: Seq<char>, spec_text: Option<Seq<char>>) -> Seq<
    (u32, Seq<char>),
> {
    let base = seq![(0u32, virtual_dir)];
    match spec_text {
        None => base,
        Some(s) => with_entries(base, split_on(s, ';')),
    }
}

proof fn lemma_root_index(roots: Seq<(u32, Seq<char>)>, id: u32)
    ensures
        0 <= root_index(roots, id) <= roots.len(),
        root_index(roots, id) < roots.len() ==> roots[root_index(roots, id)].0 == id,
        forall|k: int| 0 <= k < root_index(roots, id) ==> roots[k].0 != id,
    decreases roots.len(),
{
    if roots.len() > 0 && roots[0].0 != id {
        lemma_root_index(roots.skip(1), id);
        assert forall|k: int| 0 <= k < root_index(roots, id) implies roots[k].0 != id by {
            if k > 0 {
                assert(roots[k] == roots.skip(1)[k - 1]);
            }
        }
        let j = root_index(roots.skip(1), id);
        if j < roots.skip(1).len() {
            assert(roots[j + 1] == roots.skip(1)[j]);
        }
    }
}

proof fn lemma_root_index_is(roots: Seq<(u32, Seq<char>)>, id: u32, i: int)
    requires
        0 <= i <= roots.len(),
        i < roots.len() ==> roots[i].0 == id,
        forall|k: int| 0 <= k < i ==> roots[k].0 != id,
    ensures
        root_index(roots, id) == i,
{
    lemma_root_index(roots, id);
    let j = root_index(roots, id);
    if j < i {
        assert(roots[j].0 != id);
    }
    if i < j {
        assert(roots[i].0 != id);
    }
}

/// Whether no id occurs twice.
pub open spec fn distinct_ids(roots: Seq<(u32, Seq<char>)>) -> bool {
    forall|i: int, j: int| 0 <= i < j < roots.len() ==> roots[i].0 != roots[j].0
}

proof fn lemma_with_entries(base: Seq<(u32, Seq<char>)>, entries: Seq<Seq<char>>)
    requires
        base.len() > 0,
        base[0].0 == 0,
        distinct_ids(base),
    ensures
        with_entries(base, entries).len() > 0,
        with_entries(base, entries)[0].0 == 0,
        distinct_ids(with_entries(base, entries)),
    decreases entries.len(),
{
    if entries.len() > 0 {
        lemma_with_entries(base, entries.drop_last());
        let before = with_entries(base, entries.drop_last());
        if let Some((id, path)) = declared_root(entries.last()) {
            lemma_root_index(before, id);
        }
    }
}

/// Whatever is declared, root 0 is there and comes first, and no id is declared twice. A session
/// that declares nothing more has root 0 alone, at the virtual directory.
pub proof fn law_root_zero_is_always_declared(
    virtual_dir: Seq<char>,
    spec_text: Option<Seq<char>>,
)
    ensures
        merged_roots(virtual_dir, spec_text).len() > 0,
        merged_roots(virtual_dir, spec_text)[0].0 == 0,
        distinct_ids(merged_roots(virtual_dir, spec_text)),
        spec_text is None ==> merged_roots(virtual_dir, spec_text) == seq![(0u32, virtual_dir)],
{
    if let Some(s) = spec_text {
        lemma_with_entries(seq![(0u32, virtual_dir)], split_on(s, ';'));
    }
}

/// [`declared_root`].
fn parse_root(entry: &str) -> (r: Option<(u32, String)>)
    ensures
        match r {
            Some((id, path)) => declared_root(entry@) == Some((id, path@)),
            None => declared_root(entry@) is None,
        },
{
    let e = text::trim(entry);
    let chars = text::chars_of(e);
    let mut eq: usize = 0;
    assert(e@.skip(0) =~= e@);
    while eq < chars.len() && chars[eq] != '='
        invariant
            chars@ == e@,
            eq <= e@.len(),
            index_of(e@, '=') == eq + index_of(e@.skip(eq as int), '='),
        decreases e@.len() - eq,
    {
        assert(e@.skip(eq as int).skip(1) =~= e@.skip(eq + 1));
        eq = eq + 1;
    }
    assert(index_of(e@, '=') == eq);
    if eq == chars.len() {
        return None;
    }
    let left = e.substring_char(0, eq);
    let right = e.substring_char(eq + 1, chars.len());
    assert(left@ =~= e@.take(eq as int));
    assert(right@ =~= e@.skip(eq + 1));
    let path = text::trim(right);
    match text::parse_number(text::trim(left), 10, u32::MAX as u64) {
        None => None,
        Some(id) => {
            if path.unicode_len() == 0 {
                None
            } else {
                Some((id as u32, path.to_owned()))
            }
        },
    }
}

/// [`with_root`].
fn declare_root(out: &mut Vec<(u32, String)>, id: u32, path: String)
    ensures
        roots_view(final(out)@) == with_root(roots_view(old(out)@), id, path@),
{
    let ghost before = roots_view(out@);
    let mut i: usize = 0;
    while i < out.len()
        invariant
            i <= out@.len(),
            *out == *old(out),
            before == roots_view(out@),
            forall|k: int| 0 <= k < i ==> before[k].0 != id,
        decreases out@.len() - i,
    {
        if out[i].0 == id {
            proof {
                lemma_root_index_is(before, id, i as int);
            }
            let ghost p = path@;
            out.set(i, (id, path));
            assert(roots_view(out@) =~= before.update(i as int, (id, p)));
            return;
        }
        i = i + 1;
    }
    proof {
        lemma_root_index_is(before, id, i as int);
    }
    let ghost p = path@;
    out.push((id, path));
    assert(roots_view(out@) =~= before.push((id, p)));
}

/// [`split_on`].
fn split_text(s: &str, sep: char) -> (out: Vec<String>)
    ensures
        text::texts(out@) == split_on(s@, sep),
{
    let chars = text::chars_of(s);
    let mut out: Vec<String> = Vec::new();
    let mut part = String::new();
    let mut i: usize = 0;
    assert(text::texts(out@).push(part@) =~= split_on(s@.take(0), sep));
    while i < chars.len()
        invariant
            chars@ == s@,
            i <= s@.len(),
            text::texts(out@).push(part@) == split_on(s@.take(i as int), sep),
        decreases s@.len() - i,
    {
        let ghost before = text::texts(out@).push(part@);
        assert(s@.take(i + 1).drop_last() =~= s@.take(i as int));
        assert(before.drop_last() =~= text::texts(out@));
        let c = chars[i];
        if c == sep {
            let ghost p = part@;
            out.push(part);
            part = String::new();
            assert(text::texts(out@) =~= before);
        } else {
            part.push(c);
        }
        i = i + 1;
        assert(text::texts(out@).push(part@) =~= split_on(s@.take(i as int), sep));
    }
    assert(s@.take(i as int) =~= s@);
    let ghost before = text::texts(out@).push(part@);
    out.push(part);
    assert(text::texts(out@) =~= before);
    out
}

/// [`merged_roots`]: a session that declares no further roots has root 0 alone; an entry that
/// does not parse is left out; an entry for a known root replaces its path.
pub fn merge_extra_roots(virtual_dir: &str, spec_text: Option<&str>) -> (out: Vec<(u32, String)>)
    ensures
        roots_view(out@) == merged_roots(
            virtual_dir@,
            match spec_text {
                Some(s) => Some(s@),
                None => None,
            },
        ),
{
    let mut out: Vec<(u32, String)> = Vec::new();
    out.push((0u32, virtual_dir.to_owned()));
    assert(roots_view(out@) =~= seq![(0u32, virtual_dir@)]);
    let extra = match spec_text {
        None => {
            return out;
        },
        Some(s) => s,
    };
    let entries = split_text(extra, ';');
    let ghost all = text::texts(entries@);
    let ghost base = roots_view(out@);
    let mut i: usize = 0;
    assert(with_entries(base, all.take(0)) =~= base);
    while i < entries.len()
        invariant
            i <= entries@.len(),
            all == text::texts(entries@),
            roots_view(out@) == with_entries(base, all.take(i as int)),
        decreases entries@.len() - i,
    {
        assert(all.take(i + 1).drop_last() =~= all.take(i as int));
        assert(all.take(i + 1).last() == entries@[i as int]@);
        if let Some((id, path)) = parse_root(entries[i].as_str()) {
            declare_root(&mut out, id, path);
        }
        i = i + 1;
    }
    assert(all.take(i as int) =~= all);
    out
}

// ---------------------------------------------------------------------------------------
// Attaching.

/// What the environment says of the ring.
pub struct AttachEnv {
    /// Whether a client is attached already.
    pub attached: bool,
    /// The name of the switch that makes attaching fail, where it is on.
    pub forced_failure: Option<String>,
    /// The ring's section.
    pub section: Option<String>,
    /// The ring's size.
    pub ring_bytes: Option<String>,
    /// The payload of one message.
    pub payload_cap: Option<String>,
    /// The bulk arena's size.
    pub arena_len: Option<String>,
    /// The managed root's directory.
    pub virtual_dir: Option<String>,
    /// Further roots.
    pub virtual_roots: Option<String>,
}

/// How to attach.
pub struct AttachPlan {
    /// The ring's section.
    pub section: String,
    /// Every declared root.
    pub roots: Vec<(u32, String)>,
    /// The payload of one message.
    pub payload_cap: u32,
    /// The ring's size.
    pub ring_bytes: u64,
    /// The bulk arena's size.
    pub arena_len: u64,
}

/// The ring's size where none is given.
pub const DEFAULT_RING_BYTES: u64 = 2097152;

/// The payload of one message where none is given.
pub const DEFAULT_PAYLOAD_CAP: u32 = 1048576;

/// The number that a setting writes, or `default` where it is not set or no number up to `max`.
pub open spec fn number_or(setting: Option<Seq<char>>, max: int, default: int) -> int {
    match setting {
        Some(s) => match text::parsed(s, 10, max) {
            Some(n) => n,
            None => default,
        },
        None => default,
    }
}

/// [`number_or`].
fn number_setting(setting: &Option<String>, max: u64, default: u64) -> (n: u64)
    ensures
        n == number_or(text::option_text(*setting), max as int, default as int),
{
    match setting {
        Some(s) => match text::parse_number(s.as_str(), 10, max) {
            Some(n) => n,
            None => default,
        },
        None => default,
    }
}

/// What to attach to. Nothing is done where a client is attached already. A ring without a
/// managed root is an error: there is no sensible guess at which tree is virtualised.
pub fn try_init_from_env(env: &AttachEnv) -> (r: Result<Option<AttachPlan>, FuseInitError>)
    ensures
        env.attached ==> (r matches Ok(p) && p is None),
        !env.attached ==> match env.forced_failure {
            Some(name) => r matches Err(FuseInitError::ConnectFailed(m)) && m@
                == "forced failure via "@ + name@,
            None => match (env.section, env.virtual_dir) {
                (None, _) => r matches Err(FuseInitError::NotConfigured),
                (Some(_), None) => r matches Err(FuseInitError::ConnectFailed(m)) && m@
                    == "VFS_VIRTUAL_DIR unset: the managed root has no default"@,
                (Some(section), Some(dir)) => {
                    &&& r matches Ok(Some(plan))
                    &&& plan.section@ == section@
                    &&& plan.ring_bytes == number_or(
                        text::option_text(env.ring_bytes),
                        u64::MAX as int,
                        DEFAULT_RING_BYTES as int,
                    )
                    &&& plan.payload_cap == number_or(
                        text::option_text(env.payload_cap),
                        u32::MAX as int,
                        DEFAULT_PAYLOAD_CAP as int,
                    )
                    &&& plan.arena_len == number_or(
                        text::option_text(env.arena_len),
                        u64::MAX as int,
                        0,
                    )
                    &&& roots_view(plan.roots@) == merged_roots(
                        dir@,
                        text::option_text(env.virtual_roots),
                    )
                },
            },
        },
{
    if env.attached {
        return Ok(None);
    }
    if let Some(name) = &env.forced_failure {
        return Err(
            FuseInitError::ConnectFailed(text::joined("forced failure via ", name.as_str())),
        );
    }
    let section = match &env.section {
        None => {
            return Err(FuseInitError::NotConfigured);
        },
        Some(s) => s.clone(),
    };
    let ring_bytes: u64 = number_setting(&env.ring_bytes, u64::MAX, DEFAULT_RING_BYTES);
    let payload_cap: u32 = number_setting(
        &env.payload_cap,
        u32::MAX as u64,
        DEFAULT_PAYLOAD_CAP as u64,
    ) as u32;
    let arena_len: u64 = number_setting(&env.arena_len, u64::MAX, 0);
    match &env.virtual_dir {
        None => Err(
            FuseInitError::ConnectFailed(
                "VFS_VIRTUAL_DIR unset: the managed root has no default".to_owned(),
            ),
        ),
        Some(dir) => {
            let extra: Option<&str> = match &env.virtual_roots {
                Some(s) => Some(s.as_str()),
                None => None,
            };
            let roots = merge_extra_roots(dir.as_str(), extra);
            Ok(Some(AttachPlan { section, roots, payload_cap, ring_bytes, arena_len }))
        },
    }
}

/// What a heartbeat brought.
pub enum HeartbeatReply {
    /// The lock around the ring was poisoned.
    LockPoisoned,
    /// The request could not be submitted, and why.
    SubmitFailed(String),
    /// The director answered: whether with success, and its status.
    Answered { success: bool, status: i32 },
}

/// Whether the director is there, and why not.
pub fn heartbeat_result(reply: &HeartbeatReply) -> (r: Result<(), String>)
    ensures
        match *reply {
            HeartbeatReply::LockPoisoned => r matches Err(m) && m@ == "ring lock poisoned"@,
            HeartbeatReply::SubmitFailed(why) => r matches Err(m) && m@ == "HEARTBEAT: "@ + why@,
            HeartbeatReply::Answered { success, status } => if success {
                r is Ok
            } else {
                r matches Err(m) && m@ == "HEARTBEAT status "@ + text::signed_decimal(status as int)
            },
        },
{
    match reply {
        HeartbeatReply::LockPoisoned => Err("ring lock poisoned".to_owned()),
        HeartbeatReply::SubmitFailed(why) => Err(text::joined("HEARTBEAT: ", why.as_str())),
        HeartbeatReply::Answered { success, status } => {
            if *success {
                Ok(())
            } else {
                let mut m = "HEARTBEAT status ".to_owned();
                text::push_signed(&mut m, *status);
                Err(m)
            }
        },
    }
}

impl FuseClient {
    /// A client of an attached ring. The staged launch directory is a second spelling of root 0.
    /// A client without any root is refused.
    pub fn connect(
        roots: Vec<(u32, String)>,
        stage: Option<String>,
        payload_cap: u32,
        slot_count: u32,
        arena_len: u64,
    ) -> (r: Result<FuseClient, String>)
        ensures
            match r {
                Ok(c) => {
                    &&& c.payload_cap == payload_cap
                    &&& c.slot_count == slot_count
                    &&& c.arena_len == arena_len
                    &&& roots_view(c.roots@) == match stage {
                        Some(s) => roots_view(roots@).push((0u32, s@)),
                        None => roots_view(roots@),
                    }
                    &&& c.roots@.len() > 0
                },
                Err(m) => roots@.len() == 0 && stage is None && m@
                    == "no managed root declared for the FUSE client"@,
            },
    {
        let mut decls = roots;
        if let Some(s) = stage {
            let ghost before = roots_view(decls@);
            let ghost v = s@;
            decls.push((0u32, s));
            assert(roots_view(decls@) =~= before.push((0u32, v)));
        }
        if decls.len() == 0 {
            return Err("no managed root declared for the FUSE client".to_owned());
        }
        Ok(FuseClient { payload_cap, arena_len, slot_count, roots: decls })
    }
}

// ---------------------------------------------------------------------------------------
// What is asked of the director, and what is made of its answers.

/// A reply counts where the director answered with success and a body; what it refuses is
/// passed on as it says, and a request that never reached it is an input/output error.
pub proof fn law_replies_are_taken_as_given<T>(status: RingStatus, body: T)
    ensures
        settled(RingReply::Answered(RingStatus::Success, Some(body))) == Ok::<T, RingStatus>(body),
        settled::<T>(RingReply::Answered(RingStatus::Success, None)) == Err::<T, RingStatus>(
            RingStatus::BadRequest,
        ),
        status != RingStatus::Success ==> settled(RingReply::Answered(status, Some(body))) == Err::<
            T,
            RingStatus,
        >(status),
        status != RingStatus::Success ==> settled::<T>(RingReply::Answered(status, None)) == Err::<
            T,
            RingStatus,
        >(status),
        settled::<T>(RingReply::LockPoisoned) == Err::<T, RingStatus>(RingStatus::IoError),
        settled::<T>(RingReply::SubmitFailed) == Err::<T, RingStatus>(RingStatus::IoError),
{
}

/// A batch starts where the read stands. A piece of 64 KiB or more goes through the arena where
/// there is one, in shares of 256 KiB to 1 MiB; a smaller one goes inside a message and leaves
/// eight bytes of it for the header. No piece is longer than what is missing.
pub proof fn law_pieces_fit_their_way(c: FuseClient, offset: int, total: int, pos: int, room: int)
    requires
        0 <= offset,
        0 <= pos < total,
        total - pos <= u32::MAX,
        offset + total <= u64::MAX,
        room > 0,
        c.payload_cap > 8,
        c.slot_count > 0,
    ensures
        ({
            let b = c.batch(offset, total, pos, room);
            let rem = total - pos;
            let share = c.arena_len as int / c.slot_count as int;
            &&& b.len() > 0
            &&& b[0].offset == offset + pos
            &&& b[0].bulk <==> rem >= 65536 && c.arena_len > 0
            &&& !b[0].bulk ==> b[0].len == if rem <= c.payload_cap - 8 {
                rem
            } else {
                c.payload_cap - 8
            }
            &&& b[0].bulk && 262144 <= share <= 1048576 ==> b[0].len == if rem <= share {
                rem
            } else {
                share
            }
            &&& b[0].bulk && share > 1048576 ==> b[0].len == if rem <= 1048576 {
                rem
            } else {
                1048576
            }
            &&& b[0].bulk && share < 262144 ==> b[0].len == if rem <= 262144 {
                rem
            } else {
                262144
            }
        }),
{
    let len = c.piece_len(total - pos);
    let rem = total - pos;
    assert((rem as u32) as int == rem);
    assert(0 < len <= u32::MAX);
    assert(c.batch(offset, total, pos, room)[0].len == len);
}

/// A batch asks for everything that is missing, or for as many pieces as it may have: four, and
/// eight for a read of 4 MiB or more, but no more than there are slots.
pub proof fn law_a_batch_is_full(c: FuseClient, offset: int, total: int, pos: int, room: int)
    requires
        0 <= pos <= total,
        0 <= room,
        c.payload_cap > 8,
    ensures
        c.batch(offset, total, pos, room).len() <= room,
        c.batch(offset, total, pos, room).len() == room || pieces_len(
            c.batch(offset, total, pos, room),
        ) == total - pos,
        c.slot_count >= 8 ==> c.depth(total) == if total >= 4194304 {
            8int
        } else {
            4
        },
        1 <= c.slot_count <= 4 ==> c.depth(total) == c.slot_count,
        c.slot_count == 0 ==> c.depth(total) == 1,
    decreases room,
{
    let b = c.batch(offset, total, pos, room);
    let len = c.piece_len(total - pos);
    if b.len() > 0 {
        let rest = c.batch(offset, total, pos + len, room - 1);
        law_a_batch_is_full(c, offset, total, pos + len, room - 1);
        assert(b.skip(1) =~= rest);
        assert(0 < len <= u32::MAX);
    }
}

/// Replies count in order: a full one is followed by the next, a short one ends the batch with
/// its bytes, and one that failed ends it with none and says why. Of a reply that is longer
/// than asked, what was asked for counts.
pub proof fn law_replies_count_in_order(
    p: ReadPiece,
    bytes: Vec<u8>,
    status: RingStatus,
    pieces: Seq<ReadPiece>,
    replies: Seq<ReadReply>,
)
    ensures
        bytes@.len() == p.len ==> batch_bytes(
            seq![p] + pieces,
            seq![ReadReply::Bytes(bytes)] + replies,
        ) == (bytes@ + batch_bytes(pieces, replies).0, batch_bytes(pieces, replies).1),
        bytes@.len() > p.len ==> batch_bytes(
            seq![p] + pieces,
            seq![ReadReply::Bytes(bytes)] + replies,
        ) == (
            bytes@.take(p.len as int) + batch_bytes(pieces, replies).0,
            batch_bytes(pieces, replies).1,
        ),
        bytes@.len() < p.len ==> batch_bytes(
            seq![p] + pieces,
            seq![ReadReply::Bytes(bytes)] + replies,
        ) == (bytes@, BatchEnd::Short),
        batch_bytes(seq![p] + pieces, seq![ReadReply::Refused(status)] + replies) == (
            Seq::<u8>::empty(),
            BatchEnd::Failed(status),
        ),
        batch_bytes(seq![p] + pieces, seq![ReadReply::Undecodable] + replies) == (
            Seq::<u8>::empty(),
            BatchEnd::Failed(RingStatus::BadRequest),
        ),
        batch_bytes(seq![p] + pieces, seq![ReadReply::ArenaFault] + replies) == (
            Seq::<u8>::empty(),
            BatchEnd::Failed(RingStatus::IoError),
        ),
        batch_bytes(seq![], replies) == (Seq::<u8>::empty(), BatchEnd::Full),
{
    assert((seq![p] + pieces).skip(1) =~= pieces);
    assert((seq![ReadReply::Bytes(bytes)] + replies).skip(1) =~= replies);
    assert(bytes@.take(bytes@.len() as int) =~= bytes@);
    assert(batch_bytes(seq![], replies).0 =~= Seq::<u8>::empty());
}

/// A write asks for the bytes that follow those written, at the place behind those written, as
/// many as a message holds beside its 24-byte header, until none is left.
pub proof fn law_writes_go_on_where_they_stopped(c: FuseClient, run: WriteRun)
    requires
        run.wf(),
        c.payload_cap > 24,
    ensures
        c.write_piece(run) is None <==> run.written >= run.total,
        run.written < run.total ==> {
            let p = c.write_piece(run)->0;
            let left = run.total - run.written;
            &&& p.offset == run.offset + run.written
            &&& p.from == run.written
            &&& p.len == if left <= c.payload_cap - 24 {
                left
            } else {
                c.payload_cap - 24
            }
        },
{
}

/// A path below its root is its components with a slash between them; a stream's name is
/// appended as it is.
pub proof fn law_a_stream_follows_its_path(
    comps: Seq<Seq<char>>,
    name: Seq<char>,
    stream: Seq<char>,
)
    ensures
        vpath_of(comps, Some(stream)) == vpath_of(comps, None) + stream,
        comps.len() > 0 ==> vpath_of(comps.push(name), None) == vpath_of(comps, None) + seq!['/']
            + name,
        vpath_of(seq![name], None) == name,
        vpath_of(seq![], None) == Seq::<char>::empty(),
{
    paths::law_components_are_joined_in_order(comps, name);
    paths::law_components_are_joined_in_order(seq![], name);
    assert(seq![name] =~= Seq::<Seq<char>>::empty().push(name));
}

/// Paths are compared with backslashes and in lower case: the spelling of separators and
/// letters makes no difference, and neither does a device prefix.
pub proof fn law_paths_are_compared_without_their_spelling(p: Seq<char>, i: int)
    requires
        0 <= i < paths::without_device(p).len(),
    ensures
        normalized(p).len() == paths::without_device(p).len(),
        ({
            let c = paths::without_device(p)[i];
            let n = normalized(p)[i];
            &&& c == '/' ==> n == '\\'
            &&& 'A' <= c <= 'Z' ==> n as u32 == c as u32 + 32
            &&& c != '/' && !('A' <= c <= 'Z') ==> n == c
        }),
{
}

/// A text is split at every separator: a piece without one is one part, and behind a separator
/// a new part begins.
pub proof fn law_texts_are_split_at_separators(s: Seq<char>, sep: char, part: Seq<char>)
    requires
        !part.contains(sep),
    ensures
        split_on(part, sep) == seq![part],
        split_on(s.push(sep) + part, sep) == split_on(s, sep).push(part),
    decreases part.len(),
{
    if part.len() == 0 {
        assert(s.push(sep) + part =~= s.push(sep));
        assert(s.push(sep).drop_last() =~= s);
        assert(part =~= seq![]);
        assert(split_on(part, sep) =~= seq![part]);
    } else {
        let init = part.drop_last();
        assert(!init.contains(sep)) by {
            if init.contains(sep) {
                let k = choose|k: int| 0 <= k < init.len() && init[k] == sep;
                assert(part[k] == sep);
            }
        }
        law_texts_are_split_at_separators(s, sep, init);
        assert(part[part.len() - 1] == part.last());
        assert(part.last() != sep);
        assert(init.push(part.last()) =~= part);
        let t = s.push(sep) + part;
        assert(t.drop_last() =~= s.push(sep) + init);
        assert(t.last() == part.last());
        assert(split_on(part, sep) =~= seq![part]);
        assert(split_on(s, sep).push(init).drop_last() =~= split_on(s, sep));
        assert(split_on(t, sep) =~= split_on(s, sep).push(part));
    }
}

proof fn lemma_index_of(a: Seq<char>, c: char, b: Seq<char>)
    requires
        !a.contains(c),
    ensures
        index_of(a, c) == a.len(),
        index_of(a + seq![c] + b, c) == a.len(),
    decreases a.len(),
{
    let t = a + seq![c] + b;
    if a.len() > 0 {
        assert(a[0] != c);
        assert(!a.skip(1).contains(c)) by {
            if a.skip(1).contains(c) {
                let k = choose|k: int| 0 <= k < a.skip(1).len() && a.skip(1)[k] == c;
                assert(a[k + 1] == c);
            }
        }
        lemma_index_of(a.skip(1), c, b);
        assert(t.skip(1) =~= a.skip(1) + seq![c] + b);
        assert(t[0] == a[0]);
    } else {
        assert(t[0] == c);
    }
}

proof fn lemma_decimal_is_a_word(id: u32)
    ensures
        ({
            let d = text::decimal(id as nat);
            &&& !d.contains('=')
            &&& d.len() > 0
            &&& '!' <= d[0] <= '~'
            &&& '!' <= d.last() <= '~'
            &&& text::parsed(d, 10, u32::MAX as int) == Some(id as int)
        }),
{
    let d = text::decimal(id as nat);
    text::lemma_decimal_digits(id as nat);
    text::law_numbers_read_back(id as nat, u32::MAX as int, d, 0);
    assert(d[0] <= '9');
    assert(d[d.len() - 1] <= '9');
}

proof fn lemma_declared_of(id: u32, d: Seq<char>, path: Seq<char>)
    requires
        !d.contains('='),
        d.len() > 0,
        '!' <= d[0] <= '~',
        '!' <= d.last() <= '~',
        text::parsed(d, 10, u32::MAX as int) == Some(id as int),
        path.len() > 0 ==> '!' <= path[0] <= '~' && '!' <= path.last() <= '~',
    ensures
        declared_root(d + seq!['='] + path) == if path.len() > 0 {
            Some((id, path))
        } else {
            None
        },
{
    let e = d + seq!['='] + path;
    lemma_index_of(d, '=', path);
    assert(e[0] == d[0]);
    assert(path.len() > 0 ==> e.last() == path.last());
    assert(path.len() == 0 ==> e.last() == '=');
    assert(text::trimmed(d) == d) by {
        text::law_trimming_takes_the_ends_only(d, ' ');
    }
    assert(text::trimmed(e) == e) by {
        text::law_trimming_takes_the_ends_only(e, ' ');
    }
    assert(text::trimmed(path) == path) by {
        if path.len() > 0 {
            text::law_trimming_takes_the_ends_only(path, ' ');
        } else {
            assert(text::trimmed(path) =~= path);
        }
    }
    assert(e.take(d.len() as int) =~= d);
    assert(e.skip(d.len() as int + 1) =~= path);
}

/// An entry declares the root with its number at its path: the number in decimal, an equals
/// sign, the path. Without the sign, or without a path, it declares nothing.
pub proof fn law_roots_are_declared_by_number_and_path(id: u32, path: Seq<char>)
    requires
        path.len() > 0,
        '!' <= path[0] <= '~',
        '!' <= path.last() <= '~',
    ensures
        declared_root(text::decimal(id as nat) + seq!['='] + path) == Some((id, path)),
        declared_root(text::decimal(id as nat) + seq!['=']) is None,
        !path.contains('=') ==> declared_root(path) is None,
        declared_root(seq![]) is None,
{
    let d = text::decimal(id as nat);
    let none = Seq::<char>::empty();
    lemma_decimal_is_a_word(id);
    lemma_declared_of(id, d, path);
    lemma_declared_of(id, d, none);
    assert(d + seq!['='] + none =~= d + seq!['=']);
    if !path.contains('=') {
        lemma_index_of(path, '=', none);
        text::law_trimming_takes_the_ends_only(path, ' ');
    }
    assert(text::trimmed(none) =~= none);
}

/// What is declared for a number is found under it; the other roots stay as they were.
pub proof fn law_a_declaration_replaces_its_root(
    roots: Seq<(u32, Seq<char>)>,
    id: u32,
    path: Seq<char>,
    i: int,
)
    requires
        distinct_ids(roots),
        0 <= i < roots.len(),
    ensures
        with_root(roots, id, path).contains((id, path)),
        roots[i].0 == id ==> with_root(roots, id, path) == roots.update(i, (id, path)),
        (forall|k: int| 0 <= k < roots.len() ==> (#[trigger] roots[k]).0 != id) ==> with_root(
            roots,
            id,
            path,
        ) == roots.push((id, path)),
{
    lemma_root_index(roots, id);
    let w = with_root(roots, id, path);
    let j = root_index(roots, id);
    if j < roots.len() {
        assert(w[j] == (id, path));
        assert(roots[i].0 == id ==> i == j) by {
            if roots[i].0 == id && i != j {
                if i < j {
                    assert(roots[i].0 != roots[j].0);
                } else {
                    assert(roots[j].0 != roots[i].0);
                }
            }
        }
    } else {
        assert(w[roots.len() as int] == (id, path));
        assert(roots[i].0 != id);
    }
}

/// Declarations are taken one after the other: entries that declare nothing are passed over,
/// and each of the others is made on top of what came before it.
pub proof fn law_declarations_are_taken_in_order(
    roots: Seq<(u32, Seq<char>)>,
    first: Seq<Seq<char>>,
    second: Seq<Seq<char>>,
    entry: Seq<char>,
)
    ensures
        with_entries(roots, first + second) == with_entries(with_entries(roots, first), second),
        declared_root(entry) is None ==> with_entries(roots, seq![entry]) == roots,
        declared_root(entry) matches Some((id, path)) ==> with_entries(roots, seq![entry])
            == with_root(roots, id, path),
    decreases second.len(),
{
    if second.len() == 0 {
        assert(first + second =~= first);
    } else {
        law_declarations_are_taken_in_order(roots, first, second.drop_last(), entry);
        assert((first + second).drop_last() =~= first + second.drop_last());
        assert((first + second).last() == second.last());
    }
    assert(seq![entry].drop_last() =~= Seq::<Seq<char>>::empty());
    assert(with_entries(roots, Seq::<Seq<char>>::empty()) == roots);
}

/// The roots of a session are root 0 at the virtual directory and, on top of it, what each
/// entry declares; entries stand between semicolons.
pub proof fn law_a_session_has_its_roots(virtual_dir: Seq<char>, entry: Seq<char>, more: Seq<char>)
    requires
        !entry.contains(';'),
    ensures
        merged_roots(virtual_dir, None) == seq![(0u32, virtual_dir)],
        declared_root(entry) is None ==> merged_roots(virtual_dir, Some(entry)) == seq![
            (0u32, virtual_dir),
        ],
        declared_root(entry) matches Some((id, path)) ==> (id != 0 ==> merged_roots(
            virtual_dir,
            Some(entry),
        ) == seq![(0u32, virtual_dir), (id, path)]),
        declared_root(entry) matches Some((id, path)) ==> (id == 0 ==> merged_roots(
            virtual_dir,
            Some(entry),
        ) == seq![(0u32, path)]),
        merged_roots(virtual_dir, Some(more.push(';') + entry)) == with_entries(
            merged_roots(virtual_dir, Some(more)),
            seq![entry],
        ),
{
    let base = seq![(0u32, virtual_dir)];
    law_texts_are_split_at_separators(more, ';', entry);
    law_declarations_are_taken_in_order(base, split_on(more, ';'), seq![entry], entry);
    assert(split_on(more, ';') + seq![entry] =~= split_on(more, ';').push(entry));
    if let Some((id, path)) = declared_root(entry) {
        lemma_root_index(base, id);
        assert(base[0].0 == 0);
        assert(base.update(0, (0u32, path)) =~= seq![(0u32, path)]);
        assert(base.push((id, path)) =~= seq![(0u32, virtual_dir), (id, path)]);
        if id != 0 {
            lemma_root_index_is(base, id, 1);
        }
    }
}

/// A setting counts where it is a number that fits; else the default does: 2 MiB for the ring,
/// 1 MiB for a message.
pub proof fn law_settings_have_defaults(n: nat, max: int, default: int)
    ensures
        n <= max ==> number_or(Some(text::decimal(n)), max, default) == n,
        n > max ==> number_or(Some(text::decimal(n)), max, default) == default,
        number_or(None, max, default) == default,
        number_or(Some(seq![]), max, default) == default,
        number_or(None, max, DEFAULT_RING_BYTES as int) == 2097152,
        number_or(None, max, DEFAULT_PAYLOAD_CAP as int) == 1048576,
{
    text::law_numbers_read_back(n, max, seq![], 0);
}

} // verus!
