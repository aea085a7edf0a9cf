//! Streaming images to the disk: data is staged in RAM a piece at a time and
//! committed by a command, with retries and pacing. Also the probe that
//! tells the size of a partition.

use crate::aml::{large_write_fits, large_write_refusal, AmlogicSoC, LargeWrite};
use crate::chunks::{chunk_count, lemma_chunk_count_step};
use crate::error::{invalid_operation, Error, ErrorView};
use crate::partitions::{is_accessible, PartitionInfo, PART_SECTOR_SIZE};
use crate::text::{decimal_text, hex_text, push_decimal, push_hex, same_text};
use vstd::prelude::*;

verus! {

/// The staging RAM.
pub const ADDR_TMP: u32 = 0x0108_0000;

/// Most bytes that are staged at once.
pub const TRANSFER_SIZE_THRESHOLD: usize = 0x80_0000;

/// Block length of transfers into the staging RAM.
pub const TRANSFER_BLOCK_SIZE: usize = 4096;

/// How often the command that commits a piece is tried.
pub const COMMIT_ATTEMPTS: usize = 3;

/// Pause after a failed commit, and after a slow one, in milliseconds.
pub const COOLDOWN_MS: u64 = 5000;

/// A commit that takes longer than this is slow, in milliseconds.
pub const SLOW_COMMIT_MS: u64 = 3000;

/// Pause after a piece of the bootloader, in milliseconds.
pub const BOOTLOADER_SETTLE_MS: u64 = 2000;

/// Most bytes of the bootloader partition that count.
pub const BOOTLOADER_CAP: usize = 0x20_0000;

/// The command that reads the last sector of a partition of `part_size`
/// bytes into the staging RAM.
pub open spec fn read_command(name: Seq<char>, part_size: int) -> Seq<char> {
    "amlmmc read "@ + name + " "@ + hex_text(ADDR_TMP as nat, false) + " "@ + hex_text(
        (part_size - PART_SECTOR_SIZE) as nat,
        false,
    ) + " "@ + hex_text(PART_SECTOR_SIZE as nat, false)
}

/// The command that commits `length` staged bytes to the disk at `address`.
pub open spec fn mmc_write_command(address: int, length: int) -> Seq<char> {
    "mmc write "@ + hex_text(ADDR_TMP as nat, true) + " "@ + hex_text(
        (address / 512) as nat,
        true,
    ) + " "@ + hex_text((length / 512) as nat, true)
}

/// The command that commits `length` staged bytes to the partition `name`
/// at `offset`.
pub open spec fn amlmmc_write_command(name: Seq<char>, offset: int, length: int) -> Seq<char> {
    "amlmmc write "@ + name + " "@ + hex_text(ADDR_TMP as nat, true) + " "@ + hex_text(
        offset as nat,
        true,
    ) + " "@ + hex_text(length as nat, true)
}

/// The command that imports `length` staged bytes as the environment.
pub open spec fn env_import_command(length: int) -> Seq<char> {
    "env import -t "@ + hex_text(ADDR_TMP as nat, true) + " "@ + hex_text(length as nat, true)
}

/// Builds a command of a verb, an optional name and three numbers.
fn build_command(verb: &str, name: Option<&str>, a: usize, b: usize, c: usize, upper: bool) -> (text:
    String)
    ensures
        text@ == verb@ + (match name {
            Some(n) => n@ + " "@,
            None => Seq::<char>::empty(),
        }) + hex_text(a as nat, upper) + " "@ + hex_text(b as nat, upper) + " "@ + hex_text(
            c as nat,
            upper,
        ),
{
    let mut text: String = verb.to_owned();
    match name {
        Some(n) => {
            text.append(n);
            text.append(" ");
        },
        None => {},
    }
    push_hex(&mut text, a, upper);
    text.append(" ");
    push_hex(&mut text, b, upper);
    text.append(" ");
    push_hex(&mut text, c, upper);
    assert(text@ =~= verb@ + (match name {
        Some(n) => n@ + " "@,
        None => Seq::<char>::empty(),
    }) + hex_text(a as nat, upper) + " "@ + hex_text(b as nat, upper) + " "@ + hex_text(
        c as nat,
        upper,
    ));
    text
}

/// Builds the command that imports `length` staged bytes as the environment.
pub fn build_env_import(length: usize) -> (text: String)
    ensures
        text@ == env_import_command(length as int),
{
    let mut text: String = "env import -t ".to_owned();
    push_hex(&mut text, ADDR_TMP as usize, true);
    text.append(" ");
    push_hex(&mut text, length, true);
    assert(text@ =~= env_import_command(length as int));
    text
}

/// A probe of a partition's size that waits for its command to be answered.
#[derive(Debug)]
pub struct SizeProbe {
    pub name: String,
    /// The size that is being probed, in bytes.
    pub size: usize,
    /// The size to probe if this one fails, in bytes.
    pub fallback: Option<usize>,
}

/// What to do next while the size of a partition is probed.
#[derive(Debug)]
pub enum SizeStep {
    /// Run the command and tell `next` how it went.
    Probe { command: String, next: SizeProbe },
    /// The partition has this many bytes.
    Found(usize),
    /// The size could not be told.
    Failed(Error),
}

impl SizeProbe {
    /// The sizes to probe are at least a sector.
    pub open spec fn wf(&self) -> bool {
        &&& self.size >= PART_SECTOR_SIZE
        &&& self.fallback is Some ==> self.fallback->Some_0 >= PART_SECTOR_SIZE
    }

    /// Takes the outcome of the probing command. If it went through, the
    /// size is found. If not, the other size is probed where there is one; else
    /// the error is passed on.
    pub fn answered(self, outcome: Result<(), Error>) -> (step: SizeStep)
        requires
            self.wf(),
        ensures
            match outcome {
                Ok(_) => step == SizeStep::Found(self.size),
                Err(e) => match self.fallback {
                    None => step == SizeStep::Failed(e),
                    Some(other) => {
                        &&& step matches SizeStep::Probe { command, next }
                        &&& command@ == read_command(self.name@, other as int)
                        &&& next == (SizeProbe { name: self.name, size: other, fallback: None })
                        &&& next.wf()
                    },
                },
            },
    {
        match outcome {
            Ok(_) => SizeStep::Found(self.size),
            Err(e) => match self.fallback {
                None => SizeStep::Failed(e),
                Some(other) => {
                    let command = build_command(
                        "amlmmc read ",
                        Some(self.name.as_str()),
                        ADDR_TMP as usize,
                        other - PART_SECTOR_SIZE,
                        PART_SECTOR_SIZE,
                        false,
                    );
                    assert(command@ =~= read_command(self.name@, other as int));
                    SizeStep::Probe {
                        command,
                        next: SizeProbe { name: self.name, size: other, fallback: None },
                    }
                },
            },
        }
    }
}

impl AmlogicSoC {
    /// Starts probing the size of the partition `part_name`: the command that
    /// reads its last sector, and the state that waits for the answer.
    ///
    /// The partitions `cache` and `reserved` are refused. Only the partition
    /// `data` has its alternative size probed after the first.
    pub fn validate_partition_size(&self, part_name: &str, part_info: &PartitionInfo) -> (r: Result<
        (String, SizeProbe),
        Error,
    >)
        requires
            is_accessible(part_name@) ==> 1 <= part_info.size && part_info.part_bytes()
                <= usize::MAX,
            part_name@ == "data"@ && part_info.size_alt is Some ==> 1
                <= part_info.size_alt->Some_0 && part_info.size_alt->Some_0 * PART_SECTOR_SIZE
                <= usize::MAX,
        ensures
            part_name@ == "cache"@ ==> r is Err && r->Err_0@ == ErrorView::InvalidOperation(
                "Cache partition is zero-length"@,
            ),
            part_name@ == "reserved"@ ==> r is Err && r->Err_0@ == ErrorView::InvalidOperation(
                "Reserved partition cannot be accessed"@,
            ),
            is_accessible(part_name@) ==> {
                &&& r matches Ok((command, probe))
                &&& command@ == read_command(part_name@, part_info.part_bytes())
                &&& probe.name@ == part_name@
                &&& probe.size == part_info.part_bytes()
                &&& probe.fallback == (if part_name@ == "data"@ && part_info.size_alt is Some {
                    Some((part_info.size_alt->Some_0 * PART_SECTOR_SIZE) as usize)
                } else {
                    None
                })
                &&& probe.wf()
            },
    {
        proof {
            reveal_strlit("cache");
            reveal_strlit("reserved");
            assert("cache"@.len() != "reserved"@.len());
        }
        if same_text(part_name, "cache") {
            return Err(invalid_operation("Cache partition is zero-length"));
        }
        if same_text(part_name, "reserved") {
            return Err(invalid_operation("Reserved partition cannot be accessed"));
        }
        assert(part_info.size * 512 >= 512) by (nonlinear_arith)
            requires
                part_info.size >= 1,
        ;
        let part_size: usize = part_info.size * PART_SECTOR_SIZE;
        let fallback: Option<usize> = match part_info.size_alt {
            Some(alt) => {
                if same_text(part_name, "data") {
                    assert(alt * 512 >= 512) by (nonlinear_arith)
                        requires
                            1 <= alt,
                    ;
                    Some(alt * PART_SECTOR_SIZE)
                } else {
                    None
                }
            },
            None => None,
        };
        let command = build_command(
            "amlmmc read ",
            Some(part_name),
            ADDR_TMP as usize,
            part_size - PART_SECTOR_SIZE,
            PART_SECTOR_SIZE,
            false,
        );
        assert(command@ =~= read_command(part_name@, part_info.part_bytes()));
        Ok((command, SizeProbe { name: part_name.to_owned(), size: part_size, fallback }))
    }
}

/// Where a stream of data goes.
#[derive(Debug)]
pub enum Target {
    /// To the disk, starting at this byte address.
    Disk { address: u32 },
    /// Into the partition of this name.
    Partition { name: String },
}

/// A stream of `total` bytes of which `offset` are committed.
#[derive(Debug)]
pub struct Stream {
    pub soc: AmlogicSoC,
    pub target: Target,
    pub total: usize,
    pub block_length: usize,
    pub append_zeros: bool,
    pub offset: usize,
}

/// How far a stream has come, for whoever reports progress.
#[derive(Debug, Clone, Copy, PartialEq, Eq, Structural)]
pub struct Committed {
    /// Bytes committed so far.
    pub offset: usize,
    /// Bytes of the whole stream.
    pub total: usize,
    /// Bytes of the piece committed last.
    pub length: usize,
}

impl Stream {
    /// No more is committed than there is, and on the disk every piece has
    /// an address.
    pub open spec fn wf(&self) -> bool {
        &&& self.offset <= self.total
        &&& self.target matches Target::Disk { address } ==> address + self.total <= usize::MAX
    }

    /// Whether the stream goes into the bootloader partition, whose commits
    /// are expected to time out.
    pub open spec fn is_bootloader(&self) -> bool {
        self.target matches Target::Partition { name } && name@ == "bootloader"@
    }

    /// The length of the piece that is staged next: what is left, up to
    /// eight mebibytes.
    pub open spec fn piece_length(&self) -> usize {
        if self.total - self.offset > TRANSFER_SIZE_THRESHOLD {
            TRANSFER_SIZE_THRESHOLD
        } else {
            (self.total - self.offset) as usize
        }
    }

    /// The command that commits the staged piece of `length` bytes.
    pub open spec fn commit_command(&self, length: usize) -> Seq<char> {
        match self.target {
            Target::Disk { address } => mmc_write_command(address + self.offset, length as int),
            Target::Partition { name } => amlmmc_write_command(
                name@,
                self.offset as int,
                length as int,
            ),
        }
    }

    /// The number of pieces that are not committed.
    pub open spec fn pieces_left(&self) -> int {
        chunk_count(self.total - self.offset, TRANSFER_SIZE_THRESHOLD as int)
    }

    /// The stream with `length` more bytes committed.
    pub open spec fn advanced(self, length: usize) -> Stream {
        Stream { offset: (self.offset + length) as usize, ..self }
    }

    fn build_commit(&self, length: usize) -> (command: String)
        requires
            self.wf(),
            self.offset + length <= self.total,
        ensures
            command@ == self.commit_command(length),
    {
        match &self.target {
            Target::Disk { address } => {
                let command = build_command(
                    "mmc write ",
                    None,
                    ADDR_TMP as usize,
                    (*address as usize + self.offset) / 512,
                    length / 512,
                    true,
                );
                assert(command@ =~= self.commit_command(length));
                command
            },
            Target::Partition { name } => {
                let command = build_command(
                    "amlmmc write ",
                    Some(name.as_str()),
                    ADDR_TMP as usize,
                    self.offset,
                    length,
                    true,
                );
                assert(command@ =~= self.commit_command(length));
                command
            },
        }
    }

    fn is_bootloader_stream(&self) -> (b: bool)
        ensures
            b == self.is_bootloader(),
    {
        match &self.target {
            Target::Disk { .. } => false,
            Target::Partition { name } => same_text(name.as_str(), "bootloader"),
        }
    }

    fn feed(self, pause_ms: u64) -> (step: StreamStep)
        requires
            self.wf(),
        ensures
            step == feed(self, pause_ms),
            step.wf(),
            step.budget() == self.pieces_left() * 5,
    {
        proof {
            if self.offset < self.total {
                lemma_chunk_count_step(
                    self.total - self.offset,
                    TRANSFER_SIZE_THRESHOLD as int,
                );
            } else {
                lemma_chunk_count_step(1, TRANSFER_SIZE_THRESHOLD as int);
            }
        }
        if self.offset < self.total {
            let left: usize = self.total - self.offset;
            let length: usize = if left > TRANSFER_SIZE_THRESHOLD {
                TRANSFER_SIZE_THRESHOLD
            } else {
                left
            };
            StreamStep::Load { pause_ms, length, next: StreamLoad { stream: self, length } }
        } else {
            StreamStep::Finish { pause_ms, result: Ok(()) }
        }
    }
}

/// A stream that waits for a priming command to be answered.
#[derive(Debug)]
pub struct StreamPrime {
    pub stream: Stream,
    /// Whether the key command is still to be sent.
    pub key_pending: bool,
}

/// A stream that waits for its next piece to be read from the source.
#[derive(Debug)]
pub struct StreamLoad {
    pub stream: Stream,
    pub length: usize,
}

/// A stream that waits for a piece to be staged in RAM.
#[derive(Debug)]
pub struct StreamUpload {
    pub stream: Stream,
    pub length: usize,
}

/// A stream that waits for the staged piece to be committed.
#[derive(Debug)]
pub struct StreamCommit {
    pub stream: Stream,
    pub length: usize,
    /// How often the commit has failed.
    pub retries: usize,
}

/// What to do next in a stream.
#[derive(Debug)]
#[allow(inconsistent_fields)]
pub enum StreamStep {
    /// Run the command and tell `next` how it went.
    Prime { command: String, next: StreamPrime },
    /// After the pause, read exactly `length` bytes from the source and hand
    /// them to `next`.
    Load { pause_ms: u64, length: usize, next: StreamLoad },
    /// Perform the write and tell `next` how it went.
    Upload { write: LargeWrite, next: StreamUpload },
    /// After the pause, run the command and tell `next` how it went and how
    /// long the piece has been waiting for its commit.
    Commit { pause_ms: u64, command: String, next: StreamCommit },
    /// After the pause, the stream is over.
    Finish { pause_ms: u64, result: Result<(), Error> },
}

impl StreamStep {
    /// The number of outcomes that the stream can still take, at most: for
    /// each piece that is not committed one of reading it, one of staging it
    /// and three of committing it, and one for each priming command.
    pub open spec fn budget(&self) -> int {
        match self {
            StreamStep::Prime { next, .. } => next.budget(),
            StreamStep::Load { next, .. } => next.stream.pieces_left() * 5,
            StreamStep::Upload { next, .. } => next.stream.pieces_left() * 5 - 1,
            StreamStep::Commit { next, .. } => next.budget(),
            StreamStep::Finish { .. } => 0,
        }
    }

    /// A step that waits for something waits in a well-formed state.
    pub open spec fn wf(&self) -> bool {
        match self {
            StreamStep::Prime { next, .. } => next.stream.wf(),
            StreamStep::Load { next, .. } => next.wf(),
            StreamStep::Upload { next, .. } => next.wf(),
            StreamStep::Commit { next, .. } => next.wf(),
            StreamStep::Finish { .. } => true,
        }
    }
}

/// The step that takes up the next piece of `stream`, or ends it when
/// nothing is left.
pub open spec fn feed(stream: Stream, pause_ms: u64) -> StreamStep {
    if stream.offset < stream.total {
        StreamStep::Load {
            pause_ms,
            length: stream.piece_length(),
            next: StreamLoad { stream, length: stream.piece_length() },
        }
    } else {
        StreamStep::Finish { pause_ms, result: Ok(()) }
    }
}

impl StreamPrime {
    /// The number of outcomes that the stream can still take, at most.
    pub open spec fn budget(&self) -> int {
        self.stream.pieces_left() * 5 + 1 + if self.key_pending {
            1int
        } else {
            0int
        }
    }

    /// Takes the outcome of a priming command: an error ends the stream;
    /// else the key command follows if it is pending, and then the first
    /// piece.
    pub fn primed(self, outcome: Result<(), Error>) -> (step: StreamStep)
        requires
            self.stream.wf(),
        ensures
            match outcome {
                Err(e) => step == (StreamStep::Finish { pause_ms: 0, result: Err(e) }),
                Ok(_) => if self.key_pending {
                    &&& step matches StreamStep::Prime { command, next }
                    &&& command@ == "amlmmc key"@
                    &&& next == (StreamPrime { stream: self.stream, key_pending: false })
                } else {
                    step == feed(self.stream, 0)
                },
            },
            step.wf(),
            0 <= step.budget() < self.budget(),
    {
        proof {
            if self.stream.offset < self.stream.total {
                lemma_chunk_count_step(
                    self.stream.total - self.stream.offset,
                    TRANSFER_SIZE_THRESHOLD as int,
                );
            } else {
                lemma_chunk_count_step(1, TRANSFER_SIZE_THRESHOLD as int);
            }
        }
        match outcome {
            Err(e) => StreamStep::Finish { pause_ms: 0, result: Err(e) },
            Ok(_) => {
                if self.key_pending {
                    StreamStep::Prime {
                        command: "amlmmc key".to_owned(),
                        next: StreamPrime { stream: self.stream, key_pending: false },
                    }
                } else {
                    self.stream.feed(0)
                }
            },
        }
    }
}

impl StreamLoad {
    /// The piece is the next one of its stream.
    pub open spec fn wf(&self) -> bool {
        &&& self.stream.wf()
        &&& self.stream.offset < self.stream.total
        &&& self.length == self.stream.piece_length()
    }

    /// Takes the piece that was read, or the error of reading it, and frames
    /// its transfer into the staging RAM.
    ///
    /// A piece of another length than was asked for counts as a source that
    /// ran dry.
    pub fn loaded(self, outcome: Result<Vec<u8>, Error>) -> (step: StreamStep)
        requires
            self.wf(),
        ensures
            match outcome {
                Err(e) => step == (StreamStep::Finish { pause_ms: 0, result: Err(e) }),
                Ok(data) => if data@.len() != self.length {
                    step matches StreamStep::Finish { pause_ms: 0, result: Err(e) } && e@
                        == ErrorView::IoError("failed to fill whole buffer"@)
                } else if !large_write_fits(
                    data@.len() as int,
                    self.stream.block_length as int,
                    self.stream.append_zeros,
                ) {
                    step matches StreamStep::Finish { pause_ms: 0, result: Err(e) } && e@
                        == ErrorView::InvalidOperation(
                        large_write_refusal(
                            data@.len() as int,
                            self.stream.block_length as int,
                            self.stream.append_zeros,
                        )->Some_0,
                    )
                } else {
                    &&& step matches StreamStep::Upload { write, next }
                    &&& write.frames(
                        self.stream.soc.endpoint_out,
                        ADDR_TMP,
                        data@,
                        self.stream.block_length,
                    )
                    &&& next == (StreamUpload { stream: self.stream, length: self.length })
                },
            },
            step.wf(),
            0 <= step.budget() < self.stream.pieces_left() * 5,
    {
        proof {
            lemma_chunk_count_step(
                self.stream.total - self.stream.offset,
                TRANSFER_SIZE_THRESHOLD as int,
            );
        }
        match outcome {
            Err(e) => StreamStep::Finish { pause_ms: 0, result: Err(e) },
            Ok(data) => {
                if data.len() != self.length {
                    return StreamStep::Finish {
                        pause_ms: 0,
                        result: Err(Error::IoError("failed to fill whole buffer".to_owned())),
                    };
                }
                match self.stream.soc.write_large_memory(
                    ADDR_TMP,
                    data.as_slice(),
                    self.stream.block_length,
                    self.stream.append_zeros,
                ) {
                    Err(e) => StreamStep::Finish { pause_ms: 0, result: Err(e) },
                    Ok(write) => StreamStep::Upload {
                        write,
                        next: StreamUpload { stream: self.stream, length: self.length },
                    },
                }
            },
        }
    }
}

impl StreamUpload {
    /// The piece is the next one of its stream.
    pub open spec fn wf(&self) -> bool {
        &&& self.stream.wf()
        &&& self.stream.offset < self.stream.total
        &&& self.length == self.stream.piece_length()
    }

    /// Takes the outcome of staging the piece: an error ends the stream, else
    /// the command that commits the piece follows.
    pub fn uploaded(self, outcome: Result<(), Error>) -> (step: StreamStep)
        requires
            self.wf(),
        ensures
            match outcome {
                Err(e) => step == (StreamStep::Finish { pause_ms: 0, result: Err(e) }),
                Ok(_) => {
                    &&& step matches StreamStep::Commit { pause_ms: 0, command, next }
                    &&& command@ == self.stream.commit_command(self.length)
                    &&& next == (StreamCommit {
                        stream: self.stream,
                        length: self.length,
                        retries: 0,
                    })
                },
            },
            step.wf(),
            0 <= step.budget() < self.stream.pieces_left() * 5 - 1,
    {
        proof {
            lemma_chunk_count_step(
                self.stream.total - self.stream.offset,
                TRANSFER_SIZE_THRESHOLD as int,
            );
        }
        match outcome {
            Err(e) => StreamStep::Finish { pause_ms: 0, result: Err(e) },
            Ok(_) => {
                let command = self.stream.build_commit(self.length);
                StreamStep::Commit {
                    pause_ms: 0,
                    command,
                    next: StreamCommit { stream: self.stream, length: self.length, retries: 0 },
                }
            },
        }
    }
}

impl StreamCommit {
    /// The piece is the next one of its stream and has not used up its
    /// attempts.
    pub open spec fn wf(&self) -> bool {
        &&& self.stream.wf()
        &&& self.stream.offset < self.stream.total
        &&& self.length == self.stream.piece_length()
        &&& self.retries < COMMIT_ATTEMPTS
    }

    /// The number of outcomes that the stream can still take, at most.
    pub open spec fn budget(&self) -> int {
        self.stream.pieces_left() * 5 - 2 - self.retries
    }

    /// Takes the outcome of the commit: the time in milliseconds since the
    /// piece's first commit was issued, or the error. Says what to do next
    /// and, where the piece counts as committed, how far the stream has come.
    /// With each outcome the number of outcomes that the stream can still
    /// take goes down, so every stream ends.
    ///
    /// A piece of the bootloader is committed once, whatever the outcome,
    /// and followed by a pause. Any other piece is committed again after a
    /// cooldown when the command failed, three times in all; then the error
    /// ends the stream. A commit that took more than three seconds is followed
    /// by a cooldown.
    pub fn committed(self, outcome: Result<u64, Error>) -> (r: (Option<Committed>, StreamStep))
        requires
            self.wf(),
        ensures
            self.stream.is_bootloader() ==> r.1 == feed(
                self.stream.advanced(self.length),
                BOOTLOADER_SETTLE_MS,
            ),
            !self.stream.is_bootloader() ==> match outcome {
                Ok(elapsed_ms) => r.1 == feed(
                    self.stream.advanced(self.length),
                    if elapsed_ms > SLOW_COMMIT_MS {
                        COOLDOWN_MS
                    } else {
                        0
                    },
                ),
                Err(e) => if self.retries + 1 < COMMIT_ATTEMPTS {
                    &&& r.1 matches StreamStep::Commit { pause_ms, command, next }
                    &&& pause_ms == COOLDOWN_MS
                    &&& command@ == self.stream.commit_command(self.length)
                    &&& next == (StreamCommit { retries: (self.retries + 1) as usize, ..self })
                } else {
                    r.1 == (StreamStep::Finish { pause_ms: 0, result: Err(e) })
                },
            },
            r.0 == (if self.stream.is_bootloader() || outcome is Ok {
                Some(
                    Committed {
                        offset: (self.stream.offset + self.length) as usize,
                        total: self.stream.total,
                        length: self.length,
                    },
                )
            } else {
                None
            }),
            r.1.wf(),
            0 <= r.1.budget() < self.budget(),
    {
        proof {
            lemma_chunk_count_step(
                self.stream.total - self.stream.offset,
                TRANSFER_SIZE_THRESHOLD as int,
            );
        }
        let bootloader = self.stream.is_bootloader_stream();
        let pause_ms: u64 = if bootloader {
            BOOTLOADER_SETTLE_MS
        } else {
            match outcome {
                Ok(elapsed_ms) => if elapsed_ms > SLOW_COMMIT_MS {
                    COOLDOWN_MS
                } else {
                    0
                },
                Err(e) => {
                    if self.retries + 1 < COMMIT_ATTEMPTS {
                        let command = self.stream.build_commit(self.length);
                        return (
                            None,
                            StreamStep::Commit {
                                pause_ms: COOLDOWN_MS,
                                command,
                                next: StreamCommit {
                                    stream: self.stream,
                                    length: self.length,
                                    retries: self.retries + 1,
                                },
                            },
                        );
                    }
                    return (None, StreamStep::Finish { pause_ms: 0, result: Err(e) });
                },
            }
        };
        let done = Committed {
            offset: self.stream.offset + self.length,
            total: self.stream.total,
            length: self.length,
        };
        let stream = Stream {
            soc: self.stream.soc,
            target: self.stream.target,
            total: self.stream.total,
            block_length: self.stream.block_length,
            append_zeros: self.stream.append_zeros,
            offset: self.stream.offset + self.length,
        };
        (Some(done), stream.feed(pause_ms))
    }
}

/// The size that a file for the partition `name` is held against: two
/// mebibytes for the bootloader, whose images may be padded beyond that, and
/// the size of the partition for any other.
pub open spec fn effective_part_size(name: Seq<char>, part_size: usize) -> usize {
    if name == "bootloader"@ {
        BOOTLOADER_CAP
    } else {
        part_size
    }
}

/// What is said of a file of `file_size` bytes that is refused for a
/// partition of `part_size` bytes.
pub open spec fn oversize_message(file_size: usize, part_size: usize) -> Seq<char> {
    "file is larger than target partition: "@ + decimal_text(file_size as nat) + " bytes vs "@
        + decimal_text(part_size as nat) + " bytes"@
}

impl AmlogicSoC {
    /// Starts streaming `data_size` bytes to the disk at `disk_address`: the
    /// device is primed with two commands, then the data is staged and
    /// committed piece by piece.
    pub fn write_large_memory_to_disk(
        &self,
        disk_address: u32,
        data_size: usize,
        block_length: usize,
        append_zeros: bool,
    ) -> (step: StreamStep)
        requires
            disk_address + data_size <= usize::MAX,
        ensures
            step matches StreamStep::Prime { command, next },
            step->Prime_command@ == "mmc dev 1"@,
            step->Prime_next == (StreamPrime {
                stream: Stream {
                    soc: *self,
                    target: Target::Disk { address: disk_address },
                    total: data_size,
                    block_length,
                    append_zeros,
                    offset: 0,
                },
                key_pending: true,
            }),
            step.wf(),
    {
        StreamStep::Prime {
            command: "mmc dev 1".to_owned(),
            next: StreamPrime {
                stream: Stream {
                    soc: *self,
                    target: Target::Disk { address: disk_address },
                    total: data_size,
                    block_length,
                    append_zeros,
                    offset: 0,
                },
                key_pending: true,
            },
        }
    }

    /// Starts restoring the partition `part_name` of `part_size` bytes from
    /// an image of `file_size` bytes: the device is primed with the key
    /// command, then the image is staged and committed piece by piece.
    ///
    /// An image that is larger than its partition is refused, but for the
    /// bootloader.
    pub fn restore_partition(&self, part_name: &str, part_size: usize, file_size: usize) -> (r:
        Result<StreamStep, Error>)
        ensures
            r is Err <==> part_name@ != "bootloader"@ && file_size > effective_part_size(
                part_name@,
                part_size,
            ),
            r is Err ==> r->Err_0@ == ErrorView::InvalidOperation(
                oversize_message(file_size, part_size),
            ),
            r is Ok ==> {
                &&& r->Ok_0 matches StreamStep::Prime { command, next }
                &&& command@ == "amlmmc key"@
                &&& next.key_pending == false
                &&& next.stream.soc == *self
                &&& next.stream.target matches Target::Partition { name }
                &&& name@ == part_name@
                &&& next.stream.total == file_size
                &&& next.stream.block_length == TRANSFER_BLOCK_SIZE
                &&& next.stream.append_zeros
                &&& next.stream.offset == 0
                &&& r->Ok_0.wf()
            },
    {
        let bootloader = same_text(part_name, "bootloader");
        if !bootloader && file_size > part_size {
            let mut message: String = "file is larger than target partition: ".to_owned();
            push_decimal(&mut message, file_size);
            message.append(" bytes vs ");
            push_decimal(&mut message, part_size);
            message.append(" bytes");
            assert(message@ =~= oversize_message(file_size, part_size));
            return Err(Error::InvalidOperation(message));
        }
        Ok(
            StreamStep::Prime {
                command: "amlmmc key".to_owned(),
                next: StreamPrime {
                    stream: Stream {
                        soc: *self,
                        target: Target::Partition { name: part_name.to_owned() },
                        total: file_size,
                        block_length: TRANSFER_BLOCK_SIZE,
                        append_zeros: true,
                        offset: 0,
                    },
                    key_pending: false,
                },
            },
        )
    }
}

} // verus!
