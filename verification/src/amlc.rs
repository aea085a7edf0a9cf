//! Sending bootloader data in AMLC packets: the transfer of one piece with
//! its retries and acknowledgement, and the packet that closes with an AMLS
//! block.

use crate::aml::{
    okay_tag, AmlogicSoC, ACK_LENGTH, AMLC_AMLS_BLOCK_LENGTH, REQ_WRITE_AMLC,
};
use crate::checksum::{amlc_checksum, checksum_spec};
use crate::chunks::{
    chunk_count, chunk_of, lemma_chunk_bounds, lemma_chunk_starts, split_chunks,
};
use crate::error::{outcome_view, Error, ErrorView, UsbFailure};
use crate::text::text_from_utf8;
use crate::usb::{
    copy_all, copy_range, le32, push_le32, vendor_out, BulkIn, BulkOut, BulkOutView, ControlOut,
    COMMAND_TIMEOUT_MS, REQUEST_TYPE_OUT,
};
use vstd::prelude::*;
use vstd::utf8::{decode_utf8, valid_utf8};

verus! {

/// Most bytes of one bulk transfer of AMLC data.
pub const AMLC_MAX_BLOCK_LENGTH: usize = 0x4000;

/// Most bytes that one AMLC write announces.
pub const AMLC_MAX_TRANSFER_LENGTH: usize = 65536;

/// Timeout of the bulk transfers of an AMLC write, in milliseconds.
pub const AMLC_BULK_TIMEOUT_MS: u64 = 1000;

/// How often a bulk transfer of an AMLC write is tried.
pub const AMLC_ATTEMPTS: usize = 3;

/// Pause before a transfer is tried again, in milliseconds.
pub const AMLC_RETRY_PAUSE_MS: u64 = 100;

/// Pause after each piece, in milliseconds.
pub const AMLC_CHUNK_PAUSE_MS: u64 = 10;

/// Pause after each transfer of a packet, in milliseconds.
pub const AMLC_TRANSFER_PAUSE_MS: u64 = 50;

/// An AMLC write whose announcement or whose piece `chunk` is on the bus.
#[derive(Debug)]
pub struct AmlcSend {
    pub endpoint_in: u8,
    pub endpoint_out: u8,
    /// All the data of the write.
    pub data: Vec<u8>,
    /// Whether the announcing request went through.
    pub announced: bool,
    /// The piece that is being sent.
    pub chunk: usize,
    /// How often sending this piece has failed.
    pub retries: usize,
}

/// What an [`AmlcSend`] holds.
pub struct AmlcSendView {
    pub endpoint_in: u8,
    pub endpoint_out: u8,
    pub data: Seq<u8>,
    pub announced: bool,
    pub chunk: usize,
    pub retries: usize,
}

impl View for AmlcSend {
    type V = AmlcSendView;

    open spec fn view(&self) -> AmlcSendView {
        AmlcSendView {
            endpoint_in: self.endpoint_in,
            endpoint_out: self.endpoint_out,
            data: self.data@,
            announced: self.announced,
            chunk: self.chunk,
            retries: self.retries,
        }
    }
}

impl AmlcSendView {
    /// The piece in flight exists and has not used up its attempts.
    pub open spec fn wf(self) -> bool {
        &&& 0 < self.data.len() <= usize::MAX
        &&& self.chunk * AMLC_MAX_BLOCK_LENGTH < self.data.len()
        &&& self.retries < AMLC_ATTEMPTS
        &&& (!self.announced ==> self.chunk == 0 && self.retries == 0)
    }
}

/// An AMLC write whose data is out and whose acknowledgement is awaited.
#[derive(Debug, Clone, Copy, PartialEq, Eq, Structural)]
pub struct AmlcAck {
    pub endpoint_in: u8,
    /// How often reading the acknowledgement has failed.
    pub retries: usize,
}

/// What to do next in an AMLC write, after a pause of `pause_ms`
/// milliseconds.
#[derive(Debug)]
#[allow(inconsistent_fields)]
pub enum AmlcStep {
    /// Send a piece and report to `next` how many bytes went out.
    Write { pause_ms: u64, transfer: BulkOut, next: AmlcSend },
    /// Read the acknowledgement and report to `next` what arrived.
    Read { pause_ms: u64, transfer: BulkIn, next: AmlcAck },
    /// The write is over.
    Finish { pause_ms: u64, result: Result<(), Error> },
}

/// What an [`AmlcStep`] holds.
#[allow(inconsistent_fields)]
pub enum AmlcStepView {
    Write { pause_ms: u64, transfer: BulkOutView, next: AmlcSendView },
    Read { pause_ms: u64, transfer: BulkIn, next: AmlcAck },
    Finish { pause_ms: u64, result: Result<(), ErrorView> },
}

impl View for AmlcStep {
    type V = AmlcStepView;

    open spec fn view(&self) -> AmlcStepView {
        match self {
            AmlcStep::Write { pause_ms, transfer, next } => AmlcStepView::Write {
                pause_ms: *pause_ms,
                transfer: transfer@,
                next: next@,
            },
            AmlcStep::Read { pause_ms, transfer, next } => AmlcStepView::Read {
                pause_ms: *pause_ms,
                transfer: *transfer,
                next: *next,
            },
            AmlcStep::Finish { pause_ms, result } => AmlcStepView::Finish {
                pause_ms: *pause_ms,
                result: outcome_view(*result),
            },
        }
    }
}

/// The step that sends piece `chunk` of the write `s`.
pub open spec fn send_piece(s: AmlcSendView, chunk: usize, retries: usize, pause_ms: u64) -> AmlcStepView {
    AmlcStepView::Write {
        pause_ms,
        transfer: BulkOutView {
            endpoint: s.endpoint_out,
            data: chunk_of(s.data, AMLC_MAX_BLOCK_LENGTH as int, chunk as int),
            timeout_ms: AMLC_BULK_TIMEOUT_MS,
        },
        next: AmlcSendView { announced: true, chunk, retries, ..s },
    }
}

/// The step that reads the acknowledgement.
pub open spec fn read_ack(endpoint_in: u8, retries: usize, pause_ms: u64) -> AmlcStepView {
    AmlcStepView::Read {
        pause_ms,
        transfer: BulkIn { endpoint: endpoint_in, length: ACK_LENGTH, timeout_ms: AMLC_BULK_TIMEOUT_MS },
        next: AmlcAck { endpoint_in, retries },
    }
}

/// The step that leaves piece `s.chunk` behind: the next piece if there is
/// one, else the acknowledgement.
pub open spec fn leave_piece(s: AmlcSendView, pause_ms: u64) -> AmlcStepView {
    if (s.chunk + 1) * AMLC_MAX_BLOCK_LENGTH < s.data.len() {
        send_piece(s, (s.chunk + 1) as usize, 0, pause_ms)
    } else {
        read_ack(s.endpoint_in, 0, pause_ms)
    }
}

/// What follows the outcome of the transfer that `s` waits for.
///
/// A failed announcement ends the write. A piece that went out whole is
/// followed, after a short pause, by the next one. A piece that failed or went
/// out short is tried again after a pause, three times in all; next a failure
/// ends the write, while a short piece is left behind.
pub open spec fn after_write(s: AmlcSendView, outcome: Result<usize, UsbFailure>) -> AmlcStepView {
    if !s.announced {
        match outcome {
            Err(e) => AmlcStepView::Finish { pause_ms: 0, result: Err(ErrorView::UsbError(e)) },
            Ok(_) => send_piece(s, 0, 0, 0),
        }
    } else {
        match outcome {
            Ok(n) => {
                if n == chunk_of(s.data, AMLC_MAX_BLOCK_LENGTH as int, s.chunk as int).len() {
                    leave_piece(s, AMLC_CHUNK_PAUSE_MS)
                } else if s.retries + 1 < AMLC_ATTEMPTS {
                    send_piece(s, s.chunk, (s.retries + 1) as usize, AMLC_RETRY_PAUSE_MS)
                } else {
                    leave_piece(s, (AMLC_RETRY_PAUSE_MS + AMLC_CHUNK_PAUSE_MS) as u64)
                }
            },
            Err(e) => {
                if s.retries + 1 < AMLC_ATTEMPTS {
                    send_piece(s, s.chunk, (s.retries + 1) as usize, AMLC_RETRY_PAUSE_MS)
                } else {
                    AmlcStepView::Finish {
                        pause_ms: AMLC_RETRY_PAUSE_MS,
                        result: Err(ErrorView::UsbError(e)),
                    }
                }
            },
        }
    }
}

/// Whether the four bytes `tag` acknowledge a write.
pub open spec fn ack_verdict(tag: Seq<u8>) -> Result<(), ErrorView> {
    if !valid_utf8(tag) {
        Err(ErrorView::Utf8Error)
    } else if tag != okay_tag() {
        Err(ErrorView::InvalidOperation("invalid amlc data write ack: "@ + decode_utf8(tag)))
    } else {
        Ok(())
    }
}

/// The bytes that arrived, if the transfer went through.
pub open spec fn arrived_view(outcome: Result<Vec<u8>, UsbFailure>) -> Result<Seq<u8>, UsbFailure> {
    match outcome {
        Ok(bytes) => Ok(bytes@),
        Err(e) => Err(e),
    }
}

/// What follows the outcome of reading the acknowledgement.
///
/// Four bytes or more settle the write by their tag. A failure or a shorter
/// read is tried again after a pause, three times in all; next the write has
/// no acknowledgement.
pub open spec fn after_read(a: AmlcAck, outcome: Result<Seq<u8>, UsbFailure>) -> AmlcStepView {
    if outcome is Ok && outcome->Ok_0.len() >= 4 {
        AmlcStepView::Finish { pause_ms: 0, result: ack_verdict(outcome->Ok_0.subrange(0, 4)) }
    } else if a.retries + 1 < AMLC_ATTEMPTS {
        read_ack(a.endpoint_in, (a.retries + 1) as usize, AMLC_RETRY_PAUSE_MS)
    } else {
        AmlcStepView::Finish {
            pause_ms: AMLC_RETRY_PAUSE_MS,
            result: Err(ErrorView::InvalidOperation("no acknowledgment received"@)),
        }
    }
}

impl AmlcStepView {
    /// A step that waits for a transfer waits in a well-formed state.
    pub open spec fn wf(self) -> bool {
        match self {
            AmlcStepView::Write { next, .. } => next.wf() && next.announced,
            AmlcStepView::Read { next, .. } => next.retries < AMLC_ATTEMPTS,
            AmlcStepView::Finish { .. } => true,
        }
    }
}

impl AmlcSendView {
    /// The number of transfers that the write can still take, at most: three
    /// for each piece that is not out, three for the acknowledgement, and one
    /// for an announcement that is on its way.
    pub open spec fn budget(self) -> int {
        (chunk_count(self.data.len() as int, AMLC_MAX_BLOCK_LENGTH as int) - self.chunk) * 3
            - self.retries + 3 + if self.announced {
            0int
        } else {
            1int
        }
    }
}

impl AmlcStepView {
    /// The number of transfers that the write can still take, at most.
    pub open spec fn budget(self) -> int {
        match self {
            AmlcStepView::Write { next, .. } => next.budget(),
            AmlcStepView::Read { next, .. } => AMLC_ATTEMPTS - next.retries,
            AmlcStepView::Finish { .. } => 0,
        }
    }
}

/// Every AMLC write ends: with each outcome that is handed in, the number of
/// transfers that the write can still take goes down.
pub proof fn law_amlc_write_ends(s: AmlcSendView, outcome: Result<usize, UsbFailure>)
    requires
        s.wf(),
    ensures
        0 <= after_write(s, outcome).budget() < s.budget(),
{
    lemma_chunk_bounds(s.data.len() as int, AMLC_MAX_BLOCK_LENGTH as int, s.chunk as int);
    let n = chunk_count(s.data.len() as int, AMLC_MAX_BLOCK_LENGTH as int);
    if (s.chunk + 1) * AMLC_MAX_BLOCK_LENGTH < s.data.len() {
        lemma_chunk_bounds(
            s.data.len() as int,
            AMLC_MAX_BLOCK_LENGTH as int,
            s.chunk + 1,
        );
    }
}

/// Reading the acknowledgement ends as well: each failed attempt uses one of
/// three up.
pub proof fn law_amlc_ack_ends(a: AmlcAck, outcome: Result<Seq<u8>, UsbFailure>)
    requires
        a.retries < AMLC_ATTEMPTS,
    ensures
        0 <= after_read(a, outcome).budget() < AMLC_ATTEMPTS - a.retries,
{
}

impl AmlcSend {
    fn send_piece(self, chunk: usize, retries: usize, pause_ms: u64) -> (step: AmlcStep)
        requires
            self@.data.len() > 0,
            chunk * AMLC_MAX_BLOCK_LENGTH < self@.data.len(),
        ensures
            step@ == send_piece(self@, chunk, retries, pause_ms),
    {
        proof {
            lemma_chunk_bounds(
                self@.data.len() as int,
                AMLC_MAX_BLOCK_LENGTH as int,
                chunk as int,
            );
        }
        let len: usize = self.data.len();
        let start: usize = chunk * AMLC_MAX_BLOCK_LENGTH;
        let end: usize = if len - start > AMLC_MAX_BLOCK_LENGTH {
            start + AMLC_MAX_BLOCK_LENGTH
        } else {
            len
        };
        let piece = copy_range(self.data.as_slice(), start, end);
        AmlcStep::Write {
            pause_ms,
            transfer: BulkOut {
                endpoint: self.endpoint_out,
                data: piece,
                timeout_ms: AMLC_BULK_TIMEOUT_MS,
            },
            next: AmlcSend {
                endpoint_in: self.endpoint_in,
                endpoint_out: self.endpoint_out,
                data: self.data,
                announced: true,
                chunk,
                retries,
            },
        }
    }

    fn leave_piece(self, pause_ms: u64) -> (step: AmlcStep)
        requires
            self@.wf(),
        ensures
            step@ == leave_piece(self@, pause_ms),
            step@.wf(),
    {
        let len: usize = self.data.len();
        let start: usize = self.chunk * AMLC_MAX_BLOCK_LENGTH;
        if len - start > AMLC_MAX_BLOCK_LENGTH {
            let next: usize = self.chunk + 1;
            self.send_piece(next, 0, pause_ms)
        } else {
            AmlcStep::Read {
                pause_ms,
                transfer: BulkIn {
                    endpoint: self.endpoint_in,
                    length: ACK_LENGTH,
                    timeout_ms: AMLC_BULK_TIMEOUT_MS,
                },
                next: AmlcAck { endpoint_in: self.endpoint_in, retries: 0 },
            }
        }
    }

    /// Takes the outcome of the transfer that was on the bus, the number of
    /// bytes that went out or the failure, and says what to do next.
    pub fn written(self, outcome: Result<usize, UsbFailure>) -> (step: AmlcStep)
        requires
            self@.wf(),
        ensures
            step@ == after_write(self@, outcome),
            step@.wf(),
    {
        if !self.announced {
            return match outcome {
                Err(e) => AmlcStep::Finish { pause_ms: 0, result: Err(Error::UsbError(e)) },
                Ok(_) => self.send_piece(0, 0, 0),
            };
        }
        proof {
            lemma_chunk_bounds(
                self@.data.len() as int,
                AMLC_MAX_BLOCK_LENGTH as int,
                self.chunk as int,
            );
        }
        let len: usize = self.data.len();
        let start: usize = self.chunk * AMLC_MAX_BLOCK_LENGTH;
        let rest: usize = len - start;
        let piece_len: usize = if rest > AMLC_MAX_BLOCK_LENGTH {
            AMLC_MAX_BLOCK_LENGTH
        } else {
            rest
        };
        match outcome {
            Ok(n) => {
                if n == piece_len {
                    self.leave_piece(AMLC_CHUNK_PAUSE_MS)
                } else if self.retries + 1 < AMLC_ATTEMPTS {
                    let chunk = self.chunk;
                    let retries = self.retries + 1;
                    self.send_piece(chunk, retries, AMLC_RETRY_PAUSE_MS)
                } else {
                    self.leave_piece(AMLC_RETRY_PAUSE_MS + AMLC_CHUNK_PAUSE_MS)
                }
            },
            Err(e) => {
                if self.retries + 1 < AMLC_ATTEMPTS {
                    let chunk = self.chunk;
                    let retries = self.retries + 1;
                    self.send_piece(chunk, retries, AMLC_RETRY_PAUSE_MS)
                } else {
                    AmlcStep::Finish {
                        pause_ms: AMLC_RETRY_PAUSE_MS,
                        result: Err(Error::UsbError(e)),
                    }
                }
            },
        }
    }
}

impl AmlcAck {
    /// Takes the outcome of reading the acknowledgement, the bytes that
    /// arrived or the failure, and says what to do next.
    pub fn arrived(self, outcome: Result<Vec<u8>, UsbFailure>) -> (step: AmlcStep)
        requires
            self.retries < AMLC_ATTEMPTS,
        ensures
            step@ == after_read(self, arrived_view(outcome)),
            step@.wf(),
    {
        match outcome {
            Ok(bytes) => {
                if bytes.len() >= 4 {
                    let tag = copy_range(bytes.as_slice(), 0, 4);
                    let okay: bool = tag[0] == 0x4f && tag[1] == 0x4b && tag[2] == 0x41 && tag[3]
                        == 0x59;
                    assert(okay == (tag@ =~= okay_tag()));
                    let result = match text_from_utf8(tag) {
                        None => Err(Error::Utf8Error),
                        Some(text) => {
                            if okay {
                                Ok(())
                            } else {
                                Err(
                                    Error::InvalidOperation(
                                        "invalid amlc data write ack: ".to_owned().concat(
                                            text.as_str(),
                                        ),
                                    ),
                                )
                            }
                        },
                    };
                    return AmlcStep::Finish { pause_ms: 0, result };
                }
            },
            Err(_) => {},
        }
        if self.retries + 1 < AMLC_ATTEMPTS {
            AmlcStep::Read {
                pause_ms: AMLC_RETRY_PAUSE_MS,
                transfer: BulkIn {
                    endpoint: self.endpoint_in,
                    length: ACK_LENGTH,
                    timeout_ms: AMLC_BULK_TIMEOUT_MS,
                },
                next: AmlcAck { endpoint_in: self.endpoint_in, retries: self.retries + 1 },
            }
        } else {
            AmlcStep::Finish {
                pause_ms: AMLC_RETRY_PAUSE_MS,
                result: Err(Error::InvalidOperation("no acknowledgment received".to_owned())),
            }
        }
    }
}

/// One AMLC write of a packet, and the pause that follows it.
#[derive(Debug)]
pub struct AmlcTransfer {
    pub offset: u32,
    pub data: Vec<u8>,
    pub pause_after_ms: u64,
}

/// What an [`AmlcTransfer`] holds.
pub struct AmlcTransferView {
    pub offset: u32,
    pub data: Seq<u8>,
    pub pause_after_ms: u64,
}

impl View for AmlcTransfer {
    type V = AmlcTransferView;

    open spec fn view(&self) -> AmlcTransferView {
        AmlcTransferView {
            offset: self.offset,
            data: self.data@,
            pause_after_ms: self.pause_after_ms,
        }
    }
}

/// The bytes of the tag `AMLS`.
pub open spec fn amls_tag() -> Seq<u8> {
    seq![0x41u8, 0x4du8, 0x4cu8, 0x53u8]
}

/// The block that closes a packet: the tag `AMLS`, the sequence number, the
/// checksum of the packet's data at byte 8, and from byte 16 on the bytes of
/// the data that stand at the same place. Everything else is zero.
pub open spec fn amls_block(seq: u8, data: Seq<u8>) -> Seq<u8> {
    Seq::new(
        AMLC_AMLS_BLOCK_LENGTH as nat,
        |i: int|
            if i < 4 {
                amls_tag()[i]
            } else if i == 4 {
                seq
            } else if 8 <= i < 12 {
                le32(checksum_spec(data) as u32)[i - 8]
            } else if 16 <= i < data.len() {
                data[i]
            } else {
                0u8
            },
    )
}

/// Builds the block that closes a packet.
pub fn build_amls_block(seq: u8, data: &[u8]) -> (block: Vec<u8>)
    ensures
        block@ == amls_block(seq, data@),
{
    let sum = amlc_checksum(data);
    let mut sum_bytes: Vec<u8> = Vec::new();
    push_le32(&mut sum_bytes, sum);
    assert(sum_bytes@ =~= le32(sum));
    let mut block: Vec<u8> = Vec::new();
    let mut i: usize = 0;
    while i < AMLC_AMLS_BLOCK_LENGTH
        invariant
            i <= AMLC_AMLS_BLOCK_LENGTH,
            block@.len() == i,
            sum_bytes@ == le32(checksum_spec(data@) as u32),
            forall|k: int| 0 <= k < i ==> block@[k] == amls_block(seq, data@)[k],
        decreases AMLC_AMLS_BLOCK_LENGTH - i,
    {
        let b: u8 = if i == 0 {
            0x41
        } else if i == 1 {
            0x4d
        } else if i == 2 {
            0x4c
        } else if i == 3 {
            0x53
        } else if i == 4 {
            seq
        } else if 8 <= i && i < 12 {
            sum_bytes[i - 8]
        } else if 16 <= i && i < data.len() {
            data[i]
        } else {
            0
        };
        block.push(b);
        i = i + 1;
    }
    assert(block@ =~= amls_block(seq, data@));
    block
}

impl AmlogicSoC {
    /// Starts the AMLC write of `data` at `offset`: the announcing request,
    /// and the state that waits for its outcome.
    ///
    /// The request carries the offset in blocks of 512 bytes and the length
    /// less one, each in a sixteen-bit field.
    pub fn write_amlc_data(&self, offset: u32, data: &[u8]) -> (start: (ControlOut, AmlcSend))
        requires
            data@.len() > 0,
        ensures
            start.0@ == vendor_out(
                REQ_WRITE_AMLC,
                (offset / 0x200 % 0x1_0000) as u16,
                ((data@.len() - 1) % 0x1_0000) as u16,
                Seq::<u8>::empty(),
            ),
            start.1@ == (AmlcSendView {
                endpoint_in: self.endpoint_in,
                endpoint_out: self.endpoint_out,
                data: data@,
                announced: false,
                chunk: 0,
                retries: 0,
            }),
            start.1@.wf(),
    {
        (
            ControlOut {
                request_type: REQUEST_TYPE_OUT,
                request: REQ_WRITE_AMLC,
                value: (offset / 0x200 % 0x1_0000) as u16,
                index: ((data.len() - 1) % 0x1_0000) as u16,
                data: Vec::new(),
                timeout_ms: COMMAND_TIMEOUT_MS,
            },
            AmlcSend {
                endpoint_in: self.endpoint_in,
                endpoint_out: self.endpoint_out,
                data: copy_all(data),
                announced: false,
                chunk: 0,
                retries: 0,
            },
        )
    }

    /// The AMLC writes that make up the packet number `seq`: the data in
    /// pieces of at most 65536 bytes, each written at offset zero and followed
    /// by a pause, next the closing block at `amlc_offset`.
    pub fn write_amlc_data_packet(&self, seq: u8, amlc_offset: u32, data: &[u8]) -> (plan: Vec<
        AmlcTransfer,
    >)
        ensures
            plan@.len() == chunk_count(data@.len() as int, AMLC_MAX_TRANSFER_LENGTH as int) + 1,
            forall|i: int|
                0 <= i < plan@.len() - 1 ==> (#[trigger] plan@[i])@ == (AmlcTransferView {
                    offset: 0,
                    data: chunk_of(data@, AMLC_MAX_TRANSFER_LENGTH as int, i),
                    pause_after_ms: AMLC_TRANSFER_PAUSE_MS,
                }),
            plan@[plan@.len() - 1]@ == (AmlcTransferView {
                offset: amlc_offset,
                data: amls_block(seq, data@),
                pause_after_ms: 0,
            }),
            forall|i: int| 0 <= i < plan@.len() ==> (#[trigger] plan@[i])@.data.len() > 0,
    {
        let pieces = split_chunks(data, AMLC_MAX_TRANSFER_LENGTH);
        let mut plan: Vec<AmlcTransfer> = Vec::new();
        let mut i: usize = 0;
        while i < pieces.len()
            invariant
                i <= pieces@.len(),
                pieces@.len() == chunk_count(data@.len() as int, AMLC_MAX_TRANSFER_LENGTH as int),
                forall|k: int|
                    0 <= k < pieces@.len() ==> (#[trigger] pieces@[k])@ == chunk_of(
                        data@,
                        AMLC_MAX_TRANSFER_LENGTH as int,
                        k,
                    ),
                plan@.len() == i,
                forall|k: int|
                    0 <= k < i ==> (#[trigger] plan@[k])@ == (AmlcTransferView {
                        offset: 0,
                        data: chunk_of(data@, AMLC_MAX_TRANSFER_LENGTH as int, k),
                        pause_after_ms: AMLC_TRANSFER_PAUSE_MS,
                    }),
                forall|k: int| 0 <= k < i ==> (#[trigger] plan@[k])@.data.len() > 0,
            decreases pieces@.len() - i,
        {
            proof {
                lemma_chunk_starts(
                    data@.len() as int,
                    AMLC_MAX_TRANSFER_LENGTH as int,
                    i as int,
                );
                lemma_chunk_bounds(
                    data@.len() as int,
                    AMLC_MAX_TRANSFER_LENGTH as int,
                    i as int,
                );
            }
            plan.push(
                AmlcTransfer {
                    offset: 0,
                    data: copy_all(pieces[i].as_slice()),
                    pause_after_ms: AMLC_TRANSFER_PAUSE_MS,
                },
            );
            i = i + 1;
        }
        plan.push(
            AmlcTransfer {
                offset: amlc_offset,
                data: build_amls_block(seq, data),
                pause_after_ms: 0,
            },
        );
        plan
    }
}

} // verus!
