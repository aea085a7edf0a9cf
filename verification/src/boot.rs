//! Bringing a device from the ROM stage into burn mode: the BL2 chain-load
//! handshake, the order of events around it, and the choice of device and
//! endpoints.

use crate::aml::{large_write_fits, large_write_refusal, run_word, AmlogicSoC, LargeWrite, REQ_RUN_IN_ADDR};
use crate::error::{invalid_operation, Error, ErrorView};
use crate::usb::{address_index, address_value, copy_range, le32, vendor_out, ControlOut};
use vstd::prelude::*;

verus! {

/// Where BL2 is loaded and started.
pub const ADDR_BL2: u32 = 0xfffa0000;

/// Block length of the BL2 upload.
pub const BL2_BLOCK_LENGTH: usize = 4096;

/// Time that BL2 is given to come up, in milliseconds.
pub const BL2_SETTLE_MS: u64 = 2000;

/// Most requests of the device that one handshake serves.
pub const BOOT_MAX_ITERATIONS: usize = 50;

/// How often one request of the device is asked for.
pub const BOOT_ASK_ATTEMPTS: usize = 3;

/// Pause before a request is asked for again, in milliseconds.
pub const BOOT_ASK_PAUSE_MS: u64 = 500;

/// Pause after each packet, in milliseconds.
pub const BOOT_PACKET_PAUSE_MS: u64 = 100;

/// The handshake, waiting for the device's next request.
#[derive(Debug)]
pub struct BootAsk {
    pub bootloader: Vec<u8>,
    /// Sequence number of the next packet.
    pub seq: u8,
    /// Length and offset of the request served last.
    pub prev_length: u32,
    pub prev_offset: u32,
    /// Requests taken up so far, this one included.
    pub iterations: usize,
    /// How often asking for this request has failed.
    pub retry_count: usize,
}

/// The handshake, waiting for a packet to be sent.
#[derive(Debug)]
pub struct BootSend {
    pub bootloader: Vec<u8>,
    pub seq: u8,
    pub prev_length: u32,
    pub prev_offset: u32,
    pub iterations: usize,
}

/// What to do next in the handshake.
#[derive(Debug)]
#[allow(inconsistent_fields)]
pub enum BootStep {
    /// After the pause, ask the device what it wants and tell `next`.
    Ask { pause_ms: u64, next: BootAsk },
    /// Send `data` as the packet `seq` at `offset` and tell `next` how it
    /// went.
    Send { seq: u8, offset: u32, data: Vec<u8>, next: BootSend },
    /// The handshake is over.
    Finish(Result<(), Error>),
}

/// Everything that starts the handshake: the upload of BL2, the jump into
/// it, the time to wait, and the state that takes the first request.
#[derive(Debug)]
pub struct BootStart {
    pub upload: LargeWrite,
    pub run: ControlOut,
    pub settle_ms: u64,
    pub next: BootAsk,
}

/// The part of the bootloader that a request for `length` bytes at `offset`
/// gets: nothing behind the end, and no more than is left.
pub open spec fn requested_slice(bootloader: Seq<u8>, length: u32, offset: u32) -> Seq<u8> {
    if offset >= bootloader.len() {
        Seq::<u8>::empty()
    } else if length <= bootloader.len() - offset {
        bootloader.subrange(offset as int, offset + length)
    } else {
        bootloader.subrange(offset as int, bootloader.len() as int)
    }
}

impl BootStep {
    /// The number of outcomes that the handshake can still take, at most.
    pub open spec fn budget(&self) -> int {
        match self {
            BootStep::Ask { next, .. } => next.budget(),
            BootStep::Send { next, .. } => next.budget(),
            BootStep::Finish(_) => 0,
        }
    }
}

impl BootAsk {
    /// The handshake never takes up more than fifty requests, nor asks more
    /// than three times for one.
    pub open spec fn wf(&self) -> bool {
        &&& 1 <= self.iterations <= BOOT_MAX_ITERATIONS
        &&& self.retry_count < BOOT_ASK_ATTEMPTS
    }

    /// The number of outcomes that the handshake can still take, at most:
    /// for each request that may still be taken up, three attempts to ask for
    /// it and one packet, and for this one the attempts that are left.
    pub open spec fn budget(&self) -> int {
        (BOOT_MAX_ITERATIONS - self.iterations) * 5 + BOOT_ASK_ATTEMPTS - self.retry_count + 1
    }

    /// Takes the device's request, or the error of asking for it, and says
    /// what to do next.
    ///
    /// A request that repeats the one before ends the handshake. Any other is
    /// served with the part of the bootloader that it names. An error is
    /// passed on once asking has failed three times. With each outcome the
    /// number of outcomes that the handshake can still take goes down, so
    /// every handshake ends.
    pub fn asked(self, outcome: Result<(u32, u32), Error>) -> (step: BootStep)
        requires
            self.wf(),
        ensures
            match outcome {
                Err(e) => if self.retry_count + 1 < BOOT_ASK_ATTEMPTS {
                    step == (BootStep::Ask {
                        pause_ms: BOOT_ASK_PAUSE_MS,
                        next: BootAsk { retry_count: (self.retry_count + 1) as usize, ..self },
                    })
                } else {
                    step == BootStep::Finish(Err(e))
                },
                Ok((length, offset)) => if length == self.prev_length && offset
                    == self.prev_offset {
                    step == BootStep::Finish(Ok(()))
                } else {
                    &&& step matches BootStep::Send { seq, offset: at, data, next }
                    &&& seq == self.seq
                    &&& at == offset
                    &&& data@ == requested_slice(self.bootloader@, length, offset)
                    &&& next == (BootSend {
                        bootloader: self.bootloader,
                        seq: self.seq,
                        prev_length: length,
                        prev_offset: offset,
                        iterations: self.iterations,
                    })
                    &&& next.wf()
                },
            },
            step matches BootStep::Ask { next, .. } ==> next.wf(),
            0 <= step.budget() < self.budget(),
    {
        match outcome {
            Err(e) => {
                if self.retry_count + 1 < BOOT_ASK_ATTEMPTS {
                    BootStep::Ask {
                        pause_ms: BOOT_ASK_PAUSE_MS,
                        next: BootAsk {
                            bootloader: self.bootloader,
                            seq: self.seq,
                            prev_length: self.prev_length,
                            prev_offset: self.prev_offset,
                            iterations: self.iterations,
                            retry_count: self.retry_count + 1,
                        },
                    }
                } else {
                    BootStep::Finish(Err(e))
                }
            },
            Ok((length, offset)) => {
                if length == self.prev_length && offset == self.prev_offset {
                    return BootStep::Finish(Ok(()));
                }
                let len: usize = self.bootloader.len();
                let data: Vec<u8> = if offset as usize >= len {
                    Vec::new()
                } else {
                    let start: usize = offset as usize;
                    let left: usize = len - start;
                    let end: usize = if length as usize <= left {
                        start + length as usize
                    } else {
                        len
                    };
                    copy_range(self.bootloader.as_slice(), start, end)
                };
                assert(data@ =~= requested_slice(self.bootloader@, length, offset));
                BootStep::Send {
                    seq: self.seq,
                    offset,
                    data,
                    next: BootSend {
                        bootloader: self.bootloader,
                        seq: self.seq,
                        prev_length: length,
                        prev_offset: offset,
                        iterations: self.iterations,
                    },
                }
            },
        }
    }
}

impl BootSend {
    /// The handshake never takes up more than fifty requests.
    pub open spec fn wf(&self) -> bool {
        1 <= self.iterations <= BOOT_MAX_ITERATIONS
    }

    /// The number of outcomes that the handshake can still take, at most.
    pub open spec fn budget(&self) -> int {
        (BOOT_MAX_ITERATIONS - self.iterations) * 5
    }

    /// Takes the outcome of sending the packet and says what to do next.
    ///
    /// An error ends the handshake. After a packet that went out, the
    /// sequence number moves on, modulo 256, and the next request is asked
    /// for, unless fifty requests have been taken up already.
    pub fn sent(self, outcome: Result<(), Error>) -> (step: BootStep)
        requires
            self.wf(),
        ensures
            match outcome {
                Err(e) => step == BootStep::Finish(Err(e)),
                Ok(_) => if self.iterations >= BOOT_MAX_ITERATIONS {
                    step matches BootStep::Finish(Err(e)) && e@ == ErrorView::InvalidOperation(
                        "maximum iterations reached in bl2_boot"@,
                    )
                } else {
                    step == (BootStep::Ask {
                        pause_ms: BOOT_PACKET_PAUSE_MS,
                        next: BootAsk {
                            bootloader: self.bootloader,
                            seq: ((self.seq + 1) % 256) as u8,
                            prev_length: self.prev_length,
                            prev_offset: self.prev_offset,
                            iterations: (self.iterations + 1) as usize,
                            retry_count: 0,
                        },
                    })
                },
            },
            step matches BootStep::Ask { next, .. } ==> next.wf(),
            0 <= step.budget() <= self.budget(),
            step is Ask ==> step.budget() < self.budget(),
    {
        match outcome {
            Err(e) => BootStep::Finish(Err(e)),
            Ok(_) => {
                if self.iterations >= BOOT_MAX_ITERATIONS {
                    return BootStep::Finish(
                        Err(invalid_operation("maximum iterations reached in bl2_boot")),
                    );
                }
                BootStep::Ask {
                    pause_ms: BOOT_PACKET_PAUSE_MS,
                    next: BootAsk {
                        bootloader: self.bootloader,
                        seq: self.seq.wrapping_add(1),
                        prev_length: self.prev_length,
                        prev_offset: self.prev_offset,
                        iterations: self.iterations + 1,
                        retry_count: 0,
                    },
                }
            },
        }
    }
}

impl AmlogicSoC {
    /// Starts the chain-load: BL2 goes to its address in blocks of 4096
    /// bytes, padded with zeros, and is started with the power kept on; after
    /// two seconds the device's requests for `bootloader` are served.
    ///
    /// Fails only if BL2 is too long to be uploaded.
    pub fn bl2_boot(&self, bl2: &[u8], bootloader: Vec<u8>) -> (r: Result<BootStart, Error>)
        ensures
            r is Ok <==> large_write_fits(bl2@.len() as int, BL2_BLOCK_LENGTH as int, true),
            r is Err ==> r->Err_0@ == ErrorView::InvalidOperation(
                large_write_refusal(bl2@.len() as int, BL2_BLOCK_LENGTH as int, true)->Some_0,
            ),
            r is Ok ==> {
                let start = r->Ok_0;
                &&& start.upload.frames(self.endpoint_out, ADDR_BL2, bl2@, BL2_BLOCK_LENGTH)
                &&& start.run@ == vendor_out(
                    REQ_RUN_IN_ADDR,
                    address_value(ADDR_BL2),
                    address_index(ADDR_BL2),
                    le32(run_word(ADDR_BL2, true)),
                )
                &&& start.settle_ms == BL2_SETTLE_MS
                &&& start.next == (BootAsk {
                    bootloader,
                    seq: 0,
                    prev_length: 0,
                    prev_offset: 0,
                    iterations: 1,
                    retry_count: 0,
                })
                &&& start.next.wf()
            },
    {
        match self.write_large_memory(ADDR_BL2, bl2, BL2_BLOCK_LENGTH, true) {
            Err(e) => Err(e),
            Ok(upload) => Ok(
                BootStart {
                    upload,
                    run: self.run(ADDR_BL2, Some(true)),
                    settle_ms: BL2_SETTLE_MS,
                    next: BootAsk {
                        bootloader,
                        seq: 0,
                        prev_length: 0,
                        prev_offset: 0,
                        iterations: 1,
                        retry_count: 0,
                    },
                },
            ),
        }
    }
}

} // verus!
