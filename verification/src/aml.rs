//! The command surface of the SoC: how each command is framed on the wire
//! and how its reply is read.

use crate::chunks::{
    chunk_count, chunk_end, chunk_of, lemma_chunk_bounds, lemma_chunk_count_exact,
    lemma_chunk_starts, split_chunks,
};
use crate::error::{invalid_operation, Error, ErrorView};
use crate::usb::{
    address_index, address_value, copy_all, copy_range, from_le32, le32, push_le32, read_le32,
    split_address, vendor_in, vendor_out, BulkIn, BulkOut, BulkOutView, ControlIn, ControlOut,
    COMMAND_TIMEOUT_MS, REQUEST_TYPE_IN, REQUEST_TYPE_OUT,
};
use crate::text::{mentions, mentions_success, success_word, text_from_utf8, trim_zero_bytes, trim_zeros};
use vstd::arithmetic::div_mod::{
    lemma_fundamental_div_mod, lemma_fundamental_div_mod_converse,
    lemma_mod_division_less_than_divisor, lemma_mod_self_0, lemma_small_mod,
};
use vstd::prelude::*;
use vstd::string::StringSliceAdditionalSpecFns;
use vstd::utf8::{decode_utf8, valid_utf8};

verus! {

pub const REQ_WRITE_MEM: u8 = 0x01;

pub const REQ_READ_MEM: u8 = 0x02;

pub const REQ_RUN_IN_ADDR: u8 = 0x05;

pub const REQ_WR_LARGE_MEM: u8 = 0x11;

pub const REQ_IDENTIFY_HOST: u8 = 0x20;

pub const REQ_BULKCMD: u8 = 0x34;

pub const REQ_GET_AMLC: u8 = 0x50;

pub const REQ_WRITE_AMLC: u8 = 0x60;

/// Set in the payload of a run request to keep the device powered.
pub const FLAG_KEEP_POWER_ON: u32 = 0x10;

/// Most bytes that one simple memory request moves.
pub const SIMPLE_MEMORY_LIMIT: usize = 64;

/// Timeout of one block of a large memory write, in milliseconds.
pub const LARGE_BLOCK_TIMEOUT_MS: u64 = 2000;

/// Most bytes of a bulk command's reply.
pub const BULKCMD_REPLY_LENGTH: usize = 512;

/// Length of the reply to an identify request.
pub const IDENTIFY_LENGTH: usize = 8;

/// The connection parameters of a device whose interface has been claimed.
#[derive(Debug, Clone, Copy, PartialEq, Eq, Structural)]
pub struct AmlogicSoC {
    pub interface_number: u8,
    pub endpoint_in: u8,
    pub endpoint_out: u8,
}

/// One large memory write: the announcing request, then the blocks.
#[derive(Debug)]
pub struct LargeWrite {
    pub header: ControlOut,
    pub blocks: Vec<BulkOut>,
}

/// The number of zero bytes that bring `len` bytes up to a multiple of
/// `block`.
pub open spec fn padding_len(len: int, block: int) -> int {
    (block - len % block) % block
}

/// `data`, followed by zeros up to the next multiple of `block`.
pub open spec fn padded(data: Seq<u8>, block: int) -> Seq<u8> {
    data + Seq::new(padding_len(data.len() as int, block) as nat, |i: int| 0u8)
}

/// The padded length is the least multiple of the block length that is not
/// below the length of the data.
pub proof fn law_padded_length(data: Seq<u8>, block: int)
    requires
        block > 0,
    ensures
        (padded(data, block).len() as int) % block == 0,
        data.len() <= padded(data, block).len() < data.len() + block,
        padded(data, block).len() == chunk_count(data.len() as int, block) * block,
        (data.len() as int) % block == 0 ==> padded(data, block) == data,
{
    let len = data.len() as int;
    let pad = padding_len(len, block);
    let n = chunk_count(len, block);
    let q = len / block;
    let r = len % block;
    lemma_fundamental_div_mod(len, block);
    lemma_mod_division_less_than_divisor(len, block);
    assert(block * q == q * block) by (nonlinear_arith);
    assert((q + 1) * block == q * block + block) by (nonlinear_arith);
    if r == 0 {
        lemma_mod_self_0(block);
        lemma_fundamental_div_mod_converse(len + block - 1, block, q, block - 1);
        lemma_fundamental_div_mod_converse(len + pad, block, q, 0);
    } else {
        lemma_small_mod((block - r) as nat, block as nat);
        lemma_fundamental_div_mod_converse(len + block - 1, block, q + 1, r - 1);
        lemma_fundamental_div_mod_converse(len + pad, block, q + 1, 0);
    }
    if len % block == 0 {
        assert(padded(data, block) =~= data);
    }
}

/// The sixteen bytes that announce a large memory write.
pub open spec fn large_write_header(address: u32, total: u32) -> Seq<u8> {
    le32(address) + le32(total) + le32(0) + le32(0)
}

/// Why a large memory write of `len` bytes in blocks of `block` bytes cannot
/// be framed, if it cannot: the block length and the number of blocks are
/// sixteen-bit fields on the wire, and without padding the data must fill its
/// blocks.
pub open spec fn large_write_refusal(len: int, block: int, append_zeros: bool) -> Option<
    Seq<char>,
> {
    if block <= 0 || block > 0xffff {
        Some("Block length must be between 1 and 65535"@)
    } else if !append_zeros && len % block != 0 {
        Some("Large Data must be a multiple of block length"@)
    } else if chunk_count(len, block) > 0xffff {
        Some("Large Data takes more than 65535 blocks"@)
    } else {
        None
    }
}

/// Whether a large memory write of `len` bytes in blocks of `block` bytes can
/// be framed.
pub open spec fn large_write_fits(len: int, block: int, append_zeros: bool) -> bool {
    large_write_refusal(len, block, append_zeros) is None
}

impl LargeWrite {
    /// Whether this is the write of `data` to `address` in blocks of
    /// `block_length` bytes: the request announces the block length, the
    /// number of blocks, the address and the padded length; the blocks are the
    /// padded data, in order.
    pub open spec fn frames(
        &self,
        endpoint_out: u8,
        address: u32,
        data: Seq<u8>,
        block_length: usize,
    ) -> bool {
        let whole = padded(data, block_length as int);
        &&& self.header@ == vendor_out(
            REQ_WR_LARGE_MEM,
            block_length as u16,
            (whole.len() as int / block_length as int) as u16,
            large_write_header(address, whole.len() as u32),
        )
        &&& self.blocks@.len() == whole.len() as int / block_length as int
        &&& forall|i: int|
            0 <= i < self.blocks@.len() ==> (#[trigger] self.blocks@[i])@ == (BulkOutView {
                endpoint: endpoint_out,
                data: whole.subrange(i * block_length, (i + 1) * block_length),
                timeout_ms: LARGE_BLOCK_TIMEOUT_MS,
            })
    }
}

/// The payload of a run request.
pub open spec fn run_word(address: u32, keep_power: bool) -> u32 {
    if keep_power {
        address | FLAG_KEEP_POWER_ON
    } else {
        address
    }
}

/// Length of an AMLC request block and of the block that closes a packet.
pub const AMLC_AMLS_BLOCK_LENGTH: usize = 0x200;

/// Timeout of the transfers of an AMLC request, in milliseconds.
pub const AMLC_REQUEST_TIMEOUT_MS: u64 = 2000;

/// Length of an acknowledgement.
pub const ACK_LENGTH: usize = 16;

/// The bytes of the tag `AMLC`.
pub open spec fn amlc_tag() -> Seq<u8> {
    seq![0x41u8, 0x4du8, 0x4cu8, 0x43u8]
}

/// The bytes of the tag `OKAY`.
pub open spec fn okay_tag() -> Seq<u8> {
    seq![0x4fu8, 0x4bu8, 0x41u8, 0x59u8]
}

/// The sixteen bytes of an acknowledgement: the tag `OKAY`, then zeros.
pub open spec fn okay_block() -> Seq<u8> {
    okay_tag() + Seq::new(12, |i: int| 0u8)
}

/// What the device asks for in an AMLC request block: a length and an offset
/// into the bootloader.
pub open spec fn amlc_request(block: Seq<u8>) -> (u32, u32) {
    (
        from_le32(block[8], block[9], block[10], block[11]),
        from_le32(block[12], block[13], block[14], block[15]),
    )
}

/// What a bulk command's reply means, once its zero bytes are trimmed.
pub enum ReplyKind {
    /// Nothing arrived.
    Silent,
    /// The reply is not UTF-8.
    Garbled,
    /// The reply does not mention success.
    Refused,
    /// The reply mentions success.
    Accepted,
}

/// How a bulk command's reply is read.
pub open spec fn reply_kind(received: Seq<u8>) -> ReplyKind {
    if received.len() == 0 {
        ReplyKind::Silent
    } else if !valid_utf8(trim_zeros(received)) {
        ReplyKind::Garbled
    } else if !mentions(trim_zeros(received), success_word()) {
        ReplyKind::Refused
    } else {
        ReplyKind::Accepted
    }
}

impl AmlogicSoC {
    /// The command surface of a device that was claimed on the given
    /// interface and endpoints.
    pub fn new(interface_number: u8, endpoint_in: u8, endpoint_out: u8) -> (soc: AmlogicSoC)
        ensures
            soc == (AmlogicSoC { interface_number, endpoint_in, endpoint_out }),
    {
        AmlogicSoC { interface_number, endpoint_in, endpoint_out }
    }

    /// The request that writes up to 64 bytes to `address`.
    ///
    /// More than 64 bytes are refused.
    pub fn write_simple_memory(&self, address: u32, data: &[u8]) -> (r: Result<ControlOut, Error>)
        ensures
            data@.len() > SIMPLE_MEMORY_LIMIT ==> r is Err && r->Err_0@
                == ErrorView::InvalidOperation("Maximum size of 64 bytes"@),
            data@.len() <= SIMPLE_MEMORY_LIMIT ==> r is Ok && r->Ok_0@ == vendor_out(
                REQ_WRITE_MEM,
                address_value(address),
                address_index(address),
                data@,
            ),
    {
        if data.len() > SIMPLE_MEMORY_LIMIT {
            return Err(invalid_operation("Maximum size of 64 bytes"));
        }
        let (value, index) = split_address(address);
        Ok(
            ControlOut {
                request_type: REQUEST_TYPE_OUT,
                request: REQ_WRITE_MEM,
                value,
                index,
                data: copy_all(data),
                timeout_ms: COMMAND_TIMEOUT_MS,
            },
        )
    }

    /// The requests that write `data` to `address`, 64 bytes at a time.
    pub fn write_memory(&self, address: u32, data: &[u8]) -> (plan: Vec<ControlOut>)
        requires
            address + data@.len() <= 0x1_0000_0000,
        ensures
            plan@.len() == chunk_count(data@.len() as int, 64),
            forall|i: int|
                0 <= i < plan@.len() ==> (#[trigger] plan@[i])@ == vendor_out(
                    REQ_WRITE_MEM,
                    address_value((address + 64 * i) as u32),
                    address_index((address + 64 * i) as u32),
                    chunk_of(data@, 64, i),
                ),
    {
        let pieces = split_chunks(data, SIMPLE_MEMORY_LIMIT);
        let mut plan: Vec<ControlOut> = Vec::new();
        let mut i: usize = 0;
        while i < pieces.len()
            invariant
                address + data@.len() <= 0x1_0000_0000,
                pieces@.len() == chunk_count(data@.len() as int, 64),
                forall|k: int|
                    0 <= k < pieces@.len() ==> (#[trigger] pieces@[k])@ == chunk_of(data@, 64, k),
                i <= pieces@.len(),
                plan@.len() == i,
                forall|k: int|
                    0 <= k < i ==> (#[trigger] plan@[k])@ == vendor_out(
                        REQ_WRITE_MEM,
                        address_value((address + 64 * k) as u32),
                        address_index((address + 64 * k) as u32),
                        chunk_of(data@, 64, k),
                    ),
            decreases pieces@.len() - i,
        {
            proof {
                lemma_chunk_starts(data@.len() as int, 64, i as int);
            }
            let at: u32 = address + (64 * i) as u32;
            let (value, index) = split_address(at);
            let piece = &pieces[i];
            plan.push(
                ControlOut {
                    request_type: REQUEST_TYPE_OUT,
                    request: REQ_WRITE_MEM,
                    value,
                    index,
                    data: copy_all(piece.as_slice()),
                    timeout_ms: COMMAND_TIMEOUT_MS,
                },
            );
            i = i + 1;
        }
        plan
    }

    /// The request that reads `length` bytes from `address`: none for a
    /// length of zero, whose result is empty.
    ///
    /// More than 64 bytes are refused.
    pub fn read_simple_memory(&self, address: u32, length: usize) -> (r: Result<
        Option<ControlIn>,
        Error,
    >)
        ensures
            length == 0 ==> r == Ok::<Option<ControlIn>, Error>(None),
            length > SIMPLE_MEMORY_LIMIT ==> r is Err && r->Err_0@ == ErrorView::InvalidOperation(
                "Maximum size of 64 bytes"@,
            ),
            0 < length <= SIMPLE_MEMORY_LIMIT ==> r == Ok::<Option<ControlIn>, Error>(
                Some(
                    vendor_in(REQ_READ_MEM, address_value(address), address_index(address), length),
                ),
            ),
    {
        if length == 0 {
            return Ok(None);
        }
        if length > SIMPLE_MEMORY_LIMIT {
            return Err(invalid_operation("Maximum size of 64 bytes"));
        }
        let (value, index) = split_address(address);
        Ok(
            Some(
                ControlIn {
                    request_type: REQUEST_TYPE_IN,
                    request: REQ_READ_MEM,
                    value,
                    index,
                    length,
                    timeout_ms: COMMAND_TIMEOUT_MS,
                },
            ),
        )
    }

    /// What a simple memory read returns once `received` has arrived: the
    /// bytes, if they are as many as were asked for.
    pub fn read_simple_memory_reply(&self, length: usize, received: Vec<u8>) -> (r: Result<
        Vec<u8>,
        Error,
    >)
        ensures
            received@.len() == length ==> r is Ok && r->Ok_0@ == received@,
            received@.len() != length ==> r is Err && r->Err_0@ == ErrorView::InvalidOperation(
                "Incomplete read"@,
            ),
    {
        if received.len() != length {
            return Err(invalid_operation("Incomplete read"));
        }
        Ok(received)
    }

    /// The request that starts execution at `address`. The device stays
    /// powered unless `keep_power` says otherwise.
    pub fn run(&self, address: u32, keep_power: Option<bool>) -> (request: ControlOut)
        ensures
            request@ == vendor_out(
                REQ_RUN_IN_ADDR,
                address_value(address),
                address_index(address),
                le32(run_word(address, keep_power != Some(false))),
            ),
    {
        let keep: bool = match keep_power {
            Some(k) => k,
            None => true,
        };
        let word: u32 = if keep {
            address | FLAG_KEEP_POWER_ON
        } else {
            address
        };
        let mut data: Vec<u8> = Vec::new();
        push_le32(&mut data, word);
        assert(data@ =~= le32(word));
        let (value, index) = split_address(address);
        ControlOut {
            request_type: REQUEST_TYPE_OUT,
            request: REQ_RUN_IN_ADDR,
            value,
            index,
            data,
            timeout_ms: COMMAND_TIMEOUT_MS,
        }
    }

    /// The request that asks the device to identify itself.
    pub fn identify(&self) -> (request: ControlIn)
        ensures
            request == vendor_in(REQ_IDENTIFY_HOST, 0, 0, IDENTIFY_LENGTH),
    {
        ControlIn {
            request_type: REQUEST_TYPE_IN,
            request: REQ_IDENTIFY_HOST,
            value: 0,
            index: 0,
            length: IDENTIFY_LENGTH,
            timeout_ms: COMMAND_TIMEOUT_MS,
        }
    }

    /// The transfers that write `data` to `address` in blocks of
    /// `block_length` bytes.
    ///
    /// With `append_zeros` the data is padded with zeros to a whole number of
    /// blocks; without it, data that does not fill its blocks is refused. The
    /// block length and the number of blocks travel in sixteen-bit fields: a
    /// write whose block length is zero or above 65535, or that takes more
    /// than 65535 blocks, is refused as well.
    pub fn write_large_memory(
        &self,
        address: u32,
        data: &[u8],
        block_length: usize,
        append_zeros: bool,
    ) -> (r: Result<LargeWrite, Error>)
        ensures
            r is Ok <==> large_write_fits(data@.len() as int, block_length as int, append_zeros),
            r is Err ==> r->Err_0@ == ErrorView::InvalidOperation(
                large_write_refusal(
                    data@.len() as int,
                    block_length as int,
                    append_zeros,
                )->Some_0,
            ),
            r is Ok ==> r->Ok_0.frames(self.endpoint_out, address, data@, block_length),
    {
        if block_length == 0 || block_length > 0xffff {
            return Err(invalid_operation("Block length must be between 1 and 65535"));
        }
        let len: usize = data.len();
        let remainder: usize = len % block_length;
        if !append_zeros && remainder != 0 {
            return Err(invalid_operation("Large Data must be a multiple of block length"));
        }
        let full: usize = len / block_length;
        if full > 0xffff || (full == 0xffff && remainder != 0) {
            proof {
                assert(chunk_count(len as int, block_length as int) > 0xffff) by (nonlinear_arith)
                    requires
                        block_length > 0,
                        full as int == len as int / block_length as int,
                        remainder as int == len as int % block_length as int,
                        full > 0xffff || (full == 0xffff && remainder != 0),
                ;
            }
            return Err(invalid_operation("Large Data takes more than 65535 blocks"));
        }
        let count: usize = if remainder != 0 {
            full + 1
        } else {
            full
        };
        let ghost whole = padded(data@, block_length as int);
        proof {
            law_padded_length(data@, block_length as int);
            assert(count as int == chunk_count(len as int, block_length as int))
                by (nonlinear_arith)
                requires
                    block_length > 0,
                    full as int == len as int / block_length as int,
                    remainder as int == len as int % block_length as int,
                    count as int == if remainder != 0 {
                        full + 1
                    } else {
                        full as int
                    },
            ;
            assert(count * block_length <= 0xffff * 0xffff) by (nonlinear_arith)
                requires
                    count <= 0xffff,
                    block_length <= 0xffff,
            ;
            assert(whole.len() as int / block_length as int == count) by (nonlinear_arith)
                requires
                    whole.len() == count * block_length,
                    block_length > 0,
            ;
        }
        let total: usize = count * block_length;
        let mut whole_data: Vec<u8> = copy_all(data);
        assert(whole_data@ =~= data@ + Seq::new(0, |i: int| 0u8));
        while whole_data.len() < total
            invariant
                len <= total,
                len == data@.len(),
                len <= whole_data@.len() <= total,
                whole_data@ == data@ + Seq::new(
                    (whole_data@.len() - len) as nat,
                    |i: int| 0u8,
                ),
            decreases total - whole_data@.len(),
        {
            whole_data.push(0u8);
            assert(whole_data@ =~= data@ + Seq::new(
                (whole_data@.len() - len) as nat,
                |i: int| 0u8,
            ));
        }
        assert(whole_data@ =~= whole);
        let mut header_data: Vec<u8> = Vec::new();
        push_le32(&mut header_data, address);
        push_le32(&mut header_data, total as u32);
        push_le32(&mut header_data, 0);
        push_le32(&mut header_data, 0);
        assert(header_data@ =~= large_write_header(address, total as u32));
        let header = ControlOut {
            request_type: REQUEST_TYPE_OUT,
            request: REQ_WR_LARGE_MEM,
            value: block_length as u16,
            index: count as u16,
            data: header_data,
            timeout_ms: COMMAND_TIMEOUT_MS,
        };
        let mut blocks: Vec<BulkOut> = Vec::new();
        let mut i: usize = 0;
        while i < count
            invariant
                i <= count,
                total == count * block_length,
                whole_data@.len() == total,
                block_length > 0,
                blocks@.len() == i,
                forall|k: int|
                    0 <= k < i ==> (#[trigger] blocks@[k])@ == (BulkOutView {
                        endpoint: self.endpoint_out,
                        data: whole_data@.subrange(k * block_length, (k + 1) * block_length),
                        timeout_ms: LARGE_BLOCK_TIMEOUT_MS,
                    }),
            decreases count - i,
        {
            proof {
                assert(0 <= i * block_length && (i + 1) * block_length <= count * block_length
                    && (i + 1) * block_length == i * block_length + block_length)
                    by (nonlinear_arith)
                    requires
                        i < count,
                        block_length > 0,
                ;
            }
            let start: usize = i * block_length;
            let block = copy_range(whole_data.as_slice(), start, start + block_length);
            blocks.push(
                BulkOut {
                    endpoint: self.endpoint_out,
                    data: block,
                    timeout_ms: LARGE_BLOCK_TIMEOUT_MS,
                },
            );
            i = i + 1;
        }
        Ok(LargeWrite { header, blocks })
    }

    /// What an identify request returns once `received` has arrived: the
    /// eight bytes as text.
    pub fn identify_reply(&self, received: Vec<u8>) -> (r: Result<String, Error>)
        ensures
            received@.len() != IDENTIFY_LENGTH ==> r is Err && r->Err_0@
                == ErrorView::InvalidOperation("Failed to read identify data"@),
            received@.len() == IDENTIFY_LENGTH && !valid_utf8(received@) ==> r is Err
                && r->Err_0@ == ErrorView::Utf8Error,
            received@.len() == IDENTIFY_LENGTH && valid_utf8(received@) ==> r is Ok && r->Ok_0@
                == decode_utf8(received@),
    {
        if received.len() != IDENTIFY_LENGTH {
            return Err(invalid_operation("Failed to read identify data"));
        }
        match text_from_utf8(received) {
            Some(text) => Ok(text),
            None => Err(Error::Utf8Error),
        }
    }

    /// The transfers of a bulk command whose text is given as bytes: the
    /// text and a closing zero byte go out, up to 512 bytes of reply come in.
    pub fn bulkcmd_bytes(&self, command: &[u8]) -> (transfers: (ControlOut, BulkIn))
        ensures
            transfers.0@ == vendor_out(REQ_BULKCMD, 0, 0, command@.push(0u8)),
            transfers.1 == (BulkIn {
                endpoint: self.endpoint_in,
                length: BULKCMD_REPLY_LENGTH,
                timeout_ms: COMMAND_TIMEOUT_MS,
            }),
    {
        let mut data = copy_all(command);
        data.push(0u8);
        (
            ControlOut {
                request_type: REQUEST_TYPE_OUT,
                request: REQ_BULKCMD,
                value: 0,
                index: 0,
                data,
                timeout_ms: COMMAND_TIMEOUT_MS,
            },
            BulkIn {
                endpoint: self.endpoint_in,
                length: BULKCMD_REPLY_LENGTH,
                timeout_ms: COMMAND_TIMEOUT_MS,
            },
        )
    }

    /// The transfers of the bulk command `command`.
    pub fn bulkcmd(&self, command: &str) -> (transfers: (ControlOut, BulkIn))
        ensures
            transfers.0@ == vendor_out(REQ_BULKCMD, 0, 0, command.spec_bytes().push(0u8)),
            transfers.1 == (BulkIn {
                endpoint: self.endpoint_in,
                length: BULKCMD_REPLY_LENGTH,
                timeout_ms: COMMAND_TIMEOUT_MS,
            }),
    {
        self.bulkcmd_bytes(command.as_bytes())
    }

    /// What a bulk command returns once `received` has arrived: the reply
    /// without the zero bytes around it, if it mentions success.
    pub fn bulkcmd_reply(&self, received: &[u8]) -> (r: Result<String, Error>)
        ensures
            match reply_kind(received@) {
                ReplyKind::Silent => r is Err && r->Err_0@ == ErrorView::InvalidOperation(
                    "No response received for bulk command"@,
                ),
                ReplyKind::Garbled => r is Err && r->Err_0@ == ErrorView::Utf8Error,
                ReplyKind::Refused => r is Err && r->Err_0@ == ErrorView::InvalidOperation(
                    "Bulk command failed, response did not contain 'success': "@ + decode_utf8(
                        trim_zeros(received@),
                    ),
                ),
                ReplyKind::Accepted => r is Ok && r->Ok_0@ == decode_utf8(trim_zeros(received@)),
            },
    {
        if received.len() == 0 {
            return Err(invalid_operation("No response received for bulk command"));
        }
        let trimmed = trim_zero_bytes(received);
        let accepted = mentions_success(trimmed.as_slice());
        match text_from_utf8(trimmed) {
            None => Err(Error::Utf8Error),
            Some(text) => {
                if accepted {
                    Ok(text)
                } else {
                    let message = "Bulk command failed, response did not contain 'success': ".to_owned().concat(
                        text.as_str(),
                    );
                    Err(Error::InvalidOperation(message))
                }
            },
        }
    }

    /// The transfers that ask the device which part of the bootloader it
    /// wants next.
    pub fn get_boot_amlc(&self) -> (transfers: (ControlOut, BulkIn))
        ensures
            transfers.0@ == vendor_out(REQ_GET_AMLC, 0x200, 0, Seq::<u8>::empty()),
            transfers.1 == (BulkIn {
                endpoint: self.endpoint_in,
                length: AMLC_AMLS_BLOCK_LENGTH,
                timeout_ms: AMLC_REQUEST_TIMEOUT_MS,
            }),
    {
        (
            ControlOut {
                request_type: REQUEST_TYPE_OUT,
                request: REQ_GET_AMLC,
                value: 0x200,
                index: 0,
                data: Vec::new(),
                timeout_ms: COMMAND_TIMEOUT_MS,
            },
            BulkIn {
                endpoint: self.endpoint_in,
                length: AMLC_AMLS_BLOCK_LENGTH,
                timeout_ms: AMLC_REQUEST_TIMEOUT_MS,
            },
        )
    }

    /// Reads the block that answers an AMLC request: the length and offset
    /// that the device asks for, and the acknowledgement to send back.
    ///
    /// The block must be whole and start with the tag `AMLC`.
    pub fn get_boot_amlc_reply(&self, received: &[u8]) -> (r: Result<((u32, u32), BulkOut), Error>)
        ensures
            received@.len() < AMLC_AMLS_BLOCK_LENGTH ==> r is Err && r->Err_0@
                == ErrorView::InvalidOperation("No amlc data received"@),
            received@.len() >= AMLC_AMLS_BLOCK_LENGTH && !valid_utf8(received@.subrange(0, 4))
                ==> r is Err && r->Err_0@ == ErrorView::Utf8Error,
            received@.len() >= AMLC_AMLS_BLOCK_LENGTH && valid_utf8(received@.subrange(0, 4))
                && received@.subrange(0, 4) != amlc_tag() ==> r is Err && r->Err_0@
                == ErrorView::InvalidOperation(
                "invalid amlc request: "@ + decode_utf8(received@.subrange(0, 4)),
            ),
            received@.len() >= AMLC_AMLS_BLOCK_LENGTH && valid_utf8(received@.subrange(0, 4))
                && received@.subrange(0, 4) == amlc_tag() ==> r is Ok && r->Ok_0.0 == amlc_request(
                received@,
            ) && r->Ok_0.1@ == (BulkOutView {
                endpoint: self.endpoint_out,
                data: okay_block(),
                timeout_ms: AMLC_REQUEST_TIMEOUT_MS,
            }),
    {
        if received.len() < AMLC_AMLS_BLOCK_LENGTH {
            return Err(invalid_operation("No amlc data received"));
        }
        let tag = copy_range(received, 0, 4);
        let is_amlc: bool = tag[0] == 0x41 && tag[1] == 0x4d && tag[2] == 0x4c && tag[3] == 0x43;
        assert(is_amlc == (tag@ =~= amlc_tag()));
        match text_from_utf8(tag) {
            None => Err(Error::Utf8Error),
            Some(text) => {
                if !is_amlc {
                    let message = "invalid amlc request: ".to_owned().concat(text.as_str());
                    return Err(Error::InvalidOperation(message));
                }
                let length = read_le32(received, 8);
                let offset = read_le32(received, 12);
                let mut ack: Vec<u8> = Vec::new();
                ack.push(0x4fu8);
                ack.push(0x4bu8);
                ack.push(0x41u8);
                ack.push(0x59u8);
                while ack.len() < ACK_LENGTH
                    invariant
                        4 <= ack@.len() <= ACK_LENGTH,
                        ack@ == okay_tag() + Seq::new((ack@.len() - 4) as nat, |i: int| 0u8),
                    decreases ACK_LENGTH - ack@.len(),
                {
                    ack.push(0u8);
                    assert(ack@ =~= okay_tag() + Seq::new((ack@.len() - 4) as nat, |i: int| 0u8));
                }
                Ok(
                    (
                        (length, offset),
                        BulkOut {
                            endpoint: self.endpoint_out,
                            data: ack,
                            timeout_ms: AMLC_REQUEST_TIMEOUT_MS,
                        },
                    ),
                )
            },
        }
    }

    /// The requests that read `length` bytes from `address`, 64 bytes at a
    /// time.
    pub fn read_memory(&self, address: u32, length: usize) -> (plan: Vec<ControlIn>)
        requires
            address + length <= 0x1_0000_0000,
        ensures
            plan@.len() == chunk_count(length as int, 64),
            forall|i: int|
                0 <= i < plan@.len() ==> #[trigger] plan@[i] == vendor_in(
                    REQ_READ_MEM,
                    address_value((address + 64 * i) as u32),
                    address_index((address + 64 * i) as u32),
                    (chunk_end(length as int, 64, i) - 64 * i) as usize,
                ),
    {
        let mut plan: Vec<ControlIn> = Vec::new();
        let mut offset: usize = 0;
        while offset < length
            invariant
                address + length <= 0x1_0000_0000,
                offset <= length,
                plan@.len() > 0 ==> (plan@.len() - 1) * 64 < length,
                offset as int == chunk_end(length as int, 64, plan@.len() - 1),
                forall|i: int|
                    0 <= i < plan@.len() ==> #[trigger] plan@[i] == vendor_in(
                        REQ_READ_MEM,
                        address_value((address + 64 * i) as u32),
                        address_index((address + 64 * i) as u32),
                        (chunk_end(length as int, 64, i) - 64 * i) as usize,
                    ),
            decreases length - offset,
        {
            let ghost k = plan@.len() as int;
            proof {
                lemma_chunk_bounds(length as int, 64, k);
            }
            let piece: usize = if length - offset > SIMPLE_MEMORY_LIMIT {
                SIMPLE_MEMORY_LIMIT
            } else {
                length - offset
            };
            let (value, index) = split_address(address + offset as u32);
            plan.push(
                ControlIn {
                    request_type: REQUEST_TYPE_IN,
                    request: REQ_READ_MEM,
                    value,
                    index,
                    length: piece,
                    timeout_ms: COMMAND_TIMEOUT_MS,
                },
            );
            offset = offset + piece;
        }
        proof {
            lemma_chunk_count_exact(length as int, 64, plan@.len() as int);
        }
        plan
    }

    /// What a memory read returns once the pieces `received` have arrived,
    /// one for each request: the pieces in order, if each is as long as was
    /// asked for.
    pub fn read_memory_reply(&self, length: usize, received: &Vec<Vec<u8>>) -> (r: Result<
        Vec<u8>,
        Error,
    >)
        ensures
            r is Ok <==> pieces_fit(received@, length as int),
            r is Ok ==> r->Ok_0@ == joined(received@) && r->Ok_0@.len() == length,
            r is Err ==> r->Err_0@ == ErrorView::InvalidOperation("Incomplete read"@),
    {
        let mut data: Vec<u8> = Vec::new();
        let mut i: usize = 0;
        assert(received@.subrange(0, 0) =~= Seq::<Vec<u8>>::empty());
        while i < received.len()
            invariant
                i <= received@.len(),
                data@ == joined(received@.subrange(0, i as int)),
                data@.len() == chunk_end(length as int, 64, i - 1),
                i > 0 ==> (i - 1) * 64 < length,
                forall|k: int|
                    0 <= k < i ==> (#[trigger] received@[k])@.len() == chunk_end(
                        length as int,
                        64,
                        k,
                    ) - 64 * k && k * 64 < length,
            decreases received@.len() - i,
        {
            let piece = &received[i];
            let start: usize = data.len();
            if start >= length || start != 64 * i {
                assert(!pieces_fit(received@, length as int)) by {
                    if pieces_fit(received@, length as int) {
                        lemma_chunk_starts(length as int, 64, i as int);
                    }
                }
                return Err(invalid_operation("Incomplete read"));
            }
            proof {
                lemma_chunk_bounds(length as int, 64, i as int);
            }
            let want: usize = if length - start > SIMPLE_MEMORY_LIMIT {
                SIMPLE_MEMORY_LIMIT
            } else {
                length - start
            };
            if piece.len() != want {
                return Err(invalid_operation("Incomplete read"));
            }
            let mut k: usize = 0;
            while k < piece.len()
                invariant
                    k <= piece@.len(),
                    data@ == joined(received@.subrange(0, i as int)) + piece@.subrange(0, k as int),
                decreases piece@.len() - k,
            {
                data.push(piece[k]);
                assert(data@ =~= joined(received@.subrange(0, i as int)) + piece@.subrange(
                    0,
                    k + 1,
                ));
                k = k + 1;
            }
            proof {
                assert(piece@.subrange(0, piece@.len() as int) =~= piece@);
                assert(received@.subrange(0, i + 1).drop_last() =~= received@.subrange(
                    0,
                    i as int,
                ));
            }
            i = i + 1;
        }
        proof {
            assert(received@.subrange(0, received@.len() as int) =~= received@);
        }
        if data.len() != length {
            assert(!pieces_fit(received@, length as int)) by {
                if pieces_fit(received@, length as int) {
                    let n = received@.len() as int;
                    if n > 0 {
                        lemma_chunk_bounds(length as int, 64, n - 1);
                    }
                }
            }
            return Err(invalid_operation("Incomplete read"));
        }
        proof {
            let n = received@.len() as int;
            if n > 0 {
                lemma_chunk_bounds(length as int, 64, n - 1);
            } else {
                assert(chunk_count(0, 64) == 0);
            }
        }
        Ok(data)
    }
}

/// The pieces of a read, one behind the other.
pub open spec fn joined(pieces: Seq<Vec<u8>>) -> Seq<u8>
    decreases pieces.len(),
{
    if pieces.len() == 0 {
        Seq::<u8>::empty()
    } else {
        joined(pieces.drop_last()) + pieces.last()@
    }
}

/// Whether the pieces are those of a read of `length` bytes: one for each
/// request, each as long as its request asked for.
pub open spec fn pieces_fit(pieces: Seq<Vec<u8>>, length: int) -> bool {
    &&& pieces.len() == chunk_count(length, 64)
    &&& forall|k: int|
        0 <= k < pieces.len() ==> (#[trigger] pieces[k])@.len() == chunk_end(length, 64, k) - 64
            * k
}

} // verus!
