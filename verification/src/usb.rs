//! The four kinds of USB transfer that the protocol uses, as plain values.
//!
//! The functions of this crate describe transfers; whoever owns the device
//! handle performs them.

use vstd::prelude::*;

verus! {

/// `bmRequestType` of a vendor request from host to device.
pub const REQUEST_TYPE_OUT: u8 = 0x40;

/// `bmRequestType` of a vendor request from device to host.
pub const REQUEST_TYPE_IN: u8 = 0xC0;

/// Timeout of a command unless one is named, in milliseconds.
pub const COMMAND_TIMEOUT_MS: u64 = 10_000;

/// A control transfer that carries `data` to the device.
#[derive(Debug)]
pub struct ControlOut {
    pub request_type: u8,
    pub request: u8,
    pub value: u16,
    pub index: u16,
    pub data: Vec<u8>,
    pub timeout_ms: u64,
}

/// What a [`ControlOut`] holds.
pub struct ControlOutView {
    pub request_type: u8,
    pub request: u8,
    pub value: u16,
    pub index: u16,
    pub data: Seq<u8>,
    pub timeout_ms: u64,
}

impl View for ControlOut {
    type V = ControlOutView;

    open spec fn view(&self) -> ControlOutView {
        ControlOutView {
            request_type: self.request_type,
            request: self.request,
            value: self.value,
            index: self.index,
            data: self.data@,
            timeout_ms: self.timeout_ms,
        }
    }
}

/// The vendor request `request` with the given fields, under the default
/// timeout.
pub open spec fn vendor_out(request: u8, value: u16, index: u16, data: Seq<u8>) -> ControlOutView {
    ControlOutView {
        request_type: REQUEST_TYPE_OUT,
        request,
        value,
        index,
        data,
        timeout_ms: COMMAND_TIMEOUT_MS,
    }
}

/// A control transfer that asks the device for up to `length` bytes.
#[derive(Debug, Clone, Copy, PartialEq, Eq, Structural)]
pub struct ControlIn {
    pub request_type: u8,
    pub request: u8,
    pub value: u16,
    pub index: u16,
    pub length: usize,
    pub timeout_ms: u64,
}

/// The vendor request `request` that reads `length` bytes, under the default
/// timeout.
pub open spec fn vendor_in(request: u8, value: u16, index: u16, length: usize) -> ControlIn {
    ControlIn {
        request_type: REQUEST_TYPE_IN,
        request,
        value,
        index,
        length,
        timeout_ms: COMMAND_TIMEOUT_MS,
    }
}

/// A bulk transfer that carries `data` to the endpoint `endpoint`.
#[derive(Debug)]
pub struct BulkOut {
    pub endpoint: u8,
    pub data: Vec<u8>,
    pub timeout_ms: u64,
}

/// What a [`BulkOut`] holds.
pub struct BulkOutView {
    pub endpoint: u8,
    pub data: Seq<u8>,
    pub timeout_ms: u64,
}

impl View for BulkOut {
    type V = BulkOutView;

    open spec fn view(&self) -> BulkOutView {
        BulkOutView { endpoint: self.endpoint, data: self.data@, timeout_ms: self.timeout_ms }
    }
}

/// A bulk transfer that reads up to `length` bytes from the endpoint
/// `endpoint`.
#[derive(Debug, Clone, Copy, PartialEq, Eq, Structural)]
pub struct BulkIn {
    pub endpoint: u8,
    pub length: usize,
    pub timeout_ms: u64,
}

/// The upper sixteen bits of an address, the `value` of an address-bearing
/// request.
pub open spec fn address_value(address: u32) -> u16 {
    (address / 0x1_0000) as u16
}

/// The lower sixteen bits of an address, the `index` of an address-bearing
/// request.
pub open spec fn address_index(address: u32) -> u16 {
    (address % 0x1_0000) as u16
}

/// Splits an address into the `value` and `index` of a request.
pub fn split_address(address: u32) -> (parts: (u16, u16))
    ensures
        parts.0 == address_value(address),
        parts.1 == address_index(address),
        parts.0 as int * 0x1_0000 + parts.1 as int == address as int,
{
    assert(address >> 16 == address / 0x1_0000) by (bit_vector);
    assert(address & 0xffff == address % 0x1_0000) by (bit_vector);
    assert(address >> 16 <= 0xffff) by (bit_vector);
    ((address >> 16) as u16, (address & 0xffff) as u16)
}

/// The four bytes of `x`, least significant first.
pub open spec fn le32(x: u32) -> Seq<u8> {
    seq![
        (x % 0x100) as u8,
        (x / 0x100 % 0x100) as u8,
        (x / 0x1_0000 % 0x100) as u8,
        (x / 0x100_0000) as u8,
    ]
}

/// The number that four bytes spell, least significant first.
pub open spec fn from_le32(b0: u8, b1: u8, b2: u8, b3: u8) -> u32 {
    (b0 as int + b1 as int * 0x100 + b2 as int * 0x1_0000 + b3 as int * 0x100_0000) as u32
}

/// Appends the four bytes of `x`, least significant first, to `out`.
pub fn push_le32(out: &mut Vec<u8>, x: u32)
    ensures
        final(out)@ == old(out)@ + le32(x),
{
    assert(x & 0xff == x % 0x100) by (bit_vector);
    assert((x >> 8) & 0xff == x / 0x100 % 0x100) by (bit_vector);
    assert((x >> 16) & 0xff == x / 0x1_0000 % 0x100) by (bit_vector);
    assert(x >> 24 == x / 0x100_0000 && x >> 24 <= 0xff) by (bit_vector);
    out.push((x & 0xff) as u8);
    out.push(((x >> 8) & 0xff) as u8);
    out.push(((x >> 16) & 0xff) as u8);
    out.push((x >> 24) as u8);
    assert(out@ =~= old(out)@ + le32(x));
}

/// Reads the number that the four bytes at `at` spell, least significant
/// first.
pub fn read_le32(bytes: &[u8], at: usize) -> (x: u32)
    requires
        at + 4 <= bytes@.len(),
    ensures
        x == from_le32(bytes@[at as int], bytes@[at + 1], bytes@[at + 2], bytes@[at + 3]),
{
    let b0: u32 = bytes[at] as u32;
    let b1: u32 = bytes[at + 1] as u32;
    let b2: u32 = bytes[at + 2] as u32;
    let b3: u32 = bytes[at + 3] as u32;
    b0 + b1 * 0x100 + b2 * 0x1_0000 + b3 * 0x100_0000
}

/// A copy of the bytes of `data` from `from` up to `to`.
pub fn copy_range(data: &[u8], from: usize, to: usize) -> (out: Vec<u8>)
    requires
        from <= to <= data@.len(),
    ensures
        out@ == data@.subrange(from as int, to as int),
{
    let mut out: Vec<u8> = Vec::new();
    let mut i: usize = from;
    while i < to
        invariant
            from <= i <= to <= data@.len(),
            out@ == data@.subrange(from as int, i as int),
        decreases to - i,
    {
        out.push(data[i]);
        assert(out@ =~= data@.subrange(from as int, i + 1));
        i = i + 1;
    }
    out
}

/// A copy of all the bytes of `data`.
pub fn copy_all(data: &[u8]) -> (out: Vec<u8>)
    ensures
        out@ == data@,
{
    let out = copy_range(data, 0, data.len());
    assert(data@.subrange(0, data@.len() as int) =~= data@);
    out
}

} // verus!
