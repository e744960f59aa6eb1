use vstd::prelude::*;

verus! {

/// The opcode that opens the payload of every repay instruction.
pub const REPAY_OPCODE: u64 = 0xea674352d0eadba6;

/// The number that eight bytes spell, most significant byte first.
pub open spec fn be_u64(s: Seq<u8>) -> int
    recommends
        s.len() == 8,
{
    s[0] as int * 0x0100_0000_0000_0000 + s[1] as int * 0x0001_0000_0000_0000 + s[2] as int
        * 0x0000_0100_0000_0000 + s[3] as int * 0x0000_0001_0000_0000 + s[4] as int * 0x0100_0000
        + s[5] as int * 0x0001_0000 + s[6] as int * 0x0100 + s[7] as int
}

/// The number that eight bytes spell, least significant byte first.
pub open spec fn le_u64(s: Seq<u8>) -> int
    recommends
        s.len() == 8,
{
    s[7] as int * 0x0100_0000_0000_0000 + s[6] as int * 0x0001_0000_0000_0000 + s[5] as int
        * 0x0000_0100_0000_0000 + s[4] as int * 0x0000_0001_0000_0000 + s[3] as int * 0x0100_0000
        + s[2] as int * 0x0001_0000 + s[1] as int * 0x0100 + s[0] as int
}

/// The byte of `x` that has `below` as the weight of its lowest bit.
pub open spec fn byte_at(x: u64, below: int) -> u8 {
    ((x as int / below) % 256) as u8
}

/// The eight bytes of `x`, most significant first.
pub open spec fn be_bytes(x: u64) -> Seq<u8> {
    seq![
        byte_at(x, 0x0100_0000_0000_0000),
        byte_at(x, 0x0001_0000_0000_0000),
        byte_at(x, 0x0000_0100_0000_0000),
        byte_at(x, 0x0000_0001_0000_0000),
        byte_at(x, 0x0100_0000),
        byte_at(x, 0x0001_0000),
        byte_at(x, 0x0100),
        byte_at(x, 1),
    ]
}

/// The eight bytes of `x`, least significant first.
pub open spec fn le_bytes(x: u64) -> Seq<u8> {
    seq![
        byte_at(x, 1),
        byte_at(x, 0x0100),
        byte_at(x, 0x0001_0000),
        byte_at(x, 0x0100_0000),
        byte_at(x, 0x0000_0001_0000_0000),
        byte_at(x, 0x0000_0100_0000_0000),
        byte_at(x, 0x0001_0000_0000_0000),
        byte_at(x, 0x0100_0000_0000_0000),
    ]
}

/// Eight bytes always spell a number that fits in 64 bits.
pub proof fn lemma_word_fits(s: Seq<u8>)
    requires
        s.len() == 8,
    ensures
        0 <= be_u64(s) <= u64::MAX,
        0 <= le_u64(s) <= u64::MAX,
{
}

/// Cutting the lowest byte off a number that was cut at `below` cuts it at
/// 256 times `below`.
proof fn lemma_next_byte(x: int, below: int)
    requires
        0 <= x,
        0 < below,
    ensures
        x / below == (x / (below * 256)) * 256 + (x / below) % 256,
{
    vstd::arithmetic::div_mod::lemma_div_denominator(x, below, 256);
    vstd::arithmetic::div_mod::lemma_fundamental_div_mod(x / below, 256);
}

/// Writing a number out and reading it back gives the number, in either byte order.
pub proof fn lemma_bytes_round_trip(x: u64)
    ensures
        be_bytes(x).len() == 8,
        le_bytes(x).len() == 8,
        be_u64(be_bytes(x)) == x,
        le_u64(le_bytes(x)) == x,
{
    let n = x as int;
    lemma_next_byte(n, 1);
    lemma_next_byte(n, 0x100);
    lemma_next_byte(n, 0x1_0000);
    lemma_next_byte(n, 0x100_0000);
    lemma_next_byte(n, 0x1_0000_0000);
    lemma_next_byte(n, 0x100_0000_0000);
    lemma_next_byte(n, 0x1_0000_0000_0000);
    lemma_next_byte(n, 0x100_0000_0000_0000);
    assert(n / 0x1_0000_0000_0000_0000 == 0);
    assert(n / 1 == n);
    let b0 = byte_at(x, 1) as int;
    let b1 = byte_at(x, 0x100) as int;
    let b2 = byte_at(x, 0x1_0000) as int;
    let b3 = byte_at(x, 0x100_0000) as int;
    let b4 = byte_at(x, 0x1_0000_0000) as int;
    let b5 = byte_at(x, 0x100_0000_0000) as int;
    let b6 = byte_at(x, 0x1_0000_0000_0000) as int;
    let b7 = byte_at(x, 0x100_0000_0000_0000) as int;
    assert(n == b7 * 0x100_0000_0000_0000 + b6 * 0x1_0000_0000_0000 + b5 * 0x100_0000_0000 + b4
        * 0x1_0000_0000 + b3 * 0x100_0000 + b2 * 0x1_0000 + b1 * 0x100 + b0);
}

/// Reads the eight bytes of `data` that start at `offset` as a number, most
/// significant byte first. `None` where `data` ends before the eighth byte.
pub fn read_be_u64(data: &[u8], offset: usize) -> (r: Option<u64>)
    ensures
        r == (if offset + 8 <= data.len() {
            Some(be_u64(data@.subrange(offset as int, offset + 8)) as u64)
        } else {
            None
        }),
{
    if data.len() < 8 || offset > data.len() - 8 {
        return None;
    }
    proof {
        lemma_word_fits(data@.subrange(offset as int, offset + 8));
    }
    let mut acc: u64 = data[offset] as u64;
    acc = acc * 256 + data[offset + 1] as u64;
    acc = acc * 256 + data[offset + 2] as u64;
    acc = acc * 256 + data[offset + 3] as u64;
    acc = acc * 256 + data[offset + 4] as u64;
    acc = acc * 256 + data[offset + 5] as u64;
    acc = acc * 256 + data[offset + 6] as u64;
    acc = acc * 256 + data[offset + 7] as u64;
    Some(acc)
}

/// Reads the eight bytes of `data` that start at `offset` as a number, least
/// significant byte first. `None` where `data` ends before the eighth byte.
pub fn read_le_u64(data: &[u8], offset: usize) -> (r: Option<u64>)
    ensures
        r == (if offset + 8 <= data.len() {
            Some(le_u64(data@.subrange(offset as int, offset + 8)) as u64)
        } else {
            None
        }),
{
    if data.len() < 8 || offset > data.len() - 8 {
        return None;
    }
    proof {
        lemma_word_fits(data@.subrange(offset as int, offset + 8));
    }
    let mut acc: u64 = data[offset + 7] as u64;
    acc = acc * 256 + data[offset + 6] as u64;
    acc = acc * 256 + data[offset + 5] as u64;
    acc = acc * 256 + data[offset + 4] as u64;
    acc = acc * 256 + data[offset + 3] as u64;
    acc = acc * 256 + data[offset + 2] as u64;
    acc = acc * 256 + data[offset + 1] as u64;
    acc = acc * 256 + data[offset] as u64;
    Some(acc)
}

/// Appends the eight bytes of `x` to `out`, most significant first.
pub fn push_be_u64(out: &mut Vec<u8>, x: u64)
    ensures
        final(out)@ == old(out)@ + be_bytes(x),
{
    out.push((x / 0x0100_0000_0000_0000 % 256) as u8);
    out.push((x / 0x0001_0000_0000_0000 % 256) as u8);
    out.push((x / 0x0000_0100_0000_0000 % 256) as u8);
    out.push((x / 0x0000_0001_0000_0000 % 256) as u8);
    out.push((x / 0x0100_0000 % 256) as u8);
    out.push((x / 0x0001_0000 % 256) as u8);
    out.push((x / 0x0100 % 256) as u8);
    out.push((x % 256) as u8);
    assert(out@ =~= old(out)@ + be_bytes(x));
}

/// Appends the eight bytes of `x` to `out`, least significant first.
pub fn push_le_u64(out: &mut Vec<u8>, x: u64)
    ensures
        final(out)@ == old(out)@ + le_bytes(x),
{
    out.push((x % 256) as u8);
    out.push((x / 0x0100 % 256) as u8);
    out.push((x / 0x0001_0000 % 256) as u8);
    out.push((x / 0x0100_0000 % 256) as u8);
    out.push((x / 0x0000_0001_0000_0000 % 256) as u8);
    out.push((x / 0x0000_0100_0000_0000 % 256) as u8);
    out.push((x / 0x0001_0000_0000_0000 % 256) as u8);
    out.push((x / 0x0100_0000_0000_0000 % 256) as u8);
    assert(out@ =~= old(out)@ + le_bytes(x));
}

/// What the payload of an instruction says to the lending engine.
#[derive(Clone, Copy, Debug, PartialEq, Eq, Structural)]
pub enum Payload {
    /// The payload does not open with the repay opcode.
    Other,
    /// The payload opens with the repay opcode and ends inside the amount field.
    Truncated,
    /// A repay of `amount`.
    Repay { amount: u64 },
}

/// The reading of a payload: an eight-byte opcode tag, most significant byte
/// first, then an eight-byte amount, least significant byte first. Bytes
/// after the sixteenth are not looked at.
pub open spec fn payload_of(data: Seq<u8>) -> Payload {
    if data.len() < 8 || be_u64(data.subrange(0, 8)) != REPAY_OPCODE {
        Payload::Other
    } else if data.len() < 16 {
        Payload::Truncated
    } else {
        Payload::Repay { amount: le_u64(data.subrange(8, 16)) as u64 }
    }
}

/// The payload of a repay of `amount`.
pub open spec fn repay_bytes(amount: u64) -> Seq<u8> {
    be_bytes(REPAY_OPCODE) + le_bytes(amount)
}

/// Decodes the payload of an instruction.
pub fn decode(data: &[u8]) -> (p: Payload)
    ensures
        p == payload_of(data@),
{
    match read_be_u64(data, 0) {
        Some(tag) => {
            if tag != REPAY_OPCODE {
                Payload::Other
            } else {
                match read_le_u64(data, 8) {
                    Some(amount) => Payload::Repay { amount },
                    None => Payload::Truncated,
                }
            }
        },
        None => Payload::Other,
    }
}

/// Encodes the payload of a repay of `amount`.
pub fn encode_repay(amount: u64) -> (data: Vec<u8>)
    ensures
        data@ == repay_bytes(amount),
        payload_of(data@) == (Payload::Repay { amount }),
{
    let mut data: Vec<u8> = Vec::new();
    push_be_u64(&mut data, REPAY_OPCODE);
    push_le_u64(&mut data, amount);
    proof {
        lemma_repay_round_trip(amount);
    }
    data
}

/// An encoded repay decodes to a repay of the same amount.
pub proof fn lemma_repay_round_trip(amount: u64)
    ensures
        repay_bytes(amount).len() == 16,
        payload_of(repay_bytes(amount)) == (Payload::Repay { amount }),
{
    lemma_bytes_round_trip(REPAY_OPCODE);
    lemma_bytes_round_trip(amount);
    let data = repay_bytes(amount);
    assert(data.subrange(0, 8) =~= be_bytes(REPAY_OPCODE));
    assert(data.subrange(8, 16) =~= le_bytes(amount));
}

} // verus!
