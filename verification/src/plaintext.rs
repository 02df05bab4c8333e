//! Fixed-width message payloads and their 32-byte message block.

use vstd::prelude::*;

verus! {

/// A message payload of fixed width.
#[derive(Clone, Copy, Debug)]
pub enum DataType {
    U32(u32),
    U64(u64),
    U128(u128),
    Bytes32([u8; 32]),
    Address([u8; 48]),
}

/// The `width` low-order bytes of `value`, least significant byte first.
pub open spec fn le_bytes(value: nat, width: nat) -> Seq<u8>
    decreases width,
{
    if width == 0 {
        Seq::empty()
    } else {
        seq![(value % 256) as u8] + le_bytes(value / 256, (width - 1) as nat)
    }
}

/// The message block of a byte string: its first 32 bytes, followed by
/// zeros where the string is shorter.
pub open spec fn normalized(bytes: Seq<u8>) -> Seq<u8> {
    Seq::new(
        32,
        |i: int|
            if i < bytes.len() {
                bytes[i]
            } else {
                0u8
            },
    )
}

impl DataType {
    /// The canonical byte sequence of a payload: little-endian for the
    /// integers, the bytes as they are for the byte blocks.
    pub open spec fn encoding(self) -> Seq<u8> {
        match self {
            DataType::U32(value) => le_bytes(value as nat, 4),
            DataType::U64(value) => le_bytes(value as nat, 8),
            DataType::U128(value) => le_bytes(value as nat, 16),
            DataType::Bytes32(bytes) => bytes@,
            DataType::Address(bytes) => bytes@,
        }
    }

    /// The 32-byte block under which the payload is encrypted.
    pub open spec fn block(self) -> Seq<u8> {
        normalized(self.encoding())
    }

    /// Encodes the payload as bytes.
    pub fn to_vec(&self) -> (out: Vec<u8>)
        ensures
            out@ == self.encoding(),
    {
        match self {
            DataType::U128(value) => le_encode(*value, 16),
            DataType::Bytes32(bytes) => vstd::slice::slice_to_vec(bytes.as_slice()),
            DataType::Address(bytes) => vstd::slice::slice_to_vec(bytes.as_slice()),
            DataType::U32(value) => le_encode(*value as u128, 4),
            DataType::U64(value) => le_encode(*value as u128, 8),
        }
    }
}

/// Writes the `width` low-order bytes of `value`, least significant first.
fn le_encode(value: u128, width: usize) -> (out: Vec<u8>)
    ensures
        out@ == le_bytes(value as nat, width as nat),
{
    let mut out: Vec<u8> = Vec::new();
    let mut rest: u128 = value;
    let mut done: usize = 0;
    while done < width
        invariant
            done <= width,
            le_bytes(value as nat, width as nat) == out@ + le_bytes(
                rest as nat,
                (width - done) as nat,
            ),
        decreases width - done,
    {
        let low: u8 = (rest % 256) as u8;
        proof {
            let tail = le_bytes((rest / 256) as nat, (width - done - 1) as nat);
            assert(le_bytes(rest as nat, (width - done) as nat) == seq![low] + tail);
            assert(out@ + (seq![low] + tail) =~= out@.push(low) + tail);
        }
        out.push(low);
        rest = rest / 256;
        done = done + 1;
    }
    assert(out@ + Seq::<u8>::empty() =~= out@);
    out
}

/// Fits a byte string into a message block: longer input is cut after 32
/// bytes, shorter input is filled up with zeros. Bytes beyond the 32nd are
/// lost.
pub fn to_array_32(input: Vec<u8>) -> (block: [u8; 32])
    ensures
        block@ == normalized(input@),
{
    let mut block: [u8; 32] = [0u8; 32];
    let len: usize = if input.len() < 32 {
        input.len()
    } else {
        32
    };
    let mut at: usize = 0;
    while at < len
        invariant
            at <= len <= 32,
            len <= input.len(),
            forall|i: int| 0 <= i < at ==> block@[i] == input@[i],
            forall|i: int| at <= i < 32 ==> block@[i] == 0u8,
        decreases len - at,
    {
        block[at] = input[at];
        at = at + 1;
    }
    assert(block@ =~= normalized(input@));
    block
}

/// The number that a byte string stands for when it is read least
/// significant byte first.
pub open spec fn le_value(bytes: Seq<u8>) -> nat
    decreases bytes.len(),
{
    if bytes.len() == 0 {
        0
    } else {
        bytes[0] as nat + 256 * le_value(bytes.drop_first())
    }
}

/// The number of values that `width` bytes can tell apart.
pub open spec fn capacity(width: nat) -> nat
    decreases width,
{
    if width == 0 {
        1
    } else {
        256 * capacity((width - 1) as nat)
    }
}

/// Writing a number in `width` bytes gives `width` bytes.
pub proof fn lemma_le_bytes_len(value: nat, width: nat)
    ensures
        le_bytes(value, width).len() == width,
    decreases width,
{
    if width > 0 {
        lemma_le_bytes_len(value / 256, (width - 1) as nat);
    }
}

/// A number that fits into `width` bytes is read back from them as it was
/// written.
pub proof fn lemma_le_round_trip(value: nat, width: nat)
    requires
        value < capacity(width),
    ensures
        le_value(le_bytes(value, width)) == value,
    decreases width,
{
    if width > 0 {
        let rest = le_bytes(value / 256, (width - 1) as nat);
        lemma_le_round_trip(value / 256, (width - 1) as nat);
        assert(le_bytes(value, width).drop_first() =~= rest);
        assert(le_bytes(value, width)[0] == (value % 256) as u8);
    }
}

/// The encoding of a payload has the width of its variant, which is 48
/// bytes at most. The encoding of an integer loses nothing of it.
pub proof fn lemma_encoding(data: DataType)
    ensures
        data.encoding().len() == match data {
            DataType::U32(_) => 4nat,
            DataType::U64(_) => 8nat,
            DataType::U128(_) => 16nat,
            DataType::Bytes32(_) => 32nat,
            DataType::Address(_) => 48nat,
        },
        data.encoding().len() <= 48,
        data matches DataType::U32(value) ==> le_value(data.encoding()) == value,
        data matches DataType::U64(value) ==> le_value(data.encoding()) == value,
        data matches DataType::U128(value) ==> le_value(data.encoding()) == value,
{
    match data {
        DataType::U32(value) => {
            lemma_le_bytes_len(value as nat, 4);
            assert(capacity(4) == 0x1_0000_0000) by {
                reveal_with_fuel(capacity, 5);
            }
            lemma_le_round_trip(value as nat, 4);
        },
        DataType::U64(value) => {
            lemma_le_bytes_len(value as nat, 8);
            assert(capacity(8) == 0x1_0000_0000_0000_0000) by {
                reveal_with_fuel(capacity, 9);
            }
            lemma_le_round_trip(value as nat, 8);
        },
        DataType::U128(value) => {
            lemma_le_bytes_len(value as nat, 16);
            assert(capacity(16) == 0x1_0000_0000_0000_0000_0000_0000_0000_0000) by {
                reveal_with_fuel(capacity, 17);
            }
            lemma_le_round_trip(value as nat, 16);
        },
        DataType::Bytes32(_) => {},
        DataType::Address(_) => {},
    }
}

/// A message block is 32 bytes long, and fitting it into a block again
/// changes nothing.
pub proof fn lemma_normalized_idempotent(bytes: Seq<u8>)
    ensures
        normalized(bytes).len() == 32,
        normalized(normalized(bytes)) == normalized(bytes),
{
    assert(normalized(normalized(bytes)) =~= normalized(bytes));
}

/// A byte string of 32 bytes is its own message block.
pub proof fn lemma_normalized_keeps_blocks(bytes: Seq<u8>)
    requires
        bytes.len() == 32,
    ensures
        normalized(bytes) == bytes,
{
    assert(normalized(bytes) =~= bytes);
}

/// A shorter byte string stands at the start of its message block and zeros
/// follow. Of a longer one the block keeps the first 32 bytes.
pub proof fn lemma_normalized_pads_and_cuts(bytes: Seq<u8>)
    ensures
        bytes.len() <= 32 ==> normalized(bytes) == bytes + Seq::new(
            (32 - bytes.len()) as nat,
            |i: int| 0u8,
        ),
        bytes.len() >= 32 ==> normalized(bytes) == bytes.take(32),
{
    if bytes.len() <= 32 {
        assert(normalized(bytes) =~= bytes + Seq::new((32 - bytes.len()) as nat, |i: int| 0u8));
    }
    if bytes.len() >= 32 {
        assert(normalized(bytes) =~= bytes.take(32));
    }
}

/// The message block of a payload of 32 bytes is the payload itself.
pub proof fn lemma_bytes32_block(bytes: [u8; 32])
    ensures
        DataType::Bytes32(bytes).block() == bytes@,
        normalized(DataType::Bytes32(bytes).block()) == bytes@,
{
    lemma_normalized_keeps_blocks(bytes@);
}

} // verus!
