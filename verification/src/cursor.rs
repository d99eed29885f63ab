//! Bounds-checked reading of packed, variable-length records.
//!
//! A kernel hands back a buffer and the number of bytes it filled. Only
//! those bytes may be read. A [`RecordCursor`] stands at the start of one
//! record and gives out a field of it, or a run of name units behind it,
//! only when that lies inside the filled part; it moves on by a stride only
//! when the stride stays inside.

use vstd::prelude::*;

verus! {

/// The value of two bytes, least significant first.
pub open spec fn le_u16(b0: u8, b1: u8) -> u16 {
    (b0 + 256 * b1) as u16
}

/// The value of four bytes, least significant first.
pub open spec fn le_u32(b0: u8, b1: u8, b2: u8, b3: u8) -> u32 {
    (b0 + 256 * b1 + 65536 * b2 + 16777216 * b3) as u32
}

/// The 16-bit value whose two bytes stand at `at` in `bytes`.
pub open spec fn u16_at(bytes: Seq<u8>, at: int) -> u16
    recommends
        0 <= at,
        at + 2 <= bytes.len(),
{
    le_u16(bytes[at], bytes[at + 1])
}

/// The 32-bit value whose four bytes stand at `at` in `bytes`.
pub open spec fn u32_at(bytes: Seq<u8>, at: int) -> u32
    recommends
        0 <= at,
        at + 4 <= bytes.len(),
{
    le_u32(bytes[at], bytes[at + 1], bytes[at + 2], bytes[at + 3])
}

/// The `count` 16-bit units whose bytes start at `at` in `bytes`.
pub open spec fn wide_at(bytes: Seq<u8>, at: int, count: nat) -> Seq<u16>
    recommends
        0 <= at,
        at + 2 * count <= bytes.len(),
{
    Seq::new(count, |i: int| u16_at(bytes, at + 2 * i))
}

/// The four bytes of a 32-bit value, least significant first.
pub open spec fn le_bytes(value: u32) -> Seq<u8> {
    seq![
        (value % 256) as u8,
        ((value / 256) % 256) as u8,
        ((value / 65536) % 256) as u8,
        (value / 16777216) as u8,
    ]
}

/// The bytes of a run of 16-bit units, each unit's less significant byte
/// first.
pub open spec fn wide_bytes(units: Seq<u16>) -> Seq<u8> {
    Seq::new(
        2 * units.len(),
        |i: int|
            if i % 2 == 0 {
                (units[i / 2] % 256) as u8
            } else {
                (units[i / 2] / 256) as u8
            },
    )
}

/// Reading back the bytes of a 32-bit value gives the value, wherever in a
/// buffer they stand.
pub proof fn lemma_u32_at_le_bytes(bytes: Seq<u8>, at: int, value: u32)
    requires
        0 <= at,
        at + 4 <= bytes.len(),
        bytes.subrange(at, at + 4) == le_bytes(value),
    ensures
        u32_at(bytes, at) == value,
{
    let field = bytes.subrange(at, at + 4);
    assert(bytes[at] == field[0]);
    assert(bytes[at + 1] == field[1]);
    assert(bytes[at + 2] == field[2]);
    assert(bytes[at + 3] == field[3]);
}

/// Reading back the bytes of a run of 16-bit units gives the units,
/// wherever in a buffer they stand.
pub proof fn lemma_wide_at_wide_bytes(bytes: Seq<u8>, at: int, units: Seq<u16>)
    requires
        0 <= at,
        at + 2 * units.len() <= bytes.len(),
        bytes.subrange(at, at + 2 * units.len()) == wide_bytes(units),
    ensures
        wide_at(bytes, at, units.len()) == units,
{
    let field = bytes.subrange(at, at + 2 * units.len());
    assert forall|i: int| 0 <= i < units.len() implies u16_at(bytes, at + 2 * i) == units[i] by {
        assert(bytes[at + 2 * i] == field[2 * i]);
        assert(bytes[at + 2 * i + 1] == field[2 * i + 1]);
        assert((2 * i) % 2 == 0 && (2 * i) / 2 == i);
        assert((2 * i + 1) % 2 == 1 && (2 * i + 1) / 2 == i);
    }
    assert(wide_at(bytes, at, units.len()) =~= units);
}

/// The smaller of two lengths.
pub open spec fn shorter(a: int, b: int) -> int {
    if a <= b {
        a
    } else {
        b
    }
}

/// A position in the filled part of a buffer.
pub struct RecordCursor<'a> {
    buffer: &'a [u8],
    valid: usize,
    offset: usize,
}

impl<'a> RecordCursor<'a> {
    #[verifier::type_invariant]
    spec fn in_bounds(self) -> bool {
        self.offset <= self.valid <= self.buffer@.len()
    }

    /// The filled bytes: all that the cursor will ever read.
    pub closed spec fn bytes(&self) -> Seq<u8> {
        self.buffer@.take(self.valid as int)
    }

    /// Where the cursor stands, counted from the start of the buffer.
    pub closed spec fn position(&self) -> int {
        self.offset as int
    }

    /// A cursor at the start of `buffer`, of which the first `valid_len`
    /// bytes are filled. A `valid_len` beyond the buffer's end counts as
    /// the buffer's length.
    pub fn new(buffer: &'a [u8], valid_len: usize) -> (cursor: Self)
        ensures
            cursor.bytes() == buffer@.take(shorter(valid_len as int, buffer@.len() as int)),
            cursor.position() == 0,
    {
        let valid: usize = if valid_len <= buffer.len() {
            valid_len
        } else {
            buffer.len()
        };
        RecordCursor { buffer, valid, offset: 0 }
    }

    /// The number of filled bytes from the cursor on.
    pub fn remaining(&self) -> (left: usize)
        ensures
            left == self.bytes().len() - self.position(),
            0 <= self.position() <= self.bytes().len(),
    {
        proof {
            use_type_invariant(self);
        }
        self.valid - self.offset
    }

    /// The 32-bit field that starts `field` bytes behind the cursor, or
    /// `None` where its four bytes are not all filled.
    pub fn read_u32(&self, field: usize) -> (value: Option<u32>)
        ensures
            value == (if self.position() + field + 4 <= self.bytes().len() {
                Some(u32_at(self.bytes(), self.position() + field))
            } else {
                None
            }),
            0 <= self.position() <= self.bytes().len(),
    {
        proof {
            use_type_invariant(self);
        }
        let left: usize = self.valid - self.offset;
        if left < 4 || field > left - 4 {
            return None;
        }
        let at: usize = self.offset + field;
        let b0: u32 = self.buffer[at] as u32;
        let b1: u32 = self.buffer[at + 1] as u32;
        let b2: u32 = self.buffer[at + 2] as u32;
        let b3: u32 = self.buffer[at + 3] as u32;
        Some(b0 + 256 * b1 + 65536 * b2 + 16777216 * b3)
    }

    /// The `count` bytes that start `field` bytes behind the cursor, or
    /// `None` where they are not all filled.
    pub fn read_bytes(&self, field: usize, count: usize) -> (run: Option<Vec<u8>>)
        ensures
            match run {
                Some(v) => self.position() + field + count <= self.bytes().len() && v@
                    == self.bytes().subrange(
                    self.position() + field,
                    self.position() + field + count,
                ),
                None => self.position() + field + count > self.bytes().len(),
            },
            0 <= self.position() <= self.bytes().len(),
    {
        proof {
            use_type_invariant(self);
        }
        let left: usize = self.valid - self.offset;
        if field > left || count > left - field {
            return None;
        }
        let start: usize = self.offset + field;
        let mut run: Vec<u8> = Vec::new();
        let mut i: usize = 0;
        while i < count
            invariant
                i <= count,
                start + count <= self.valid <= self.buffer@.len(),
                run@ == self.buffer@.subrange(start as int, start + i),
            decreases count - i,
        {
            run.push(self.buffer[start + i]);
            i += 1;
        }
        Some(run)
    }

    /// The `count` 16-bit units whose bytes start `field` bytes behind the
    /// cursor, or `None` where their `2 * count` bytes are not all filled.
    pub fn read_wide(&self, field: usize, count: usize) -> (run: Option<Vec<u16>>)
        ensures
            match run {
                Some(v) => self.position() + field + 2 * count <= self.bytes().len() && v@
                    == wide_at(self.bytes(), self.position() + field, count as nat),
                None => self.position() + field + 2 * count > self.bytes().len(),
            },
            0 <= self.position() <= self.bytes().len(),
    {
        proof {
            use_type_invariant(self);
        }
        let left: usize = self.valid - self.offset;
        if field > left || count > (left - field) / 2 {
            return None;
        }
        let start: usize = self.offset + field;
        let mut run: Vec<u16> = Vec::new();
        let mut i: usize = 0;
        while i < count
            invariant
                i <= count,
                start + 2 * count <= self.valid <= self.buffer@.len(),
                run@ == wide_at(self.buffer@.take(self.valid as int), start as int, i as nat),
            decreases count - i,
        {
            let lo: u16 = self.buffer[start + 2 * i] as u16;
            let hi: u16 = self.buffer[start + 2 * i + 1] as u16;
            run.push(lo + 256 * hi);
            i += 1;
        }
        Some(run)
    }

    /// Moves the cursor `stride` bytes on where that stays inside the
    /// filled bytes, and says whether it moved.
    pub fn advance(&mut self, stride: usize) -> (moved: bool)
        ensures
            final(self).bytes() == old(self).bytes(),
            moved == (old(self).position() + stride <= old(self).bytes().len()),
            final(self).position() == old(self).position() + (if moved {
                stride as int
            } else {
                0
            }),
    {
        proof {
            use_type_invariant(&*self);
        }
        if stride <= self.valid - self.offset {
            self.offset = self.offset + stride;
            true
        } else {
            false
        }
    }
}

} // verus!
