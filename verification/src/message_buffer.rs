//! Layout of a message buffer (mailbox) in the controller's message RAM:
//! the control and status (CS) word, the identifier (ID) word, and the
//! data bytes that follow them.

use vstd::prelude::*;

verus! {

/// Address of the first message buffer of CAN3.
pub const MESSAGE_BUFFER_BASE_ADDR: u32 = 0x401D_8000 + 0x80;

pub const CS_CODE_RX_INACTIVE: u32 = 0x0;
pub const CS_CODE_RX_FULL: u32 = 0x2;
pub const CS_CODE_RX_EMPTY: u32 = 0x4;
pub const CS_CODE_RX_OVERRUN: u32 = 0x6;
pub const _CS_CODE_RX_BUSY: u32 = 0x8;
pub const _CS_CODE_RX_RANSWER: u32 = 0xA;
pub const _CS_CODE_RX_NOTUSED: u32 = 0xF;

pub const CS_CODE_TX_INACTIVE: u32 = 0x8;
pub const _CS_CODE_TX_ABORT: u32 = 0x9;
pub const CS_CODE_TX_DATA_OR_REMOTE: u32 = 0xC;
pub const _CS_CODE_TX_ANSWER: u32 = 0xE;
pub const _CS_CODE_TX_NOT_USED: u32 = 0xF;

/// The value of the field selected by `mask` and `shift` in a register.
pub open spec fn field_value(reg: u32, mask: u32, shift: u32) -> u32 {
    (reg & mask) >> shift
}

/// `reg` with the field selected by `mask` and `shift` set to `value`
/// (truncated to the field's width) and every other bit kept.
pub open spec fn with_field(reg: u32, mask: u32, shift: u32, value: u32) -> u32 {
    (reg & !mask) | ((value << shift) & mask)
}

/// A field is a run of bits that starts at its shift.
pub open spec fn is_field(mask: u32, shift: u32) -> bool {
    &&& shift < 32
    &&& (mask >> shift) << shift == mask
}

/// Writing a field and reading it back gives the value written, cut to the
/// field's width, and the bits outside the field are left as they were.
pub proof fn lemma_field_write_read(reg: u32, mask: u32, shift: u32, value: u32)
    requires
        is_field(mask, shift),
    ensures
        field_value(with_field(reg, mask, shift, value), mask, shift) == value & (mask >> shift),
        with_field(reg, mask, shift, value) & !mask == reg & !mask,
{
    assert(((((reg & !mask) | ((value << shift) & mask)) & mask) >> shift) == value & (mask >> shift))
        by (bit_vector)
        requires
            shift < 32,
            (mask >> shift) << shift == mask,
    ;
    assert((((reg & !mask) | ((value << shift) & mask)) & !mask) == reg & !mask) by (bit_vector);
}

/// Two fields that share no bit: writing one leaves the other unchanged.
pub proof fn lemma_disjoint_field_untouched(
    reg: u32,
    mask: u32,
    shift: u32,
    value: u32,
    other_mask: u32,
    other_shift: u32,
)
    requires
        is_field(mask, shift),
        mask & other_mask == 0,
    ensures
        field_value(with_field(reg, mask, shift, value), other_mask, other_shift) == field_value(
            reg,
            other_mask,
            other_shift,
        ),
{
    assert(((((reg & !mask) | ((value << shift) & mask)) & other_mask) >> other_shift) == ((reg
        & other_mask) >> other_shift)) by (bit_vector)
        requires
            mask & other_mask == 0,
    ;
}

/// Fields of the control and status word.
pub enum CSField {
    EDL,
    BRS,
    ESI,
    CODE,
    SSR,
    IDE,
    _RTR,
    DLC,
    TIMESTAMP,
}

impl CSField {
    pub open spec fn spec_mask(&self) -> u32 {
        match self {
            CSField::EDL => 0x8000_0000,
            CSField::BRS => 0x4000_0000,
            CSField::ESI => 0x2000_0000,
            CSField::CODE => 0xF00_0000,
            CSField::SSR => 0x40_0000,
            CSField::IDE => 0x20_0000,
            CSField::_RTR => 0x10_0000,
            CSField::DLC => 0xF_0000,
            CSField::TIMESTAMP => 0xFFFF,
        }
    }

    pub open spec fn spec_shift(&self) -> u32 {
        match self {
            CSField::EDL => 31,
            CSField::BRS => 30,
            CSField::ESI => 29,
            CSField::CODE => 24,
            CSField::SSR => 22,
            CSField::IDE => 21,
            CSField::_RTR => 20,
            CSField::DLC => 16,
            CSField::TIMESTAMP => 0,
        }
    }

    pub fn mask(&self) -> (mask: u32)
        ensures
            mask == self.spec_mask(),
    {
        match self {
            CSField::EDL => 0x8000_0000,
            CSField::BRS => 0x4000_0000,
            CSField::ESI => 0x2000_0000,
            CSField::CODE => 0xF00_0000,
            CSField::SSR => 0x40_0000,
            CSField::IDE => 0x20_0000,
            CSField::_RTR => 0x10_0000,
            CSField::DLC => 0xF_0000,
            CSField::TIMESTAMP => 0xFFFF,
        }
    }

    pub fn shift(&self) -> (shift: u32)
        ensures
            shift == self.spec_shift(),
    {
        match self {
            CSField::EDL => 31,
            CSField::BRS => 30,
            CSField::ESI => 29,
            CSField::CODE => 24,
            CSField::SSR => 22,
            CSField::IDE => 21,
            CSField::_RTR => 20,
            CSField::DLC => 16,
            CSField::TIMESTAMP => 0,
        }
    }

    /// Every field of the control and status word is a run of bits that
    /// starts at its shift; the width masks are those of the data sheet.
    pub proof fn lemma_is_field(&self)
        ensures
            is_field(self.spec_mask(), self.spec_shift()),
            self.spec_mask() >> self.spec_shift() == match self {
                CSField::CODE => 0xFu32,
                CSField::DLC => 0xFu32,
                CSField::TIMESTAMP => 0xFFFFu32,
                _ => 1u32,
            },
    {
        assert(((0x8000_0000u32 >> 31u32) == 1u32 && (1u32 << 31u32) == 0x8000_0000u32)
            && ((0x4000_0000u32 >> 30u32) == 1u32 && (1u32 << 30u32) == 0x4000_0000u32)
            && ((0x2000_0000u32 >> 29u32) == 1u32 && (1u32 << 29u32) == 0x2000_0000u32)
            && ((0xF00_0000u32 >> 24u32) == 0xFu32 && (0xFu32 << 24u32) == 0xF00_0000u32)
            && ((0x40_0000u32 >> 22u32) == 1u32 && (1u32 << 22u32) == 0x40_0000u32)
            && ((0x20_0000u32 >> 21u32) == 1u32 && (1u32 << 21u32) == 0x20_0000u32)
            && ((0x10_0000u32 >> 20u32) == 1u32 && (1u32 << 20u32) == 0x10_0000u32)
            && ((0xF_0000u32 >> 16u32) == 0xFu32 && (0xFu32 << 16u32) == 0xF_0000u32)
            && ((0xFFFFu32 >> 0u32) == 0xFFFFu32 && (0xFFFFu32 << 0u32) == 0xFFFFu32)) by (bit_vector);
    }
}

/// The control and status word of a mailbox.
pub struct CSRegisterBitfield {
    val: u32,
}

impl View for CSRegisterBitfield {
    type V = u32;

    closed spec fn view(&self) -> u32 {
        self.val
    }
}

impl CSRegisterBitfield {
    /// A word with every field zero.
    pub fn new() -> (reg: Self)
        ensures
            reg@ == 0,
    {
        Self { val: 0 }
    }

    /// The word as it was read from a mailbox.
    pub fn from_raw(val: u32) -> (reg: Self)
        ensures
            reg@ == val,
    {
        Self { val }
    }

    /// Sets `field` to `value`, cut to the field's width; every other field
    /// keeps its value.
    pub fn write_field(&mut self, field: CSField, value: u32)
        ensures
            final(self)@ == with_field(old(self)@, field.spec_mask(), field.spec_shift(), value),
            field_value(final(self)@, field.spec_mask(), field.spec_shift()) == value & (
            field.spec_mask() >> field.spec_shift()),
            final(self)@ & !field.spec_mask() == old(self)@ & !field.spec_mask(),
    {
        proof {
            field.lemma_is_field();
            lemma_field_write_read(self.val, field.spec_mask(), field.spec_shift(), value);
        }
        self.val = (self.val & (!field.mask())) | ((value << field.shift()) & field.mask());
    }

    pub fn read_field(&self, field: CSField) -> (value: u32)
        ensures
            value == field_value(self@, field.spec_mask(), field.spec_shift()),
            value <= field.spec_mask() >> field.spec_shift(),
    {
        proof {
            field.lemma_is_field();
            let v = self.val;
            let m = field.spec_mask();
            let s = field.spec_shift();
            assert((v & m) >> s <= m >> s) by (bit_vector);
        }
        (self.val & field.mask()) >> field.shift()
    }

    pub fn serialize(&self) -> (val: u32)
        ensures
            val == self@,
    {
        self.val
    }
}

/// Fields of the identifier word.
#[derive(Debug, Clone, Copy, PartialEq, Eq, Structural)]
#[allow(non_camel_case_types)]
pub enum IDField {
    PRIO,
    ID_STD,
    ID_EXT,
}

impl IDField {
    pub open spec fn spec_mask(&self) -> u32 {
        match self {
            IDField::PRIO => 0xE000_0000,
            IDField::ID_STD => 0x1FFC_0000,
            IDField::ID_EXT => 0x1FFF_FFFF,
        }
    }

    pub open spec fn spec_shift(&self) -> u32 {
        match self {
            IDField::PRIO => 29,
            IDField::ID_STD => 18,
            IDField::ID_EXT => 0,
        }
    }

    pub fn mask(&self) -> (mask: u32)
        ensures
            mask == self.spec_mask(),
    {
        match self {
            IDField::PRIO => 0xE000_0000,
            IDField::ID_STD => 0x1FFC_0000,
            IDField::ID_EXT => 0x1FFF_FFFF,
        }
    }

    pub fn shift(&self) -> (shift: u32)
        ensures
            shift == self.spec_shift(),
    {
        match self {
            IDField::PRIO => 29,
            IDField::ID_STD => 18,
            IDField::ID_EXT => 0,
        }
    }

    /// Every field of the identifier word is a run of bits that starts at
    /// its shift: 3 priority bits, an 11-bit standard identifier and a
    /// 29-bit extended identifier.
    pub proof fn lemma_is_field(&self)
        ensures
            is_field(self.spec_mask(), self.spec_shift()),
            self.spec_mask() >> self.spec_shift() == match self {
                IDField::PRIO => 0x7u32,
                IDField::ID_STD => 0x7FFu32,
                IDField::ID_EXT => 0x1FFF_FFFFu32,
            },
    {
        assert(((0xE000_0000u32 >> 29u32) == 7u32 && (7u32 << 29u32) == 0xE000_0000u32)
            && ((0x1FFC_0000u32 >> 18u32) == 0x7FFu32 && (0x7FFu32 << 18u32) == 0x1FFC_0000u32)
            && ((0x1FFF_FFFFu32 >> 0u32) == 0x1FFF_FFFFu32 && (0x1FFF_FFFFu32 << 0u32) == 0x1FFF_FFFFu32)) by (bit_vector);
    }
}

/// The identifier word of a mailbox.
pub struct IDRegisterBitfield {
    val: u32,
}

impl View for IDRegisterBitfield {
    type V = u32;

    closed spec fn view(&self) -> u32 {
        self.val
    }
}

impl IDRegisterBitfield {
    /// A word with every field zero.
    pub fn new() -> (reg: Self)
        ensures
            reg@ == 0,
    {
        Self { val: 0 }
    }

    /// The word as it was read from a mailbox.
    pub fn from_raw(val: u32) -> (reg: Self)
        ensures
            reg@ == val,
    {
        Self { val }
    }

    /// Sets `field` to `value`, cut to the field's width; bits outside the
    /// field keep their value.
    pub fn write_field(&mut self, field: IDField, value: u32)
        ensures
            final(self)@ == with_field(old(self)@, field.spec_mask(), field.spec_shift(), value),
            field_value(final(self)@, field.spec_mask(), field.spec_shift()) == value & (
            field.spec_mask() >> field.spec_shift()),
            final(self)@ & !field.spec_mask() == old(self)@ & !field.spec_mask(),
    {
        proof {
            field.lemma_is_field();
            lemma_field_write_read(self.val, field.spec_mask(), field.spec_shift(), value);
        }
        self.val = (self.val & (!field.mask())) | ((value << field.shift()) & field.mask());
    }

    pub fn read_field(&self, field: IDField) -> (value: u32)
        ensures
            value == field_value(self@, field.spec_mask(), field.spec_shift()),
            value <= field.spec_mask() >> field.spec_shift(),
    {
        proof {
            field.lemma_is_field();
            let v = self.val;
            let m = field.spec_mask();
            let s = field.spec_shift();
            assert((v & m) >> s <= m >> s) by (bit_vector);
        }
        (self.val & field.mask()) >> field.shift()
    }

    pub fn serialize(&self) -> (val: u32)
        ensures
            val == self@,
    {
        self.val
    }
}

/// Number of data bytes written for a frame of `data_len` bytes when at
/// most `buffer_len` (and never more than 16) 4-byte words are written.
pub open spec fn message_buffer_image_len(data_len: int, buffer_len: u32) -> int {
    let words: int = if buffer_len < 16 {
        buffer_len as int
    } else {
        16
    };
    if data_len < 4 * words {
        data_len
    } else {
        4 * words
    }
}

/// The byte stored at data offset `p`: the frame is cut into 4-byte words
/// (the last one possibly shorter) and the bytes of each word are stored in
/// reverse order, as the controller keeps each word big-endian.
pub open spec fn message_buffer_image_byte(data: Seq<u8>, p: int) -> u8 {
    let start = (p / 4) * 4;
    let chunk = if data.len() - start < 4 {
        data.len() - start
    } else {
        4
    };
    data[start + chunk - 1 - (p - start)]
}

/// The bytes to store, from the first data byte of a mailbox on, to place
/// `buffer` in it: byte `i` of the result goes to data offset `i`.
pub fn message_buffer_image(buffer: &[u8], buffer_len: u32) -> (image: Vec<u8>)
    ensures
        image@.len() == message_buffer_image_len(buffer@.len() as int, buffer_len),
        forall|p: int|
            0 <= p < image@.len() ==> #[trigger] image@[p] == message_buffer_image_byte(buffer@, p),
{
    let n = buffer.len();
    let max_words: usize = if buffer_len < 16 {
        buffer_len as usize
    } else {
        16
    };
    let mut image: Vec<u8> = Vec::new();
    let mut start: usize = 0;
    let mut w: usize = 0;
    while w < max_words && start < n
        invariant
            n == buffer@.len(),
            max_words <= 16,
            max_words as int == (if buffer_len < 16 { buffer_len as int } else { 16 }),
            w <= max_words,
            start == 4 * w,
            w > 0 ==> start - 4 < n,
            image@.len() == (if start <= n { start as int } else { n as int }),
            forall|p: int|
                0 <= p < image@.len() ==> #[trigger] image@[p] == message_buffer_image_byte(
                    buffer@,
                    p,
                ),
        decreases max_words - w,
    {
        let chunk: usize = if n - start < 4 {
            n - start
        } else {
            4
        };
        let mut j: usize = 0;
        while j < chunk
            invariant
                n == buffer@.len(),
                start < n,
                start == 4 * w,
                chunk == (if n - start < 4 { n - start } else { 4 }),
                j <= chunk,
                image@.len() == start + j,
                forall|p: int|
                    0 <= p < image@.len() ==> #[trigger] image@[p] == message_buffer_image_byte(
                        buffer@,
                        p,
                    ),
            decreases chunk - j,
        {
            let ghost p: int = start + j;
            assert(p / 4 == w as int) by (nonlinear_arith)
                requires
                    p == 4 * w + j,
                    0 <= j < 4,
            ;
            image.push(buffer[start + chunk - 1 - j]);
            j = j + 1;
        }
        start = start + 4;
        w = w + 1;
    }
    image
}

/// Number of data bytes fetched for a received frame of `read_len` bytes.
pub open spec fn message_buffer_read_len(read_len: u32) -> int {
    if read_len < 64 {
        read_len as int
    } else {
        64
    }
}

/// The data offsets, from the first data byte of a mailbox on, that are
/// read to fetch a received frame of `read_len` bytes: byte `i` of the
/// frame is taken from data offset `4 * i`, the first byte of data word `i`,
/// for at most 64 bytes.
pub fn message_buffer_read_offsets(read_len: u32) -> (offsets: Vec<u32>)
    ensures
        offsets@.len() == message_buffer_read_len(read_len),
        forall|i: int| 0 <= i < offsets@.len() ==> #[trigger] offsets@[i] == 4 * i,
{
    let count: u32 = if read_len < 64 {
        read_len
    } else {
        64
    };
    let mut offsets: Vec<u32> = Vec::new();
    let mut i: u32 = 0;
    while i < count
        invariant
            count <= 64,
            count == message_buffer_read_len(read_len),
            i <= count,
            offsets@.len() == i,
            forall|k: int| 0 <= k < offsets@.len() ==> #[trigger] offsets@[k] == 4 * k,
        decreases count - i,
    {
        offsets.push(i * 4);
        i = i + 1;
    }
    offsets
}

} // verus!
