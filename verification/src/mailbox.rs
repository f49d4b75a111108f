//! Mailbox configuration and the interrupt mask and flag bits of each
//! mailbox. Configuring a mailbox yields the register accesses that put it
//! in the configured state, in the order they are to be performed.

use vstd::prelude::*;

use crate::config::{
    lemma_mailbox_offset_bounded, lemma_region_layout, Config, Id, MailboxConfig, RegionConfig,
    RxMailboxConfig,
};
use crate::message_buffer::{
    field_value, lemma_disjoint_field_untouched, lemma_field_write_read, with_field, CSField, CSRegisterBitfield, IDField, IDRegisterBitfield, CS_CODE_RX_EMPTY,
    CS_CODE_RX_INACTIVE, CS_CODE_TX_INACTIVE,
};
use crate::CANFD;

verus! {

/// The two 32-bit halves of the 64 per-mailbox bits: `Low` is IMASK1 or
/// IFLAG1 (mailboxes 0 to 31), `High` is IMASK2 or IFLAG2 (32 to 63).
#[derive(Debug, Clone, Copy, PartialEq, Eq, Structural)]
pub enum FlagHalf {
    Low,
    High,
}

/// A value to write to one half of the mask or flag registers.
#[derive(Debug, Clone, Copy, PartialEq, Eq, Structural)]
pub struct FlagWrite {
    pub half: FlagHalf,
    pub value: u32,
}

/// A register access on the controller, with the values that the driver's
/// logic chose.
#[derive(Debug, Clone, Copy, PartialEq, Eq, Structural)]
#[allow(inconsistent_fields)]
pub enum RegisterAction {
    /// Put the controller in freeze mode.
    EnterFreeze,
    /// Leave freeze mode.
    ExitFreeze,
    /// Clear the interrupt flag of a mailbox (see `write_iflag_bit`).
    WriteIflagBit { index: u32 },
    /// Enable or disable the interrupt of a mailbox (see `set_imask_bit`).
    SetImaskBit { index: u32, state: bool },
    /// Write the control and status word of the mailbox at `offset`.
    WriteCsReg { offset: u32, value: u32 },
    /// Write the identifier word of the mailbox at `offset`.
    WriteIdReg { offset: u32, value: u32 },
    /// Zero `size` data bytes of the mailbox at `offset`, a word at a time.
    ClearMessageBufferData { offset: u32, size: u32 },
    /// Write data byte `index` of the mailbox at `offset`.
    WriteMessageBufferByte { offset: u32, index: u32, value: u8 },
    /// Write the individual receive mask of mailbox `index`.
    WriteRximr { index: u32, value: u32 },
    /// Read the free-running timer, which unlocks the mailbox read last.
    ReadTimer,
}

/// A control and status word with only the CODE field set.
pub open spec fn cs_with_code(code: u32) -> u32 {
    with_field(0, CSField::CODE.spec_mask(), CSField::CODE.spec_shift(), code)
}

/// The identifier word that selects `id`: the standard identifier field for
/// a standard identifier, the extended one for an extended identifier.
pub open spec fn id_register_for(id: Id) -> u32 {
    match id {
        Id::Standard(v) => with_field(0, IDField::ID_STD.spec_mask(), IDField::ID_STD.spec_shift(), v),
        Id::Extended(v) => with_field(0, IDField::ID_EXT.spec_mask(), IDField::ID_EXT.spec_shift(), v),
    }
}

/// The control and status word of a receive mailbox waiting for a frame:
/// CODE is "empty" and IDE says whether the identifier is extended.
pub open spec fn rx_empty_cs_for(id: Id) -> u32 {
    with_field(
        cs_with_code(CS_CODE_RX_EMPTY),
        CSField::IDE.spec_mask(),
        CSField::IDE.spec_shift(),
        if id is Extended {
            1
        } else {
            0
        },
    )
}

/// The individual receive mask for a filter: the 11 mask bits placed on the
/// standard identifier field, or the 29 mask bits of an extended filter.
pub open spec fn rximr_for(config: RxMailboxConfig) -> u32 {
    match config.id {
        Id::Standard(_) => (config.id_mask & 0x7FFu32) << 18u32,
        Id::Extended(_) => config.id_mask & 0x1FFF_FFFF,
    }
}

/// The register accesses that make mailbox `index` a transmit mailbox.
pub open spec fn tx_mailbox_actions(config: Config, index: u32) -> Seq<RegisterAction> {
    let offset = config.spec_mailbox_data_offset(index as int) as u32;
    seq![
        RegisterAction::WriteIflagBit { index },
        RegisterAction::SetImaskBit { index, state: false },
        RegisterAction::WriteCsReg { offset, value: cs_with_code(CS_CODE_TX_INACTIVE) },
        RegisterAction::WriteIdReg { offset, value: 0 },
        RegisterAction::ClearMessageBufferData {
            offset,
            size: config.spec_mailbox_size(index as int),
        },
    ]
}

/// The register accesses that make mailbox `index` a receive mailbox with
/// the filter `rx`.
pub open spec fn rx_mailbox_actions(config: Config, index: u32, rx: RxMailboxConfig) -> Seq<
    RegisterAction,
> {
    let offset = config.spec_mailbox_data_offset(index as int) as u32;
    seq![
        RegisterAction::WriteIflagBit { index },
        RegisterAction::SetImaskBit { index, state: true },
        RegisterAction::WriteCsReg { offset, value: cs_with_code(CS_CODE_RX_INACTIVE) },
        RegisterAction::ClearMessageBufferData {
            offset,
            size: config.spec_mailbox_size(index as int),
        },
        RegisterAction::WriteIdReg { offset, value: id_register_for(rx.id) },
        RegisterAction::WriteCsReg { offset, value: rx_empty_cs_for(rx.id) },
        RegisterAction::EnterFreeze,
        RegisterAction::WriteRximr { index, value: rximr_for(rx) },
        RegisterAction::ExitFreeze,
    ]
}

/// The register accesses that configure mailbox `index` as `mailbox`.
pub open spec fn mailbox_actions(config: Config, index: u32, mailbox: MailboxConfig) -> Seq<
    RegisterAction,
> {
    match mailbox {
        MailboxConfig::Tx => tx_mailbox_actions(config, index),
        MailboxConfig::Rx { rx_config } => rx_mailbox_actions(config, index, rx_config),
        MailboxConfig::Unconfigured => seq![],
    }
}

/// The register accesses that configure the first `n` mailboxes of a
/// region, whose first mailbox is mailbox `start`.
pub open spec fn region_actions(config: Config, mailboxes: Seq<MailboxConfig>, start: int, n: nat) -> Seq<
    RegisterAction,
>
    decreases n,
{
    if n == 0 {
        seq![]
    } else {
        region_actions(config, mailboxes, start, (n - 1) as nat) + mailbox_actions(
            config,
            (start + n - 1) as u32,
            mailboxes[n - 1],
        )
    }
}

/// The register accesses that configure both regions: in freeze mode,
/// region 1 from mailbox 0 on, then region 2 right after it.
pub open spec fn regions_actions(config: Config) -> Seq<RegisterAction> {
    let r1 = config.region_1_config;
    let r2 = config.region_2_config;
    seq![RegisterAction::EnterFreeze] + region_actions(
        config,
        r1.spec_mailbox_configs(),
        0,
        r1.spec_max_buffers() as nat,
    ) + region_actions(
        config,
        r2.spec_mailbox_configs(),
        r1.spec_max_buffers() as int,
        r2.spec_max_buffers() as nat,
    ) + seq![RegisterAction::ExitFreeze]
}

/// `reg` with bit `bit` set when `state` holds and cleared otherwise.
pub open spec fn with_bit(reg: u32, bit: u32, state: bool) -> u32 {
    if state {
        reg | (1u32 << bit)
    } else {
        reg & !(1u32 << bit)
    }
}

/// The mailbox configurations after configuring both regions: region 1's
/// mailboxes from 0 on, region 2's right after, the rest as before.
pub open spec fn configured_mailbox(config: Config, before: Seq<MailboxConfig>, i: int) -> MailboxConfig {
    let n1 = config.spec_region_1_message_buffers() as int;
    let n2 = config.spec_region_2_message_buffers() as int;
    if i < n1 {
        config.region_1_config.spec_mailbox_configs()[i]
    } else if i < n1 + n2 {
        config.region_2_config.spec_mailbox_configs()[i - n1]
    } else {
        before[i]
    }
}

/// Setting or clearing one mask bit changes that bit alone: it reads back
/// as the state asked for and every other bit keeps its value.
pub proof fn lemma_with_bit(reg: u32, bit: u32, state: bool)
    requires
        bit < 32,
    ensures
        (with_bit(reg, bit, state) & (1u32 << bit) != 0) == state,
        with_bit(reg, bit, state) & !(1u32 << bit) == reg & !(1u32 << bit),
{
    assert((reg | (1u32 << bit)) & (1u32 << bit) != 0 && (reg | (1u32 << bit)) & !(1u32 << bit)
        == reg & !(1u32 << bit)) by (bit_vector)
        requires
            bit < 32,
    ;
    assert((reg & !(1u32 << bit)) & (1u32 << bit) == 0 && (reg & !(1u32 << bit)) & !(1u32 << bit)
        == reg & !(1u32 << bit)) by (bit_vector);
}

/// The receive mask written for a filter puts the filter's mask bits on the
/// identifier field that the filter compares, and no bit elsewhere: for a
/// standard identifier the low 11 mask bits land on the standard identifier
/// field (bit `18 + k` of the receive mask is bit `k` of the filter's mask),
/// for an extended identifier the low 29 mask bits land on the extended
/// identifier field.
pub proof fn lemma_rximr_places_mask(rx: RxMailboxConfig)
    ensures
        rx.id is Standard ==> field_value(
            rximr_for(rx),
            IDField::ID_STD.spec_mask(),
            IDField::ID_STD.spec_shift(),
        ) == rx.id_mask & 0x7FF && rximr_for(rx) & !IDField::ID_STD.spec_mask() == 0,
        rx.id is Extended ==> field_value(
            rximr_for(rx),
            IDField::ID_EXT.spec_mask(),
            IDField::ID_EXT.spec_shift(),
        ) == rx.id_mask & 0x1FFF_FFFF && rximr_for(rx) & !IDField::ID_EXT.spec_mask() == 0,
        forall|k: u32|
            k < 11 && rx.id is Standard ==> #[trigger] ((rximr_for(rx) >> (18 + k) as u32) & 1) == ((
            rx.id_mask >> k) & 1),
{
    let m = rx.id_mask;
    let v = rximr_for(rx);
    if rx.id is Standard {
        assert(v == (m & 0x7FFu32) << 18u32);
        assert((((m & 0x7FFu32) << 18u32) & 0x1FFC_0000u32) >> 18u32 == m & 0x7FF && ((m
            & 0x7FFu32) << 18u32) & !0x1FFC_0000u32 == 0 && forall|k: u32|
            k < 11 ==> #[trigger] ((((m & 0x7FFu32) << 18u32) >> (18 + k) as u32) & 1) == ((m
                >> k) & 1)) by (bit_vector);
    } else {
        assert(v == m & 0x1FFF_FFFFu32);
        assert(((m & 0x1FFF_FFFFu32) & 0x1FFF_FFFFu32) >> 0u32 == m & 0x1FFF_FFFF && (m
            & 0x1FFF_FFFFu32) & !0x1FFF_FFFFu32 == 0) by (bit_vector);
    }
}

/// The words written to a receive mailbox select its filter's identifier:
/// the identifier word holds the identifier (cut to its field) on the field
/// of its kind, and the control and status word says "empty" with IDE set
/// exactly for an extended identifier.
pub proof fn lemma_rx_words_select_identifier(id: Id)
    ensures
        id matches Id::Standard(v) ==> field_value(
            id_register_for(id),
            IDField::ID_STD.spec_mask(),
            IDField::ID_STD.spec_shift(),
        ) == v & 0x7FF,
        id matches Id::Extended(v) ==> field_value(
            id_register_for(id),
            IDField::ID_EXT.spec_mask(),
            IDField::ID_EXT.spec_shift(),
        ) == v & 0x1FFF_FFFF,
        field_value(rx_empty_cs_for(id), CSField::CODE.spec_mask(), CSField::CODE.spec_shift())
            == CS_CODE_RX_EMPTY,
        field_value(rx_empty_cs_for(id), CSField::IDE.spec_mask(), CSField::IDE.spec_shift()) == (
        if id is Extended {
            1u32
        } else {
            0u32
        }),
{
    IDField::ID_STD.lemma_is_field();
    IDField::ID_EXT.lemma_is_field();
    CSField::CODE.lemma_is_field();
    CSField::IDE.lemma_is_field();
    match id {
        Id::Standard(v) => lemma_field_write_read(0, 0x1FFC_0000, 18, v),
        Id::Extended(v) => lemma_field_write_read(0, 0x1FFF_FFFF, 0, v),
    }
    let ext: u32 = if id is Extended {
        1
    } else {
        0
    };
    assert(0x4u32 & 0xFu32 == 0x4u32 && ext & 1u32 == ext && 0x20_0000u32 & 0xF00_0000u32 == 0)
        by (bit_vector)
        requires
            ext <= 1,
    ;
    let c = cs_with_code(CS_CODE_RX_EMPTY);
    lemma_field_write_read(0, 0xF00_0000, 24, CS_CODE_RX_EMPTY);
    lemma_field_write_read(c, 0x20_0000, 21, ext);
    lemma_disjoint_field_untouched(c, 0x20_0000, 21, ext, 0xF00_0000, 24);
}

impl CANFD {
    pub fn get_mailbox_data_offset(&self, mb_index: u32) -> (offset: u32)
        requires
            self.config.spec_mailbox_data_offset(mb_index as int) <= u32::MAX,
        ensures
            offset == self.config.spec_mailbox_data_offset(mb_index as int),
    {
        let region_1_mbs = self.get_region_1_message_buffers();
        proof {
            lemma_region_layout(self.config.region_2_config);
            lemma_region_layout(self.config.region_1_config);
        }
        if mb_index < region_1_mbs {
            self.config.region_1_config.mailbox_offset_for_idx(mb_index)
        } else {
            512 + self.config.region_2_config.mailbox_offset_for_idx(mb_index - region_1_mbs)
        }
    }

    pub fn get_mailbox_size(&self, mb_index: u32) -> (size: u32)
        ensures
            size == self.config.spec_mailbox_size(mb_index as int),
            size <= 64,
    {
        if mb_index < self.get_region_1_message_buffers() {
            self.config.region_1_config.size_bytes()
        } else {
            self.config.region_2_config.size_bytes()
        }
    }

    /// The interrupt mask register write that sets the mask bit of mailbox
    /// `index` to `state`, given the current values of IMASK1 and IMASK2.
    /// Mailboxes from 64 on have no mask bit: nothing is written.
    pub fn set_imask_bit(&self, index: u32, state: bool, imask1: u32, imask2: u32) -> (write:
        Option<FlagWrite>)
        ensures
            index < 32 ==> write == Some(
                FlagWrite { half: FlagHalf::Low, value: with_bit(imask1, index, state) },
            ),
            32 <= index < 64 ==> write == Some(
                FlagWrite { half: FlagHalf::High, value: with_bit(imask2, (index - 32) as u32, state) },
            ),
            index >= 64 ==> write is None,
    {
        if index < 32 {
            let mask: u32 = 1 << index;
            let value: u32 = if state {
                1 << index
            } else {
                0
            };
            proof {
                assert((imask1 & !mask) | mask == imask1 | mask) by (bit_vector);
                assert((imask1 & !mask) | 0 == imask1 & !mask) by (bit_vector);
            }
            Some(FlagWrite { half: FlagHalf::Low, value: (imask1 & (!mask)) | value })
        } else if index < 64 {
            let mask: u32 = 1 << (index - 32);
            let value: u32 = if state {
                1 << (index - 32)
            } else {
                0
            };
            proof {
                assert((imask2 & !mask) | mask == imask2 | mask) by (bit_vector);
                assert((imask2 & !mask) | 0 == imask2 & !mask) by (bit_vector);
            }
            Some(FlagWrite { half: FlagHalf::High, value: (imask2 & (!mask)) | value })
        } else {
            None
        }
    }

    /// The interrupt flag register write that clears the flag of mailbox
    /// `index` (flags are cleared by writing 1). Mailboxes from 64 on have no
    /// flag: nothing is written.
    pub fn write_iflag_bit(&self, index: u32) -> (write: Option<FlagWrite>)
        ensures
            index < 32 ==> write == Some(FlagWrite { half: FlagHalf::Low, value: 1u32 << index }),
            32 <= index < 64 ==> write == Some(
                FlagWrite { half: FlagHalf::High, value: 1u32 << ((index - 32) as u32) },
            ),
            index >= 64 ==> write is None,
    {
        if index < 32 {
            Some(FlagWrite { half: FlagHalf::Low, value: 1 << index })
        } else if index < 64 {
            Some(FlagWrite { half: FlagHalf::High, value: 1 << (index - 32) })
        } else {
            None
        }
    }

    /// Whether the interrupt flag of mailbox `index` is set in IFLAG1 and
    /// IFLAG2: bit `index` of the 64 flags, IFLAG1 holding mailboxes 0 to 31
    /// and IFLAG2 mailboxes 32 to 63. For a transmit mailbox, a set flag
    /// means its frame has been sent.
    pub fn read_iflag_bit(&self, index: u32, iflag1: u32, iflag2: u32) -> (set: bool)
        requires
            index < 64,
        ensures
            set == ((((((iflag2 as u64) << 32u64) | (iflag1 as u64)) >> (index as u64)) & 1) == 1),
            index < 32 ==> set == ((iflag1 & (1u32 << index)) != 0),
            index >= 32 ==> set == ((iflag2 & (1u32 << ((index - 32) as u32))) != 0),
    {
        let i = index as u64;
        if index < 32 {
            let set = iflag1 & (1 << index) != 0;
            proof {
                assert(set == ((((((iflag2 as u64) << 32u64) | (iflag1 as u64)) >> i) & 1) == 1))
                    by (bit_vector)
                    requires
                        set == (iflag1 & (1u32 << index) != 0),
                        i == index as u64,
                        index < 32,
                ;
            }
            set
        } else {
            let set = iflag2 & (1 << (index - 32)) != 0;
            proof {
                let b = (index - 32) as u32;
                assert(set == ((((((iflag2 as u64) << 32u64) | (iflag1 as u64)) >> i) & 1) == 1))
                    by (bit_vector)
                    requires
                        set == (iflag2 & (1u32 << b) != 0),
                        i == index as u64,
                        b == index - 32,
                        32 <= index < 64,
                ;
            }
            set
        }
    }

    /// Makes mailbox `mb_index` a transmit mailbox: clears its flag,
    /// disables its interrupt, marks it inactive, zeroes its identifier and
    /// data.
    pub fn configure_tx_mailbox(&self, mb_index: u32) -> (actions: Vec<RegisterAction>)
        requires
            self.config.spec_mailbox_data_offset(mb_index as int) <= u32::MAX,
        ensures
            actions@ == tx_mailbox_actions(self.config, mb_index),
    {
        let mb_data_offset = self.get_mailbox_data_offset(mb_index);
        let mut actions: Vec<RegisterAction> = Vec::new();
        actions.push(RegisterAction::WriteIflagBit { index: mb_index });
        actions.push(RegisterAction::SetImaskBit { index: mb_index, state: false });
        let mut cs_reg = CSRegisterBitfield::new();
        cs_reg.write_field(CSField::CODE, CS_CODE_TX_INACTIVE);
        actions.push(RegisterAction::WriteCsReg { offset: mb_data_offset, value: cs_reg.serialize() });
        let id_reg = IDRegisterBitfield::new();
        actions.push(RegisterAction::WriteIdReg { offset: mb_data_offset, value: id_reg.serialize() });
        actions.push(
            RegisterAction::ClearMessageBufferData {
                offset: mb_data_offset,
                size: self.get_mailbox_size(mb_index),
            },
        );
        actions
    }

    /// Makes mailbox `mb_index` a receive mailbox for `config`: clears its
    /// flag, enables its interrupt, marks it inactive, zeroes its data,
    /// writes the identifier to match, marks it empty and, in freeze mode,
    /// writes its receive mask.
    pub fn configure_rx_mailbox(&self, mb_index: u32, config: &RxMailboxConfig) -> (actions: Vec<
        RegisterAction,
    >)
        requires
            self.config.spec_mailbox_data_offset(mb_index as int) <= u32::MAX,
        ensures
            actions@ == rx_mailbox_actions(self.config, mb_index, *config),
            actions@.len() == 9,
            actions@[7] matches RegisterAction::WriteRximr { index, value } && index == mb_index && (
            config.id is Standard ==> field_value(
                value,
                IDField::ID_STD.spec_mask(),
                IDField::ID_STD.spec_shift(),
            ) == config.id_mask & 0x7FF && value & !IDField::ID_STD.spec_mask() == 0) && (
            config.id is Extended ==> field_value(
                value,
                IDField::ID_EXT.spec_mask(),
                IDField::ID_EXT.spec_shift(),
            ) == config.id_mask & 0x1FFF_FFFF && value & !IDField::ID_EXT.spec_mask() == 0),
            actions@[4] matches RegisterAction::WriteIdReg { value, .. } && (
            config.id matches Id::Standard(v) ==> field_value(
                value,
                IDField::ID_STD.spec_mask(),
                IDField::ID_STD.spec_shift(),
            ) == v & 0x7FF) && (config.id matches Id::Extended(v) ==> field_value(
                value,
                IDField::ID_EXT.spec_mask(),
                IDField::ID_EXT.spec_shift(),
            ) == v & 0x1FFF_FFFF),
            actions@[5] matches RegisterAction::WriteCsReg { value, .. } && field_value(
                value,
                CSField::CODE.spec_mask(),
                CSField::CODE.spec_shift(),
            ) == CS_CODE_RX_EMPTY && field_value(
                value,
                CSField::IDE.spec_mask(),
                CSField::IDE.spec_shift(),
            ) == (if config.id is Extended {
                1u32
            } else {
                0u32
            }),
    {
        proof {
            lemma_rximr_places_mask(*config);
            lemma_rx_words_select_identifier(config.id);
        }
        let mb_data_offset = self.get_mailbox_data_offset(mb_index);
        let mut actions: Vec<RegisterAction> = Vec::new();
        actions.push(RegisterAction::WriteIflagBit { index: mb_index });
        actions.push(RegisterAction::SetImaskBit { index: mb_index, state: true });

        let mut cs_reg = CSRegisterBitfield::new();
        cs_reg.write_field(CSField::CODE, CS_CODE_RX_INACTIVE);
        actions.push(RegisterAction::WriteCsReg { offset: mb_data_offset, value: cs_reg.serialize() });
        actions.push(
            RegisterAction::ClearMessageBufferData {
                offset: mb_data_offset,
                size: self.get_mailbox_size(mb_index),
            },
        );

        let mut id_reg = IDRegisterBitfield::new();
        match config.id {
            Id::Standard(id) => id_reg.write_field(IDField::ID_STD, id),
            Id::Extended(id) => id_reg.write_field(IDField::ID_EXT, id),
        }
        actions.push(RegisterAction::WriteIdReg { offset: mb_data_offset, value: id_reg.serialize() });

        let mut cs_reg = CSRegisterBitfield::new();
        cs_reg.write_field(CSField::CODE, CS_CODE_RX_EMPTY);
        match config.id {
            Id::Standard(_) => cs_reg.write_field(CSField::IDE, 0b0),
            Id::Extended(_) => cs_reg.write_field(CSField::IDE, 0b1),
        }
        actions.push(RegisterAction::WriteCsReg { offset: mb_data_offset, value: cs_reg.serialize() });

        let rximr: u32 = match config.id {
            Id::Standard(_) => (config.id_mask & 0x7FF) << 18,
            Id::Extended(_) => config.id_mask & 0x1FFF_FFFF,
        };
        actions.push(RegisterAction::EnterFreeze);
        actions.push(RegisterAction::WriteRximr { index: mb_index, value: rximr });
        actions.push(RegisterAction::ExitFreeze);
        actions
    }

    /// Configures mailbox `mb_index` as `config` and records it.
    pub fn configure_mailbox(&mut self, mb_index: u32, config: &MailboxConfig) -> (actions: Vec<
        RegisterAction,
    >)
        requires
            mb_index < 64,
        ensures
            actions@ == mailbox_actions(old(self).config, mb_index, *config),
            final(self).config == old(self).config,
            final(self).mailbox_configs@ == old(self).mailbox_configs@.update(mb_index as int, *config),
    {
        proof {
            lemma_mailbox_offset_bounded(self.config, mb_index as int);
        }
        let actions = match config {
            MailboxConfig::Tx => self.configure_tx_mailbox(mb_index),
            MailboxConfig::Rx { rx_config } => self.configure_rx_mailbox(mb_index, rx_config),
            MailboxConfig::Unconfigured => Vec::new(),
        };
        self.mailbox_configs[mb_index as usize] = *config;
        actions
    }

    /// Configures the mailboxes of `region_config` as mailboxes
    /// `mb_offset`, `mb_offset + 1`, and so on.
    pub fn configure_region(&mut self, region_config: RegionConfig, mb_offset: u32) -> (actions: Vec<
        RegisterAction,
    >)
        requires
            mb_offset + region_config.spec_max_buffers() <= 64,
        ensures
            actions@ == region_actions(
                old(self).config,
                region_config.spec_mailbox_configs(),
                mb_offset as int,
                region_config.spec_max_buffers() as nat,
            ),
            final(self).config == old(self).config,
            forall|i: int|
                0 <= i < 64 ==> #[trigger] final(self).mailbox_configs@[i] == if mb_offset <= i
                    < mb_offset + region_config.spec_max_buffers() {
                    region_config.spec_mailbox_configs()[i - mb_offset]
                } else {
                    old(self).mailbox_configs@[i]
                },
    {
        let count = region_config.max_buffers_per_region();
        let mut actions: Vec<RegisterAction> = Vec::new();
        let mut mb_index: u32 = 0;
        while mb_index < count
            invariant
                count == region_config.spec_max_buffers(),
                count == region_config.spec_mailbox_configs().len(),
                mb_offset + count <= 64,
                mb_index <= count,
                self.config == old(self).config,
                actions@ == region_actions(
                    old(self).config,
                    region_config.spec_mailbox_configs(),
                    mb_offset as int,
                    mb_index as nat,
                ),
                forall|i: int|
                    0 <= i < 64 ==> #[trigger] self.mailbox_configs@[i] == if mb_offset <= i
                        < mb_offset + mb_index {
                        region_config.spec_mailbox_configs()[i - mb_offset]
                    } else {
                        old(self).mailbox_configs@[i]
                    },
            decreases count - mb_index,
        {
            let config = region_config.mailbox_config(mb_index);
            let mut mailbox_actions = self.configure_mailbox(mb_offset + mb_index, &config);
            actions.append(&mut mailbox_actions);
            mb_index = mb_index + 1;
        }
        actions
    }

    /// Configures every mailbox of both regions, in freeze mode.
    pub fn configure_regions(&mut self) -> (actions: Vec<RegisterAction>)
        ensures
            actions@ == regions_actions(old(self).config),
            final(self).config == old(self).config,
            old(self).wf() ==> final(self).wf(),
            forall|i: int|
                0 <= i < 64 ==> #[trigger] final(self).mailbox_configs@[i] == configured_mailbox(
                    old(self).config,
                    old(self).mailbox_configs@,
                    i,
                ),
    {
        proof {
            lemma_region_layout(self.config.region_1_config);
            lemma_region_layout(self.config.region_2_config);
        }
        let mut actions: Vec<RegisterAction> = Vec::new();
        actions.push(RegisterAction::EnterFreeze);
        let region_2_mb_offset = self.get_region_1_message_buffers();
        let region_1 = self.config.region_1_config;
        let region_2 = self.config.region_2_config;
        let mut region_1_actions = self.configure_region(region_1, 0);
        actions.append(&mut region_1_actions);
        let mut region_2_actions = self.configure_region(region_2, region_2_mb_offset);
        actions.append(&mut region_2_actions);
        actions.push(RegisterAction::ExitFreeze);
        proof {
            assert(actions@ =~= regions_actions(old(self).config));
        }
        actions
    }
}

} // verus!
