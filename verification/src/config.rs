//! Configuration of the CAN FD controller: clock, bit timing and the two
//! message buffer regions with their mailboxes.

use vstd::prelude::*;

verus! {

/// Frequencies the CAN clock root can be set to.
pub enum Clock {
    Clock8Mhz,
    Clock16Mhz,
    Clock20Mhz,
    Clock24Mhz,
    Clock30Mhz,
    Clock40Mhz,
    Clock60Mhz,
    Clock80Mhz,
}

/// Frequency in hertz of the clock that feeds the CAN divider, for each
/// value of the clock root selector: 0 is PLL3 divided by 8, 1 is the
/// 24 MHz oscillator, 2 is PLL3 divided by 6.
pub open spec fn can_clock_source_hz(sel: u32) -> int {
    if sel == 0 {
        60_000_000
    } else if sel == 1 {
        24_000_000
    } else if sel == 2 {
        80_000_000
    } else {
        0
    }
}

impl Clock {
    pub open spec fn spec_hz(&self) -> u32 {
        match self {
            Clock::Clock8Mhz => 8_000_000,
            Clock::Clock16Mhz => 16_000_000,
            Clock::Clock20Mhz => 20_000_000,
            Clock::Clock24Mhz => 24_000_000,
            Clock::Clock30Mhz => 30_000_000,
            Clock::Clock40Mhz => 40_000_000,
            Clock::Clock60Mhz => 60_000_000,
            Clock::Clock80Mhz => 80_000_000,
        }
    }

    pub open spec fn spec_clk_sel(&self) -> u32 {
        match self {
            Clock::Clock8Mhz => 2,
            Clock::Clock16Mhz => 2,
            Clock::Clock20Mhz => 2,
            Clock::Clock24Mhz => 1,
            Clock::Clock30Mhz => 0,
            Clock::Clock40Mhz => 2,
            Clock::Clock60Mhz => 0,
            Clock::Clock80Mhz => 2,
        }
    }

    pub open spec fn spec_clk_podf(&self) -> u32 {
        match self {
            Clock::Clock8Mhz => 9,
            Clock::Clock16Mhz => 4,
            Clock::Clock20Mhz => 3,
            Clock::Clock24Mhz => 0,
            Clock::Clock30Mhz => 1,
            Clock::Clock40Mhz => 1,
            Clock::Clock60Mhz => 0,
            Clock::Clock80Mhz => 0,
        }
    }

    /// The frequency of this clock in hertz.
    pub fn to_hz(&self) -> (hz: u32)
        ensures
            hz == self.spec_hz(),
    {
        match self {
            Clock::Clock8Mhz => 8_000_000,
            Clock::Clock16Mhz => 16_000_000,
            Clock::Clock20Mhz => 20_000_000,
            Clock::Clock24Mhz => 24_000_000,
            Clock::Clock30Mhz => 30_000_000,
            Clock::Clock40Mhz => 40_000_000,
            Clock::Clock60Mhz => 60_000_000,
            Clock::Clock80Mhz => 80_000_000,
        }
    }

    /// The clock root selector that produces this clock.
    pub fn to_clk_sel(&self) -> (sel: u32)
        ensures
            sel == self.spec_clk_sel(),
            sel <= 2,
    {
        match self {
            Clock::Clock8Mhz => 2,
            Clock::Clock16Mhz => 2,
            Clock::Clock20Mhz => 2,
            Clock::Clock24Mhz => 1,
            Clock::Clock30Mhz => 0,
            Clock::Clock40Mhz => 2,
            Clock::Clock60Mhz => 0,
            Clock::Clock80Mhz => 2,
        }
    }

    /// The post divider (divide by `podf + 1`) that produces this clock.
    pub fn to_clk_podf(&self) -> (podf: u32)
        ensures
            podf == self.spec_clk_podf(),
            podf <= 9,
    {
        match self {
            Clock::Clock8Mhz => 9,
            Clock::Clock16Mhz => 4,
            Clock::Clock20Mhz => 3,
            Clock::Clock24Mhz => 0,
            Clock::Clock30Mhz => 1,
            Clock::Clock40Mhz => 1,
            Clock::Clock60Mhz => 0,
            Clock::Clock80Mhz => 0,
        }
    }
}

/// The selector and the divider chosen for a clock produce exactly the
/// frequency that the clock names.
pub proof fn lemma_clock_divider_yields_frequency(clock: Clock)
    ensures
        clock.spec_hz() * (clock.spec_clk_podf() + 1) == can_clock_source_hz(clock.spec_clk_sel()),
{
    match clock {
        Clock::Clock8Mhz => {},
        Clock::Clock16Mhz => {},
        Clock::Clock20Mhz => {},
        Clock::Clock24Mhz => {},
        Clock::Clock30Mhz => {},
        Clock::Clock40Mhz => {},
        Clock::Clock60Mhz => {},
        Clock::Clock80Mhz => {},
    }
}

/// Bit timing of one phase (arbitration or data) of a frame.
pub struct TimingConfig {
    pub prescalar_division: u32,
    pub prop_seg: u8,
    pub phase_seg_1: u8,
    pub phase_seg_2: u8,
    pub jump_width: u8,
}

/// Complete configuration of the controller.
pub struct Config {
    pub clock_speed: Clock,
    pub timing_classical: TimingConfig,
    pub timing_fd: TimingConfig,
    pub region_1_config: RegionConfig,
    pub region_2_config: RegionConfig,
    pub transceiver_compensation: Option<u8>,
}

/// One of the two 512-byte message buffer regions, split into mailboxes
/// with room for 8, 16, 32 or 64 data bytes each.
#[derive(Debug, Clone, Copy)]
#[allow(inconsistent_fields)]
pub enum RegionConfig {
    MB8 { mailbox_configs: [MailboxConfig; 32] },
    MB16 { mailbox_configs: [MailboxConfig; 21] },
    MB32 { mailbox_configs: [MailboxConfig; 12] },
    MB64 { mailbox_configs: [MailboxConfig; 7] },
}

/// What a single mailbox is used for.
#[derive(Debug, Clone, Copy)]
pub enum MailboxConfig {
    Unconfigured,
    Rx { rx_config: RxMailboxConfig },
    Tx,
}

impl Default for MailboxConfig {
    fn default() -> (config: Self)
        ensures
            config == MailboxConfig::Unconfigured,
    {
        MailboxConfig::Unconfigured
    }
}

/// A CAN identifier, 11 bits long (standard) or 29 bits long (extended).
#[derive(Debug, Clone, Copy, PartialEq, Eq, Structural)]
pub enum Id {
    Standard(u32),
    Extended(u32),
}

/// Acceptance filter of a receive mailbox.
#[derive(Debug, Clone, Copy)]
pub struct RxMailboxConfig {
    /// The identifier incoming frames are matched against.
    pub id: Id,
    /// Which identifier bits must match: 1 is match, 0 is don't care.
    pub id_mask: u32,
}

impl RxMailboxConfig {
    /// A filter on standard identifier 0 with every identifier bit compared.
    pub fn default() -> (config: Self)
        ensures
            config.id == Id::Standard(0),
            config.id_mask == 0x3FFF_FFFF,
    {
        Self { id: Id::Standard(0), id_mask: 0x3FFF_FFFF }
    }
}

impl RegionConfig {
    /// Encoding of the mailbox data size in the MBDSR field.
    pub open spec fn spec_mbdsr_n(&self) -> u32 {
        match self {
            RegionConfig::MB8 { .. } => 0b00,
            RegionConfig::MB16 { .. } => 0b01,
            RegionConfig::MB32 { .. } => 0b10,
            RegionConfig::MB64 { .. } => 0b11,
        }
    }

    /// Number of mailboxes in the region.
    pub open spec fn spec_max_buffers(&self) -> u32 {
        match self {
            RegionConfig::MB8 { .. } => 32,
            RegionConfig::MB16 { .. } => 21,
            RegionConfig::MB32 { .. } => 12,
            RegionConfig::MB64 { .. } => 7,
        }
    }

    /// Number of data bytes a mailbox of the region holds.
    pub open spec fn spec_size_bytes(&self) -> u32 {
        match self {
            RegionConfig::MB8 { .. } => 8,
            RegionConfig::MB16 { .. } => 16,
            RegionConfig::MB32 { .. } => 32,
            RegionConfig::MB64 { .. } => 64,
        }
    }

    /// Bytes a mailbox occupies in the region: an 8-byte header (control
    /// and status word, identifier word) followed by its data.
    pub open spec fn spec_slot_bytes(&self) -> u32 {
        (8 + self.spec_size_bytes()) as u32
    }

    /// Byte offset of mailbox `mb_idx` from the start of the region.
    pub open spec fn spec_mailbox_offset(&self, mb_idx: int) -> int {
        mb_idx * self.spec_slot_bytes()
    }

    /// The configurations of the region's mailboxes, in order.
    pub open spec fn spec_mailbox_configs(&self) -> Seq<MailboxConfig> {
        match self {
            RegionConfig::MB8 { mailbox_configs } => mailbox_configs@,
            RegionConfig::MB16 { mailbox_configs } => mailbox_configs@,
            RegionConfig::MB32 { mailbox_configs } => mailbox_configs@,
            RegionConfig::MB64 { mailbox_configs } => mailbox_configs@,
        }
    }

    pub fn to_mbdsr_n(&self) -> (n: u32)
        ensures
            n == self.spec_mbdsr_n(),
    {
        match self {
            RegionConfig::MB8 { mailbox_configs: _ } => 0b00,
            RegionConfig::MB16 { mailbox_configs: _ } => 0b01,
            RegionConfig::MB32 { mailbox_configs: _ } => 0b10,
            RegionConfig::MB64 { mailbox_configs: _ } => 0b11,
        }
    }

    pub fn max_buffers_per_region(&self) -> (n: u32)
        ensures
            n == self.spec_max_buffers(),
            n == self.spec_mailbox_configs().len(),
    {
        match self {
            RegionConfig::MB8 { mailbox_configs: _ } => 32,
            RegionConfig::MB16 { mailbox_configs: _ } => 21,
            RegionConfig::MB32 { mailbox_configs: _ } => 12,
            RegionConfig::MB64 { mailbox_configs: _ } => 7,
        }
    }

    pub fn mailbox_offset_for_idx(&self, mb_idx: u32) -> (offset: u32)
        requires
            self.spec_mailbox_offset(mb_idx as int) <= u32::MAX,
        ensures
            offset == self.spec_mailbox_offset(mb_idx as int),
    {
        match self {
            RegionConfig::MB8 { mailbox_configs: _ } => mb_idx * 16,
            RegionConfig::MB16 { mailbox_configs: _ } => mb_idx * 24,
            RegionConfig::MB32 { mailbox_configs: _ } => mb_idx * 40,
            RegionConfig::MB64 { mailbox_configs: _ } => mb_idx * 72,
        }
    }

    pub fn size_bytes(&self) -> (size: u32)
        ensures
            size == self.spec_size_bytes(),
    {
        match self {
            RegionConfig::MB8 { mailbox_configs: _ } => 8,
            RegionConfig::MB16 { mailbox_configs: _ } => 16,
            RegionConfig::MB32 { mailbox_configs: _ } => 32,
            RegionConfig::MB64 { mailbox_configs: _ } => 64,
        }
    }

    /// The configuration of mailbox `i` of the region.
    pub fn mailbox_config(&self, i: u32) -> (config: MailboxConfig)
        requires
            i < self.spec_max_buffers(),
        ensures
            config == self.spec_mailbox_configs()[i as int],
    {
        match self {
            RegionConfig::MB8 { mailbox_configs } => mailbox_configs[i as usize],
            RegionConfig::MB16 { mailbox_configs } => mailbox_configs[i as usize],
            RegionConfig::MB32 { mailbox_configs } => mailbox_configs[i as usize],
            RegionConfig::MB64 { mailbox_configs } => mailbox_configs[i as usize],
        }
    }
}

/// Every mailbox of a region fits in the region's 512 bytes, the data
/// size is 8 bytes shifted left by the MBDSR encoding, and mailbox `i`
/// starts right after the `i` mailboxes before it.
pub proof fn lemma_region_layout(region: RegionConfig)
    ensures
        region.spec_max_buffers() * region.spec_slot_bytes() <= 512,
        region.spec_size_bytes() == (8u32 << region.spec_mbdsr_n()),
        region.spec_mailbox_configs().len() == region.spec_max_buffers(),
        forall|i: int|
            0 <= i < region.spec_max_buffers() ==> #[trigger] region.spec_mailbox_offset(i) + region.spec_slot_bytes()
                <= 512,
{
    assert((8u32 << 0u32) == 8u32 && (8u32 << 1u32) == 16u32 && (8u32 << 2u32) == 32u32 && (8u32
        << 3u32) == 64u32) by (bit_vector);
    let s = region.spec_slot_bytes() as int;
    let m = region.spec_max_buffers() as int;
    assert(m * s <= 512) by {
        match region {
            RegionConfig::MB8 { .. } => {},
            RegionConfig::MB16 { .. } => {},
            RegionConfig::MB32 { .. } => {},
            RegionConfig::MB64 { .. } => {},
        }
    }
    assert forall|i: int| 0 <= i < region.spec_max_buffers() implies #[trigger] region.spec_mailbox_offset(i)
        + region.spec_slot_bytes() <= 512 by {
        assert(i * s + s <= m * s) by (nonlinear_arith)
            requires
                0 <= i < m,
                s >= 0,
        ;
    }
}

impl Config {
    pub open spec fn spec_region_1_message_buffers(&self) -> u32 {
        self.region_1_config.spec_max_buffers()
    }

    pub open spec fn spec_region_2_message_buffers(&self) -> u32 {
        self.region_2_config.spec_max_buffers()
    }

    pub open spec fn spec_max_message_buffers(&self) -> u32 {
        (self.spec_region_1_message_buffers() + self.spec_region_2_message_buffers()) as u32
    }

    /// Byte offset of mailbox `mb_index` in the message RAM: region 1 takes
    /// the first 512 bytes and region 2 the next 512.
    pub open spec fn spec_mailbox_data_offset(&self, mb_index: int) -> int {
        let r1 = self.spec_region_1_message_buffers() as int;
        if mb_index < r1 {
            self.region_1_config.spec_mailbox_offset(mb_index)
        } else {
            512 + self.region_2_config.spec_mailbox_offset(mb_index - r1)
        }
    }

    /// Number of data bytes mailbox `mb_index` holds.
    pub open spec fn spec_mailbox_size(&self, mb_index: int) -> u32 {
        if mb_index < self.spec_region_1_message_buffers() {
            self.region_1_config.spec_size_bytes()
        } else {
            self.region_2_config.spec_size_bytes()
        }
    }
}

/// The mailboxes of the two regions tile the 1024 bytes of message RAM: each
/// mailbox's header and data end before the next mailbox starts, and the
/// last one ends within the RAM.
pub proof fn lemma_mailboxes_disjoint(config: Config, i: int, j: int)
    requires
        0 <= i < j < config.spec_max_message_buffers(),
    ensures
        config.spec_mailbox_data_offset(i) + 8 + config.spec_mailbox_size(i)
            <= config.spec_mailbox_data_offset(j),
        config.spec_mailbox_data_offset(j) + 8 + config.spec_mailbox_size(j) <= 1024,
        0 <= config.spec_mailbox_data_offset(i),
{
    let r1 = config.region_1_config;
    let r2 = config.region_2_config;
    lemma_region_layout(r1);
    lemma_region_layout(r2);
    let n1 = r1.spec_max_buffers() as int;
    let s1 = r1.spec_slot_bytes() as int;
    let s2 = r2.spec_slot_bytes() as int;
    if j < n1 {
        assert(i * s1 + s1 <= j * s1) by (nonlinear_arith)
            requires
                i < j,
                s1 >= 0,
        ;
        assert(r1.spec_mailbox_offset(j) + r1.spec_slot_bytes() <= 512);
    } else if i < n1 {
        assert(r1.spec_mailbox_offset(i) + r1.spec_slot_bytes() <= 512);
        assert(0 <= (j - n1) * s2) by (nonlinear_arith)
            requires
                j >= n1,
                s2 >= 0,
        ;
        assert(r2.spec_mailbox_offset(j - n1) + r2.spec_slot_bytes() <= 512);
    } else {
        assert((i - n1) * s2 + s2 <= (j - n1) * s2) by (nonlinear_arith)
            requires
                i < j,
                s2 >= 0,
        ;
        assert(0 <= (i - n1) * s2) by (nonlinear_arith)
            requires
                i >= n1,
                s2 >= 0,
        ;
        assert(r2.spec_mailbox_offset(j - n1) + r2.spec_slot_bytes() <= 512);
    }
    assert(0 <= i * s1) by (nonlinear_arith)
        requires
            i >= 0,
            s1 >= 0,
    ;
}

/// The header and data of every configured mailbox lie inside the 1024
/// bytes of message RAM.
pub proof fn lemma_mailbox_in_ram(config: Config, i: int)
    requires
        0 <= i < config.spec_max_message_buffers(),
    ensures
        0 <= config.spec_mailbox_data_offset(i),
        config.spec_mailbox_data_offset(i) + 8 + config.spec_mailbox_size(i) <= 1024,
{
    let r1 = config.region_1_config;
    let r2 = config.region_2_config;
    lemma_region_layout(r1);
    lemma_region_layout(r2);
    let n1 = r1.spec_max_buffers() as int;
    if i < n1 {
        assert(r1.spec_mailbox_offset(i) + r1.spec_slot_bytes() <= 512);
        assert(0 <= i * r1.spec_slot_bytes()) by (nonlinear_arith)
            requires
                i >= 0,
        ;
    } else {
        assert(r2.spec_mailbox_offset(i - n1) + r2.spec_slot_bytes() <= 512);
        assert(0 <= (i - n1) * r2.spec_slot_bytes()) by (nonlinear_arith)
            requires
                i >= n1,
        ;
    }
}

/// Every mailbox index below 64 lies within the first 5 KiB past the
/// message RAM start, so offsets and the addresses built from them fit in
/// 32 bits.
pub proof fn lemma_mailbox_offset_bounded(config: Config, i: int)
    requires
        0 <= i < 64,
    ensures
        0 <= config.spec_mailbox_data_offset(i) <= 512 + 63 * 72,
{
    let r1 = config.region_1_config;
    let r2 = config.region_2_config;
    let n1 = r1.spec_max_buffers() as int;
    let s1 = r1.spec_slot_bytes() as int;
    let s2 = r2.spec_slot_bytes() as int;
    assert(s1 <= 72 && s2 <= 72) by {
        lemma_region_layout(r1);
        lemma_region_layout(r2);
    }
    if i < n1 {
        assert(0 <= i * s1 <= 63 * 72) by (nonlinear_arith)
            requires
                0 <= i < 64,
                0 <= s1 <= 72,
        ;
    } else {
        assert(0 <= (i - n1) * s2 <= 63 * 72) by (nonlinear_arith)
            requires
                0 <= i - n1 < 64,
                0 <= s2 <= 72,
        ;
    }
}

} // verus!
