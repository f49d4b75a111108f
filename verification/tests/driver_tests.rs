use teensy4_canfd::can_error::RxTxError;
use teensy4_canfd::config::{
    Clock, Config, Id, MailboxConfig, RegionConfig, RxMailboxConfig, TimingConfig,
};
use teensy4_canfd::mailbox::{FlagHalf, FlagWrite, RegisterAction};
use teensy4_canfd::message_buffer::{
    CSField, CSRegisterBitfield, IDField, IDRegisterBitfield, CS_CODE_RX_EMPTY, CS_CODE_RX_FULL,
    CS_CODE_TX_DATA_OR_REMOTE, CS_CODE_TX_INACTIVE,
};
use teensy4_canfd::transfer::{TransferStep, TxFDFrame};
use teensy4_canfd::{CANFDBuilder, CANFD};

fn timing() -> TimingConfig {
    TimingConfig { prescalar_division: 1, prop_seg: 13, phase_seg_1: 3, phase_seg_2: 3, jump_width: 3 }
}

fn config_with(region_1_config: RegionConfig, region_2_config: RegionConfig) -> Config {
    Config {
        clock_speed: Clock::Clock30Mhz,
        timing_classical: timing(),
        timing_fd: timing(),
        region_1_config,
        region_2_config,
        transceiver_compensation: Some(3),
    }
}

/// The configuration of the periodic transfer example: region 1 with 32-byte
/// mailboxes, mailbox 0 sends and mailbox 1 receives identifier 123;
/// region 2 with 64-byte mailboxes, all unconfigured.
fn example_config() -> Config {
    let mut region_1 = [MailboxConfig::Unconfigured; 12];
    region_1[0] = MailboxConfig::Tx;
    region_1[1] = MailboxConfig::Rx {
        rx_config: RxMailboxConfig { id: Id::Standard(123), id_mask: 0x3FFF_FFFF },
    };
    config_with(
        RegionConfig::MB32 { mailbox_configs: region_1 },
        RegionConfig::MB64 { mailbox_configs: [MailboxConfig::Unconfigured; 7] },
    )
}

fn built(config: Config) -> CANFD {
    let mut taken = false;
    let builder = CANFDBuilder::take(&mut taken).unwrap();
    let (_handle, canfd) = builder.build(config);
    canfd
}

fn configured(config: Config) -> CANFD {
    let mut canfd = built(config);
    canfd.configure_regions();
    canfd
}

#[test]
fn builder_is_taken_once() {
    let mut taken = false;
    assert!(CANFDBuilder::take(&mut taken).is_some());
    assert!(taken);
    assert!(CANFDBuilder::take(&mut taken).is_none());
    assert!(taken);
}

#[test]
fn built_driver_has_nothing_configured() {
    let canfd = built(example_config());
    assert!(canfd.mailbox_configs.iter().all(|m| matches!(m, MailboxConfig::Unconfigured)));
    assert_eq!(canfd.get_region_1_message_buffers(), 12);
    assert_eq!(canfd.get_region_2_message_buffers(), 7);
    assert_eq!(canfd.get_max_message_buffers(), 19);
}

#[test]
fn mailbox_offsets_and_sizes() {
    let canfd = built(example_config());
    assert_eq!(canfd.get_mailbox_data_offset(0), 0);
    assert_eq!(canfd.get_mailbox_data_offset(1), 40);
    assert_eq!(canfd.get_mailbox_data_offset(11), 440);
    assert_eq!(canfd.get_mailbox_data_offset(12), 512);
    assert_eq!(canfd.get_mailbox_data_offset(13), 584);
    assert_eq!(canfd.get_mailbox_data_offset(18), 512 + 6 * 72);
    assert_eq!(canfd.get_mailbox_size(11), 32);
    assert_eq!(canfd.get_mailbox_size(12), 64);
}

#[test]
fn mailboxes_do_not_overlap() {
    let canfd = built(example_config());
    let n = canfd.get_max_message_buffers();
    for i in 0..n - 1 {
        let end = canfd.get_mailbox_data_offset(i) + 8 + canfd.get_mailbox_size(i);
        assert!(end <= canfd.get_mailbox_data_offset(i + 1));
    }
    let last = n - 1;
    assert!(canfd.get_mailbox_data_offset(last) + 8 + canfd.get_mailbox_size(last) <= 1024);
}

#[test]
fn configure_regions_of_the_example() {
    let mut canfd = built(example_config());
    let actions = canfd.configure_regions();
    let expected = vec![
        RegisterAction::EnterFreeze,
        RegisterAction::WriteIflagBit { index: 0 },
        RegisterAction::SetImaskBit { index: 0, state: false },
        RegisterAction::WriteCsReg { offset: 0, value: CS_CODE_TX_INACTIVE << 24 },
        RegisterAction::WriteIdReg { offset: 0, value: 0 },
        RegisterAction::ClearMessageBufferData { offset: 0, size: 32 },
        RegisterAction::WriteIflagBit { index: 1 },
        RegisterAction::SetImaskBit { index: 1, state: true },
        RegisterAction::WriteCsReg { offset: 40, value: 0 },
        RegisterAction::ClearMessageBufferData { offset: 40, size: 32 },
        RegisterAction::WriteIdReg { offset: 40, value: 123 << 18 },
        RegisterAction::WriteCsReg { offset: 40, value: CS_CODE_RX_EMPTY << 24 },
        RegisterAction::EnterFreeze,
        RegisterAction::WriteRximr { index: 1, value: 0x7FF << 18 },
        RegisterAction::ExitFreeze,
        RegisterAction::ExitFreeze,
    ];
    assert_eq!(actions, expected);
    assert!(matches!(canfd.mailbox_configs[0], MailboxConfig::Tx));
    assert!(matches!(canfd.mailbox_configs[1], MailboxConfig::Rx { .. }));
    assert!(canfd.mailbox_configs[2..].iter().all(|m| matches!(m, MailboxConfig::Unconfigured)));
}

#[test]
fn configure_extended_rx_mailbox_in_region_2() {
    let mut region_2 = [MailboxConfig::Unconfigured; 7];
    region_2[2] = MailboxConfig::Rx {
        rx_config: RxMailboxConfig { id: Id::Extended(0x1ABC_DEF0), id_mask: 0xFFFF_FFFF },
    };
    let config = config_with(
        RegionConfig::MB8 { mailbox_configs: [MailboxConfig::Unconfigured; 32] },
        RegionConfig::MB64 { mailbox_configs: region_2 },
    );
    let mut canfd = built(config);
    let actions = canfd.configure_regions();
    let offset = 512 + 2 * 72;
    let expected = vec![
        RegisterAction::EnterFreeze,
        RegisterAction::WriteIflagBit { index: 34 },
        RegisterAction::SetImaskBit { index: 34, state: true },
        RegisterAction::WriteCsReg { offset, value: 0 },
        RegisterAction::ClearMessageBufferData { offset, size: 64 },
        RegisterAction::WriteIdReg { offset, value: 0x1ABC_DEF0 },
        RegisterAction::WriteCsReg { offset, value: (CS_CODE_RX_EMPTY << 24) | (1 << 21) },
        RegisterAction::EnterFreeze,
        RegisterAction::WriteRximr { index: 34, value: 0x1FFF_FFFF },
        RegisterAction::ExitFreeze,
        RegisterAction::ExitFreeze,
    ];
    assert_eq!(actions, expected);
    assert!(matches!(canfd.mailbox_configs[34], MailboxConfig::Rx { .. }));
}

#[test]
fn configure_mailbox_records_the_configuration() {
    let mut canfd = built(example_config());
    let actions = canfd.configure_mailbox(5, &MailboxConfig::Unconfigured);
    assert!(actions.is_empty());
    let actions = canfd.configure_mailbox(5, &MailboxConfig::Tx);
    assert_eq!(actions.len(), 5);
    assert!(matches!(canfd.mailbox_configs[5], MailboxConfig::Tx));
}

#[test]
fn imask_bit_updates() {
    let canfd = built(example_config());
    assert_eq!(
        canfd.set_imask_bit(3, true, 0b0001, 0xFFFF_FFFF),
        Some(FlagWrite { half: FlagHalf::Low, value: 0b1001 })
    );
    assert_eq!(
        canfd.set_imask_bit(0, false, 0b0001, 0),
        Some(FlagWrite { half: FlagHalf::Low, value: 0 })
    );
    assert_eq!(
        canfd.set_imask_bit(33, false, 0, 0xFFFF_FFFF),
        Some(FlagWrite { half: FlagHalf::High, value: 0xFFFF_FFFD })
    );
    assert_eq!(canfd.set_imask_bit(64, true, 0, 0), None);
}

#[test]
fn iflag_bit_writes() {
    let canfd = built(example_config());
    assert_eq!(canfd.write_iflag_bit(5), Some(FlagWrite { half: FlagHalf::Low, value: 1 << 5 }));
    assert_eq!(canfd.write_iflag_bit(63), Some(FlagWrite { half: FlagHalf::High, value: 1 << 31 }));
    assert_eq!(canfd.write_iflag_bit(64), None);
}

#[test]
fn iflag_bit_reads_the_flag_of_the_mailbox() {
    let canfd = built(example_config());
    assert!(canfd.read_iflag_bit(0, 1, 0));
    assert!(!canfd.read_iflag_bit(0, 2, 0));
    assert!(canfd.read_iflag_bit(1, 0b10, 0));
    assert!(canfd.read_iflag_bit(5, 0x20, 0));
    assert!(!canfd.read_iflag_bit(5, 0xFFFF_FFDF, 0xFFFF_FFFF));
    assert!(canfd.read_iflag_bit(32, 0, 1));
    assert!(canfd.read_iflag_bit(33, 0, 0b10));
    assert!(canfd.read_iflag_bit(63, 0, 1 << 31));
    assert!(!canfd.read_iflag_bit(63, 0xFFFF_FFFF, 0x7FFF_FFFF));
}

#[test]
fn transfer_order_best_fit_region_first() {
    let mut region_1 = [MailboxConfig::Unconfigured; 12];
    region_1[3] = MailboxConfig::Tx;
    region_1[7] = MailboxConfig::Tx;
    let mut region_2 = [MailboxConfig::Unconfigured; 7];
    region_2[1] = MailboxConfig::Tx;
    let config = config_with(
        RegionConfig::MB32 { mailbox_configs: region_1 },
        RegionConfig::MB64 { mailbox_configs: region_2 },
    );
    let canfd = configured(config);
    let small = [0u8; 16];
    let frame = TxFDFrame { id: Id::Standard(1), buffer: &small, priority: None };
    assert_eq!(canfd.transfer_nb_mailboxes(&frame), Ok(vec![3, 7, 13]));
    let large = [0u8; 40];
    let frame = TxFDFrame { id: Id::Standard(1), buffer: &large, priority: None };
    assert_eq!(canfd.transfer_nb_mailboxes(&frame), Ok(vec![13]));
    let too_large = [0u8; 65];
    let frame = TxFDFrame { id: Id::Standard(1), buffer: &too_large, priority: None };
    assert_eq!(canfd.transfer_nb_mailboxes(&frame), Err(RxTxError::FrameTooBigForRegions));
}

#[test]
fn transfer_order_prefers_region_2_when_it_fits_better() {
    let mut region_1 = [MailboxConfig::Unconfigured; 7];
    region_1[0] = MailboxConfig::Tx;
    let mut region_2 = [MailboxConfig::Unconfigured; 32];
    region_2[4] = MailboxConfig::Tx;
    let config = config_with(
        RegionConfig::MB64 { mailbox_configs: region_1 },
        RegionConfig::MB8 { mailbox_configs: region_2 },
    );
    let canfd = configured(config);
    let data = [0u8; 8];
    let frame = TxFDFrame { id: Id::Standard(1), buffer: &data, priority: None };
    assert_eq!(canfd.transfer_nb_mailboxes(&frame), Ok(vec![11, 0]));
    let data = [0u8; 9];
    let frame = TxFDFrame { id: Id::Standard(1), buffer: &data, priority: None };
    assert_eq!(canfd.transfer_nb_mailboxes(&frame), Ok(vec![0]));
}

#[test]
fn transfer_order_equal_regions_keeps_region_order() {
    let mut region_1 = [MailboxConfig::Unconfigured; 21];
    region_1[20] = MailboxConfig::Tx;
    let mut region_2 = [MailboxConfig::Unconfigured; 21];
    region_2[0] = MailboxConfig::Tx;
    let config = config_with(
        RegionConfig::MB16 { mailbox_configs: region_1 },
        RegionConfig::MB16 { mailbox_configs: region_2 },
    );
    let canfd = configured(config);
    let data = [0u8; 3];
    let frame = TxFDFrame { id: Id::Standard(1), buffer: &data, priority: None };
    assert_eq!(canfd.transfer_nb_mailboxes(&frame), Ok(vec![20, 21]));
}

#[test]
fn transfer_refused_while_busy() {
    let canfd = configured(example_config());
    let data = [1u8, 2, 3];
    let frame = TxFDFrame { id: Id::Standard(123), buffer: &data, priority: None };
    let busy = CSRegisterBitfield::from_raw(CS_CODE_TX_DATA_OR_REMOTE << 24);
    assert_eq!(canfd.transfer(0, &busy, &frame, 3), Err(RxTxError::MailboxUnavailable));
}

#[test]
fn transfer_writes_frame() {
    let canfd = configured(example_config());
    let data = [1u8, 2, 3, 4, 5];
    let frame = TxFDFrame { id: Id::Extended(0x1234), buffer: &data, priority: Some(2) };
    let cs = CSRegisterBitfield::from_raw((CS_CODE_TX_INACTIVE << 24) | 0x1234);
    let actions = canfd.transfer(0, &cs, &frame, 5).unwrap();
    let expected = vec![
        RegisterAction::WriteIflagBit { index: 0 },
        RegisterAction::WriteCsReg { offset: 0, value: (CS_CODE_TX_INACTIVE << 24) | 0x1234 },
        RegisterAction::WriteIdReg { offset: 0, value: (2 << 29) | 0x1234 },
        RegisterAction::WriteMessageBufferByte { offset: 0, index: 0, value: 4 },
        RegisterAction::WriteMessageBufferByte { offset: 0, index: 1, value: 3 },
        RegisterAction::WriteMessageBufferByte { offset: 0, index: 2, value: 2 },
        RegisterAction::WriteMessageBufferByte { offset: 0, index: 3, value: 1 },
        RegisterAction::WriteMessageBufferByte { offset: 0, index: 4, value: 5 },
        RegisterAction::WriteCsReg {
            offset: 0,
            value: 0x8000_0000 | 0x4000_0000 | (CS_CODE_TX_DATA_OR_REMOTE << 24) | 0x40_0000
                | 0x20_0000 | (5 << 16),
        },
    ];
    assert_eq!(actions, expected);
}

#[test]
fn receive_decodes_a_full_mailbox() {
    let canfd = configured(example_config());
    let mut cs = CSRegisterBitfield::new();
    cs.write_field(CSField::CODE, CS_CODE_RX_FULL);
    cs.write_field(CSField::DLC, 10);
    cs.write_field(CSField::TIMESTAMP, 0x1234);
    cs.write_field(CSField::ESI, 1);
    let mut id = IDRegisterBitfield::new();
    id.write_field(IDField::ID_STD, 123);
    let mut buffer = [0u8; 64];
    buffer[0] = 42;
    assert_eq!(canfd.received_length(&cs), Some(16));
    let (frame, actions) = canfd.receive(1, &cs, &id, buffer).unwrap();
    assert_eq!(frame.id, Id::Standard(123));
    assert_eq!(frame.buffer_len, 16);
    assert_eq!(frame.buffer[0], 42);
    assert_eq!(frame.timestamp, 0x1234);
    assert!(frame.error_state);
    assert_eq!(
        actions,
        vec![
            RegisterAction::WriteCsReg {
                offset: 40,
                value: 0x2000_0000 | (CS_CODE_RX_EMPTY << 24) | (10 << 16) | 0x1234,
            },
            RegisterAction::ReadTimer,
            RegisterAction::WriteIflagBit { index: 1 },
        ]
    );
}

#[test]
fn receive_ignores_an_empty_mailbox() {
    let canfd = configured(example_config());
    let cs = CSRegisterBitfield::from_raw(CS_CODE_RX_EMPTY << 24);
    let id = IDRegisterBitfield::new();
    assert_eq!(canfd.received_length(&cs), None);
    assert!(canfd.receive(1, &cs, &id, [0u8; 64]).is_none());
}

#[test]
fn sent_frame_decodes_back() {
    let canfd = configured(example_config());
    for (frame_id, len) in [(Id::Standard(0x7FF), 9usize), (Id::Extended(0x1FFF_FFFF), 33), (Id::Standard(5), 0)] {
        let data = vec![7u8; len];
        let frame = TxFDFrame { id: frame_id, buffer: &data, priority: Some(7) };
        let actions = canfd.transfer(0, &CSRegisterBitfield::new(), &frame, len as u32).unwrap();
        let (id_word, cs_word) = match (actions[2], actions[actions.len() - 1]) {
            (RegisterAction::WriteIdReg { value: i, .. }, RegisterAction::WriteCsReg { value: c, .. }) => (i, c),
            _ => panic!("unexpected actions"),
        };
        let mut cs = CSRegisterBitfield::from_raw(cs_word);
        cs.write_field(CSField::CODE, CS_CODE_RX_FULL);
        let (received, _) = canfd.receive(1, &cs, &IDRegisterBitfield::from_raw(id_word), [0u8; 64]).unwrap();
        assert_eq!(received.id, frame_id);
        assert!(received.buffer_len as usize >= len);
    }
}

#[test]
fn interrupt_services_flagged_and_enabled_mailboxes() {
    let canfd = configured(example_config());
    let iflag = canfd.read_iflag(0b1011, 0b1);
    let imask = canfd.read_imask(0b0011, 0xFFFF_FFFF);
    assert_eq!(iflag, 0x1_0000_000B);
    let service = canfd.handle_interrupt(iflag, imask);
    assert_eq!(service.mailboxes, vec![0, 1]);
    assert_eq!(service.iflag1, 0b11);
    assert_eq!(service.iflag2, 0);
}

#[test]
fn interrupt_with_all_64_mailboxes() {
    let config = config_with(
        RegionConfig::MB8 { mailbox_configs: [MailboxConfig::Unconfigured; 32] },
        RegionConfig::MB8 { mailbox_configs: [MailboxConfig::Unconfigured; 32] },
    );
    let canfd = configured(config);
    let service = canfd.handle_interrupt(u64::MAX, (1u64 << 63) | (1u64 << 40) | 1);
    assert_eq!(service.mailboxes, vec![0, 40, 63]);
    assert_eq!(service.iflag1, 1);
    assert_eq!(service.iflag2, (1 << 31) | (1 << 8));
}

#[test]
fn blocking_transfer_retries_only_when_no_mailbox_was_free() {
    assert!(CANFD::transfer_blocking_retry(&Err(RxTxError::MailboxUnavailable)));
    assert!(!CANFD::transfer_blocking_retry(&Err(RxTxError::FrameTooBigForRegions)));
    assert!(!CANFD::transfer_blocking_retry(&Ok(())));
}

#[test]
fn every_offered_mailbox_holds_the_frame() {
    let mut region_1 = [MailboxConfig::Tx; 21];
    region_1[0] = MailboxConfig::Unconfigured;
    let mut region_2 = [MailboxConfig::Tx; 12];
    region_2[11] = MailboxConfig::Unconfigured;
    let config = config_with(
        RegionConfig::MB16 { mailbox_configs: region_1 },
        RegionConfig::MB32 { mailbox_configs: region_2 },
    );
    let canfd = configured(config);
    for len in 0..=40usize {
        let data = vec![0xAAu8; len];
        let frame = TxFDFrame { id: Id::Standard(9), buffer: &data, priority: None };
        match canfd.transfer_nb_mailboxes(&frame) {
            Ok(order) => {
                assert!(len <= 32);
                assert!(!order.is_empty());
                for index in order {
                    assert!(index < canfd.get_max_message_buffers());
                    assert!(matches!(canfd.mailbox_configs[index as usize], MailboxConfig::Tx));
                    let size = canfd.get_mailbox_size(index);
                    assert!(size as usize >= len);
                    let actions = canfd.transfer(index, &CSRegisterBitfield::new(), &frame, len as u32).unwrap();
                    for action in actions {
                        if let RegisterAction::WriteMessageBufferByte { offset, index: byte, .. } = action {
                            assert_eq!(offset, canfd.get_mailbox_data_offset(index));
                            assert!(byte < size);
                        }
                    }
                }
            }
            Err(error) => {
                assert!(len > 32);
                assert_eq!(error, RxTxError::FrameTooBigForRegions);
            }
        }
    }
}

#[test]
fn interrupt_clears_exactly_the_serviced_mailboxes() {
    let canfd = configured(example_config());
    let iflag: u64 = 0xFFFF_0000_F0F0_F0F0;
    let imask: u64 = 0x0F0F_FFFF_FF00_FF00;
    let service = canfd.handle_interrupt(iflag, imask);
    let cleared = canfd.read_iflag(service.iflag1, service.iflag2);
    for k in 0..64u32 {
        assert_eq!(cleared & (1u64 << k) != 0, service.mailboxes.contains(&k));
    }
    assert_eq!(service.mailboxes, vec![12, 13, 14, 15]);
}

#[test]
fn receive_rearms_an_overrun_mailbox() {
    let canfd = configured(example_config());
    let mut cs = CSRegisterBitfield::new();
    cs.write_field(CSField::CODE, teensy4_canfd::message_buffer::CS_CODE_RX_OVERRUN);
    cs.write_field(CSField::IDE, 1);
    let id = IDRegisterBitfield::from_raw(0x0123_4567);
    let (frame, actions) = canfd.receive(13, &cs, &id, [0u8; 64]).unwrap();
    assert_eq!(frame.id, Id::Extended(0x0123_4567));
    assert_eq!(frame.buffer_len, 0);
    match actions[0] {
        RegisterAction::WriteCsReg { offset, value } => {
            assert_eq!(offset, 584);
            let rearmed = CSRegisterBitfield::from_raw(value);
            assert_eq!(rearmed.read_field(CSField::CODE), CS_CODE_RX_EMPTY);
            assert_eq!(rearmed.read_field(CSField::IDE), 1);
        }
        _ => panic!("the mailbox is not re-armed first"),
    }
}

fn step_summary(step: TransferStep) -> (u8, u32) {
    match step {
        TransferStep::ReadCs { mb_index } => (0, mb_index),
        TransferStep::Send { mb_index, .. } => (1, mb_index),
        TransferStep::Unavailable => (2, 0),
    }
}

#[test]
fn transfer_steps_send_to_the_first_free_mailbox() {
    let mut region_1 = [MailboxConfig::Tx; 12];
    region_1[0] = MailboxConfig::Unconfigured;
    let config = config_with(
        RegionConfig::MB32 { mailbox_configs: region_1 },
        RegionConfig::MB64 { mailbox_configs: [MailboxConfig::Unconfigured; 7] },
    );
    let canfd = configured(config);
    let data = [9u8; 20];
    let frame = TxFDFrame { id: Id::Standard(3), buffer: &data, priority: None };
    let order = canfd.transfer_nb_mailboxes(&frame).unwrap();
    assert_eq!(order, (1..12).collect::<Vec<u32>>());
    let busy = CS_CODE_TX_DATA_OR_REMOTE << 24;
    let free = CS_CODE_TX_INACTIVE << 24;
    let mut words: Vec<u32> = Vec::new();
    assert_eq!(step_summary(canfd.transfer_nb_step(&frame, &order, &words)), (0, 1));
    words.push(busy);
    assert_eq!(step_summary(canfd.transfer_nb_step(&frame, &order, &words)), (0, 2));
    words.push(busy);
    assert_eq!(step_summary(canfd.transfer_nb_step(&frame, &order, &words)), (0, 3));
    words.push(free);
    match canfd.transfer_nb_step(&frame, &order, &words) {
        TransferStep::Send { mb_index, actions } => {
            assert_eq!(mb_index, 3);
            let cs = CSRegisterBitfield::from_raw(free);
            assert_eq!(Ok(actions), canfd.transfer(3, &cs, &frame, 20));
        }
        _ => panic!("expected to send"),
    }
}

#[test]
fn transfer_steps_give_up_when_every_mailbox_is_busy() {
    let canfd = configured(example_config());
    let data = [1u8; 8];
    let frame = TxFDFrame { id: Id::Standard(3), buffer: &data, priority: None };
    let order = canfd.transfer_nb_mailboxes(&frame).unwrap();
    assert_eq!(order, vec![0]);
    let words: Vec<u32> = vec![CS_CODE_TX_DATA_OR_REMOTE << 24];
    assert_eq!(step_summary(canfd.transfer_nb_step(&frame, &order, &words)), (2, 0));
    let empty: Vec<u32> = Vec::new();
    assert_eq!(step_summary(canfd.transfer_nb_step(&frame, &empty, &empty)), (2, 0));
}
