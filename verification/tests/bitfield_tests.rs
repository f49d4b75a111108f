use teensy4_canfd::message_buffer::{
    message_buffer_image, message_buffer_read_offsets, CSField, CSRegisterBitfield, IDField, IDRegisterBitfield,
    CS_CODE_RX_EMPTY, CS_CODE_TX_DATA_OR_REMOTE,
};

#[test]
fn cs_new_is_zero() {
    let reg = CSRegisterBitfield::new();
    assert_eq!(reg.serialize(), 0);
    assert_eq!(reg.read_field(CSField::CODE), 0);
}

#[test]
fn cs_write_then_read_code() {
    let mut reg = CSRegisterBitfield::new();
    reg.write_field(CSField::CODE, CS_CODE_RX_EMPTY);
    assert_eq!(reg.serialize(), 0x0400_0000);
    assert_eq!(reg.read_field(CSField::CODE), CS_CODE_RX_EMPTY);
}

#[test]
fn cs_write_keeps_other_fields() {
    let mut reg = CSRegisterBitfield::from_raw(0xFFFF_FFFF);
    reg.write_field(CSField::DLC, 0x3);
    assert_eq!(reg.serialize(), 0xFFF3_FFFF);
    assert_eq!(reg.read_field(CSField::DLC), 0x3);
    assert_eq!(reg.read_field(CSField::TIMESTAMP), 0xFFFF);
    assert_eq!(reg.read_field(CSField::CODE), 0xF);
}

#[test]
fn cs_write_cuts_value_to_field_width() {
    let mut reg = CSRegisterBitfield::new();
    reg.write_field(CSField::IDE, 0b11);
    assert_eq!(reg.read_field(CSField::IDE), 1);
    assert_eq!(reg.serialize(), 0x20_0000);
    reg.write_field(CSField::CODE, 0x1C);
    assert_eq!(reg.read_field(CSField::CODE), 0xC);
}

#[test]
fn cs_every_field_round_trips() {
    let fields = || {
        vec![
            (CSField::EDL, 1),
            (CSField::BRS, 1),
            (CSField::ESI, 1),
            (CSField::CODE, CS_CODE_TX_DATA_OR_REMOTE),
            (CSField::SSR, 1),
            (CSField::IDE, 1),
            (CSField::_RTR, 1),
            (CSField::DLC, 0xF),
            (CSField::TIMESTAMP, 0xBEEF),
        ]
    };
    let mut reg = CSRegisterBitfield::new();
    for (field, value) in fields() {
        reg.write_field(field, value);
    }
    for (field, value) in fields() {
        assert_eq!(reg.read_field(field), value);
    }
    assert_eq!(reg.serialize(), 0xEC7F_BEEF);
}

#[test]
fn id_standard_and_priority() {
    let mut reg = IDRegisterBitfield::new();
    reg.write_field(IDField::ID_STD, 123);
    reg.write_field(IDField::PRIO, 5);
    assert_eq!(reg.serialize(), (5 << 29) | (123 << 18));
    assert_eq!(reg.read_field(IDField::ID_STD), 123);
    assert_eq!(reg.read_field(IDField::PRIO), 5);
}

#[test]
fn id_extended_covers_standard_field() {
    let mut reg = IDRegisterBitfield::new();
    reg.write_field(IDField::ID_EXT, 0x1234_5678);
    assert_eq!(reg.read_field(IDField::ID_EXT), 0x1234_5678);
    assert_eq!(reg.read_field(IDField::ID_STD), 0x1234_5678 >> 18);
    reg.write_field(IDField::ID_STD, 0x7FF);
    assert_eq!(reg.read_field(IDField::ID_EXT), (0x7FF << 18) | (0x1234_5678 & 0x3FFFF));
}

#[test]
fn id_from_raw_serializes_back() {
    let reg = IDRegisterBitfield::from_raw(0xDEAD_BEEF);
    assert_eq!(reg.serialize(), 0xDEAD_BEEF);
    assert_eq!(reg.read_field(IDField::PRIO), 0xDEAD_BEEF >> 29);
}

#[test]
fn image_reverses_each_word() {
    let data = [1u8, 2, 3, 4, 5, 6, 7, 8];
    assert_eq!(message_buffer_image(&data, 8), vec![4, 3, 2, 1, 8, 7, 6, 5]);
}

#[test]
fn image_of_a_short_last_word() {
    let data = [1u8, 2, 3, 4, 5, 6];
    assert_eq!(message_buffer_image(&data, 6), vec![4, 3, 2, 1, 6, 5]);
}

#[test]
fn image_limited_by_word_count() {
    let data = [1u8, 2, 3, 4, 5, 6];
    assert_eq!(message_buffer_image(&data, 1), vec![4, 3, 2, 1]);
    assert_eq!(message_buffer_image(&data, 0), Vec::<u8>::new());
}

#[test]
fn image_never_longer_than_64_bytes() {
    let data: Vec<u8> = (0..80).collect();
    let image = message_buffer_image(&data, 80);
    assert_eq!(image.len(), 64);
    assert_eq!(image[0], 3);
    assert_eq!(image[63], 60);
}

#[test]
fn read_offsets_take_the_first_byte_of_each_word() {
    assert_eq!(message_buffer_read_offsets(3), vec![0, 4, 8]);
    assert_eq!(message_buffer_read_offsets(0), Vec::<u32>::new());
    let offsets = message_buffer_read_offsets(100);
    assert_eq!(offsets.len(), 64);
    assert_eq!(offsets[63], 252);
}
