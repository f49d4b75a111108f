//! Decoding a frame received in a mailbox.

use vstd::prelude::*;

use crate::config::Id;
use crate::mailbox::RegisterAction;
use crate::message_buffer::{
    field_value, with_field, CSField, CSRegisterBitfield, IDField, IDRegisterBitfield,
    CS_CODE_RX_EMPTY, CS_CODE_RX_FULL, CS_CODE_RX_OVERRUN,
};
use crate::util::{dlc_to_len, spec_dlc_to_len};
use crate::CANFD;

verus! {

/// A frame taken from a receive mailbox.
pub struct RxFDFrame {
    pub id: Id,
    pub buffer_len: u32,
    pub buffer: [u8; 64],
    pub timestamp: u16,
    pub error_state: bool,
}

/// The CODE field of a control and status word.
pub open spec fn cs_code(cs: u32) -> u32 {
    field_value(cs, CSField::CODE.spec_mask(), CSField::CODE.spec_shift())
}

/// A mailbox holds a frame not yet taken when its CODE is "full" or
/// "overrun".
pub open spec fn holds_new_frame(cs: u32) -> bool {
    cs_code(cs) == CS_CODE_RX_FULL || cs_code(cs) == CS_CODE_RX_OVERRUN
}

/// Length of the frame described by a control and status word.
pub open spec fn received_len(cs: u32) -> u32 {
    spec_dlc_to_len(field_value(cs, CSField::DLC.spec_mask(), CSField::DLC.spec_shift()))
}

/// The identifier described by a control and status word and an
/// identifier word: extended when IDE is set, standard otherwise.
pub open spec fn received_id(cs: u32, id: u32) -> Id {
    if field_value(cs, CSField::IDE.spec_mask(), CSField::IDE.spec_shift()) == 1 {
        Id::Extended(field_value(id, IDField::ID_EXT.spec_mask(), IDField::ID_EXT.spec_shift()))
    } else {
        Id::Standard(field_value(id, IDField::ID_STD.spec_mask(), IDField::ID_STD.spec_shift()))
    }
}

impl CANFD {
    /// The number of data bytes to read from a mailbox whose control and
    /// status word is `cs`, or `None` when it holds no new frame.
    pub fn received_length(&self, cs: &CSRegisterBitfield) -> (len: Option<u32>)
        ensures
            holds_new_frame(cs@) ==> len == Some(received_len(cs@)),
            !holds_new_frame(cs@) ==> len is None,
    {
        let code = cs.read_field(CSField::CODE);
        if code != CS_CODE_RX_FULL && code != CS_CODE_RX_OVERRUN {
            return None;
        }
        Some(dlc_to_len(cs.read_field(CSField::DLC)))
    }

    /// Takes the frame held by mailbox `mb_index`, given the control and
    /// status word and identifier word read from it and the data bytes read
    /// for it. Yields the frame and the accesses that release the mailbox:
    /// writing its control and status word back with CODE set to "empty" so
    /// it receives again, reading the timer to unlock it, then clearing its
    /// flag. `None` when the mailbox holds no new frame.
    pub fn receive(
        &self,
        mb_index: u32,
        cs_reg: &CSRegisterBitfield,
        id_reg: &IDRegisterBitfield,
        buffer: [u8; 64],
    ) -> (received: Option<(RxFDFrame, Vec<RegisterAction>)>)
        requires
            self.config.spec_mailbox_data_offset(mb_index as int) <= u32::MAX,
        ensures
            !holds_new_frame(cs_reg@) ==> received is None,
            holds_new_frame(cs_reg@) ==> (received matches Some((frame, actions)) && {
                &&& frame.id == received_id(cs_reg@, id_reg@)
                &&& frame.buffer_len == received_len(cs_reg@)
                &&& frame.buffer == buffer
                &&& frame.timestamp == field_value(
                    cs_reg@,
                    CSField::TIMESTAMP.spec_mask(),
                    CSField::TIMESTAMP.spec_shift(),
                )
                &&& frame.error_state == (field_value(
                    cs_reg@,
                    CSField::ESI.spec_mask(),
                    CSField::ESI.spec_shift(),
                ) == 1)
                &&& actions@ == seq![
                    RegisterAction::WriteCsReg {
                        offset: self.config.spec_mailbox_data_offset(mb_index as int) as u32,
                        value: with_field(
                            cs_reg@,
                            CSField::CODE.spec_mask(),
                            CSField::CODE.spec_shift(),
                            CS_CODE_RX_EMPTY,
                        ),
                    },
                    RegisterAction::ReadTimer,
                    RegisterAction::WriteIflagBit { index: mb_index },
                ]
            }),
    {
        let cs_reg_code = cs_reg.read_field(CSField::CODE);
        if cs_reg_code != CS_CODE_RX_FULL && cs_reg_code != CS_CODE_RX_OVERRUN {
            return None;
        }
        let extended = cs_reg.read_field(CSField::IDE) == 0b1;
        let buffer_len = dlc_to_len(cs_reg.read_field(CSField::DLC));
        let timestamp = cs_reg.read_field(CSField::TIMESTAMP);
        proof {
            CSField::TIMESTAMP.lemma_is_field();
        }
        let frame = RxFDFrame {
            id: if extended {
                Id::Extended(id_reg.read_field(IDField::ID_EXT))
            } else {
                Id::Standard(id_reg.read_field(IDField::ID_STD))
            },
            buffer_len,
            buffer,
            timestamp: timestamp as u16,
            error_state: cs_reg.read_field(CSField::ESI) == 0b1,
        };
        let mb_data_offset = self.get_mailbox_data_offset(mb_index);
        let mut rearmed = CSRegisterBitfield::from_raw(cs_reg.serialize());
        rearmed.write_field(CSField::CODE, CS_CODE_RX_EMPTY);
        let mut actions: Vec<RegisterAction> = Vec::new();
        actions.push(RegisterAction::WriteCsReg { offset: mb_data_offset, value: rearmed.serialize() });
        actions.push(RegisterAction::ReadTimer);
        actions.push(RegisterAction::WriteIflagBit { index: mb_index });
        Some((frame, actions))
    }
}

} // verus!
