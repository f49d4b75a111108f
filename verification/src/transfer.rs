//! Sending a frame: which transmit mailboxes to try and in what order, and
//! the register accesses that hand a frame to one mailbox.

use vstd::prelude::*;

use crate::can_error::RxTxError;
use crate::config::{
    lemma_mailbox_in_ram, lemma_mailbox_offset_bounded, lemma_region_layout, Config, Id, MailboxConfig,
};
use crate::mailbox::{id_register_for, RegisterAction};
use crate::message_buffer::{
    field_value, lemma_disjoint_field_untouched, lemma_field_write_read, message_buffer_image, message_buffer_image_byte, message_buffer_image_len,
    with_field, CSField, CSRegisterBitfield, IDField, IDRegisterBitfield, CS_CODE_TX_DATA_OR_REMOTE,
    CS_CODE_TX_INACTIVE,
};
use crate::receive::{received_id, received_len};
use crate::util::{
    is_fd_length, len_to_dlc, lemma_len_to_dlc_shortest_fit, spec_dlc_to_len, spec_len_to_dlc,
};
use crate::CANFD;

verus! {

/// A frame to send.
#[derive(Debug, Clone)]
pub struct TxFDFrame<'a> {
    pub id: Id,
    pub buffer: &'a [u8],
    pub priority: Option<u8>,
}

/// The transmit mailboxes among mailboxes `lo` up to (not including) `hi`,
/// in increasing order.
pub open spec fn tx_mailboxes_in(mailboxes: Seq<MailboxConfig>, lo: int, hi: int) -> Seq<u32>
    decreases hi - lo,
{
    if hi <= lo {
        seq![]
    } else {
        let rest = tx_mailboxes_in(mailboxes, lo, hi - 1);
        if mailboxes[hi - 1] is Tx {
            rest.push((hi - 1) as u32)
        } else {
            rest
        }
    }
}

/// The mailboxes to try, in order, to send a frame of `len` bytes: those of
/// the region whose mailboxes fit the frame most tightly first, then those
/// of the other region if the frame fits there too. Region 1 covers
/// mailboxes 0 up to its mailbox count, region 2 the rest up to 64. A frame
/// that fits neither region is refused.
pub open spec fn transfer_order(config: Config, mailboxes: Seq<MailboxConfig>, len: u32) -> Result<
    Seq<u32>,
    RxTxError,
> {
    let s1 = config.region_1_config.spec_size_bytes();
    let s2 = config.region_2_config.spec_size_bytes();
    if len > s1 && len > s2 {
        Err(RxTxError::FrameTooBigForRegions)
    } else {
        let l: int = if len < 64 {
            len as int
        } else {
            64
        };
        let d1 = s1 - l;
        let d2 = s2 - l;
        let n1 = config.spec_region_1_message_buffers() as int;
        let first = tx_mailboxes_in(mailboxes, 0, n1);
        let second = tx_mailboxes_in(mailboxes, n1, 64);
        Ok(
            if d1 >= 0 && d2 < 0 {
                first
            } else if d2 >= 0 && d1 < 0 {
                second
            } else if d1 < d2 {
                if d2 >= 0 {
                    first + second
                } else {
                    first
                }
            } else if d2 < d1 {
                if d1 >= 0 {
                    second + first
                } else {
                    second
                }
            } else {
                first + second
            },
        )
    }
}

/// The identifier word of a frame: its identifier and, when given, its
/// priority.
pub open spec fn tx_id_register(id: Id, priority: Option<u8>) -> u32 {
    match priority {
        Some(p) => with_field(
            id_register_for(id),
            IDField::PRIO.spec_mask(),
            IDField::PRIO.spec_shift(),
            p as u32,
        ),
        None => id_register_for(id),
    }
}

/// The control and status word that starts the transmission of a CAN FD
/// frame of `len` bytes with bit rate switching.
pub open spec fn tx_cs_register(id: Id, len: u32) -> u32 {
    let ext: u32 = if id is Extended {
        1
    } else {
        0
    };
    let code = with_field(
        0,
        CSField::CODE.spec_mask(),
        CSField::CODE.spec_shift(),
        CS_CODE_TX_DATA_OR_REMOTE,
    );
    let edl = with_field(code, CSField::EDL.spec_mask(), CSField::EDL.spec_shift(), 1);
    let brs = with_field(edl, CSField::BRS.spec_mask(), CSField::BRS.spec_shift(), 1);
    let dlc = with_field(brs, CSField::DLC.spec_mask(), CSField::DLC.spec_shift(), spec_len_to_dlc(len));
    let ssr = with_field(dlc, CSField::SSR.spec_mask(), CSField::SSR.spec_shift(), ext);
    with_field(ssr, CSField::IDE.spec_mask(), CSField::IDE.spec_shift(), ext)
}

/// The accesses that hand `frame` to the mailbox at `offset` whose flag is
/// `index` and whose control and status word read `cs`: clear its flag,
/// make it inactive, write the identifier word, write the data, then start
/// the transmission.
pub open spec fn transfer_actions(
    offset: u32,
    index: u32,
    cs: u32,
    frame_id: Id,
    priority: Option<u8>,
    data: Seq<u8>,
    len: u32,
) -> Seq<RegisterAction> {
    let image_len = message_buffer_image_len(data.len() as int, len);
    seq![
        RegisterAction::WriteIflagBit { index },
        RegisterAction::WriteCsReg {
            offset,
            value: with_field(
                cs,
                CSField::CODE.spec_mask(),
                CSField::CODE.spec_shift(),
                CS_CODE_TX_INACTIVE,
            ),
        },
        RegisterAction::WriteIdReg { offset, value: tx_id_register(frame_id, priority) },
    ] + Seq::new(
        image_len as nat,
        |p: int|
            RegisterAction::WriteMessageBufferByte {
                offset,
                index: p as u32,
                value: message_buffer_image_byte(data, p),
            },
    ) + seq![RegisterAction::WriteCsReg { offset, value: tx_cs_register(frame_id, len) }]
}

/// The mailbox `cs` belongs to is still sending a frame.
pub open spec fn tx_busy(cs: u32) -> bool {
    field_value(cs, CSField::CODE.spec_mask(), CSField::CODE.spec_shift())
        == CS_CODE_TX_DATA_OR_REMOTE
}

/// Position of the first word in `cs_words`, from position `i` on, whose
/// mailbox is not sending a frame.
pub open spec fn first_free_from(cs_words: Seq<u32>, i: int) -> Option<int>
    decreases cs_words.len() - i,
{
    if i < 0 || i >= cs_words.len() {
        None
    } else if !tx_busy(cs_words[i]) {
        Some(i)
    } else {
        first_free_from(cs_words, i + 1)
    }
}

/// What to do next while sending a frame, once the control and status
/// words of the first mailboxes of `order` have been read.
#[derive(Debug, Clone, Copy, PartialEq, Eq, Structural)]
pub enum TxDecision {
    /// Read the control and status word of this mailbox, then decide again.
    ReadCs { mb_index: u32 },
    /// Hand the frame to this mailbox.
    Send { mb_index: u32 },
    /// Every mailbox of the order is sending a frame.
    Unavailable,
}

/// The decision for the words `cs_words` read for the first mailboxes of
/// `order`: send to the first of them that is free; with none free, read
/// the next mailbox of the order; with the order used up, give up.
pub open spec fn tx_decision(order: Seq<u32>, cs_words: Seq<u32>) -> TxDecision {
    match first_free_from(cs_words, 0) {
        Some(j) => TxDecision::Send { mb_index: order[j] },
        None => if cs_words.len() < order.len() {
            TxDecision::ReadCs { mb_index: order[cs_words.len() as int] }
        } else {
            TxDecision::Unavailable
        },
    }
}

/// A step of sending a frame: the decision, with the accesses that hand the
/// frame over when the decision is to send.
pub enum TransferStep {
    ReadCs { mb_index: u32 },
    Send { mb_index: u32, actions: Vec<RegisterAction> },
    Unavailable,
}

proof fn lemma_first_free_from_prefix(cs: Seq<u32>, i: int, k: int)
    requires
        0 <= i <= k <= cs.len(),
        first_free_from(cs, i) is None || first_free_from(cs, i)->0 >= k,
    ensures
        first_free_from(cs.take(k), i) is None,
    decreases k - i,
{
    if i < k {
        assert(cs.take(k)[i] == cs[i]);
        lemma_first_free_from_prefix(cs, i + 1, k);
    }
}

proof fn lemma_first_free_from_found(cs: Seq<u32>, i: int, k: int)
    requires
        0 <= i <= k < cs.len(),
        first_free_from(cs, i) == Some(k),
    ensures
        first_free_from(cs.take(k + 1), i) == Some(k),
    decreases k - i,
{
    let t = cs.take(k + 1);
    assert(t.len() == k + 1);
    assert(t[i] == cs[i]);
    if i < k {
        assert(tx_busy(cs[i]));
        lemma_first_free_from_found(cs, i + 1, k);
        assert(first_free_from(t, i) == first_free_from(t, i + 1));
    } else {
        lemma_first_free_from_bounds(cs, i);
    }
}

proof fn lemma_first_free_from_bounds(cs: Seq<u32>, i: int)
    requires
        0 <= i,
    ensures
        first_free_from(cs, i) matches Some(j) ==> i <= j < cs.len() && !tx_busy(cs[j]) && forall|
            m: int,
        |
            i <= m < j ==> #[trigger] tx_busy(cs[m]),
        first_free_from(cs, i) is None ==> forall|m: int| i <= m < cs.len() ==> #[trigger] tx_busy(
            cs[m],
        ),
    decreases cs.len() - i,
{
    if i < cs.len() && tx_busy(cs[i]) {
        lemma_first_free_from_bounds(cs, i + 1);
    }
}

/// Sending a frame ends at the first free mailbox of the order: with
/// `cs_words` the words of all the mailboxes of the order, the steps read
/// the mailboxes one after another up to the first free one and send the
/// frame to it; the frame is refused as unavailable exactly when every
/// mailbox of the order is busy, after all of them were read.
pub proof fn lemma_transfer_nb_outcome(order: Seq<u32>, cs_words: Seq<u32>)
    requires
        cs_words.len() == order.len(),
    ensures
        first_free_from(cs_words, 0) matches Some(j) ==> {
            &&& 0 <= j < order.len()
            &&& !tx_busy(cs_words[j])
            &&& forall|m: int| 0 <= m < j ==> #[trigger] tx_busy(cs_words[m])
            &&& forall|k: int|
                0 <= k <= j ==> #[trigger] tx_decision(order, cs_words.take(k)) == TxDecision::ReadCs {
                    mb_index: order[k],
                }
            &&& tx_decision(order, cs_words.take(j + 1)) == TxDecision::Send { mb_index: order[j] }
        },
        first_free_from(cs_words, 0) is None ==> {
            &&& forall|m: int| 0 <= m < order.len() ==> #[trigger] tx_busy(cs_words[m])
            &&& forall|k: int|
                0 <= k < order.len() ==> #[trigger] tx_decision(order, cs_words.take(k))
                    == TxDecision::ReadCs { mb_index: order[k] }
            &&& tx_decision(order, cs_words) == TxDecision::Unavailable
        },
{
    lemma_first_free_from_bounds(cs_words, 0);
    assert forall|k: int|
        0 <= k <= cs_words.len() && (first_free_from(cs_words, 0) is None || first_free_from(
            cs_words,
            0,
        )->0 >= k) implies first_free_from(#[trigger] cs_words.take(k), 0) is None by {
        lemma_first_free_from_prefix(cs_words, 0, k);
    }
    if let Some(j) = first_free_from(cs_words, 0) {
        lemma_first_free_from_found(cs_words, 0, j);
    } else {
        assert(cs_words.take(cs_words.len() as int) =~= cs_words);
    }
}

/// A frame that some region holds is sent exactly when one of the transmit
/// mailboxes of the regions that hold it is free: with `cs` the control and
/// status words of the 64 mailboxes, the mailbox the steps send to is the
/// first free one of the order, and a transmit mailbox that holds the frame
/// and is free always exists when the steps find one.
pub proof fn lemma_transfer_nb_sends_when_free(
    config: Config,
    mailboxes: Seq<MailboxConfig>,
    len: u32,
    cs: Seq<u32>,
)
    requires
        mailboxes.len() == 64,
        cs.len() == 64,
        transfer_order(config, mailboxes, len) is Ok,
    ensures
        ({
            let order = transfer_order(config, mailboxes, len)->Ok_0;
            let words = order.map_values(|c: u32| cs[c as int]);
            &&& (first_free_from(words, 0) is Some) == (exists|c: int|
                0 <= c < 64 && #[trigger] mailboxes[c] is Tx && config.spec_mailbox_size(c) >= len
                    && !tx_busy(cs[c]))
            &&& first_free_from(words, 0) matches Some(j) ==> {
                let c = order[j];
                &&& mailboxes[c as int] is Tx
                &&& config.spec_mailbox_size(c as int) >= len
                &&& !tx_busy(cs[c as int])
            }
        }),
{
    let order = transfer_order(config, mailboxes, len)->Ok_0;
    let words = order.map_values(|c: u32| cs[c as int]);
    lemma_transfer_order_fits(config, mailboxes, len);
    lemma_first_free_from_bounds(words, 0);
    if let Some(j) = first_free_from(words, 0) {
        let c = order[j];
        assert(words[j] == cs[c as int]);
        assert(mailboxes[c as int] is Tx);
    }
    if exists|c: int|
        0 <= c < 64 && #[trigger] mailboxes[c] is Tx && config.spec_mailbox_size(c) >= len
            && !tx_busy(cs[c]) {
        let c = choose|c: int|
            0 <= c < 64 && #[trigger] mailboxes[c] is Tx && config.spec_mailbox_size(c) >= len
                && !tx_busy(cs[c]);
        assert(order.contains(c as u32));
        let k = choose|k: int| 0 <= k < order.len() && order[k] == c as u32;
        assert(words[k] == cs[c]);
    }
}

proof fn lemma_tx_mailboxes_in(mailboxes: Seq<MailboxConfig>, lo: int, hi: int)
    requires
        0 <= lo,
        hi <= 64,
    ensures
        forall|k: int|
            0 <= k < tx_mailboxes_in(mailboxes, lo, hi).len() ==> {
                let c = #[trigger] tx_mailboxes_in(mailboxes, lo, hi)[k];
                &&& lo <= c < hi
                &&& mailboxes[c as int] is Tx
            },
        forall|c: int|
            lo <= c < hi && #[trigger] mailboxes[c] is Tx ==> tx_mailboxes_in(
                mailboxes,
                lo,
                hi,
            ).contains(c as u32),
    decreases hi - lo,
{
    if hi > lo {
        lemma_tx_mailboxes_in(mailboxes, lo, hi - 1);
        let rest = tx_mailboxes_in(mailboxes, lo, hi - 1);
        if mailboxes[hi - 1] is Tx {
            let all = rest.push((hi - 1) as u32);
            assert(all[rest.len() as int] == (hi - 1) as u32);
            assert forall|c: int| lo <= c < hi - 1 && #[trigger] mailboxes[c] is Tx implies all.contains(
                c as u32,
            ) by {
                let k = choose|k: int| 0 <= k < rest.len() && rest[k] == c as u32;
                assert(all[k] == c as u32);
            }
        }
    }
}

/// An identifier that fits its field: 11 bits for a standard identifier,
/// 29 bits for an extended one.
pub open spec fn id_in_range(id: Id) -> bool {
    match id {
        Id::Standard(v) => v <= 0x7FF,
        Id::Extended(v) => v <= 0x1FFF_FFFF,
    }
}

/// What a receiver decodes from the words written to send a frame is the
/// frame: the same identifier, and a length of at least the frame's length,
/// the shortest CAN FD length that holds it.
pub proof fn lemma_sent_frame_decodes(id: Id, priority: Option<u8>, len: u32)
    requires
        id_in_range(id),
        len <= 64,
    ensures
        received_id(tx_cs_register(id, len), tx_id_register(id, priority)) == id,
        received_len(tx_cs_register(id, len)) == spec_dlc_to_len(spec_len_to_dlc(len)),
        received_len(tx_cs_register(id, len)) >= len,
{
    CSField::CODE.lemma_is_field();
    CSField::EDL.lemma_is_field();
    CSField::BRS.lemma_is_field();
    CSField::DLC.lemma_is_field();
    CSField::SSR.lemma_is_field();
    CSField::IDE.lemma_is_field();
    IDField::PRIO.lemma_is_field();
    IDField::ID_STD.lemma_is_field();
    IDField::ID_EXT.lemma_is_field();
    lemma_len_to_dlc_shortest_fit(len);
    let ext: u32 = if id is Extended {
        1
    } else {
        0
    };
    let c0 = with_field(0, CSField::CODE.spec_mask(), CSField::CODE.spec_shift(), CS_CODE_TX_DATA_OR_REMOTE);
    let c1 = with_field(c0, CSField::EDL.spec_mask(), CSField::EDL.spec_shift(), 1);
    let c2 = with_field(c1, CSField::BRS.spec_mask(), CSField::BRS.spec_shift(), 1);
    let d = spec_len_to_dlc(len);
    let c3 = with_field(c2, CSField::DLC.spec_mask(), CSField::DLC.spec_shift(), d);
    let c4 = with_field(c3, CSField::SSR.spec_mask(), CSField::SSR.spec_shift(), ext);
    let c5 = with_field(c4, CSField::IDE.spec_mask(), CSField::IDE.spec_shift(), ext);
    assert(c5 == tx_cs_register(id, len));
    assert(d & 0xF == d && ext & 1 == ext) by (bit_vector)
        requires
            d <= 15,
            ext <= 1,
    ;
    assert(0x40_0000u32 & 0xF_0000u32 == 0 && 0x20_0000u32 & 0xF_0000u32 == 0) by (bit_vector);
    lemma_field_write_read(c2, CSField::DLC.spec_mask(), CSField::DLC.spec_shift(), d);
    lemma_disjoint_field_untouched(c3, CSField::SSR.spec_mask(), CSField::SSR.spec_shift(), ext, CSField::DLC.spec_mask(), CSField::DLC.spec_shift());
    lemma_disjoint_field_untouched(c4, CSField::IDE.spec_mask(), CSField::IDE.spec_shift(), ext, CSField::DLC.spec_mask(), CSField::DLC.spec_shift());
    lemma_field_write_read(c4, CSField::IDE.spec_mask(), CSField::IDE.spec_shift(), ext);
    assert(0xE000_0000u32 & 0x1FFC_0000u32 == 0 && 0xE000_0000u32 & 0x1FFF_FFFFu32 == 0) by (bit_vector);
    match id {
        Id::Standard(v) => {
            assert(v & 0x7FF == v) by (bit_vector)
                requires
                    v <= 0x7FF,
            ;
            let i0 = with_field(0, IDField::ID_STD.spec_mask(), IDField::ID_STD.spec_shift(), v);
            lemma_field_write_read(0, IDField::ID_STD.spec_mask(), IDField::ID_STD.spec_shift(), v);
            if let Some(p) = priority {
                lemma_disjoint_field_untouched(i0, IDField::PRIO.spec_mask(), IDField::PRIO.spec_shift(), p as u32, IDField::ID_STD.spec_mask(), IDField::ID_STD.spec_shift());
            }
        },
        Id::Extended(v) => {
            assert(v & 0x1FFF_FFFF == v) by (bit_vector)
                requires
                    v <= 0x1FFF_FFFF,
            ;
            let i0 = with_field(0, IDField::ID_EXT.spec_mask(), IDField::ID_EXT.spec_shift(), v);
            lemma_field_write_read(0, IDField::ID_EXT.spec_mask(), IDField::ID_EXT.spec_shift(), v);
            if let Some(p) = priority {
                lemma_disjoint_field_untouched(i0, IDField::PRIO.spec_mask(), IDField::PRIO.spec_shift(), p as u32, IDField::ID_EXT.spec_mask(), IDField::ID_EXT.spec_shift());
            }
        },
    }
}

/// Every mailbox a frame is offered to is a transmit mailbox below 64
/// whose data area holds the whole frame; when the mailboxes past the
/// configured regions are unconfigured, it lies within those regions.
pub proof fn lemma_transfer_order_fits(config: Config, mailboxes: Seq<MailboxConfig>, len: u32)
    requires
        mailboxes.len() == 64,
    ensures
        transfer_order(config, mailboxes, len) matches Ok(order) ==> forall|k: int|
            0 <= k < order.len() ==> {
                let c = #[trigger] order[k];
                &&& c < 64
                &&& mailboxes[c as int] is Tx
                &&& config.spec_mailbox_size(c as int) >= len
                &&& (forall|i: int|
                    config.spec_max_message_buffers() <= i < 64 ==> #[trigger] mailboxes[i]
                        == MailboxConfig::Unconfigured) ==> c < config.spec_max_message_buffers()
            },
        transfer_order(config, mailboxes, len) matches Ok(order) ==> forall|c: int|
            0 <= c < 64 && #[trigger] mailboxes[c] is Tx && config.spec_mailbox_size(c) >= len
                ==> order.contains(c as u32),
{
    lemma_region_layout(config.region_1_config);
    lemma_region_layout(config.region_2_config);
    let n1 = config.spec_region_1_message_buffers() as int;
    let first = tx_mailboxes_in(mailboxes, 0, n1);
    let second = tx_mailboxes_in(mailboxes, n1, 64);
    lemma_tx_mailboxes_in(mailboxes, 0, n1);
    lemma_tx_mailboxes_in(mailboxes, n1, 64);
    if let Ok(order) = transfer_order(config, mailboxes, len) {
        assert forall|c: int|
            0 <= c < 64 && #[trigger] mailboxes[c] is Tx && config.spec_mailbox_size(c) >= len
                implies order.contains(c as u32) by {
            if c < n1 {
                assert(first.contains(c as u32));
                let k = choose|k: int| 0 <= k < first.len() && first[k] == c as u32;
                if order == second + first {
                    assert(order[second.len() + k] == c as u32);
                } else {
                    assert(order[k] == c as u32);
                }
            } else {
                assert(second.contains(c as u32));
                let k = choose|k: int| 0 <= k < second.len() && second[k] == c as u32;
                if order == first + second {
                    assert(order[first.len() + k] == c as u32);
                } else {
                    assert(order[k] == c as u32);
                }
            }
        }
        assert forall|k: int| 0 <= k < order.len() implies {
            let c = #[trigger] order[k];
            &&& c < 64
            &&& mailboxes[c as int] is Tx
            &&& config.spec_mailbox_size(c as int) >= len
            &&& (forall|i: int|
                config.spec_max_message_buffers() <= i < 64 ==> #[trigger] mailboxes[i]
                    == MailboxConfig::Unconfigured) ==> c < config.spec_max_message_buffers()
        } by {
            let c = order[k];
            if k < first.len() && (order == first || order == first + second) {
                assert(first[k] == c);
            } else if order == first + second {
                assert(second[k - first.len()] == c);
            } else if k < second.len() && (order == second || order == second + first) {
                assert(second[k] == c);
            } else {
                assert(first[k - second.len()] == c);
            }
            if (forall|i: int|
                config.spec_max_message_buffers() <= i < 64 ==> #[trigger] mailboxes[i]
                    == MailboxConfig::Unconfigured) && !(c < config.spec_max_message_buffers()) {
                assert(mailboxes[c as int] == MailboxConfig::Unconfigured);
            }
        }
    }
}

/// Sending a frame through any mailbox it is offered to writes its data
/// only inside that mailbox's data area, which lies inside the message RAM.
pub proof fn lemma_transfer_stays_in_mailbox(
    canfd: CANFD,
    frame_id: Id,
    priority: Option<u8>,
    data: Seq<u8>,
    mb_index: u32,
    cs: u32,
)
    requires
        canfd.wf(),
        data.len() <= u32::MAX,
        transfer_order(canfd.config, canfd.mailbox_configs@, data.len() as u32) matches Ok(order)
            && order.contains(mb_index),
    ensures
        ({
            let offset = canfd.config.spec_mailbox_data_offset(mb_index as int);
            let size = canfd.config.spec_mailbox_size(mb_index as int);
            let actions = transfer_actions(
                offset as u32,
                mb_index,
                cs,
                frame_id,
                priority,
                data,
                data.len() as u32,
            );
            &&& offset + 8 + size <= 1024
            &&& forall|k: int|
                0 <= k < actions.len() ==> (#[trigger] actions[k] matches RegisterAction::WriteMessageBufferByte {
                    offset: o,
                    index,
                    ..
                } ==> o == offset && index < size)
        }),
{
    let order = transfer_order(canfd.config, canfd.mailbox_configs@, data.len() as u32)->Ok_0;
    lemma_transfer_order_fits(canfd.config, canfd.mailbox_configs@, data.len() as u32);
    let k0 = choose|k: int| 0 <= k < order.len() && order[k] == mb_index;
    assert(order[k0] == mb_index);
    lemma_mailbox_in_ram(canfd.config, mb_index as int);
    lemma_mailbox_offset_bounded(canfd.config, mb_index as int);
}

/// The control and status word that starts a transmission asks for a CAN FD
/// frame with bit rate switching, whatever the identifier: EDL and BRS are
/// set, CODE is "transmit data", SSR and IDE are set exactly for an
/// extended identifier, and the data length code stands for the shortest
/// CAN FD length that holds the frame.
pub proof fn lemma_tx_cs_register_fields(id: Id, len: u32)
    ensures
        field_value(tx_cs_register(id, len), CSField::EDL.spec_mask(), CSField::EDL.spec_shift())
            == 1,
        field_value(tx_cs_register(id, len), CSField::BRS.spec_mask(), CSField::BRS.spec_shift())
            == 1,
        field_value(tx_cs_register(id, len), CSField::CODE.spec_mask(), CSField::CODE.spec_shift())
            == CS_CODE_TX_DATA_OR_REMOTE,
        field_value(tx_cs_register(id, len), CSField::IDE.spec_mask(), CSField::IDE.spec_shift())
            == (if id is Extended {
            1u32
        } else {
            0u32
        }),
        field_value(tx_cs_register(id, len), CSField::SSR.spec_mask(), CSField::SSR.spec_shift())
            == (if id is Extended {
            1u32
        } else {
            0u32
        }),
        len <= 64 ==> {
            let l = spec_dlc_to_len(
                field_value(
                    tx_cs_register(id, len),
                    CSField::DLC.spec_mask(),
                    CSField::DLC.spec_shift(),
                ),
            );
            &&& l >= len
            &&& is_fd_length(l as int)
            &&& forall|m: int| is_fd_length(m) && m >= len ==> l <= m
        },
{
    let ext: u32 = if id is Extended {
        1
    } else {
        0
    };
    let d = spec_len_to_dlc(len);
    assert(d <= 15);
    assert(0xCu32 & 0xFu32 == 0xCu32 && 1u32 & 1u32 == 1u32 && ext & 1u32 == ext && d & 0xFu32 == d
        && 0x8000_0000u32 & 0xF00_0000u32 == 0 && 0x4000_0000u32 & 0xF00_0000u32 == 0
        && 0xF_0000u32 & 0xF00_0000u32 == 0 && 0x40_0000u32 & 0xF00_0000u32 == 0 && 0x20_0000u32 & 0xF00_0000u32 == 0 && 0x4000_0000u32 & 0x8000_0000u32 == 0 && 0xF_0000u32 & 0x8000_0000u32 == 0 && 0x40_0000u32 & 0x8000_0000u32 == 0 && 0x20_0000u32 & 0x8000_0000u32 == 0 && 0xF_0000u32 & 0x4000_0000u32 == 0 && 0x40_0000u32 & 0x4000_0000u32 == 0
        && 0x20_0000u32 & 0x4000_0000u32 == 0 && 0x40_0000u32 & 0xF_0000u32 == 0 && 0x20_0000u32 & 0xF_0000u32 == 0 && 0x20_0000u32 & 0x40_0000u32 == 0) by (bit_vector)
        requires
            ext <= 1,
            d <= 15,
    ;
    CSField::CODE.lemma_is_field();
    CSField::EDL.lemma_is_field();
    CSField::BRS.lemma_is_field();
    CSField::DLC.lemma_is_field();
    CSField::SSR.lemma_is_field();
    CSField::IDE.lemma_is_field();
    let c0 = with_field(0, 0xF00_0000, 24, CS_CODE_TX_DATA_OR_REMOTE);
    let c1 = with_field(c0, 0x8000_0000, 31, 1);
    let c2 = with_field(c1, 0x4000_0000, 30, 1);
    let c3 = with_field(c2, 0xF_0000, 16, d);
    let c4 = with_field(c3, 0x40_0000, 22, ext);
    let c5 = with_field(c4, 0x20_0000, 21, ext);
    assert(c5 == tx_cs_register(id, len));
    // CODE, written first, survives the five later writes.
    lemma_field_write_read(0, 0xF00_0000, 24, CS_CODE_TX_DATA_OR_REMOTE);
    lemma_disjoint_field_untouched(c0, 0x8000_0000, 31, 1, 0xF00_0000, 24);
    lemma_disjoint_field_untouched(c1, 0x4000_0000, 30, 1, 0xF00_0000, 24);
    lemma_disjoint_field_untouched(c2, 0xF_0000, 16, d, 0xF00_0000, 24);
    lemma_disjoint_field_untouched(c3, 0x40_0000, 22, ext, 0xF00_0000, 24);
    lemma_disjoint_field_untouched(c4, 0x20_0000, 21, ext, 0xF00_0000, 24);
    // EDL.
    lemma_field_write_read(c0, 0x8000_0000, 31, 1);
    lemma_disjoint_field_untouched(c1, 0x4000_0000, 30, 1, 0x8000_0000, 31);
    lemma_disjoint_field_untouched(c2, 0xF_0000, 16, d, 0x8000_0000, 31);
    lemma_disjoint_field_untouched(c3, 0x40_0000, 22, ext, 0x8000_0000, 31);
    lemma_disjoint_field_untouched(c4, 0x20_0000, 21, ext, 0x8000_0000, 31);
    // BRS.
    lemma_field_write_read(c1, 0x4000_0000, 30, 1);
    lemma_disjoint_field_untouched(c2, 0xF_0000, 16, d, 0x4000_0000, 30);
    lemma_disjoint_field_untouched(c3, 0x40_0000, 22, ext, 0x4000_0000, 30);
    lemma_disjoint_field_untouched(c4, 0x20_0000, 21, ext, 0x4000_0000, 30);
    // DLC.
    lemma_field_write_read(c2, 0xF_0000, 16, d);
    lemma_disjoint_field_untouched(c3, 0x40_0000, 22, ext, 0xF_0000, 16);
    lemma_disjoint_field_untouched(c4, 0x20_0000, 21, ext, 0xF_0000, 16);
    // SSR.
    lemma_field_write_read(c3, 0x40_0000, 22, ext);
    lemma_disjoint_field_untouched(c4, 0x20_0000, 21, ext, 0x40_0000, 22);
    // IDE.
    lemma_field_write_read(c4, 0x20_0000, 21, ext);
    if len <= 64 {
        lemma_len_to_dlc_shortest_fit(len);
    }
}

/// The identifier word written for a frame holds its identifier (cut to
/// its field) on the field of its kind and, when given, its priority on the
/// priority field.
pub proof fn lemma_tx_id_register_fields(id: Id, priority: Option<u8>)
    ensures
        id matches Id::Standard(v) ==> field_value(
            tx_id_register(id, priority),
            IDField::ID_STD.spec_mask(),
            IDField::ID_STD.spec_shift(),
        ) == v & 0x7FF,
        id matches Id::Extended(v) ==> field_value(
            tx_id_register(id, priority),
            IDField::ID_EXT.spec_mask(),
            IDField::ID_EXT.spec_shift(),
        ) == v & 0x1FFF_FFFF,
        priority matches Some(p) ==> field_value(
            tx_id_register(id, priority),
            IDField::PRIO.spec_mask(),
            IDField::PRIO.spec_shift(),
        ) == p & 7,
{
    IDField::PRIO.lemma_is_field();
    IDField::ID_STD.lemma_is_field();
    IDField::ID_EXT.lemma_is_field();
    assert(0xE000_0000u32 & 0x1FFC_0000u32 == 0 && 0xE000_0000u32 & 0x1FFF_FFFFu32 == 0)
        by (bit_vector);
    let i0 = id_register_for(id);
    match id {
        Id::Standard(v) => lemma_field_write_read(0, 0x1FFC_0000, 18, v),
        Id::Extended(v) => lemma_field_write_read(0, 0x1FFF_FFFF, 0, v),
    }
    if let Some(p) = priority {
        lemma_field_write_read(i0, 0xE000_0000, 29, p as u32);
        lemma_disjoint_field_untouched(i0, 0xE000_0000, 29, p as u32, 0x1FFC_0000, 18);
        lemma_disjoint_field_untouched(i0, 0xE000_0000, 29, p as u32, 0x1FFF_FFFF, 0);
    }
}

impl CANFD {
    /// The transmit mailboxes among mailboxes `lo` up to `hi`, in order.
    fn tx_mailboxes(&self, lo: u32, hi: u32) -> (found: Vec<u32>)
        requires
            lo <= hi <= 64,
        ensures
            found@ == tx_mailboxes_in(self.mailbox_configs@, lo as int, hi as int),
    {
        let mut found: Vec<u32> = Vec::new();
        let mut i: u32 = lo;
        while i < hi
            invariant
                lo <= i <= hi <= 64,
                found@ == tx_mailboxes_in(self.mailbox_configs@, lo as int, i as int),
            decreases hi - i,
        {
            match self.mailbox_configs[i as usize] {
                MailboxConfig::Tx => found.push(i),
                _ => {},
            }
            i = i + 1;
        }
        found
    }

    /// The mailboxes to try, in order, to send `frame`. Each is a transmit
    /// mailbox within the configured regions whose data area holds the
    /// whole frame.
    pub fn transfer_nb_mailboxes(&self, frame: &TxFDFrame) -> (order: Result<Vec<u32>, RxTxError>)
        requires
            frame.buffer@.len() <= u32::MAX,
        ensures
            order matches Ok(v) ==> transfer_order(
                self.config,
                self.mailbox_configs@,
                frame.buffer@.len() as u32,
            ) == Ok::<Seq<u32>, RxTxError>(v@),
            order matches Err(e) ==> transfer_order(
                self.config,
                self.mailbox_configs@,
                frame.buffer@.len() as u32,
            ) == Err::<Seq<u32>, RxTxError>(e),
            order is Err <==> frame.buffer@.len() > self.config.region_1_config.spec_size_bytes()
                && frame.buffer@.len() > self.config.region_2_config.spec_size_bytes(),
            order matches Err(e) ==> e == RxTxError::FrameTooBigForRegions,
            order matches Ok(v) ==> forall|k: int|
                0 <= k < v@.len() ==> {
                    let c = #[trigger] v@[k];
                    &&& c < 64
                    &&& self.wf() ==> c < self.spec_max_message_buffers()
                    &&& self.mailbox_configs@[c as int] is Tx
                    &&& self.config.spec_mailbox_size(c as int) >= frame.buffer@.len()
                },
    {
        let buffer_len: u32 = frame.buffer.len() as u32;
        let size_1 = self.config.region_1_config.size_bytes();
        let size_2 = self.config.region_2_config.size_bytes();
        if buffer_len > size_1 && buffer_len > size_2 {
            return Err(RxTxError::FrameTooBigForRegions);
        }
        let region_1_offset = self.get_region_1_message_buffers();
        proof {
            lemma_region_layout(self.config.region_1_config);
            lemma_region_layout(self.config.region_2_config);
        }
        let fit_len: u32 = if buffer_len < 64 {
            buffer_len
        } else {
            64
        };
        let region_1_diff: i32 = (size_1 as i32) - (fit_len as i32);
        let region_2_diff: i32 = (size_2 as i32) - (fit_len as i32);
        let mut first = self.tx_mailboxes(0, region_1_offset);
        let mut second = self.tx_mailboxes(region_1_offset, 64);
        let order = if region_1_diff >= 0 && region_2_diff < 0 {
            first
        } else if region_2_diff >= 0 && region_1_diff < 0 {
            second
        } else if region_1_diff < region_2_diff {
            if region_2_diff >= 0 {
                first.append(&mut second);
            }
            first
        } else if region_2_diff < region_1_diff {
            if region_1_diff >= 0 {
                second.append(&mut first);
            }
            second
        } else {
            first.append(&mut second);
            first
        };
        proof {
            lemma_transfer_order_fits(self.config, self.mailbox_configs@, buffer_len);
        }
        Ok(order)
    }

    /// Hands `frame` to mailbox `mb_index`, whose control and status word
    /// read `cs_reg`, writing at most `buffer_len` data words. Refused when
    /// the mailbox is still sending a frame.
    pub fn transfer(
        &self,
        mb_index: u32,
        cs_reg: &CSRegisterBitfield,
        frame: &TxFDFrame,
        buffer_len: u32,
    ) -> (result: Result<Vec<RegisterAction>, RxTxError>)
        requires
            self.config.spec_mailbox_data_offset(mb_index as int) <= u32::MAX,
        ensures
            tx_busy(cs_reg@) ==> result == Err::<Vec<RegisterAction>, RxTxError>(
                RxTxError::MailboxUnavailable,
            ),
            !tx_busy(cs_reg@) ==> (result matches Ok(actions) && actions@ == transfer_actions(
                self.config.spec_mailbox_data_offset(mb_index as int) as u32,
                mb_index,
                cs_reg@,
                frame.id,
                frame.priority,
                frame.buffer@,
                buffer_len,
            )),
            result matches Ok(actions) ==> (actions@.len() >= 4 && (actions@.last() matches RegisterAction::WriteCsReg {
                value,
                ..
            } && field_value(value, CSField::EDL.spec_mask(), CSField::EDL.spec_shift()) == 1
                && field_value(value, CSField::BRS.spec_mask(), CSField::BRS.spec_shift()) == 1
                && field_value(value, CSField::CODE.spec_mask(), CSField::CODE.spec_shift())
                == CS_CODE_TX_DATA_OR_REMOTE && field_value(
                value,
                CSField::IDE.spec_mask(),
                CSField::IDE.spec_shift(),
            ) == (if frame.id is Extended {
                1u32
            } else {
                0u32
            }) && (buffer_len <= 64 ==> spec_dlc_to_len(
                field_value(value, CSField::DLC.spec_mask(), CSField::DLC.spec_shift()),
            ) >= buffer_len))),
            result matches Ok(actions) ==> (actions@[2] matches RegisterAction::WriteIdReg {
                value,
                ..
            } && (frame.id matches Id::Standard(v) ==> field_value(
                value,
                IDField::ID_STD.spec_mask(),
                IDField::ID_STD.spec_shift(),
            ) == v & 0x7FF) && (frame.id matches Id::Extended(v) ==> field_value(
                value,
                IDField::ID_EXT.spec_mask(),
                IDField::ID_EXT.spec_shift(),
            ) == v & 0x1FFF_FFFF) && (frame.priority matches Some(p) ==> field_value(
                value,
                IDField::PRIO.spec_mask(),
                IDField::PRIO.spec_shift(),
            ) == p & 7)),
    {
        proof {
            lemma_tx_cs_register_fields(frame.id, buffer_len);
            lemma_tx_id_register_fields(frame.id, frame.priority);
        }
        let mb_data_offset = self.get_mailbox_data_offset(mb_index);
        if cs_reg.read_field(CSField::CODE) == CS_CODE_TX_DATA_OR_REMOTE {
            return Err(RxTxError::MailboxUnavailable);
        }
        let mut actions: Vec<RegisterAction> = Vec::new();
        actions.push(RegisterAction::WriteIflagBit { index: mb_index });

        let mut inactive = CSRegisterBitfield::from_raw(cs_reg.serialize());
        inactive.write_field(CSField::CODE, CS_CODE_TX_INACTIVE);
        actions.push(RegisterAction::WriteCsReg { offset: mb_data_offset, value: inactive.serialize() });

        let mut id_reg = IDRegisterBitfield::new();
        match frame.id {
            Id::Standard(id) => id_reg.write_field(IDField::ID_STD, id),
            Id::Extended(id) => id_reg.write_field(IDField::ID_EXT, id),
        }
        if let Some(priority) = frame.priority {
            id_reg.write_field(IDField::PRIO, priority as u32);
        }
        actions.push(RegisterAction::WriteIdReg { offset: mb_data_offset, value: id_reg.serialize() });

        let image = message_buffer_image(frame.buffer, buffer_len);
        let ghost head = actions@;
        let mut p: usize = 0;
        while p < image.len()
            invariant
                p <= image@.len(),
                image@.len() <= 64,
                head.len() == 3,
                actions@.len() == 3 + p,
                forall|k: int| 0 <= k < 3 ==> #[trigger] actions@[k] == head[k],
                forall|k: int|
                    0 <= k < p ==> #[trigger] actions@[3 + k]
                        == (RegisterAction::WriteMessageBufferByte {
                        offset: mb_data_offset,
                        index: k as u32,
                        value: image@[k],
                    }),
            decreases image@.len() - p,
        {
            actions.push(
                RegisterAction::WriteMessageBufferByte {
                    offset: mb_data_offset,
                    index: p as u32,
                    value: image[p],
                },
            );
            p = p + 1;
        }

        let mut cs_tx = CSRegisterBitfield::new();
        cs_tx.write_field(CSField::CODE, CS_CODE_TX_DATA_OR_REMOTE);
        cs_tx.write_field(CSField::EDL, 0b1);
        cs_tx.write_field(CSField::BRS, 0b1);
        cs_tx.write_field(CSField::DLC, len_to_dlc(buffer_len));
        match frame.id {
            Id::Standard(_) => {
                cs_tx.write_field(CSField::SSR, 0b0);
                cs_tx.write_field(CSField::IDE, 0b0);
            },
            Id::Extended(_) => {
                cs_tx.write_field(CSField::SSR, 0b1);
                cs_tx.write_field(CSField::IDE, 0b1);
            },
        }
        actions.push(RegisterAction::WriteCsReg { offset: mb_data_offset, value: cs_tx.serialize() });
        proof {
            let expected = transfer_actions(
                mb_data_offset,
                mb_index,
                cs_reg@,
                frame.id,
                frame.priority,
                frame.buffer@,
                buffer_len,
            );
            assert(expected.len() == actions@.len());
            assert forall|k: int| 0 <= k < actions@.len() implies actions@[k] == expected[k] by {
                if 3 <= k < 3 + image@.len() {
                    assert(actions@[3 + (k - 3)] == (RegisterAction::WriteMessageBufferByte {
                        offset: mb_data_offset,
                        index: (k - 3) as u32,
                        value: image@[k - 3],
                    }));
                }
            }
            assert(actions@ =~= expected);
        }
        Ok(actions)
    }

    /// One step of sending `frame` through the mailboxes of `order`, given
    /// the control and status words `cs_words` read so far for its first
    /// mailboxes: send to the first free one of them, or read the next
    /// mailbox, or refuse the frame when every mailbox of the order is busy.
    pub fn transfer_nb_step(
        &self,
        frame: &TxFDFrame,
        order: &Vec<u32>,
        cs_words: &Vec<u32>,
    ) -> (step: TransferStep)
        requires
            cs_words@.len() <= order@.len(),
            frame.buffer@.len() <= u32::MAX,
            forall|k: int| 0 <= k < order@.len() ==> #[trigger] order@[k] < 64,
        ensures
            match tx_decision(order@, cs_words@) {
                TxDecision::ReadCs { mb_index } => step matches TransferStep::ReadCs {
                    mb_index: m,
                } && m == mb_index,
                TxDecision::Unavailable => step is Unavailable,
                TxDecision::Send { mb_index } => step matches TransferStep::Send {
                    mb_index: m,
                    actions,
                } && m == mb_index && actions@ == transfer_actions(
                    self.config.spec_mailbox_data_offset(mb_index as int) as u32,
                    mb_index,
                    cs_words@[first_free_from(cs_words@, 0)->0],
                    frame.id,
                    frame.priority,
                    frame.buffer@,
                    frame.buffer@.len() as u32,
                ),
            },
    {
        let mut j: usize = 0;
        while j < cs_words.len()
            invariant
                j <= cs_words@.len(),
                cs_words@.len() <= order@.len(),
                frame.buffer@.len() <= u32::MAX,
                forall|k: int| 0 <= k < order@.len() ==> #[trigger] order@[k] < 64,
                first_free_from(cs_words@, 0) == first_free_from(cs_words@, j as int),
            decreases cs_words@.len() - j,
        {
            let cs_reg = CSRegisterBitfield::from_raw(cs_words[j]);
            if cs_reg.read_field(CSField::CODE) != CS_CODE_TX_DATA_OR_REMOTE {
                let mb_index = order[j];
                proof {
                    assert(order@[j as int] < 64);
                    lemma_mailbox_offset_bounded(self.config, mb_index as int);
                }
                let buffer_len = frame.buffer.len() as u32;
                return match self.transfer(mb_index, &cs_reg, frame, buffer_len) {
                    Ok(actions) => TransferStep::Send { mb_index, actions },
                    // `transfer` refuses busy mailboxes only, and this one is free.
                    Err(_) => TransferStep::Unavailable,
                };
            }
            j = j + 1;
        }
        if cs_words.len() < order.len() {
            TransferStep::ReadCs { mb_index: order[cs_words.len()] }
        } else {
            TransferStep::Unavailable
        }
    }

    /// Whether a blocking send tries again after an attempt that ended
    /// with `result`: only when no mailbox was free.
    pub fn transfer_blocking_retry(result: &Result<(), RxTxError>) -> (retry: bool)
        ensures
            retry == (*result == Err::<(), RxTxError>(RxTxError::MailboxUnavailable)),
    {
        match result {
            Ok(()) => false,
            Err(RxTxError::MailboxUnavailable) => true,
            Err(_) => false,
        }
    }
}

} // verus!
