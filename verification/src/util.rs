//! Mailbox counts and the conversion between data length codes and frame
//! lengths.

use vstd::prelude::*;

use crate::config::lemma_region_layout;
use crate::CANFD;

verus! {

impl CANFD {
    pub fn get_region_1_message_buffers(&self) -> (n: u32)
        ensures
            n == self.config.spec_region_1_message_buffers(),
    {
        self.config.region_1_config.max_buffers_per_region()
    }

    pub fn get_region_2_message_buffers(&self) -> (n: u32)
        ensures
            n == self.config.spec_region_2_message_buffers(),
    {
        self.config.region_2_config.max_buffers_per_region()
    }

    pub fn get_max_message_buffers(&self) -> (n: u32)
        ensures
            n == self.config.spec_max_message_buffers(),
            n == self.config.spec_region_1_message_buffers() + self.config.spec_region_2_message_buffers(),
            n <= 64,
    {
        proof {
            lemma_region_layout(self.config.region_1_config);
            lemma_region_layout(self.config.region_2_config);
        }
        self.get_region_1_message_buffers() + self.get_region_2_message_buffers()
    }
}

/// Frame length for a data length code.
pub open spec fn spec_dlc_to_len(dlc: u32) -> u32 {
    if dlc == 9 {
        12
    } else if dlc == 10 {
        16
    } else if dlc == 11 {
        20
    } else if dlc == 12 {
        24
    } else if dlc == 13 {
        32
    } else if dlc == 14 {
        48
    } else if dlc == 15 {
        64
    } else {
        dlc % 9
    }
}

/// Data length code for a frame length: the code of the shortest frame
/// length that holds `len` bytes, and 8 for lengths over 64.
pub open spec fn spec_len_to_dlc(len: u32) -> u32 {
    if len <= 8 {
        len
    } else if len <= 12 {
        9
    } else if len <= 16 {
        10
    } else if len <= 20 {
        11
    } else if len <= 24 {
        12
    } else if len <= 32 {
        13
    } else if len <= 48 {
        14
    } else if len <= 64 {
        15
    } else {
        8
    }
}

/// The data lengths a CAN FD frame can have.
pub open spec fn is_fd_length(len: int) -> bool {
    (0 <= len <= 8) || len == 12 || len == 16 || len == 20 || len == 24 || len == 32 || len == 48
        || len == 64
}

pub fn dlc_to_len(dlc: u32) -> (len: u32)
    ensures
        len == spec_dlc_to_len(dlc),
        is_fd_length(len as int),
{
    match dlc {
        9 => 12,
        10 => 16,
        11 => 20,
        12 => 24,
        13 => 32,
        14 => 48,
        15 => 64,
        _ => dlc % 9,
    }
}

pub fn len_to_dlc(len: u32) -> (dlc: u32)
    ensures
        dlc == spec_len_to_dlc(len),
        dlc <= 15,
{
    if len <= 8 {
        len
    } else if len <= 12 {
        9
    } else if len <= 16 {
        10
    } else if len <= 20 {
        11
    } else if len <= 24 {
        12
    } else if len <= 32 {
        13
    } else if len <= 48 {
        14
    } else if len <= 64 {
        15
    } else {
        8
    }
}

/// A frame of at most 64 bytes is sent with the shortest CAN FD length that
/// holds it.
pub proof fn lemma_len_to_dlc_shortest_fit(len: u32)
    requires
        len <= 64,
    ensures
        spec_dlc_to_len(spec_len_to_dlc(len)) >= len,
        is_fd_length(spec_dlc_to_len(spec_len_to_dlc(len)) as int),
        forall|l: int| is_fd_length(l) && l >= len ==> spec_dlc_to_len(spec_len_to_dlc(len)) <= l,
{
}

/// Every data length code up to 15 survives the trip to a length and back.
pub proof fn lemma_dlc_round_trip(dlc: u32)
    requires
        dlc <= 15,
    ensures
        spec_len_to_dlc(spec_dlc_to_len(dlc)) == dlc,
{
}

/// Every CAN FD length survives the trip to a code and back.
pub proof fn lemma_len_round_trip(len: u32)
    requires
        is_fd_length(len as int),
    ensures
        spec_dlc_to_len(spec_len_to_dlc(len)) == len,
{
}

} // verus!
