//! A driver for the CAN FD controller (CAN3) of the i.MX RT 1062 found on
//! the Teensy 4: configuration, message buffer layout and encoding, and the
//! decisions taken when sending and receiving frames. Register accesses are
//! described as values and actions; the code that touches the hardware
//! performs them.

pub mod can_error;
pub mod config;
pub mod interrupt;
pub mod mailbox;
pub mod message_buffer;
pub mod receive;
pub mod transfer;
pub mod util;

use vstd::prelude::*;

use config::{Config, MailboxConfig};

verus! {

/// State of the driver: the configuration it was built with and what each
/// of the 64 mailboxes has been configured as.
pub struct CANFD {
    pub config: Config,
    pub mailbox_configs: [MailboxConfig; 64],
}

impl CANFD {
    /// Mailboxes past the ones the two regions provide stay unconfigured.
    pub open spec fn wf(&self) -> bool {
        forall|i: int|
            self.spec_max_message_buffers() <= i < 64 ==> #[trigger] self.mailbox_configs@[i]
                == MailboxConfig::Unconfigured
    }

    pub open spec fn spec_max_message_buffers(&self) -> u32 {
        self.config.spec_max_message_buffers()
    }
}

/// Handle to the running driver, given out once it is built.
pub struct CAN3FD {
    _0: (),
}

/// The right to build the driver; there is only ever one.
pub struct CANFDBuilder {}

/// Whether taking the builder succeeds when `taken` says whether it was
/// taken before, and whether it is taken afterwards.
pub open spec fn take_outcome(taken: bool) -> (bool, bool) {
    (!taken, true)
}

/// The builder is handed out at most once: whatever the state before, a
/// second attempt right after a first one fails.
pub proof fn lemma_builder_taken_once(taken: bool)
    ensures
        !take_outcome(take_outcome(taken).1).0,
{
}

impl CANFDBuilder {
    /// Hands out the builder unless it was taken before, as recorded in
    /// `taken`, which is set afterwards.
    pub fn take(taken: &mut bool) -> (builder: Option<Self>)
        ensures
            builder is Some == take_outcome(*old(taken)).0,
            *final(taken) == take_outcome(*old(taken)).1,
    {
        let mut result: Option<Self> = None;
        if !*taken {
            *taken = true;
            result = Some(Self {});
        }
        result
    }

    /// Builds the driver for `can_config`, with every mailbox unconfigured,
    /// and the handle to it.
    pub fn build(self, can_config: Config) -> (built: (CAN3FD, CANFD))
        ensures
            built.1.config == can_config,
            forall|i: int| 0 <= i < 64 ==> #[trigger] built.1.mailbox_configs@[i] == MailboxConfig::Unconfigured,
            built.1.wf(),
    {
        let canfd = CANFD { config: can_config, mailbox_configs: [MailboxConfig::Unconfigured; 64] };
        (CAN3FD { _0: () }, canfd)
    }
}

} // verus!
