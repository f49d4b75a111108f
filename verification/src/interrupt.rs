//! Servicing the controller's interrupt: which mailboxes to take frames
//! from and which interrupt flags to clear afterwards.

use vstd::prelude::*;

use crate::CANFD;

verus! {

/// The mailboxes to take frames from, in increasing order, and the values
/// to write to IFLAG1 and IFLAG2 afterwards to clear their flags.
pub struct InterruptService {
    pub mailboxes: Vec<u32>,
    pub iflag1: u32,
    pub iflag2: u32,
}

/// Bits 0 up to (not including) `n` set.
pub open spec fn low_mask64(n: u64) -> u64 {
    if n >= 64 {
        0xFFFF_FFFF_FFFF_FFFFu64
    } else {
        ((1u64 << n) - 1) as u64
    }
}

/// Mailbox `i` raised an interrupt that is enabled.
pub open spec fn is_pending(iflag: u64, imask: u64, i: u64) -> bool {
    (iflag & imask) & (1u64 << i) != 0
}

/// The mailboxes below `n` with a pending interrupt, in increasing order.
pub open spec fn pending_mailboxes(iflag: u64, imask: u64, n: int) -> Seq<u32>
    decreases n,
{
    if n <= 0 {
        seq![]
    } else {
        let rest = pending_mailboxes(iflag, imask, n - 1);
        if is_pending(iflag, imask, (n - 1) as u64) {
            rest.push((n - 1) as u32)
        } else {
            rest
        }
    }
}

proof fn lemma_low_mask_step(x: u64, i: u64)
    requires
        i < 64,
    ensures
        x & (1u64 << i) == 0 ==> x & low_mask64(i) == x & low_mask64((i + 1) as u64),
        x & (1u64 << i) != 0 ==> (x & low_mask64(i)) | (1u64 << i) == x & low_mask64(
            (i + 1) as u64,
        ),
{
    if i == 63 {
        assert(x & (1u64 << 63u64) == 0 ==> x & (((1u64 << 63u64) - 1) as u64) == x
            & 0xFFFF_FFFF_FFFF_FFFFu64) by (bit_vector);
        assert(x & (1u64 << 63u64) != 0 ==> (x & (((1u64 << 63u64) - 1) as u64)) | (1u64 << 63u64)
            == x & 0xFFFF_FFFF_FFFF_FFFFu64) by (bit_vector);
    } else {
        assert(x & (1u64 << i) == 0 ==> x & (((1u64 << i) - 1) as u64) == x & (((1u64 << ((i
            + 1) as u64)) - 1) as u64)) by (bit_vector)
            requires
                i < 63,
        ;
        assert(x & (1u64 << i) != 0 ==> (x & (((1u64 << i) - 1) as u64)) | (1u64 << i) == x & (((
        1u64 << ((i + 1) as u64)) - 1) as u64)) by (bit_vector)
            requires
                i < 63,
        ;
    }
}

/// Joins two 32-bit registers into the 64 per-mailbox bits.
pub open spec fn joined(low: u32, high: u32) -> u64 {
    (low + high * 0x1_0000_0000) as u64
}

proof fn lemma_join(low: u32, high: u32)
    ensures
        (low as u64) + ((high as u64) << 32u64) == low + high * 0x1_0000_0000,
        low + high * 0x1_0000_0000 <= u64::MAX,
{
    assert(((high as u64) << 32u64) == (high as u64) * 0x1_0000_0000u64) by (bit_vector);
    assert(high * 0x1_0000_0000 <= 0xFFFF_FFFF_0000_0000) by (nonlinear_arith)
        requires
            high <= 0xFFFF_FFFF,
    ;
}

proof fn lemma_pending_mailboxes_contains(iflag: u64, imask: u64, n: int, k: u64)
    requires
        0 <= n <= 64,
        k < 64,
    ensures
        pending_mailboxes(iflag, imask, n).contains(k as u32) == (k < n && is_pending(
            iflag,
            imask,
            k,
        )),
    decreases n,
{
    if n > 0 {
        lemma_pending_mailboxes_contains(iflag, imask, n - 1, k);
        let rest = pending_mailboxes(iflag, imask, n - 1);
        if is_pending(iflag, imask, (n - 1) as u64) {
            assert(rest.push((n - 1) as u32).contains(k as u32) == (rest.contains(k as u32) || k
                == n - 1)) by {
                if k == n - 1 {
                    assert(rest.push((n - 1) as u32)[rest.len() as int] == k as u32);
                }
                if rest.push((n - 1) as u32).contains(k as u32) && k != n - 1 {
                    let pushed = rest.push((n - 1) as u32);
                    let j = choose|j: int| 0 <= j < pushed.len() && #[trigger] pushed[j] == k as u32;
                    assert(j < rest.len());
                    assert(rest[j] == k as u32);
                }
                if rest.contains(k as u32) {
                    let j = choose|j: int| 0 <= j < rest.len() && #[trigger] rest[j] == k as u32;
                    assert(rest.push((n - 1) as u32)[j] == k as u32);
                }
            }
        }
    }
}

/// The flags cleared after servicing an interrupt are exactly those of the
/// mailboxes serviced: bit `k` of the cleared flags is set if and only if
/// mailbox `k` is among the mailboxes taken.
pub proof fn lemma_clears_exactly_serviced(iflag: u64, imask: u64, n: u64, k: u64)
    requires
        n <= 64,
        k < 64,
    ensures
        ((iflag & imask & low_mask64(n)) & (1u64 << k) != 0) == pending_mailboxes(
            iflag,
            imask,
            n as int,
        ).contains(k as u32),
{
    lemma_pending_mailboxes_contains(iflag, imask, n as int, k);
    let x = iflag & imask;
    if n == 64 {
        assert((x & 0xFFFF_FFFF_FFFF_FFFFu64) & (1u64 << k) == x & (1u64 << k)) by (bit_vector);
    } else {
        assert(((x & (((1u64 << n) - 1) as u64)) & (1u64 << k) != 0) == (k < n && x & (1u64 << k)
            != 0)) by (bit_vector)
            requires
                n < 64,
                k < 64,
        ;
    }
}

/// The two words written to IFLAG1 and IFLAG2 join back into the 64-bit
/// flag set they were split from.
pub proof fn lemma_split_flags_join(mask: u64)
    ensures
        joined((mask & 0xFFFF_FFFF) as u32, ((mask >> 32u64) & 0xFFFF_FFFF) as u32) == mask,
{
    let low = (mask & 0xFFFF_FFFF) as u32;
    let high = ((mask >> 32u64) & 0xFFFF_FFFF) as u32;
    assert(low == mask & 0xFFFF_FFFF && high == (mask >> 32u64) & 0xFFFF_FFFF) by (bit_vector)
        requires
            low == (mask & 0xFFFF_FFFF) as u32,
            high == ((mask >> 32u64) & 0xFFFF_FFFF) as u32,
    ;
    assert((mask & 0xFFFF_FFFF) + ((mask >> 32u64) & 0xFFFF_FFFF) * 0x1_0000_0000 == mask)
        by (bit_vector);
}

impl CANFD {
    /// The interrupt flags of all mailboxes, from IFLAG1 and IFLAG2.
    pub fn read_iflag(&self, iflag1: u32, iflag2: u32) -> (iflag: u64)
        ensures
            iflag == joined(iflag1, iflag2),
    {
        proof {
            lemma_join(iflag1, iflag2);
        }
        iflag1 as u64 + ((iflag2 as u64) << 32)
    }

    /// The interrupt masks of all mailboxes, from IMASK1 and IMASK2.
    pub fn read_imask(&self, imask1: u32, imask2: u32) -> (imask: u64)
        ensures
            imask == joined(imask1, imask2),
    {
        proof {
            lemma_join(imask1, imask2);
        }
        imask1 as u64 + ((imask2 as u64) << 32)
    }

    /// Which mailboxes to service for interrupt flags `iflag` and masks
    /// `imask`: every configured mailbox whose flag and mask are both set,
    /// lowest first, and the flag writes that clear exactly those flags.
    pub fn handle_interrupt(&self, iflag: u64, imask: u64) -> (service: InterruptService)
        ensures
            service.mailboxes@ == pending_mailboxes(
                iflag,
                imask,
                self.spec_max_message_buffers() as int,
            ),
            service.iflag1 == ((iflag & imask & low_mask64(self.spec_max_message_buffers() as u64))
                & 0xFFFF_FFFF) as u32,
            service.iflag2 == (((iflag & imask & low_mask64(self.spec_max_message_buffers() as u64))
                >> 32u64) & 0xFFFF_FFFF) as u32,
    {
        let num_mbs = self.get_max_message_buffers();
        let mut reset_mask: u64 = 0;
        let mut mailboxes: Vec<u32> = Vec::new();
        let mut mb_index: u32 = 0;
        proof {
            assert(iflag & imask & (((1u64 << 0u64) - 1) as u64) == 0) by (bit_vector);
        }
        while mb_index < num_mbs
            invariant
                num_mbs <= 64,
                num_mbs == self.spec_max_message_buffers(),
                mb_index <= num_mbs,
                reset_mask == iflag & imask & low_mask64(mb_index as u64),
                mailboxes@ == pending_mailboxes(iflag, imask, mb_index as int),
            decreases num_mbs - mb_index,
        {
            let mask: u64 = 1u64 << mb_index;
            proof {
                lemma_low_mask_step(iflag & imask, mb_index as u64);
                let i = mb_index as u64;
                assert((imask & mask == 0 || iflag & mask == 0) == ((iflag & imask) & mask == 0))
                    by (bit_vector)
                    requires
                        mask == 1u64 << i,
                        i < 64,
                ;
            }
            if imask & mask == 0 || iflag & mask == 0 {
                mb_index = mb_index + 1;
                continue;
            }
            mailboxes.push(mb_index);
            reset_mask = reset_mask | mask;
            mb_index = mb_index + 1;
        }
        InterruptService {
            mailboxes,
            iflag1: (reset_mask & 0xFFFF_FFFF) as u32,
            iflag2: ((reset_mask >> 32) & 0xFFFF_FFFF) as u32,
        }
    }
}

} // verus!
