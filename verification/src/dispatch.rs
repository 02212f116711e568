//! How the work of a batch is laid out on the device: how many threads it
//! takes, how many of them form a group, and how many groups there are.

use crate::predictor::ChainFormat;
use vstd::prelude::*;

verus! {

/// The number of addresses that one thread of the device computes.
pub const ADDRESSES_PER_THREAD: u32 = 4;

/// The sizes with which a batch is dispatched.
#[derive(Clone, Copy, Debug, PartialEq, Eq, Structural)]
pub struct Dispatch {
    /// The number of threads in one group.
    pub threads_per_group: u64,
    /// The number of groups.
    pub thread_groups: u64,
}

/// The least of two numbers.
pub open spec fn least(a: nat, b: nat) -> nat {
    if a <= b {
        a
    } else {
        b
    }
}

/// The number of threads that a batch takes: one for each `per_thread`
/// addresses, and one more for what is left over.
pub open spec fn threads_needed(batch_size: nat, per_thread: nat) -> nat {
    ((batch_size + per_thread - 1) / (per_thread as int)) as nat
}

/// The group size that the number of threads asks for: on the hexadecimal
/// chain a fixed ladder; on the alternate chain a ladder on the device's limit,
/// down to fixed steps for small batches.
pub open spec fn ladder(format: ChainFormat, needed: nat, max_threads: nat) -> nat {
    match format {
        ChainFormat::Evm => if needed >= 16384 {
            1024
        } else if needed >= 4096 {
            512
        } else if needed >= 1024 {
            256
        } else {
            64
        },
        ChainFormat::Tron => if needed >= max_threads * 16 {
            max_threads
        } else if needed >= max_threads * 4 {
            max_threads / 2
        } else if needed >= max_threads {
            max_threads / 4
        } else if needed >= 256 {
            256
        } else if needed >= 64 {
            64
        } else {
            32
        },
    }
}

/// The number of threads in a group: what the ladder asks for, but no more
/// than the device allows and no more than are needed.
pub open spec fn group_width(format: ChainFormat, needed: nat, max_threads: nat) -> nat {
    least(least(max_threads, ladder(format, needed, max_threads)), needed)
}

/// The number of groups of `width` threads that hold `needed` threads.
pub open spec fn group_count(needed: nat, width: nat) -> nat {
    ((needed + width - 1) / (width as int)) as nat
}

/// Groups of a given width cover the threads needed, and the last group is not
/// empty.
pub proof fn lemma_groups_cover(needed: nat, width: nat)
    requires
        width > 0,
    ensures
        group_count(needed, width) * width >= needed,
        needed > 0 ==> (group_count(needed, width) - 1) * width < needed,
        needed > 0 ==> group_count(needed, width) >= 1,
        group_count(needed, width) <= needed,
{
    let count = group_count(needed, width);
    let total = (needed + width - 1) as int;
    assert(total == (width as int) * (total / (width as int)) + total % (width as int)) by {
        vstd::arithmetic::div_mod::lemma_fundamental_div_mod(total, width as int);
    }
    assert(0 <= total % (width as int) < width) by {
        vstd::arithmetic::div_mod::lemma_mod_bound(total, width as int);
    }
    assert(count * width == (width as int) * (total / (width as int))) by (nonlinear_arith)
        requires
            count == total / (width as int),
    ;
    assert((count - 1) * width == count * width - width) by (nonlinear_arith);
    if needed > 0 && count == 0 {
        assert(count * width == 0) by (nonlinear_arith)
            requires
                count == 0,
        ;
    }
    if count > needed {
        assert(count * width >= (needed + 1) * width) by (nonlinear_arith)
            requires
                count >= needed + 1,
                width > 0,
        ;
        assert((needed + 1) * width >= needed + width) by (nonlinear_arith)
            requires
                width >= 1,
                needed >= 0,
        ;
    }
}

/// The number of threads in a group for a batch.
fn width_for(
    format: ChainFormat,
    batch_size: u32,
    addresses_per_thread: u32,
    max_threads_per_group: usize,
) -> (sizes: (u64, u64))
    requires
        batch_size > 0,
        addresses_per_thread > 0,
        max_threads_per_group >= 1,
    ensures
        sizes.0 == threads_needed(batch_size as nat, addresses_per_thread as nat),
        sizes.1 == group_width(format, sizes.0 as nat, max_threads_per_group as nat),
        sizes.0 >= 1,
        sizes.0 * addresses_per_thread >= batch_size,
        sizes.1 <= max_threads_per_group,
{
    let per_thread = addresses_per_thread as u64;
    let needed: u64 = (batch_size as u64 + per_thread - 1) / per_thread;
    let max = max_threads_per_group as u64;
    proof {
        lemma_groups_cover(batch_size as nat, addresses_per_thread as nat);
        assert(needed == threads_needed(batch_size as nat, addresses_per_thread as nat));
    }
    let optimal: u64 = match format {
        ChainFormat::Evm => if needed >= 16384 {
            1024
        } else if needed >= 4096 {
            512
        } else if needed >= 1024 {
            256
        } else {
            64
        },
        ChainFormat::Tron => if needed / 16 >= max {
            max
        } else if needed / 4 >= max {
            max / 2
        } else if needed >= max {
            max / 4
        } else if needed >= 256 {
            256
        } else if needed >= 64 {
            64
        } else {
            32
        },
    };
    assert(optimal == ladder(format, needed as nat, max as nat));
    let capped = if max < optimal {
        max
    } else {
        optimal
    };
    let width = if capped < needed {
        capped
    } else {
        needed
    };
    (needed, width)
}

/// Whether a batch can be laid out on the device: whether the group that the
/// ladder gives has a thread in it. On the alternate chain the ladder halves
/// and quarters the device's limit, which leaves nothing of a limit below 4 for
/// some batch sizes.
pub open spec fn can_dispatch(
    format: ChainFormat,
    batch_size: nat,
    per_thread: nat,
    max_threads: nat,
) -> bool {
    group_width(format, threads_needed(batch_size, per_thread), max_threads) >= 1
}

/// Lays a batch out on the device, if it can be laid out there.
pub fn checked_dispatch(
    format: ChainFormat,
    batch_size: u32,
    addresses_per_thread: u32,
    max_threads_per_group: usize,
) -> (plan: Option<Dispatch>)
    requires
        batch_size > 0,
        addresses_per_thread > 0,
        max_threads_per_group >= 1,
    ensures
        plan is Some <==> can_dispatch(
            format,
            batch_size as nat,
            addresses_per_thread as nat,
            max_threads_per_group as nat,
        ),
        plan matches Some(p) ==> {
            &&& p.threads_per_group == group_width(
                format,
                threads_needed(batch_size as nat, addresses_per_thread as nat),
                max_threads_per_group as nat,
            )
            &&& p.thread_groups == group_count(
                threads_needed(batch_size as nat, addresses_per_thread as nat),
                p.threads_per_group as nat,
            )
            &&& 1 <= p.threads_per_group <= max_threads_per_group
            &&& p.thread_groups >= 1
            &&& p.thread_groups * p.threads_per_group * addresses_per_thread >= batch_size
        },
{
    let (needed, width) = width_for(
        format,
        batch_size,
        addresses_per_thread,
        max_threads_per_group,
    );
    if width == 0 {
        return None;
    }
    let groups = (needed + width - 1) / width;
    proof {
        lemma_groups_cover(needed as nat, width as nat);
        assert(groups * width * addresses_per_thread >= batch_size) by (nonlinear_arith)
            requires
                groups * width >= needed,
                needed * addresses_per_thread >= batch_size,
                addresses_per_thread > 0,
        ;
    }
    Some(Dispatch { threads_per_group: width, thread_groups: groups })
}

/// Lays a batch out on the device. The batch must be one that can be laid out
/// there: `checked_dispatch` tests that.
pub fn plan_dispatch(
    format: ChainFormat,
    batch_size: u32,
    addresses_per_thread: u32,
    max_threads_per_group: usize,
) -> (plan: Dispatch)
    requires
        batch_size > 0,
        addresses_per_thread > 0,
        max_threads_per_group >= 1,
        can_dispatch(
            format,
            batch_size as nat,
            addresses_per_thread as nat,
            max_threads_per_group as nat,
        ),
    ensures
        plan.threads_per_group == group_width(
            format,
            threads_needed(batch_size as nat, addresses_per_thread as nat),
            max_threads_per_group as nat,
        ),
        plan.thread_groups == group_count(
            threads_needed(batch_size as nat, addresses_per_thread as nat),
            plan.threads_per_group as nat,
        ),
        1 <= plan.threads_per_group <= max_threads_per_group,
        plan.thread_groups >= 1,
        plan.thread_groups * plan.threads_per_group * addresses_per_thread >= batch_size,
{
    match checked_dispatch(format, batch_size, addresses_per_thread, max_threads_per_group) {
        Some(plan) => plan,
        None => Dispatch { threads_per_group: 0, thread_groups: 0 },
    }
}

/// With a limit of four threads or more, and on the hexadecimal chain with any
/// limit, every batch can be laid out.
pub proof fn lemma_can_dispatch(format: ChainFormat, batch_size: nat, per_thread: nat, max_threads: nat)
    requires
        batch_size > 0,
        per_thread > 0,
        max_threads >= 1,
        format == ChainFormat::Tron ==> max_threads >= 4,
    ensures
        can_dispatch(format, batch_size, per_thread, max_threads),
{
    lemma_groups_cover(batch_size, per_thread);
}

} // verus!
