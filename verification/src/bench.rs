//! Sizing arithmetic for the field-operation benchmarks: how many
//! operations one timed kernel launch performs.

use vstd::prelude::*;

verus! {

use vstd::arithmetic::power::{pow, lemma_pow_increases};

/// 10 raised to `e`.
pub open spec fn pow10(e: nat) -> int {
    pow(10, e)
}

/// The number of field operations in one timed launch of the arithmetic
/// benchmark: `10^lg_domain_size` samples on each of `blocks * threads`
/// parallel workers. Returns `None` exactly when the left-to-right product
/// overflows the machine word.
pub fn arith_op_count(lg_domain_size: u32, blocks: usize, threads: usize) -> (r: Option<usize>)
    ensures
        r is Some <==> {
            &&& pow10(lg_domain_size as nat) <= usize::MAX
            &&& pow10(lg_domain_size as nat) * blocks <= usize::MAX
            &&& pow10(lg_domain_size as nat) * blocks * threads <= usize::MAX
        },
        r is Some ==> r->0 == pow10(lg_domain_size as nat) * blocks * threads,
{
    let mut acc: usize = 1;
    let mut e: u32 = 0;
    proof {
        vstd::arithmetic::power::lemma_pow0(10);
    }
    while e < lg_domain_size
        invariant
            e <= lg_domain_size,
            acc == pow10(e as nat),
        decreases lg_domain_size - e,
    {
        acc = match acc.checked_mul(10) {
            Some(v) => v,
            None => {
                proof {
                    assert(pow(10, (e + 1) as nat) == 10 * pow(10, e as nat)) by {
                        reveal(pow);
                    }
                    lemma_pow_increases(10, (e + 1) as nat, lg_domain_size as nat);
                }
                return None;
            },
        };
        proof {
            assert(pow(10, (e + 1) as nat) == 10 * pow(10, e as nat)) by {
                reveal(pow);
            }
        }
        e += 1;
    }
    let with_blocks = match acc.checked_mul(blocks) {
        Some(v) => v,
        None => {
            return None;
        },
    };
    match with_blocks.checked_mul(threads) {
        Some(v) => Some(v),
        None => None,
    }
}

} // verus!
