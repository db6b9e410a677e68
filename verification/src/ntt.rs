//! The transform dispatcher: validates the domain size of a host-resident
//! buffer of field elements, selects ordering, direction and variant, hands
//! the buffer to an external compute engine, and translates the engine's
//! status into a result.

use vstd::prelude::*;

verus! {

use vstd::arithmetic::power2::{
    pow2, lemma_pow2_pos, lemma_pow2_unfold, lemma_pow2_strictly_increases, lemma2_to64,
    lemma2_to64_rest,
};

/// How the buffer is interpreted at the transform boundary: natural-order
/// input and output, natural input with bit-reversed output, or bit-reversed
/// input with natural output. The value is threaded through to the compute
/// engine unchanged; its exact meaning belongs to the engine.
#[derive(Clone, Copy, PartialEq, Eq, Structural, Debug)]
pub enum NttOrdering {
    NaturalNatural,
    NaturalReversed,
    ReversedNatural,
}

/// Which normalization and twiddle convention the engine applies.
#[derive(Clone, Copy, PartialEq, Eq, Structural, Debug)]
pub enum NttDirection {
    Forward,
    Inverse,
}

/// Whether the transform is evaluated over the canonical subgroup or a
/// multiplicatively shifted coset of it.
#[derive(Clone, Copy, PartialEq, Eq, Structural, Debug)]
pub enum NttVariant {
    Standard,
    Coset,
}

/// What the compute engine reports after one call: code 0 means success,
/// any other code is a failure described by the engine-supplied message.
#[derive(Debug)]
pub struct EngineStatus {
    pub code: i32,
    pub message: String,
}

/// The two failure kinds of the dispatcher.
#[derive(Debug, PartialEq, Eq)]
pub enum TransformError {
    /// The buffer length was zero or not a power of two; the engine was
    /// never invoked and the buffer was not touched.
    InvalidDomainSize,
    /// The engine reported a nonzero status; carries its diagnostic message.
    DeviceComputeError(String),
}

/// A domain size the dispatcher accepts: a power of two (hence nonzero).
pub open spec fn is_domain_size(n: nat) -> bool {
    exists|k: nat| n == pow2(k)
}

/// The log2 of an accepted domain size.
pub open spec fn domain_lg(n: nat) -> nat {
    choose|k: nat| n == pow2(k)
}

/// A power of two has exactly one exponent, so `domain_lg` recovers it.
pub proof fn lemma_domain_lg(n: nat, k: nat)
    requires
        n == pow2(k),
    ensures
        is_domain_size(n),
        domain_lg(n) == k,
{
    assert(is_domain_size(n));
    let j = domain_lg(n);
    assert(n == pow2(j));
    if j < k {
        lemma_pow2_strictly_increases(j, k);
    }
    if k < j {
        lemma_pow2_strictly_increases(k, j);
    }
}

/// Checks the domain size host-side: returns the log2 of a power-of-two
/// length and `None` for any other length, including zero.
pub fn domain_log2(len: usize) -> (r: Option<u32>)
    ensures
        r is Some <==> is_domain_size(len as nat),
        r is Some ==> len as nat == pow2(r->0 as nat) && r->0 as nat == domain_lg(len as nat),
{
    if len == 0 {
        proof {
            assert forall|k: nat| 0 != pow2(k) by {
                lemma_pow2_pos(k);
            }
        }
        return None;
    }
    let mut m: usize = 1;
    let mut lg: u32 = 0;
    proof {
        lemma2_to64();
    }
    while m < len
        invariant
            1 <= m <= usize::MAX,
            m == pow2(lg as nat),
            lg < 64,
            forall|k: nat| k < lg as nat ==> pow2(k) < len as nat,
        decreases 64 - lg,
    {
        if m > usize::MAX / 2 {
            // The next power of two would exceed the machine word, so no
            // power of two equals this length.
            proof {
                assert forall|k: nat| len as nat != pow2(k) by {
                    if k <= lg as nat {
                        if k < lg as nat {
                            lemma_pow2_strictly_increases(k, lg as nat);
                        }
                        assert(pow2(k) <= pow2(lg as nat));
                    } else {
                        lemma_pow2_strictly_increases(lg as nat, k);
                        lemma_pow2_unfold(k);
                        assert(pow2((k - 1) as nat) >= pow2(lg as nat)) by {
                            if (lg as nat) < ((k - 1) as nat) {
                                lemma_pow2_strictly_increases(lg as nat, (k - 1) as nat);
                            }
                        }
                        assert(pow2(k) >= 2 * pow2(lg as nat));
                    }
                }
            }
            return None;
        }
        proof {
            lemma_pow2_unfold((lg + 1) as nat);
            assert(pow2((lg + 1) as nat) == 2 * pow2(lg as nat));
            // The doubled value still fits, so the exponent stays below 64.
            lemma2_to64();
            lemma2_to64_rest();
            if lg + 1 >= 64 {
                assert(lg as nat + 1 >= 64);
                if 64 < lg as nat + 1 {
                    lemma_pow2_strictly_increases(64, (lg + 1) as nat);
                }
                assert(pow2((lg + 1) as nat) >= pow2(64));
                assert(pow2(64) == 0x10000000000000000);
            }
        }
        m = m * 2;
        lg = lg + 1;
    }
    if m == len {
        proof {
            lemma_domain_lg(len as nat, lg as nat);
        }
        Some(lg)
    } else {
        proof {
            assert forall|k: nat| len as nat != pow2(k) by {
                if k < lg as nat {
                    assert(pow2(k) < len as nat);
                } else {
                    if (lg as nat) < k {
                        lemma_pow2_strictly_increases(lg as nat, k);
                    }
                    assert(pow2(k) >= pow2(lg as nat));
                }
            }
        }
        None
    }
}

/// The dispatcher's translation of an engine status into its result: status
/// 0 is success, every other status surfaces as a device error carrying the
/// engine's message.
pub open spec fn status_result(status: EngineStatus) -> Result<(), TransformError> {
    if status.code == 0 {
        Ok(())
    } else {
        Err(TransformError::DeviceComputeError(status.message))
    }
}

/// Translates an engine status into the dispatcher's result. Failures are
/// final: the dispatcher never retries, the caller decides what to do next.
pub fn status_to_result(status: EngineStatus) -> (r: Result<(), TransformError>)
    ensures
        r == status_result(status),
{
    if status.code == 0 {
        Ok(())
    } else {
        Err(TransformError::DeviceComputeError(status.message))
    }
}

/// The external compute engine at the device boundary. An implementation
/// owns the actual kernel invocation; the dispatcher is verified against
/// `post`, the implementation's own description of one completed call.
pub trait ComputeEngine<T> {
    /// What one completed call may leave behind: relates the buffer the
    /// engine received to the buffer and status it handed back. Unless an
    /// implementation says more, nothing is known of a call's outcome.
    open spec fn post(
        &self,
        device_id: usize,
        input: Seq<T>,
        lg_domain_size: u32,
        order: NttOrdering,
        direction: NttDirection,
        variant: NttVariant,
        output: Seq<T>,
        status: EngineStatus,
    ) -> bool {
        true
    }

    /// Runs the kernel synchronously on a buffer of exactly
    /// `2^lg_domain_size` field elements, transforming it in place and
    /// reporting a status. The buffer keeps its length.
    fn compute(
        &self,
        device_id: usize,
        data: Vec<T>,
        lg_domain_size: u32,
        order: NttOrdering,
        direction: NttDirection,
        variant: NttVariant,
    ) -> (r: (Vec<T>, EngineStatus))
        requires
            data@.len() == pow2(lg_domain_size as nat),
        ensures
            r.0@.len() == data@.len(),
            self.post(
                device_id,
                data@,
                lg_domain_size,
                order,
                direction,
                variant,
                r.0@,
                r.1,
            ),
    ;
}

/// Everything one dispatch call promises, relating the buffer before the
/// call (`before`), the buffer after it (`after`) and the result `r`:
/// a length that is not a power of two is rejected host-side with the
/// buffer untouched; otherwise the engine ran exactly once on the whole
/// buffer with the log2 of its length, and `r` reflects the engine's status.
pub open spec fn dispatch_result<T, E: ComputeEngine<T>>(
    engine: E,
    device_id: usize,
    before: Seq<T>,
    order: NttOrdering,
    direction: NttDirection,
    variant: NttVariant,
    after: Seq<T>,
    r: Result<(), TransformError>,
) -> bool {
    &&& !is_domain_size(before.len()) ==> r == Err::<(), TransformError>(
        TransformError::InvalidDomainSize,
    ) && after == before
    &&& is_domain_size(before.len()) ==> exists|out: Seq<T>, status: EngineStatus|
        {
            &&& #[trigger] engine.post(
                device_id,
                before,
                domain_lg(before.len()) as u32,
                order,
                direction,
                variant,
                out,
                status,
            )
            &&& after == out
            &&& r == status_result(status)
        }
    &&& after.len() == before.len()
}

/// Validates the buffer length, then submits the buffer to the engine with
/// the chosen ordering, direction and variant. The buffer is handed over
/// whole and taken back whole; no host-side copy of the data is made.
pub fn transform<T, E: ComputeEngine<T>>(
    engine: &E,
    device_id: usize,
    buffer: &mut Vec<T>,
    order: NttOrdering,
    direction: NttDirection,
    variant: NttVariant,
) -> (r: Result<(), TransformError>)
    ensures
        dispatch_result(*engine, device_id, old(buffer)@, order, direction, variant, final(buffer)@, r),
{
    let len = buffer.len();
    match domain_log2(len) {
        None => Err(TransformError::InvalidDomainSize),
        Some(lg) => {
            let ghost before = buffer@;
            let mut data: Vec<T> = Vec::new();
            core::mem::swap(buffer, &mut data);
            let (out, status) = engine.compute(device_id, data, lg, order, direction, variant);
            let ghost gstatus = status;
            *buffer = out;
            let r = status_to_result(status);
            proof {
                assert(lg as nat == domain_lg(before.len()));
                assert(engine.post(
                    device_id,
                    before,
                    domain_lg(before.len()) as u32,
                    order,
                    direction,
                    variant,
                    buffer@,
                    gstatus,
                ));
            }
            r
        },
    }
}

/// Forward transform over the canonical subgroup, in place.
#[allow(non_snake_case)]
pub fn NTT<T, E: ComputeEngine<T>>(
    engine: &E,
    device_id: usize,
    inout: &mut Vec<T>,
    order: NttOrdering,
) -> (r: Result<(), TransformError>)
    ensures
        dispatch_result(
            *engine,
            device_id,
            old(inout)@,
            order,
            NttDirection::Forward,
            NttVariant::Standard,
            final(inout)@,
            r,
        ),
{
    transform(engine, device_id, inout, order, NttDirection::Forward, NttVariant::Standard)
}

/// Inverse transform over the canonical subgroup, in place.
#[allow(non_snake_case)]
pub fn iNTT<T, E: ComputeEngine<T>>(
    engine: &E,
    device_id: usize,
    inout: &mut Vec<T>,
    order: NttOrdering,
) -> (r: Result<(), TransformError>)
    ensures
        dispatch_result(
            *engine,
            device_id,
            old(inout)@,
            order,
            NttDirection::Inverse,
            NttVariant::Standard,
            final(inout)@,
            r,
        ),
{
    transform(engine, device_id, inout, order, NttDirection::Inverse, NttVariant::Standard)
}

/// Forward transform over a shifted coset, in place.
#[allow(non_snake_case)]
pub fn coset_NTT<T, E: ComputeEngine<T>>(
    engine: &E,
    device_id: usize,
    inout: &mut Vec<T>,
    order: NttOrdering,
) -> (r: Result<(), TransformError>)
    ensures
        dispatch_result(
            *engine,
            device_id,
            old(inout)@,
            order,
            NttDirection::Forward,
            NttVariant::Coset,
            final(inout)@,
            r,
        ),
{
    transform(engine, device_id, inout, order, NttDirection::Forward, NttVariant::Coset)
}

/// Inverse transform over a shifted coset, in place.
#[allow(non_snake_case)]
pub fn coset_iNTT<T, E: ComputeEngine<T>>(
    engine: &E,
    device_id: usize,
    inout: &mut Vec<T>,
    order: NttOrdering,
) -> (r: Result<(), TransformError>)
    ensures
        dispatch_result(
            *engine,
            device_id,
            old(inout)@,
            order,
            NttDirection::Inverse,
            NttVariant::Coset,
            final(inout)@,
            r,
        ),
{
    transform(engine, device_id, inout, order, NttDirection::Inverse, NttVariant::Coset)
}

/// A deterministic stand-in for the device kernel, for exercising the
/// dispatcher without hardware: whatever the ordering, direction or
/// variant, one call reverses the order of the buffer and succeeds.
/// Reversal is its own inverse, so a forward call followed by an inverse
/// call restores the buffer exactly.
pub struct ReferenceEngine;

impl<T: Copy> ComputeEngine<T> for ReferenceEngine {
    /// One reference call reverses the buffer and reports success.
    open spec fn post(
        &self,
        device_id: usize,
        input: Seq<T>,
        lg_domain_size: u32,
        order: NttOrdering,
        direction: NttDirection,
        variant: NttVariant,
        output: Seq<T>,
        status: EngineStatus,
    ) -> bool {
        output == input.reverse() && status.code == 0
    }

    fn compute(
        &self,
        device_id: usize,
        data: Vec<T>,
        lg_domain_size: u32,
        order: NttOrdering,
        direction: NttDirection,
        variant: NttVariant,
    ) -> (r: (Vec<T>, EngineStatus)) {
        let mut out: Vec<T> = Vec::new();
        let mut i: usize = data.len();
        while i > 0
            invariant
                i <= data@.len(),
                out@.len() == data@.len() - i,
                forall|j: int| 0 <= j < out@.len() ==> out@[j] == data@[data@.len() - 1 - j],
            decreases i,
        {
            i = i - 1;
            out.push(data[i]);
        }
        proof {
            assert(out@ =~= data@.reverse());
        }
        (out, EngineStatus { code: 0, message: String::new() })
    }
}

/// With the reference engine, one dispatch on an accepted domain size
/// always succeeds and leaves the buffer reversed.
proof fn lemma_reference_dispatch<T: Copy>(
    engine: ReferenceEngine,
    device_id: usize,
    before: Seq<T>,
    order: NttOrdering,
    direction: NttDirection,
    variant: NttVariant,
    after: Seq<T>,
    r: Result<(), TransformError>,
)
    requires
        dispatch_result(engine, device_id, before, order, direction, variant, after, r),
        is_domain_size(before.len()),
    ensures
        after == before.reverse(),
        r is Ok,
{
    let (out, st) = choose|out: Seq<T>, st: EngineStatus|
        {
            &&& #[trigger] engine.post(
                device_id,
                before,
                domain_lg(before.len()) as u32,
                order,
                direction,
                variant,
                out,
                st,
            )
            &&& after == out
            &&& r == status_result(st)
        };
    assert(out == before.reverse());
    assert(st.code == 0);
}

/// The round trip at the dispatcher boundary, run against the reference
/// engine: a forward transform followed by an inverse transform, both with
/// the same ordering mode and the standard variant, reproduces the original
/// buffer exactly on every power-of-two length, and on every other length
/// fails fast with `InvalidDomainSize` without touching the buffer.
pub fn reference_round_trip<T: Copy>(
    device_id: usize,
    buffer: &mut Vec<T>,
    order: NttOrdering,
) -> (r: Result<(), TransformError>)
    ensures
        is_domain_size(old(buffer)@.len()) ==> r is Ok && final(buffer)@ == old(buffer)@,
        !is_domain_size(old(buffer)@.len()) ==> r == Err::<(), TransformError>(
            TransformError::InvalidDomainSize,
        ) && final(buffer)@ == old(buffer)@,
{
    let engine = ReferenceEngine;
    let ghost before = buffer@;
    match NTT(&engine, device_id, buffer, order) {
        Err(e) => {
            proof {
                if is_domain_size(before.len()) {
                    lemma_reference_dispatch(
                        engine,
                        device_id,
                        before,
                        order,
                        NttDirection::Forward,
                        NttVariant::Standard,
                        buffer@,
                        Err(e),
                    );
                }
            }
            Err(e)
        },
        Ok(()) => {
            proof {
                assert(is_domain_size(before.len()));
                lemma_reference_dispatch(
                    engine,
                    device_id,
                    before,
                    order,
                    NttDirection::Forward,
                    NttVariant::Standard,
                    buffer@,
                    Ok(()),
                );
            }
            let ghost mid = buffer@;
            match iNTT(&engine, device_id, buffer, order) {
                Err(e) => {
                    proof {
                        assert(mid.len() == before.len());
                        lemma_reference_dispatch(
                            engine,
                            device_id,
                            mid,
                            order,
                            NttDirection::Inverse,
                            NttVariant::Standard,
                            buffer@,
                            Err(e),
                        );
                    }
                    Err(e)
                },
                Ok(()) => {
                    proof {
                        assert(mid.len() == before.len());
                        lemma_reference_dispatch(
                            engine,
                            device_id,
                            mid,
                            order,
                            NttDirection::Inverse,
                            NttVariant::Standard,
                            buffer@,
                            Ok(()),
                        );
                        assert(before.reverse().reverse() =~= before);
                    }
                    Ok(())
                },
            }
        },
    }
}

} // verus!
