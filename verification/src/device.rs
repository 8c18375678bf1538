//! A simulated device: a `Service` that answers reads with synthetic
//! register data and acknowledges writes. Holding registers repeat the
//! word pair (1, 0); input registers repeat a stored word pair that the
//! embedding application refreshes from its own state.

use vstd::prelude::*;

use crate::dispatch::Service;
use crate::types::{
    Exception, Request, RequestModel, Response, ResponseModel, response_matches,
};

verus! {

/// `quantity` registers filled pairwise with `first` then `second`;
/// when the quantity is odd, the last register is left zero.
pub open spec fn pair_fill_pattern(quantity: u16, first: u16, second: u16) -> Seq<u16> {
    Seq::new(
        quantity as nat,
        |j: int| if j + 1 == quantity as int && quantity % 2 == 1 {
            0u16
        } else if j % 2 == 0 {
            first
        } else {
            second
        },
    )
}

/// Builds the pairwise fill: whole pairs of `first`, `second`, and a
/// trailing zero register when the quantity is odd.
pub fn fill_register_pairs(quantity: u16, first: u16, second: u16) -> (r: Vec<u16>)
    requires
        quantity <= 125,
    ensures
        r@ == pair_fill_pattern(quantity, first, second),
{
    let mut regs: Vec<u16> = Vec::new();
    let mut k: usize = 0;
    while k < quantity as usize
        invariant
            k <= quantity as usize,
            regs@.len() == k as int,
            forall|j: int| 0 <= j < k as int ==> regs@[j] == 0u16,
        decreases quantity as usize - k,
    {
        regs.push(0);
        k = k + 1;
    }
    let mut i: usize = 0;
    while i + 2 <= quantity as usize
        invariant
            quantity <= 125,
            i % 2 == 0,
            i <= quantity as usize,
            regs@.len() == quantity as int,
            forall|j: int|
                0 <= j < i as int ==> regs@[j] == (if j % 2 == 0 {
                    first
                } else {
                    second
                }),
            forall|j: int| i as int <= j < quantity as int ==> regs@[j] == 0u16,
        decreases quantity as usize - i,
    {
        regs.set(i, first);
        regs.set(i + 1, second);
        i = i + 2;
    }
    proof {
        assert(regs@ =~= pair_fill_pattern(quantity, first, second));
    }
    regs
}

/// The simulated device. The embedding application owns the shared
/// state (a periodically incremented counter) and stores its current
/// wire form here as two register words before each dispatch.
pub struct SimulatedDevice {
    /// Word repeated at even offsets of an input-register read.
    pub input_first: u16,
    /// Word repeated at odd offsets of an input-register read.
    pub input_second: u16,
}

impl Service for SimulatedDevice {
    /// Answers every request, never with an exception, and never
    /// touches its own state: a holding-register read gets the pairwise
    /// fill of (1, 0), an input-register read the pairwise fill of the
    /// stored word pair — so one consistent pair determines the whole
    /// response — and a write the faithful echo. The answer always
    /// matches the request, so the dispatcher never substitutes
    /// `SlaveDeviceFailure` for it.
    fn call(&mut self, request: &Request) -> (r: Result<Response, Exception>)
        ensures
            r matches Ok(resp) && response_matches(request@, resp@),
            *final(self) == *old(self),
            request@ matches RequestModel::ReadHoldingRegisters { quantity, .. } ==> (r matches Ok(
                resp,
            ) && resp@ == ResponseModel::ReadHoldingRegisters {
                values: pair_fill_pattern(quantity, 1, 0),
            }),
            request@ matches RequestModel::ReadInputRegisters { quantity, .. } ==> (r matches Ok(
                resp,
            ) && resp@ == ResponseModel::ReadInputRegisters {
                values: pair_fill_pattern(
                    quantity,
                    old(self).input_first,
                    old(self).input_second,
                ),
            }),
            request@ matches RequestModel::WriteMultipleRegisters { start_addr, values } ==> (
            r matches Ok(resp) && resp@ == ResponseModel::WriteMultipleRegisters {
                start_addr,
                quantity: values.len() as u16,
            }),
    {
        match request {
            Request::ReadHoldingRegisters { quantity, .. } => {
                Ok(Response::ReadHoldingRegisters { values: fill_register_pairs(*quantity, 1, 0) })
            },
            Request::ReadInputRegisters { quantity, .. } => {
                Ok(
                    Response::ReadInputRegisters {
                        values: fill_register_pairs(*quantity, self.input_first, self.input_second),
                    },
                )
            },
            Request::WriteMultipleRegisters { start_addr, values } => {
                Ok(
                    Response::WriteMultipleRegisters {
                        start_addr: *start_addr,
                        quantity: values.len() as u16,
                    },
                )
            },
        }
    }
}

} // verus!
