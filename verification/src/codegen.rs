//! Decisions made while generating machine code from the intermediate
//! representation, apart from the code generator that carries them out.
use vstd::prelude::*;

use crate::ir::{BasicBlockIdx, Value};

verus! {

/// Whether a switch merges its branches with a phi node: it does when its
/// first branch produces a value.
pub open spec fn switch_makes_phi(branches: Seq<(Value, BasicBlockIdx, Value)>) -> bool {
    branches.len() > 0 && branches[0].2 != Value::Unit
}

/// Either every branch of a switch produces a value or none does, and where a
/// phi node is made the default branch produces one too.
pub open spec fn switch_well_formed(default: (BasicBlockIdx, Value), branches: Seq<(Value, BasicBlockIdx, Value)>) -> bool {
    &&& forall|i: int| 0 <= i < branches.len() ==> ((#[trigger] branches[i]).2 == Value::Unit) != switch_makes_phi(branches)
    &&& switch_makes_phi(branches) ==> default.1 != Value::Unit
}

/// The incoming pairs of the phi node that merges a switch: each branch's block
/// with its value, in order, then the default block with its value; `None`
/// where no phi node is made.
pub fn switch_phi_incoming(default: (BasicBlockIdx, Value), branches: &Vec<(Value, BasicBlockIdx, Value)>) -> (r: Option<Vec<(BasicBlockIdx, Value)>>)
    requires
        switch_well_formed(default, branches@),
    ensures
        match r {
            Some(incoming) => switch_makes_phi(branches@)
                && incoming@ == branches@.map_values(|b: (Value, BasicBlockIdx, Value)| (b.1, b.2)).push(default),
            None => !switch_makes_phi(branches@),
        },
{
    let make_phi = branches.len() > 0 && branches[0].2 != Value::Unit;
    if !make_phi {
        return None;
    }
    let mut incoming: Vec<(BasicBlockIdx, Value)> = Vec::new();
    let mut i: usize = 0;
    while i < branches.len()
        invariant
            i <= branches@.len(),
            incoming@ =~= branches@.take(i as int).map_values(|b: (Value, BasicBlockIdx, Value)| (b.1, b.2)),
        decreases branches.len() - i,
    {
        incoming.push((branches[i].1, branches[i].2));
        i = i + 1;
    }
    assert(branches@.take(i as int) =~= branches@);
    incoming.push(default);
    Some(incoming)
}

} // verus!
