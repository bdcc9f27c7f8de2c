//! The LLVM `switch` of a CFG `SwitchInt` terminator: its default block and
//! its cases, from the terminator's list of (value, target) pairs.

use vstd::prelude::*;

use crate::lowering::is_internal;

verus! {

/// One case of a switch: the bits handed to LLVM (the value's low 64 bits),
/// whether they are sign-extended to the discriminator's width, and the
/// target block.
#[derive(Copy, Clone, Debug, PartialEq, Eq, Structural)]
pub struct SwitchCase {
    pub bits: u64,
    pub sign_extend: bool,
    pub target: u32,
}

/// A switch: its default block and its cases in order.
#[derive(Clone, Debug, PartialEq, Eq)]
pub struct SwitchPlan {
    pub default: u32,
    pub cases: Vec<SwitchCase>,
}

/// The case of a value `v` jumping to `target`.
pub open spec fn case_of(v: i128, target: u32) -> SwitchCase {
    SwitchCase { bits: v as u64, sign_extend: v < 0, target }
}

/// The switch of a target list whose last entry is the default (without a
/// value) and whose other entries all have values; the message of the
/// first rule broken otherwise.
pub open spec fn switch_spec(targets: Seq<(Option<i128>, u32)>) -> Result<(u32, Seq<SwitchCase>), Seq<char>> {
    if targets.len() == 0 {
        Err("SwitchInt has no targets"@)
    } else if targets.last().0 is Some {
        Err("SwitchInt default target must be last"@)
    } else if exists|i: int| 0 <= i < targets.len() - 1 && (#[trigger] targets[i]).0 is None {
        Err("SwitchInt non-default target is missing a case value"@)
    } else {
        Ok(
            (
                targets.last().1,
                Seq::new((targets.len() - 1) as nat, |i: int| case_of(targets[i].0->Some_0, targets[i].1)),
            ),
        )
    }
}

fn internal_str(m: &str) -> (e: crate::abi::CodegenError)
    ensures
        is_internal(e, m@),
{
    crate::abi::CodegenError::Internal(m.to_string())
}

/// The switch for the targets of a `SwitchInt` (the discriminator is
/// evaluated by the caller first).
pub fn switch_plan(targets: &[(Option<i128>, u32)]) -> (r: Result<SwitchPlan, crate::abi::CodegenError>)
    ensures
        match switch_spec(targets@) {
            Ok((d, cs)) => r matches Ok(p) && p.default == d && p.cases@ == cs,
            Err(m) => r is Err && is_internal(r->Err_0, m),
        },
{
    if targets.len() == 0 {
        return Err(internal_str("SwitchInt has no targets"));
    }
    let n = targets.len() - 1;
    let (default_value, default_target) = targets[n];
    if default_value.is_some() {
        return Err(internal_str("SwitchInt default target must be last"));
    }
    let mut cases: Vec<SwitchCase> = Vec::new();
    for i in 0..n
        invariant
            n == targets@.len() - 1,
            targets@.len() > 0,
            targets@.last().0 is None,
            forall|k: int| 0 <= k < i ==> (#[trigger] targets@[k]).0 is Some,
            cases@ == Seq::new(i as nat, |k: int| case_of(targets@[k].0->Some_0, targets@[k].1)),
    {
        let (case_value, target) = targets[i];
        let v = match case_value {
            None => {
                return Err(internal_str("SwitchInt non-default target is missing a case value"));
            },
            Some(v) => v,
        };
        cases.push(SwitchCase { bits: v as u64, sign_extend: v < 0, target });
        assert(cases@ =~= Seq::new((i + 1) as nat, |k: int| case_of(targets@[k].0->Some_0, targets@[k].1)));
    }
    Ok(SwitchPlan { default: default_target, cases })
}

} // verus!
