//! The capability configuration: which optional extensions an interpreter
//! run accepts. A loaded program is validated once against the enabled set,
//! instead of scattering feature conditions through the engine.
use vstd::prelude::*;

use crate::program::Code;
use crate::program::EffectOps;
use crate::program::Function;
use crate::program::Instruction;
use crate::program::Program;
use crate::program::ValueOps;

verus! {

/// Which optional extensions are enabled for a run.
#[derive(Clone, Copy, PartialEq, Eq, Structural)]
pub struct Extensions {
    /// The heap operations: allocate, load, store, free, pointer arithmetic
    pub memory: bool,
    /// The speculative-execution operations: speculate, commit, guard
    pub speculate: bool,
}

/// Whether a value operation code lies within the enabled set.
pub open spec fn value_op_allowed(e: Extensions, op: ValueOps) -> bool {
    match op {
        ValueOps::Alloc | ValueOps::Load | ValueOps::PtrAdd => e.memory,
        _ => true,
    }
}

/// Whether an effect operation code lies within the enabled set.
pub open spec fn effect_op_allowed(e: Extensions, op: EffectOps) -> bool {
    match op {
        EffectOps::Store | EffectOps::Free => e.memory,
        EffectOps::Speculate | EffectOps::Commit | EffectOps::Guard => e.speculate,
        _ => true,
    }
}

/// Whether one body item's operation code lies within the enabled set.
pub open spec fn code_allowed(e: Extensions, c: Code) -> bool {
    match c {
        Code::Label { label, pos } => true,
        Code::Instruction(ins) => match ins {
            Instruction::Constant { .. } => true,
            Instruction::Value { op, .. } => value_op_allowed(e, op),
            Instruction::Effect { op, .. } => effect_op_allowed(e, op),
        },
    }
}

/// Whether every operation code of a function lies within the enabled set.
pub open spec fn function_allowed(e: Extensions, f: Function) -> bool {
    forall|i: int| 0 <= i < f.instrs@.len() ==> code_allowed(e, #[trigger] f.instrs@[i])
}

/// Whether every operation code of a program lies within the enabled set.
pub open spec fn program_allowed(e: Extensions, p: Program) -> bool {
    forall|i: int| 0 <= i < p.functions@.len() ==> function_allowed(
        e,
        #[trigger] p.functions@[i],
    )
}

/// Check once, at load time, that a program uses only operation codes of the
/// enabled extensions.
pub fn validate(p: &Program, e: Extensions) -> (r: bool)
    ensures
        r == program_allowed(e, *p),
{
    let mut i: usize = 0;
    while i < p.functions.len()
        invariant
            0 <= i <= p.functions@.len(),
            forall|j: int| 0 <= j < i ==> function_allowed(e, #[trigger] p.functions@[j]),
        decreases p.functions@.len() - i,
    {
        let f = &p.functions[i];
        let mut k: usize = 0;
        while k < f.instrs.len()
            invariant
                0 <= k <= f.instrs@.len(),
                i < p.functions@.len(),
                *f == p.functions@[i as int],
                forall|j: int| 0 <= j < k ==> code_allowed(e, #[trigger] f.instrs@[j]),
            decreases f.instrs@.len() - k,
        {
            let ok = match &f.instrs[k] {
                Code::Label { label, pos } => true,
                Code::Instruction(ins) => match ins {
                    Instruction::Constant { .. } => true,
                    Instruction::Value { op, .. } => match op {
                        ValueOps::Alloc | ValueOps::Load | ValueOps::PtrAdd => e.memory,
                        _ => true,
                    },
                    Instruction::Effect { op, .. } => match op {
                        EffectOps::Store | EffectOps::Free => e.memory,
                        EffectOps::Speculate | EffectOps::Commit | EffectOps::Guard => e.speculate,
                        _ => true,
                    },
                },
            };
            proof {
                assert(ok == code_allowed(e, f.instrs@[k as int]));
            }
            if !ok {
                proof {
                    assert(f.instrs@ == p.functions@[i as int].instrs@);
                    assert(!code_allowed(e, p.functions@[i as int].instrs@[k as int]));
                    assert(!function_allowed(e, p.functions@[i as int]));
                    assert(!program_allowed(e, *p));
                }
                return false;
            }
            k += 1;
        }
        i += 1;
    }
    true
}

} // verus!
