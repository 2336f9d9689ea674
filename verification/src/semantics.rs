//! The mathematical semantics of the abstract machine: ghost views of the
//! interpreter state and a specification-level step function. The executable
//! engine is proved to take exactly these steps, which makes interpretation
//! deterministic by construction.
use vstd::prelude::*;

use crate::collector::CollectorModel;
use crate::heap::HeapModel;
use crate::program::Argument;
use crate::program::Code;
use crate::program::EffectOps;
use crate::program::Function;
use crate::program::Instruction;
use crate::program::Literal;
use crate::program::Position;
use crate::program::Type;
use crate::program::ValueOps;
use crate::render::value_text;
use crate::values::Pointer;
use crate::values::Value;

verus! {

/// The deepest the call stack may grow; one more call is a fatal
/// stack-exhaustion error.
pub const MAX_CALL_DEPTH: usize = 1024;

/// The kinds of fatal error. Execution halts on the first one; there is no
/// recovery.
pub enum ErrorKind {
    /// A variable was read before anything was written to it
    UnboundVariable(String),
    /// An operation, call or constant got the wrong number of operands
    ArgumentCountMismatch,
    /// An operand's runtime type does not fit the operation
    ArgumentTypeMismatch,
    /// Integer division by zero
    DivisionByZero,
    /// A control transfer names a label the function does not define
    UnresolvedLabel(String),
    /// A call names a function the program does not define
    UnresolvedFunction(String),
    /// A function with a declared return type returned nothing
    MissingReturnValue,
    /// A returned or call-bound value disagrees with the declared type
    ReturnTypeMismatch,
    /// Use of a pointer whose allocation is gone, or a free at an offset
    InvalidPointer,
    /// A pointer access outside its allocation's cells
    OutOfBounds,
    /// A load from a cell nothing was ever stored into
    UninitializedLoad,
    /// A free of an allocation that is not live
    DoubleFree,
    /// A speculate instruction while already speculating
    NestedSpeculation,
    /// A commit or guard outside speculative execution
    NotSpeculating,
    /// A call or return inside speculative execution
    IllegalDuringSpeculation,
    /// The call stack grew past its limit
    StackExhausted,
    /// A reference count reached the machine's integer limit
    CountSaturated,
    /// An allocation size that is negative or beyond the machine's range
    BadAllocationSize,
}

/// A fatal error: its kind, and the offending instruction's source position
/// when one was provided.
pub struct InterpError {
    /// What went wrong
    pub kind: ErrorKind,
    /// Where, if the program carried positions
    pub pos: Option<Position>,
}

/// One call frame: the variable bindings, the function and instruction the
/// frame stands at, and where the caller wants a returned value bound.
#[verifier::ext_equal]
pub ghost struct FrameView {
    /// Variable name to value
    pub env: Map<Seq<char>, Value>,
    /// Index of the function being executed
    pub func: int,
    /// Position of the next instruction within that function
    pub pc: int,
    /// The caller-side destination of a value call, with its declared type
    pub ret_dest: Option<(Seq<char>, Type)>,
}

/// The checkpoint a speculate instruction captures: the current frame's
/// bindings and the full reference-count and allocation state.
#[verifier::ext_equal]
pub ghost struct CheckpointView {
    /// The speculating frame's bindings at the checkpoint
    pub env: Map<Seq<char>, Value>,
    /// The reference counts at the checkpoint
    pub counts: CollectorModel,
    /// The heap at the checkpoint
    pub heap: HeapModel,
}

/// The whole machine state: the loaded program, the call stack, the heap,
/// the reference counts, the speculation checkpoint if any, and everything
/// printed so far.
#[verifier::ext_equal]
pub ghost struct StateView {
    /// The program's functions; immutable once loaded
    pub funcs: Seq<Function>,
    /// The call stack, innermost frame last
    pub frames: Seq<FrameView>,
    /// The heap
    pub heap: HeapModel,
    /// The reference counts
    pub counts: CollectorModel,
    /// The speculation checkpoint; `Some` exactly while speculating
    pub checkpoint: Option<CheckpointView>,
    /// The lines printed so far
    pub out: Seq<Seq<char>>,
}

/// What one step does: move to a next state, finish the run, or halt with a
/// fatal error (printed output survives an error; the rest of the state is
/// dead).
pub ghost enum StepRes {
    /// Execution continues in this state
    Next(StateView),
    /// The outermost call returned: execution finished in this state
    Done(StateView),
    /// A fatal error of this kind, at this position
    Fail(ErrorKind, Option<Position>),
}

/// What a bounded run reaches.
pub ghost enum RunRes {
    /// The outermost call returned: the final state
    Finished(StateView),
    /// The step bound ran out in this state
    OutOfFuel(StateView),
    /// A fatal error: its kind, its position, and the output at that point
    Failed(ErrorKind, Option<Position>, Seq<Seq<char>>),
}

/// A binding in an environment, if any.
pub open spec fn lookup(env: Map<Seq<char>, Value>, name: Seq<char>) -> Option<Value> {
    if env.dom().contains(name) {
        Some(env[name])
    } else {
        None
    }
}

/// The value a literal denotes.
pub open spec fn lit_value(l: Literal) -> Value {
    match l {
        Literal::Int(i) => Value::Int(i),
        Literal::Bool(b) => Value::Bool(b),
    }
}

/// Counting one more holder of an address.
pub open spec fn cm_inc(c: CollectorModel, a: usize) -> CollectorModel
    recommends
        c.deltas.len() > 0,
{
    CollectorModel {
        total: c.total.insert(a, (c.total_of(a) + 1) as i64),
        deltas: c.deltas.update(
            c.deltas.len() - 1,
            c.deltas.last().insert(a, (c.delta_of(a) + 1) as i64),
        ),
    }
}

/// Counting one holder of an address gone; the count reaching zero removes
/// the address from the table.
pub open spec fn cm_dec(c: CollectorModel, a: usize) -> CollectorModel
    recommends
        c.deltas.len() > 0,
{
    CollectorModel {
        total: if c.total_of(a) <= 1 {
            c.total.remove(a)
        } else {
            c.total.insert(a, (c.total_of(a) - 1) as i64)
        },
        deltas: c.deltas.update(
            c.deltas.len() - 1,
            if c.total_of(a) <= 1 || c.delta_of(a) <= 1 {
                c.deltas.last().remove(a)
            } else {
                c.deltas.last().insert(a, (c.delta_of(a) - 1) as i64)
            },
        ),
    }
}

/// A new, empty delta map for a frame being entered.
pub open spec fn cm_enter(c: CollectorModel) -> CollectorModel {
    CollectorModel { total: c.total, deltas: c.deltas.push(Map::empty()) }
}

/// Frame exit: subtract the innermost deltas from the global counts and drop
/// the frame's delta map.
pub open spec fn cm_exeunt(c: CollectorModel) -> CollectorModel
    recommends
        c.deltas.len() > 0,
{
    CollectorModel {
        total: Map::new(
            |a: usize| c.total.dom().contains(a) && c.total_of(a) - c.delta_of(a) > 0,
            |a: usize| (c.total_of(a) - c.delta_of(a)) as i64,
        ),
        deltas: c.deltas.drop_last(),
    }
}

/// The addresses whose count a frame exit brings exactly to zero: these
/// allocations are unreachable and get reclaimed.
pub open spec fn garbage_set(c: CollectorModel) -> Set<usize> {
    Set::new(|a: usize| c.total.dom().contains(a) && c.total_of(a) - c.delta_of(a) == 0)
}

/// One slot released.
pub open spec fn released(h: HeapModel, b: usize) -> HeapModel {
    HeapModel { slots: h.slots.update(b as int, None) }
}

/// Every slot of a set released, but for the one being returned to the
/// caller.
pub open spec fn cleared(h: HeapModel, g: Set<usize>, keep: Option<usize>) -> HeapModel {
    HeapModel {
        slots: Seq::new(
            h.slots.len(),
            |b: int| if g.contains(b as usize) && Some(b as usize) != keep {
                None
            } else {
                h.slots[b]
            },
        ),
    }
}

/// The assignment protocol of the reference-count tracker. Binding a value
/// to a name: first, if the name held a pointer, that allocation loses a
/// holder, and a count reaching zero releases it at once; then, if the new
/// value is a pointer, its allocation gains a holder; then the binding is
/// made. A count at the machine's integer limit cannot grow: that is a
/// fatal error.
pub open spec fn spec_bind(
    env: Map<Seq<char>, Value>,
    c: CollectorModel,
    h: HeapModel,
    name: Seq<char>,
    v: Value,
) -> Result<(Map<Seq<char>, Value>, CollectorModel, HeapModel), ErrorKind>
    recommends
        c.deltas.len() > 0,
{
    let dec_step = match lookup(env, name) {
        Some(Value::Ptr(p_old)) => if c.delta_of(p_old.base) < 1 {
            Err(ErrorKind::InvalidPointer)
        } else {
            Ok(
                (
                    cm_dec(c, p_old.base),
                    if c.total_of(p_old.base) <= 1 && p_old.base < h.slots.len() {
                        released(h, p_old.base)
                    } else {
                        h
                    },
                ),
            )
        },
        _ => Ok((c, h)),
    };
    match dec_step {
        Err(k) => Err(k),
        Ok((c1, h1)) => match v {
            Value::Ptr(p) => if c1.total_of(p.base) >= i64::MAX || c1.delta_of(p.base)
                >= i64::MAX {
                Err(ErrorKind::CountSaturated)
            } else {
                Ok((env.insert(name, v), cm_inc(c1, p.base), h1))
            },
            _ => Ok((env.insert(name, v), c1, h1)),
        },
    }
}

/// The first function of that name, searching from position `i`.
pub open spec fn find_func(fs: Seq<Function>, name: Seq<char>, i: int) -> Option<int>
    decreases fs.len() - i,
{
    if i < 0 || i >= fs.len() {
        None
    } else if fs[i].name@ == name {
        Some(i)
    } else {
        find_func(fs, name, i + 1)
    }
}

/// The position of the first label of that name, searching from `i`.
pub open spec fn find_label(instrs: Seq<Code>, name: Seq<char>, i: int) -> Option<int>
    decreases instrs.len() - i,
{
    if i < 0 || i >= instrs.len() {
        None
    } else if (match instrs[i] {
        Code::Label { label, pos } => label@ == name,
        Code::Instruction(_) => false,
    }) {
        Some(i)
    } else {
        find_label(instrs, name, i + 1)
    }
}

/// The values of the named variables, in order; the first unbound name is a
/// fatal error.
pub open spec fn eval_args(
    env: Map<Seq<char>, Value>,
    names: Seq<String>,
    i: int,
) -> Result<Seq<Value>, ErrorKind>
    decreases names.len() - i,
{
    if i < 0 || i >= names.len() {
        Ok(Seq::empty())
    } else {
        match lookup(env, names[i]@) {
            None => Err(ErrorKind::UnboundVariable(names[i])),
            Some(v) => match eval_args(env, names, i + 1) {
                Err(k) => Err(k),
                Ok(rest) => Ok(seq![v] + rest),
            },
        }
    }
}

/// Binding call arguments to parameter names in a fresh environment, one at
/// a time, counting each pointer argument as a new holder.
pub open spec fn bind_params(
    env: Map<Seq<char>, Value>,
    c: CollectorModel,
    params: Seq<Argument>,
    vals: Seq<Value>,
    i: int,
) -> Result<(Map<Seq<char>, Value>, CollectorModel), ErrorKind>
    recommends
        params.len() == vals.len(),
        c.deltas.len() > 0,
    decreases params.len() - i,
{
    if i < 0 || i >= params.len() || params.len() != vals.len() {
        Ok((env, c))
    } else if vals[i].spec_type() != params[i].arg_type {
        Err(ErrorKind::ArgumentTypeMismatch)
    } else {
        match vals[i] {
            Value::Ptr(p) => if c.total_of(p.base) >= i64::MAX || c.delta_of(p.base)
                >= i64::MAX {
                Err(ErrorKind::CountSaturated)
            } else {
                bind_params(env.insert(params[i].name@, vals[i]), cm_inc(c, p.base), params, vals, i + 1)
            },
            _ => bind_params(env.insert(params[i].name@, vals[i]), c, params, vals, i + 1),
        }
    }
}

/// The line a print instruction emits: the named values, formatted by
/// runtime type, separated by single spaces.
pub open spec fn print_line(
    env: Map<Seq<char>, Value>,
    names: Seq<String>,
    i: int,
) -> Result<Seq<char>, ErrorKind>
    decreases names.len() - i,
{
    if i < 0 || i >= names.len() {
        Ok(Seq::empty())
    } else {
        match lookup(env, names[i]@) {
            None => Err(ErrorKind::UnboundVariable(names[i])),
            Some(v) => match print_line(env, names, i + 1) {
                Err(k) => Err(k),
                Ok(rest) => if i + 1 < names.len() {
                    Ok(value_text(v) + seq![' '] + rest)
                } else {
                    Ok(value_text(v))
                },
            },
        }
    }
}

/// Truncating 64-bit signed division, wrapping on the one overflowing case.
pub open spec fn div_trunc64(a: i64, b: i64) -> i64
    recommends
        b != 0,
{
    let ua = if a >= 0 { a as int } else { -(a as int) };
    let ub = if b >= 0 { b as int } else { -(b as int) };
    let q = ua / ub;
    let r = if (a < 0) == (b < 0) {
        q
    } else {
        -q
    };
    if r > i64::MAX as int {
        (r - 0x1_0000_0000_0000_0000) as i64
    } else {
        r as i64
    }
}

/// The state with its innermost frame replaced.
pub open spec fn with_top(s: StateView, f: FrameView) -> StateView
    recommends
        s.frames.len() > 0,
{
    StateView { frames: s.frames.update(s.frames.len() - 1, f), ..s }
}

/// The state with the innermost frame moved to an instruction position.
pub open spec fn at_pc(s: StateView, pc: int) -> StateView
    recommends
        s.frames.len() > 0,
{
    with_top(s, FrameView { pc: pc, ..s.frames.last() })
}

/// Bind a value to a destination in the innermost frame, by the counting
/// protocol, and move past the instruction.
pub open spec fn bind_and_advance(
    s: StateView,
    name: Seq<char>,
    v: Value,
    pos: Option<Position>,
) -> StepRes
    recommends
        s.frames.len() > 0,
{
    let f = s.frames.last();
    match spec_bind(f.env, s.counts, s.heap, name, v) {
        Err(k) => StepRes::Fail(k, pos),
        Ok((e2, c2, h2)) => StepRes::Next(
            StateView {
                frames: s.frames.update(
                    s.frames.len() - 1,
                    FrameView { env: e2, pc: f.pc + 1, ..f },
                ),
                counts: c2,
                heap: h2,
                ..s
            },
        ),
    }
}

/// A function call: resolve the callee, agree on the declared return type,
/// evaluate and type-check the arguments, then enter a fresh frame whose
/// environment binds the parameters, counting pointer arguments. The caller
/// is left standing just past the call instruction.
pub open spec fn spec_call(
    s: StateView,
    fnames: Seq<String>,
    argnames: Seq<String>,
    dest: Option<(Seq<char>, Type)>,
    pos: Option<Position>,
) -> StepRes
    recommends
        s.frames.len() > 0,
{
    let f = s.frames.last();
    if s.checkpoint is Some {
        StepRes::Fail(ErrorKind::IllegalDuringSpeculation, pos)
    } else if fnames.len() != 1 {
        StepRes::Fail(ErrorKind::ArgumentCountMismatch, pos)
    } else {
        match find_func(s.funcs, fnames[0]@, 0) {
            None => StepRes::Fail(ErrorKind::UnresolvedFunction(fnames[0]), pos),
            Some(fi) => {
                let callee = s.funcs[fi];
                let dest_ok = match dest {
                    None => true,
                    Some((_, t)) => callee.return_type == Some(t),
                };
                if !dest_ok {
                    StepRes::Fail(ErrorKind::ReturnTypeMismatch, pos)
                } else if s.frames.len() >= MAX_CALL_DEPTH {
                    StepRes::Fail(ErrorKind::StackExhausted, pos)
                } else {
                    match eval_args(f.env, argnames, 0) {
                        Err(k) => StepRes::Fail(k, pos),
                        Ok(vals) => if vals.len() != callee.args@.len() {
                            StepRes::Fail(ErrorKind::ArgumentCountMismatch, pos)
                        } else {
                            match bind_params(
                                Map::empty(),
                                cm_enter(s.counts),
                                callee.args@,
                                vals,
                                0,
                            ) {
                                Err(k) => StepRes::Fail(k, pos),
                                Ok((env2, c2)) => StepRes::Next(
                                    StateView {
                                        frames: s.frames.update(
                                            s.frames.len() - 1,
                                            FrameView { pc: f.pc + 1, ..f },
                                        ).push(
                                            FrameView {
                                                env: env2,
                                                func: fi,
                                                pc: 0,
                                                ret_dest: dest,
                                            },
                                        ),
                                        counts: c2,
                                        ..s
                                    },
                                ),
                            }
                        },
                    }
                }
            },
        }
    }
}

/// Returning from the innermost call. The protocol is strict: check the
/// value against the declared return type, subtract the frame's deltas from
/// the global counts, bind the value in the caller (which re-counts a
/// returned pointer), and only then reclaim the allocations whose count
/// reached zero. Returning from the outermost call finishes the run.
pub open spec fn spec_return(s: StateView, val: Option<Value>, pos: Option<Position>) -> StepRes
    recommends
        s.frames.len() > 0,
        0 <= s.frames.last().func < s.funcs.len(),
{
    let f = s.frames.last();
    let func = s.funcs[f.func];
    if s.checkpoint is Some {
        StepRes::Fail(ErrorKind::IllegalDuringSpeculation, pos)
    } else {
        let type_ok: Result<(), ErrorKind> = match func.return_type {
            None => match val {
                None => Ok(()),
                Some(_) => Err(ErrorKind::ReturnTypeMismatch),
            },
            Some(t) => match val {
                None => Err(ErrorKind::MissingReturnValue),
                Some(v) => if v.spec_type() == t {
                    Ok(())
                } else {
                    Err(ErrorKind::ReturnTypeMismatch)
                },
            },
        };
        match type_ok {
            Err(k) => StepRes::Fail(k, pos),
            Ok(_) => {
                let c1 = cm_exeunt(s.counts);
                let garbage = garbage_set(s.counts);
                let frames1 = s.frames.drop_last();
                if frames1.len() == 0 {
                    StepRes::Done(
                        StateView {
                            frames: frames1,
                            heap: cleared(s.heap, garbage, None),
                            counts: c1,
                            ..s
                        },
                    )
                } else {
                    match f.ret_dest {
                        None => StepRes::Next(
                            StateView {
                                frames: frames1,
                                heap: cleared(s.heap, garbage, None),
                                counts: c1,
                                ..s
                            },
                        ),
                        Some((name, t)) => match val {
                            None => StepRes::Fail(ErrorKind::MissingReturnValue, pos),
                            Some(v) => if v.spec_type() != t {
                                StepRes::Fail(ErrorKind::ReturnTypeMismatch, pos)
                            } else {
                                let caller = frames1.last();
                                match spec_bind(caller.env, c1, s.heap, name, v) {
                                    Err(k) => StepRes::Fail(k, pos),
                                    Ok((e2, c2, h2)) => {
                                        let keep = match v {
                                            Value::Ptr(p) => Some(p.base),
                                            _ => None,
                                        };
                                        StepRes::Next(
                                            StateView {
                                                frames: frames1.update(
                                                    frames1.len() - 1,
                                                    FrameView { env: e2, ..caller },
                                                ),
                                                heap: cleared(h2, garbage, keep),
                                                counts: c2,
                                                ..s
                                            },
                                        )
                                    },
                                }
                            },
                        },
                    }
                }
            },
        }
    }
}

/// One instruction executed in the innermost frame.
pub open spec fn spec_instr(s: StateView, ins: Instruction) -> StepRes
    recommends
        s.frames.len() > 0,
        0 <= s.frames.last().func < s.funcs.len(),
{
    let f = s.frames.last();
    let env = f.env;
    match ins {
        Instruction::Constant { dest, op, pos, const_type, value } => {
            if lit_value(value).spec_type() != const_type {
                StepRes::Fail(ErrorKind::ArgumentTypeMismatch, pos)
            } else {
                bind_and_advance(s, dest@, lit_value(value), pos)
            }
        },
        Instruction::Value { args, dest, funcs, labels, op, pos, op_type } => match op {
            ValueOps::Add | ValueOps::Sub | ValueOps::Mul | ValueOps::Div => {
                if args@.len() != 2 {
                    StepRes::Fail(ErrorKind::ArgumentCountMismatch, pos)
                } else {
                    match (lookup(env, args@[0]@), lookup(env, args@[1]@)) {
                        (None, _) => StepRes::Fail(ErrorKind::UnboundVariable(args@[0]), pos),
                        (_, None) => StepRes::Fail(ErrorKind::UnboundVariable(args@[1]), pos),
                        (Some(Value::Int(x)), Some(Value::Int(y))) => {
                            if op_type != Type::Int {
                                StepRes::Fail(ErrorKind::ArgumentTypeMismatch, pos)
                            } else if op == ValueOps::Div && y == 0 {
                                StepRes::Fail(ErrorKind::DivisionByZero, pos)
                            } else {
                                let v = match op {
                                    ValueOps::Add => x.wrapping_add(y),
                                    ValueOps::Sub => x.wrapping_sub(y),
                                    ValueOps::Mul => x.wrapping_mul(y),
                                    _ => div_trunc64(x, y),
                                };
                                bind_and_advance(s, dest@, Value::Int(v), pos)
                            }
                        },
                        _ => StepRes::Fail(ErrorKind::ArgumentTypeMismatch, pos),
                    }
                }
            },
            ValueOps::Eq | ValueOps::Lt | ValueOps::Gt | ValueOps::Le | ValueOps::Ge => {
                if args@.len() != 2 {
                    StepRes::Fail(ErrorKind::ArgumentCountMismatch, pos)
                } else {
                    match (lookup(env, args@[0]@), lookup(env, args@[1]@)) {
                        (None, _) => StepRes::Fail(ErrorKind::UnboundVariable(args@[0]), pos),
                        (_, None) => StepRes::Fail(ErrorKind::UnboundVariable(args@[1]), pos),
                        (Some(Value::Int(x)), Some(Value::Int(y))) => {
                            if op_type != Type::Bool {
                                StepRes::Fail(ErrorKind::ArgumentTypeMismatch, pos)
                            } else {
                                let v = match op {
                                    ValueOps::Eq => x == y,
                                    ValueOps::Lt => x < y,
                                    ValueOps::Gt => x > y,
                                    ValueOps::Le => x <= y,
                                    _ => x >= y,
                                };
                                bind_and_advance(s, dest@, Value::Bool(v), pos)
                            }
                        },
                        _ => StepRes::Fail(ErrorKind::ArgumentTypeMismatch, pos),
                    }
                }
            },
            ValueOps::Not => {
                if args@.len() != 1 {
                    StepRes::Fail(ErrorKind::ArgumentCountMismatch, pos)
                } else {
                    match lookup(env, args@[0]@) {
                        None => StepRes::Fail(ErrorKind::UnboundVariable(args@[0]), pos),
                        Some(Value::Bool(x)) => if op_type != Type::Bool {
                            StepRes::Fail(ErrorKind::ArgumentTypeMismatch, pos)
                        } else {
                            bind_and_advance(s, dest@, Value::Bool(!x), pos)
                        },
                        _ => StepRes::Fail(ErrorKind::ArgumentTypeMismatch, pos),
                    }
                }
            },
            ValueOps::And | ValueOps::Or => {
                if args@.len() != 2 {
                    StepRes::Fail(ErrorKind::ArgumentCountMismatch, pos)
                } else {
                    match (lookup(env, args@[0]@), lookup(env, args@[1]@)) {
                        (None, _) => StepRes::Fail(ErrorKind::UnboundVariable(args@[0]), pos),
                        (_, None) => StepRes::Fail(ErrorKind::UnboundVariable(args@[1]), pos),
                        (Some(Value::Bool(x)), Some(Value::Bool(y))) => {
                            if op_type != Type::Bool {
                                StepRes::Fail(ErrorKind::ArgumentTypeMismatch, pos)
                            } else {
                                let v = if op == ValueOps::And {
                                    x && y
                                } else {
                                    x || y
                                };
                                bind_and_advance(s, dest@, Value::Bool(v), pos)
                            }
                        },
                        _ => StepRes::Fail(ErrorKind::ArgumentTypeMismatch, pos),
                    }
                }
            },
            ValueOps::Id => {
                if args@.len() != 1 {
                    StepRes::Fail(ErrorKind::ArgumentCountMismatch, pos)
                } else {
                    match lookup(env, args@[0]@) {
                        None => StepRes::Fail(ErrorKind::UnboundVariable(args@[0]), pos),
                        Some(v) => if v.spec_type() != op_type {
                            StepRes::Fail(ErrorKind::ArgumentTypeMismatch, pos)
                        } else {
                            bind_and_advance(s, dest@, v, pos)
                        },
                    }
                }
            },
            ValueOps::Call => spec_call(s, funcs@, args@, Some((dest@, op_type)), pos),
            ValueOps::Alloc => {
                if args@.len() != 1 {
                    StepRes::Fail(ErrorKind::ArgumentCountMismatch, pos)
                } else {
                    match lookup(env, args@[0]@) {
                        None => StepRes::Fail(ErrorKind::UnboundVariable(args@[0]), pos),
                        Some(Value::Int(n)) => match op_type {
                            Type::Pointer(e) => if n < 0 || n as int > usize::MAX as int {
                                StepRes::Fail(ErrorKind::BadAllocationSize, pos)
                            } else {
                                let base = s.heap.slots.len() as usize;
                                let h2 = HeapModel {
                                    slots: s.heap.slots.push(
                                        Some(
                                            crate::heap::AllocModel {
                                                elem: *e,
                                                cells: Seq::new(n as nat, |i: int| None),
                                            },
                                        ),
                                    ),
                                };
                                let v = Value::Ptr(
                                    Pointer { base: base, offset: 0, elem: *e },
                                );
                                bind_and_advance(StateView { heap: h2, ..s }, dest@, v, pos)
                            },
                            _ => StepRes::Fail(ErrorKind::ArgumentTypeMismatch, pos),
                        },
                        _ => StepRes::Fail(ErrorKind::ArgumentTypeMismatch, pos),
                    }
                }
            },
            ValueOps::Load => {
                if args@.len() != 1 {
                    StepRes::Fail(ErrorKind::ArgumentCountMismatch, pos)
                } else {
                    match lookup(env, args@[0]@) {
                        None => StepRes::Fail(ErrorKind::UnboundVariable(args@[0]), pos),
                        Some(Value::Ptr(p)) => if !s.heap.live(p.base) {
                            StepRes::Fail(ErrorKind::InvalidPointer, pos)
                        } else if p.offset < 0 || p.offset >= s.heap.at(p.base).cells.len() {
                            StepRes::Fail(ErrorKind::OutOfBounds, pos)
                        } else {
                            match s.heap.at(p.base).cells[p.offset as int] {
                                None => StepRes::Fail(ErrorKind::UninitializedLoad, pos),
                                Some(v) => if v.spec_type() != op_type {
                                    StepRes::Fail(ErrorKind::ArgumentTypeMismatch, pos)
                                } else {
                                    bind_and_advance(s, dest@, v, pos)
                                },
                            }
                        },
                        _ => StepRes::Fail(ErrorKind::ArgumentTypeMismatch, pos),
                    }
                }
            },
            ValueOps::PtrAdd => {
                if args@.len() != 2 {
                    StepRes::Fail(ErrorKind::ArgumentCountMismatch, pos)
                } else {
                    match (lookup(env, args@[0]@), lookup(env, args@[1]@)) {
                        (None, _) => StepRes::Fail(ErrorKind::UnboundVariable(args@[0]), pos),
                        (_, None) => StepRes::Fail(ErrorKind::UnboundVariable(args@[1]), pos),
                        (Some(Value::Ptr(p)), Some(Value::Int(k))) => {
                            if !s.heap.live(p.base) {
                                StepRes::Fail(ErrorKind::InvalidPointer, pos)
                            } else {
                                let v = Value::Ptr(
                                    Pointer { offset: p.offset.wrapping_add(k), ..p },
                                );
                                if v.spec_type() != op_type {
                                    StepRes::Fail(ErrorKind::ArgumentTypeMismatch, pos)
                                } else {
                                    bind_and_advance(s, dest@, v, pos)
                                }
                            }
                        },
                        _ => StepRes::Fail(ErrorKind::ArgumentTypeMismatch, pos),
                    }
                }
            },
        },
        Instruction::Effect { args, funcs, labels, op, pos } => {
            let instrs = s.funcs[f.func].instrs@;
            match op {
                EffectOps::Jump => {
                    if labels@.len() != 1 {
                        StepRes::Fail(ErrorKind::ArgumentCountMismatch, pos)
                    } else {
                        match find_label(instrs, labels@[0]@, 0) {
                            None => StepRes::Fail(ErrorKind::UnresolvedLabel(labels@[0]), pos),
                            Some(t) => StepRes::Next(at_pc(s, t)),
                        }
                    }
                },
                EffectOps::Branch => {
                    if args@.len() != 1 || labels@.len() != 2 {
                        StepRes::Fail(ErrorKind::ArgumentCountMismatch, pos)
                    } else {
                        match lookup(env, args@[0]@) {
                            None => StepRes::Fail(ErrorKind::UnboundVariable(args@[0]), pos),
                            Some(Value::Bool(b)) => {
                                let lbl = if b {
                                    labels@[0]
                                } else {
                                    labels@[1]
                                };
                                match find_label(instrs, lbl@, 0) {
                                    None => StepRes::Fail(ErrorKind::UnresolvedLabel(lbl), pos),
                                    Some(t) => StepRes::Next(at_pc(s, t)),
                                }
                            },
                            _ => StepRes::Fail(ErrorKind::ArgumentTypeMismatch, pos),
                        }
                    }
                },
                EffectOps::Call => spec_call(s, funcs@, args@, None, pos),
                EffectOps::Return => {
                    if args@.len() == 0 {
                        spec_return(s, None, pos)
                    } else if args@.len() == 1 {
                        match lookup(env, args@[0]@) {
                            None => StepRes::Fail(ErrorKind::UnboundVariable(args@[0]), pos),
                            Some(v) => spec_return(s, Some(v), pos),
                        }
                    } else {
                        StepRes::Fail(ErrorKind::ArgumentCountMismatch, pos)
                    }
                },
                EffectOps::Print => {
                    match print_line(env, args@, 0) {
                        Err(k) => StepRes::Fail(k, pos),
                        Ok(line) => StepRes::Next(
                            StateView { out: s.out.push(line), ..at_pc(s, f.pc + 1) },
                        ),
                    }
                },
                EffectOps::Nop => StepRes::Next(at_pc(s, f.pc + 1)),
                EffectOps::Store => {
                    if args@.len() != 2 {
                        StepRes::Fail(ErrorKind::ArgumentCountMismatch, pos)
                    } else {
                        match (lookup(env, args@[0]@), lookup(env, args@[1]@)) {
                            (None, _) => StepRes::Fail(
                                ErrorKind::UnboundVariable(args@[0]),
                                pos,
                            ),
                            (_, None) => StepRes::Fail(
                                ErrorKind::UnboundVariable(args@[1]),
                                pos,
                            ),
                            (Some(Value::Ptr(p)), Some(v)) => if !s.heap.live(p.base) {
                                StepRes::Fail(ErrorKind::InvalidPointer, pos)
                            } else if p.offset < 0 || p.offset >= s.heap.at(
                                p.base,
                            ).cells.len() {
                                StepRes::Fail(ErrorKind::OutOfBounds, pos)
                            } else if v.spec_type() != p.elem {
                                StepRes::Fail(ErrorKind::ArgumentTypeMismatch, pos)
                            } else {
                                let h2 = HeapModel {
                                    slots: s.heap.slots.update(
                                        p.base as int,
                                        Some(
                                            crate::heap::AllocModel {
                                                elem: s.heap.at(p.base).elem,
                                                cells: s.heap.at(p.base).cells.update(
                                                    p.offset as int,
                                                    Some(v),
                                                ),
                                            },
                                        ),
                                    ),
                                };
                                StepRes::Next(StateView { heap: h2, ..at_pc(s, f.pc + 1) })
                            },
                            _ => StepRes::Fail(ErrorKind::ArgumentTypeMismatch, pos),
                        }
                    }
                },
                EffectOps::Free => {
                    if args@.len() != 1 {
                        StepRes::Fail(ErrorKind::ArgumentCountMismatch, pos)
                    } else {
                        match lookup(env, args@[0]@) {
                            None => StepRes::Fail(ErrorKind::UnboundVariable(args@[0]), pos),
                            Some(Value::Ptr(p)) => if p.offset != 0 {
                                StepRes::Fail(ErrorKind::InvalidPointer, pos)
                            } else if !s.heap.live(p.base) {
                                StepRes::Fail(ErrorKind::DoubleFree, pos)
                            } else {
                                StepRes::Next(
                                    StateView {
                                        heap: released(s.heap, p.base),
                                        ..at_pc(s, f.pc + 1)
                                    },
                                )
                            },
                            _ => StepRes::Fail(ErrorKind::ArgumentTypeMismatch, pos),
                        }
                    }
                },
                EffectOps::Speculate => {
                    if s.checkpoint is Some {
                        StepRes::Fail(ErrorKind::NestedSpeculation, pos)
                    } else {
                        StepRes::Next(
                            StateView {
                                checkpoint: Some(
                                    CheckpointView {
                                        env: f.env,
                                        counts: s.counts,
                                        heap: s.heap,
                                    },
                                ),
                                ..at_pc(s, f.pc + 1)
                            },
                        )
                    }
                },
                EffectOps::Commit => {
                    if s.checkpoint is None {
                        StepRes::Fail(ErrorKind::NotSpeculating, pos)
                    } else {
                        StepRes::Next(StateView { checkpoint: None, ..at_pc(s, f.pc + 1) })
                    }
                },
                EffectOps::Guard => {
                    if s.checkpoint is None {
                        StepRes::Fail(ErrorKind::NotSpeculating, pos)
                    } else if args@.len() != 1 || labels@.len() != 1 {
                        StepRes::Fail(ErrorKind::ArgumentCountMismatch, pos)
                    } else {
                        match lookup(env, args@[0]@) {
                            None => StepRes::Fail(ErrorKind::UnboundVariable(args@[0]), pos),
                            Some(Value::Bool(b)) => if b {
                                StepRes::Next(at_pc(s, f.pc + 1))
                            } else {
                                match find_label(instrs, labels@[0]@, 0) {
                                    None => StepRes::Fail(
                                        ErrorKind::UnresolvedLabel(labels@[0]),
                                        pos,
                                    ),
                                    Some(t) => {
                                        let cp = s.checkpoint->Some_0;
                                        StepRes::Next(
                                            StateView {
                                                frames: s.frames.update(
                                                    s.frames.len() - 1,
                                                    FrameView { env: cp.env, pc: t, ..f },
                                                ),
                                                counts: cp.counts,
                                                heap: cp.heap,
                                                checkpoint: None,
                                                ..s
                                            },
                                        )
                                    },
                                }
                            },
                            _ => StepRes::Fail(ErrorKind::ArgumentTypeMismatch, pos),
                        }
                    }
                },
            }
        },
    }
}

/// One step of the machine: execute the instruction at the innermost
/// frame's position; past the last instruction, return implicitly with no
/// value.
pub open spec fn spec_step(s: StateView) -> StepRes
    recommends
        s.frames.len() > 0,
        0 <= s.frames.last().func < s.funcs.len(),
{
    let f = s.frames.last();
    if !(0 <= f.func < s.funcs.len()) {
        StepRes::Fail(ErrorKind::UnresolvedFunction(s.funcs[0].name), None)
    } else {
        let func = s.funcs[f.func];
        if f.pc < 0 || f.pc >= func.instrs@.len() {
            spec_return(s, None, None)
        } else {
            match func.instrs@[f.pc] {
                Code::Label { label, pos } => StepRes::Next(at_pc(s, f.pc + 1)),
                Code::Instruction(ins) => spec_instr(s, ins),
            }
        }
    }
}

/// A run of at most `n` steps from a state.
pub open spec fn spec_run(s: StateView, n: nat) -> RunRes
    decreases n,
{
    if s.frames.len() == 0 {
        RunRes::Finished(s)
    } else if n == 0 {
        RunRes::OutOfFuel(s)
    } else {
        match spec_step(s) {
            StepRes::Next(s2) => spec_run(s2, (n - 1) as nat),
            StepRes::Done(s2) => RunRes::Finished(s2),
            StepRes::Fail(k, p) => RunRes::Failed(k, p, s.out),
        }
    }
}


/// The machine freshly loaded with a program: no frames, empty heap, no
/// counts, not speculating, nothing printed.
pub open spec fn init_state(funcs: Seq<Function>) -> StateView {
    StateView {
        funcs: funcs,
        frames: Seq::empty(),
        heap: crate::heap::HeapModel { slots: Seq::empty() },
        counts: CollectorModel { total: Map::empty(), deltas: Seq::empty() },
        checkpoint: None,
        out: Seq::empty(),
    }
}

/// Entering the entry function: resolve it, check the supplied arguments
/// against its parameters, and open the first frame with them bound,
/// counting pointer arguments.
pub open spec fn spec_start(s: StateView, entry: String, args: Seq<Value>) -> Result<
    StateView,
    ErrorKind,
> {
    match find_func(s.funcs, entry@, 0) {
        None => Err(ErrorKind::UnresolvedFunction(entry)),
        Some(fi) => {
            let callee = s.funcs[fi];
            if args.len() != callee.args@.len() {
                Err(ErrorKind::ArgumentCountMismatch)
            } else {
                match bind_params(Map::empty(), cm_enter(s.counts), callee.args@, args, 0) {
                    Err(k) => Err(k),
                    Ok((env2, c2)) => Ok(
                        StateView {
                            frames: s.frames.push(
                                FrameView { env: env2, func: fi, pc: 0, ret_dest: None },
                            ),
                            counts: c2,
                            ..s
                        },
                    ),
                }
            }
        },
    }
}

/// Interpretation is deterministic: from one starting state, any two runs
/// that get past the step bound agree completely — the same final state and
/// output on success, the same error and the same output on failure. In
/// particular, interpreting a program twice from the same initial arguments
/// yields identical observable output.
pub proof fn lemma_run_deterministic(s: StateView, n1: nat, n2: nat)
    requires
        !(spec_run(s, n1) is OutOfFuel),
        !(spec_run(s, n2) is OutOfFuel),
    ensures
        spec_run(s, n1) == spec_run(s, n2),
    decreases n1,
{
    if s.frames.len() == 0 {
    } else {
        match spec_step(s) {
            StepRes::Next(s2) => {
                lemma_run_deterministic(s2, (n1 - 1) as nat, (n2 - 1) as nat);
            },
            StepRes::Done(_) => {},
            StepRes::Fail(_, _) => {},
        }
    }
}


/// An allocation whose pointer is bound to exactly one variable and never
/// copied has a global count of one, all of it in the owning frame's delta.
/// More generally, whenever the whole of an allocation's count belongs to
/// the exiting frame, the exit reclaims it exactly once: the address is
/// listed for reclamation, and afterwards it is counted nowhere, so no
/// later exit can list it again.
pub proof fn lemma_single_holder_reclaimed(c: CollectorModel, a: usize)
    requires
        c.deltas.len() > 0,
        c.total.dom().contains(a),
        c.total_of(a) == c.delta_of(a),
    ensures
        garbage_set(c).contains(a),
        !cm_exeunt(c).total.dom().contains(a),
        cm_exeunt(c).total_of(a) == 0,
{
}

/// Reassigning a pointer variable `q := p` when `q` does not already hold
/// `p`'s allocation: `p`'s allocation gains one holder; the allocation `q`
/// held before, if any, loses one; and an old holding whose count thereby
/// reaches zero leaves the heap at once, so every later access through it
/// fails.
pub proof fn lemma_reassignment_counts(
    env: Map<Seq<char>, Value>,
    c: CollectorModel,
    h: HeapModel,
    q: Seq<char>,
    pv: Pointer,
)
    requires
        c.deltas.len() > 0,
        c.total_of(pv.base) < i64::MAX,
        c.delta_of(pv.base) < i64::MAX,
        match lookup(env, q) {
            Some(Value::Ptr(po)) => po.base != pv.base && c.delta_of(po.base) >= 1
                && c.total_of(po.base) >= 1,
            _ => true,
        },
    ensures
        spec_bind(env, c, h, q, Value::Ptr(pv)) is Ok,
        ({
            let t = spec_bind(env, c, h, q, Value::Ptr(pv))->Ok_0;
            &&& t.0 == env.insert(q, Value::Ptr(pv))
            &&& t.1.total_of(pv.base) == c.total_of(pv.base) + 1
            &&& match lookup(env, q) {
                Some(Value::Ptr(po)) => t.1.total_of(po.base) == c.total_of(po.base) - 1
                    && (c.total_of(po.base) <= 1 ==> !t.2.live(po.base)),
                _ => t.2 == h,
            }
        }),
{
    match lookup(env, q) {
        Some(Value::Ptr(po)) => {
            let c1 = cm_dec(c, po.base);
            assert(c1.total_of(pv.base) == c.total_of(pv.base));
            assert(c1.delta_of(pv.base) == c.delta_of(pv.base));
            assert(c1.total_of(po.base) == if c.total_of(po.base) <= 1 {
                0
            } else {
                c.total_of(po.base) - 1 as int
            });
            let c2 = cm_inc(c1, pv.base);
            assert(c2.total_of(po.base) == c1.total_of(po.base));
            assert(c2.total_of(pv.base) == c1.total_of(pv.base) + 1);
        },
        _ => {},
    }
}

/// A failed guard rolls the machine back: every variable of the speculating
/// frame returns to its checkpoint value, the reference counts and the heap
/// return to their checkpoint state, speculative mode ends, and control
/// moves to the guard's label. A commit can never execute later in that
/// speculative region: the region is gone, and a commit outside one is a
/// fatal error (see [`lemma_commit_outside_speculation`]).
pub proof fn lemma_guard_rollback(s: StateView, args: Vec<String>, funcs: Vec<String>, labels: Vec<String>, pos: Option<Position>, t: int)
    requires
        s.frames.len() > 0,
        0 <= s.frames.last().func < s.funcs.len(),
        s.checkpoint is Some,
        args@.len() == 1,
        labels@.len() == 1,
        lookup(s.frames.last().env, args@[0]@) == Some(Value::Bool(false)),
        find_label(s.funcs[s.frames.last().func].instrs@, labels@[0]@, 0) == Some(t),
    ensures
        ({
            let r = spec_instr(
                s,
                Instruction::Effect {
                    args: args,
                    funcs: funcs,
                    labels: labels,
                    op: EffectOps::Guard,
                    pos: pos,
                },
            );
            let cp = s.checkpoint->Some_0;
            &&& r is Next
            &&& r->Next_0.frames.last().env == cp.env
            &&& r->Next_0.counts == cp.counts
            &&& r->Next_0.heap == cp.heap
            &&& r->Next_0.checkpoint is None
            &&& r->Next_0.frames.last().pc == t
        }),
{
}

/// A commit or guard outside speculative execution is a fatal error: after
/// a rollback, the rest of the abandoned speculative region can never run
/// its commit.
pub proof fn lemma_commit_outside_speculation(s: StateView, args: Vec<String>, funcs: Vec<String>, labels: Vec<String>, pos: Option<Position>)
    requires
        s.frames.len() > 0,
        0 <= s.frames.last().func < s.funcs.len(),
        s.checkpoint is None,
    ensures
        spec_instr(
            s,
            Instruction::Effect {
                args: args,
                funcs: funcs,
                labels: labels,
                op: EffectOps::Commit,
                pos: pos,
            },
        ) == StepRes::Fail(ErrorKind::NotSpeculating, pos),
{
}

} // verus!
