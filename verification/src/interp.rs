//! The execution engine: call frames over the value environment, instruction
//! dispatch, the heap with its reference-count tracker, and the speculative
//! checkpoint/rollback machine. Every step the engine takes is proved equal
//! to the specification-level step of [`crate::semantics`].
use vstd::prelude::*;

use crate::collector::Collector;
use crate::env::Env;
use crate::heap::Heap;
use crate::program::Argument;
use crate::program::Code;
use crate::program::EffectOps;
use crate::program::Function;
use crate::program::Instruction;
use crate::program::Position;
use crate::program::Program;
use crate::program::Type;
use crate::program::ValueOps;
use crate::program::clone_literal;
use crate::program::clone_type;
use crate::program::type_eq;
use crate::render::push_value;
use crate::semantics::CheckpointView;
use crate::semantics::ErrorKind;
use crate::semantics::FrameView;
use crate::semantics::InterpError;
use crate::semantics::MAX_CALL_DEPTH;
use crate::semantics::RunRes;
use crate::semantics::StateView;
use crate::semantics::StepRes;
use crate::semantics::bind_and_advance;
use crate::semantics::bind_params;
use crate::semantics::cm_enter;
use crate::semantics::cm_exeunt;
use crate::semantics::cm_inc;
use crate::semantics::cm_dec;
use crate::semantics::div_trunc64;
use crate::semantics::eval_args;
use crate::semantics::find_func;
use crate::semantics::find_label;
use crate::semantics::garbage_set;
use crate::semantics::lit_value;
use crate::semantics::lookup;
use crate::semantics::print_line;
use crate::semantics::cleared;
use crate::semantics::spec_bind;
use crate::semantics::spec_call;
use crate::semantics::spec_return;
use crate::semantics::spec_run;
use crate::semantics::spec_start;
use crate::semantics::spec_step;
use crate::semantics::init_state;
use crate::text::chars_to_string;
use crate::values::Pointer;
use crate::values::Value;
use crate::values::clone_value;
use crate::values::runtime_type;

verus! {

/// One call frame: the frame's environment, the function and instruction it
/// stands at, and where the caller wants a returned value bound.
pub struct Frame {
    /// The frame's variable bindings
    pub env: Env,
    /// Index of the function being executed
    pub func: usize,
    /// Position of the next instruction within that function
    pub pc: usize,
    /// Caller-side destination of a value call, with its declared type
    pub ret_dest: Option<(String, Type)>,
}

/// The view of a return destination.
pub open spec fn rd_view(d: Option<(String, Type)>) -> Option<(Seq<char>, Type)> {
    match d {
        Some(p) => Some((p.0@, p.1)),
        None => None,
    }
}

impl View for Frame {
    type V = FrameView;

    open spec fn view(&self) -> FrameView {
        FrameView {
            env: self.env@,
            func: self.func as int,
            pc: self.pc as int,
            ret_dest: rd_view(self.ret_dest),
        }
    }
}

/// The checkpoint a speculate instruction captures.
pub struct Checkpoint {
    env: Env,
    counts: Collector,
    heap: Heap,
}

/// One interpreter instance drives one program run; all state is owned here
/// and constructed fresh per run.
pub struct Interp {
    funcs: Vec<Function>,
    frames: Vec<Frame>,
    heap: Heap,
    counts: Collector,
    checkpoint: Option<Checkpoint>,
    out: Vec<String>,
}

impl View for Interp {
    type V = StateView;

    closed spec fn view(&self) -> StateView {
        StateView {
            funcs: self.funcs@,
            frames: self.frames@.map_values(|f: Frame| f@),
            heap: self.heap@,
            counts: self.counts@,
            checkpoint: match self.checkpoint {
                Some(cp) => Some(
                    CheckpointView { env: cp.env@, counts: cp.counts@, heap: cp.heap@ },
                ),
                None => None,
            },
            out: self.out@.map_values(|s: String| s@),
        }
    }
}

impl Interp {
    /// The machine's internal well-formedness: the tracker follows exactly
    /// the active frames, environments keep their keys distinct, and every
    /// frame stands in a real function.
    pub closed spec fn inv(&self) -> bool {
        &&& self.counts@.wf()
        &&& self.counts@.deltas.len() == self.frames@.len()
        &&& forall|i: int| 0 <= i < self.frames@.len() ==> (#[trigger] self.frames@[i]).env.wf()
        &&& forall|i: int| 0 <= i < self.frames@.len()
            ==> (#[trigger] self.frames@[i]).func < self.funcs@.len()
        &&& match self.checkpoint {
            Some(cp) => cp.env.wf() && cp.counts@.wf() && cp.counts@.deltas.len()
                == self.frames@.len() && self.frames@.len() > 0,
            None => true,
        }
    }

    /// Well-formedness while the innermost frame is held aside.
    spec fn mid_inv(&self, fr: Frame) -> bool {
        &&& self.counts@.wf()
        &&& self.counts@.deltas.len() == self.frames@.len() + 1
        &&& fr.env.wf()
        &&& (fr.func as int) < self.funcs@.len()
        &&& forall|i: int| 0 <= i < self.frames@.len() ==> (#[trigger] self.frames@[i]).env.wf()
        &&& forall|i: int| 0 <= i < self.frames@.len()
            ==> (#[trigger] self.frames@[i]).func < self.funcs@.len()
        &&& match self.checkpoint {
            Some(cp) => cp.env.wf() && cp.counts@.wf() && cp.counts@.deltas.len()
                == self.frames@.len() + 1,
            None => true,
        }
    }

    /// The full state when the frame held aside is put back on top.
    spec fn view_with(&self, fr: Frame) -> StateView {
        StateView {
            funcs: self.funcs@,
            frames: self.frames@.map_values(|f: Frame| f@).push(fr@),
            heap: self.heap@,
            counts: self.counts@,
            checkpoint: match self.checkpoint {
                Some(cp) => Some(
                    CheckpointView { env: cp.env@, counts: cp.counts@, heap: cp.heap@ },
                ),
                None => None,
            },
            out: self.out@.map_values(|s: String| s@),
        }
    }
}

/// The first function of the name, from position `i` on.
fn find_func_exec(funcs: &Vec<Function>, name: &String, i: usize) -> (r: Option<usize>)
    requires
        i <= funcs@.len(),
    ensures
        match r {
            Some(j) => find_func(funcs@, name@, i as int) == Some(j as int) && j
                < funcs@.len(),
            None => find_func(funcs@, name@, i as int) is None,
        },
    decreases funcs@.len() - i,
{
    if i >= funcs.len() {
        None
    } else if funcs[i].name.eq(name) {
        Some(i)
    } else {
        find_func_exec(funcs, name, i + 1)
    }
}

/// The position of the first label of the name, from position `i` on.
fn find_label_exec(instrs: &Vec<Code>, name: &String, i: usize) -> (r: Option<usize>)
    requires
        i <= instrs@.len(),
    ensures
        match r {
            Some(j) => find_label(instrs@, name@, i as int) == Some(j as int),
            None => find_label(instrs@, name@, i as int) is None,
        },
    decreases instrs@.len() - i,
{
    if i >= instrs.len() {
        None
    } else {
        let hit = match &instrs[i] {
            Code::Label { label, pos } => label.eq(name),
            Code::Instruction(_) => false,
        };
        if hit {
            Some(i)
        } else {
            find_label_exec(instrs, name, i + 1)
        }
    }
}

/// The value bound to a name, copied out of the environment.
fn get_val(env: &Env, name: &String) -> (r: Option<Value>)
    requires
        env.wf(),
    ensures
        r == lookup(env@, name@),
{
    match env.get(name) {
        Some(v) => Some(clone_value(v)),
        None => None,
    }
}

/// The values of the named variables, from position `i` on.
fn eval_args_exec(env: &Env, names: &Vec<String>, i: usize) -> (r: Result<Vec<Value>, ErrorKind>)
    requires
        env.wf(),
        i <= names@.len(),
    ensures
        match eval_args(env@, names@, i as int) {
            Ok(vs) => r is Ok && r->Ok_0@ == vs,
            Err(k) => r == Err::<Vec<Value>, ErrorKind>(k),
        },
    decreases names@.len() - i,
{
    if i >= names.len() {
        let empty: Vec<Value> = Vec::new();
        proof {
            assert(empty@ =~= Seq::<Value>::empty());
        }
        Ok(empty)
    } else {
        match get_val(env, &names[i]) {
            None => Err(ErrorKind::UnboundVariable(names[i].clone())),
            Some(v) => match eval_args_exec(env, names, i + 1) {
                Err(k) => Err(k),
                Ok(mut rest) => {
                    let ghost rest0 = rest@;
                    let ghost v0 = v;
                    let mut out: Vec<Value> = Vec::new();
                    out.push(v);
                    out.append(&mut rest);
                    proof {
                        assert(out@ =~= seq![v0] + rest0);
                    }
                    Ok(out)
                },
            },
        }
    }
}

/// Bind call arguments to parameter names in a fresh environment, counting
/// each pointer argument as a new holder.
fn bind_params_exec(
    env: &mut Env,
    counts: &mut Collector,
    params: &Vec<Argument>,
    vals: &Vec<Value>,
    i: usize,
) -> (r: Result<(), ErrorKind>)
    requires
        old(env).wf(),
        old(counts)@.wf(),
        old(counts)@.deltas.len() > 0,
        i <= params@.len(),
        params@.len() == vals@.len(),
    ensures
        match bind_params(old(env)@, old(counts)@, params@, vals@, i as int) {
            Ok(t) => r is Ok && final(env)@ == t.0 && final(counts)@ == t.1 && final(env).wf()
                && final(counts)@.wf() && final(counts)@.deltas.len()
                == old(counts)@.deltas.len(),
            Err(k) => r == Err::<(), ErrorKind>(k),
        },
    decreases params@.len() - i,
{
    if i >= params.len() {
        Ok(())
    } else {
        let v = clone_value(&vals[i]);
        let vt = runtime_type(&v);
        if !type_eq(&vt, &params[i].arg_type) {
            return Err(ErrorKind::ArgumentTypeMismatch);
        }
        let is_sat = match &v {
            Value::Ptr(p) => counts.count_of(p.base) >= i64::MAX || counts.delta_of(p.base)
                >= i64::MAX,
            _ => false,
        };
        if is_sat {
            return Err(ErrorKind::CountSaturated);
        }
        let ghost c0 = counts@;
        match &v {
            Value::Ptr(p) => {
                counts.increment(p.base);
                proof {
                    assert(counts@ =~= cm_inc(c0, p.base));
                }
            },
            _ => {},
        }
        env.set(&params[i].name, v);
        bind_params_exec(env, counts, params, vals, i + 1)
    }
}

/// The line a print instruction emits, from argument `i` on.
fn print_line_exec(env: &Env, names: &Vec<String>, i: usize) -> (r: Result<Vec<char>, ErrorKind>)
    requires
        env.wf(),
        i <= names@.len(),
    ensures
        match print_line(env@, names@, i as int) {
            Ok(cs) => r is Ok && r->Ok_0@ == cs,
            Err(k) => r == Err::<Vec<char>, ErrorKind>(k),
        },
    decreases names@.len() - i,
{
    if i >= names.len() {
        let empty: Vec<char> = Vec::new();
        proof {
            assert(empty@ =~= Seq::<char>::empty());
        }
        Ok(empty)
    } else {
        match env.get(&names[i]) {
            None => Err(ErrorKind::UnboundVariable(names[i].clone())),
            Some(v) => {
                let mut head: Vec<char> = Vec::new();
                push_value(&mut head, v);
                match print_line_exec(env, names, i + 1) {
                    Err(k) => Err(k),
                    Ok(mut rest) => {
                        let ghost head0 = head@;
                        let ghost rest0 = rest@;
                        if i + 1 < names.len() {
                            head.push(' ');
                        }
                        head.append(&mut rest);
                        proof {
                            if i + 1 < names@.len() {
                                assert(head@ =~= head0 + seq![' '] + rest0);
                            } else {
                                assert(rest0 =~= Seq::<char>::empty());
                                assert(head@ =~= head0);
                            }
                        }
                        Ok(head)
                    },
                }
            },
        }
    }
}

/// Truncating 64-bit signed division, wrapping on the one overflowing case.
fn div64(a: i64, b: i64) -> (r: i64)
    requires
        b != 0,
    ensures
        r == div_trunc64(a, b),
{
    let ua: u64 = if a >= 0 {
        a as u64
    } else {
        (-(a as i128)) as u64
    };
    let ub: u64 = if b >= 0 {
        b as u64
    } else {
        (-(b as i128)) as u64
    };
    let q: u64 = ua / ub;
    proof {
        assert(ua as int / ub as int <= ua as int) by (nonlinear_arith)
            requires ub >= 1, ua >= 0;
    }
    if (a < 0) != (b < 0) {
        if q >= 0x8000_0000_0000_0000 {
            i64::MIN
        } else {
            -(q as i64)
        }
    } else {
        if q >= 0x8000_0000_0000_0000 {
            i64::MIN
        } else {
            q as i64
        }
    }
}

/// The reference-count assignment protocol: drop the old binding's holder
/// (reclaiming its allocation if the count reaches zero), count the new
/// value's holder, and bind.
fn bind_var(
    env: &mut Env,
    counts: &mut Collector,
    heap: &mut Heap,
    name: &String,
    v: Value,
) -> (r: Result<(), ErrorKind>)
    requires
        old(env).wf(),
        old(counts)@.wf(),
        old(counts)@.deltas.len() > 0,
    ensures
        match spec_bind(old(env)@, old(counts)@, old(heap)@, name@, v) {
            Ok(t) => r is Ok && final(env)@ == t.0 && final(counts)@ == t.1 && final(heap)@
                == t.2 && final(env).wf() && final(counts)@.wf() && final(counts)@.deltas.len()
                == old(counts)@.deltas.len() && final(heap)@.slots.len()
                == old(heap)@.slots.len(),
            Err(k) => r == Err::<(), ErrorKind>(k),
        },
{
    let old_base: Option<usize> = match env.get(name) {
        Some(Value::Ptr(p)) => Some(p.base),
        _ => None,
    };
    match old_base {
        Some(b) => {
            if counts.delta_of(b) < 1 {
                return Err(ErrorKind::InvalidPointer);
            }
            let ghost c0 = counts@;
            let zero = counts.decrement(b);
            proof {
                assert(counts@.deltas =~= cm_dec(c0, b).deltas);
                assert(counts@ =~= cm_dec(c0, b));
            }
            if zero {
                if b < heap.size() {
                    heap.release(b);
                }
            }
        },
        None => {},
    }
    let is_sat = match &v {
        Value::Ptr(p) => counts.count_of(p.base) >= i64::MAX || counts.delta_of(p.base)
            >= i64::MAX,
        _ => false,
    };
    if is_sat {
        return Err(ErrorKind::CountSaturated);
    }
    let ghost c1 = counts@;
    match &v {
        Value::Ptr(p) => {
            counts.increment(p.base);
            proof {
                assert(counts@ =~= cm_inc(c1, p.base));
            }
        },
        _ => {},
    }
    env.set(name, v);
    Ok(())
}

impl Interp {
    /// A machine loaded with a program: no frames, an empty heap, no counts,
    /// not speculating, nothing printed.
    pub fn new(program: Program) -> (r: Interp)
        ensures
            r@ == init_state(program.functions@),
            r.inv(),
    {
        let r = Interp {
            funcs: program.functions,
            frames: Vec::new(),
            heap: Heap::new(),
            counts: Collector::default(),
            checkpoint: None,
            out: Vec::new(),
        };
        proof {
            assert(r@ =~~= init_state(r.funcs@));
        }
        r
    }

    /// The lines printed so far.
    pub fn output(&self) -> (r: &Vec<String>)
        ensures
            r@.map_values(|s: String| s@) == self@.out,
    {
        &self.out
    }

    /// Whether the machine still has an active call.
    pub fn active(&self) -> (r: bool)
        ensures
            r == (self@.frames.len() > 0),
    {
        self.frames.len() > 0
    }

    /// Push the entry frame: resolve the entry function, check the given
    /// arguments against its parameters, and bind them, counting pointer
    /// arguments.
    pub fn start(&mut self, entry: &String, args: Vec<Value>) -> (r: Result<(), InterpError>)
        requires
            old(self).inv(),
            old(self)@.frames.len() == 0,
        ensures
            match spec_start(old(self)@, *entry, args@) {
                Ok(s2) => r is Ok && final(self)@ == s2 && final(self).inv(),
                Err(k) => (match r {
                    Err(e) => e.kind == k && e.pos is None,
                    Ok(_) => false,
                }),
            },
    {
        let ghost s0 = self@;
        match find_func_exec(&self.funcs, entry, 0) {
            None => Err(InterpError { kind: ErrorKind::UnresolvedFunction(entry.clone()), pos: None }),
            Some(fi) => {
                if args.len() != self.funcs[fi].args.len() {
                    return Err(
                        InterpError { kind: ErrorKind::ArgumentCountMismatch, pos: None },
                    );
                }
                self.counts.enter();
                let mut env = Env::new();
                match bind_params_exec(&mut env, &mut self.counts, &self.funcs[fi].args, &args, 0) {
                    Err(k) => Err(InterpError { kind: k, pos: None }),
                    Ok(()) => {
                        self.frames.push(Frame { env, func: fi, pc: 0, ret_dest: None });
                        proof {
                            assert(self@.frames =~= s0.frames.push(self.frames@.last()@));
                            assert(self@ =~~= spec_start(s0, *entry, args@)->Ok_0);
                        }
                        Ok(())
                    },
                }
            },
        }
    }
}


/// The value a literal denotes.
fn lit_to_value(l: &crate::program::Literal) -> (r: Value)
    ensures
        r == lit_value(*l),
{
    match l {
        crate::program::Literal::Int(i) => Value::Int(*i),
        crate::program::Literal::Bool(b) => Value::Bool(*b),
    }
}

/// Whether an address stands among the first `n` reclaimed ones.
spec fn seen(g: Seq<usize>, n: int, b: usize) -> bool {
    exists|j: int| 0 <= j < n && g[j] == b
}

impl Interp {
    /// Release every allocation whose count reached zero at a frame exit,
    /// but never the one being handed back to the caller.
    fn reclaim(&mut self, garbage: &Vec<usize>, keep: Option<usize>, Ghost(g0): Ghost<Set<usize>>)
        requires
            forall|a: usize| #[trigger] garbage@.contains(a) <==> g0.contains(a),
        ensures
            final(self).funcs == old(self).funcs,
            final(self).frames == old(self).frames,
            final(self).counts == old(self).counts,
            final(self).checkpoint == old(self).checkpoint,
            final(self).out == old(self).out,
            final(self).heap@ == cleared(old(self).heap@, g0, keep),
    {
        let ghost h0 = self.heap@;
        let mut i: usize = 0;
        while i < garbage.len()
            invariant
                0 <= i <= garbage@.len(),
                forall|a: usize| #[trigger] garbage@.contains(a) <==> g0.contains(a),
                self.funcs == old(self).funcs,
                self.frames == old(self).frames,
                self.counts == old(self).counts,
                self.checkpoint == old(self).checkpoint,
                self.out == old(self).out,
                h0 == old(self).heap@,
                self.heap@.slots.len() == h0.slots.len(),
                forall|b: int| 0 <= b < h0.slots.len() ==> #[trigger] self.heap@.slots[b] == (
                    if seen(garbage@, i as int, b as usize) && Some(b as usize) != keep {
                        None::<crate::heap::AllocModel>
                    } else {
                        h0.slots[b]
                    }
                ),
            decreases garbage@.len() - i,
        {
            let g = garbage[i];
            let skip = match keep {
                Some(k) => k == g,
                None => false,
            };
            if !skip && g < self.heap.size() {
                self.heap.release(g);
            }
            i += 1;
            proof {
                assert forall|b: usize| #[trigger] seen(garbage@, i as int, b)
                        <==> (seen(garbage@, i as int - 1, b) || b == garbage@[i - 1]) by {
                    if seen(garbage@, i as int, b) && !seen(garbage@, i as int - 1, b) {
                        let j = choose|j: int| 0 <= j < i && garbage@[j] == b;
                        assert(j == i - 1);
                    }
                    if b == garbage@[i - 1] {
                        assert(0 <= i - 1 < i && garbage@[i - 1] == b);
                    }
                    if seen(garbage@, i as int - 1, b) {
                        let j = choose|j: int| 0 <= j < i - 1 && garbage@[j] == b;
                        assert(0 <= j < i && garbage@[j] == b);
                    }
                }
            }
        }
        proof {
            assert forall|b: usize| g0.contains(b)
                    implies #[trigger] seen(garbage@, garbage@.len() as int, b) by {
                assert(garbage@.contains(b));
                let j = choose|j: int| 0 <= j < garbage@.len() && garbage@[j] == b;
            }
            assert forall|b: usize| #[trigger] seen(garbage@, garbage@.len() as int, b)
                    implies g0.contains(b) by {
                let j = choose|j: int| 0 <= j < garbage@.len() && garbage@[j] == b;
                assert(garbage@.contains(b));
            }
            assert(self.heap@ =~= cleared(h0, g0, keep));
        }
    }

    /// Bind a computed value to the instruction's destination in the frame
    /// held aside and put the frame back, standing past the instruction.
    fn do_bind(
        &mut self,
        fr: Frame,
        dest: &String,
        v: Value,
        pos: Option<Position>,
        Ghost(s0): Ghost<StateView>,
    ) -> (r: Result<bool, InterpError>)
        requires
            old(self).mid_inv(fr),
            s0 == old(self).view_with(fr),
            fr.pc < usize::MAX,
        ensures
            (match bind_and_advance(s0, dest@, v, pos) {
                StepRes::Next(s2) => r == Ok::<bool, InterpError>(false) && final(self)@ == s2
                    && final(self).inv(),
                StepRes::Fail(k, p2) => (match r {
                    Err(e) => e.kind == k && e.pos == p2,
                    Ok(_) => false,
                }) && final(self)@.out == s0.out,
                StepRes::Done(_) => false,
            }),
    {
        let mut fr = fr;
        match bind_var(&mut fr.env, &mut self.counts, &mut self.heap, dest, v) {
            Err(k) => Err(InterpError { kind: k, pos: pos }),
            Ok(()) => {
                fr.pc = fr.pc + 1;
                self.frames.push(fr);
                proof {
                    let s2 = bind_and_advance(s0, dest@, v, pos)->Next_0;
                    assert(self@.frames =~= s2.frames);
                    assert(self@ =~= s2);
                }
                Ok(false)
            },
        }
    }

    /// Enter a function: resolve the callee, agree on the declared return
    /// type, evaluate and type-check the arguments, open the frame.
    fn do_call(
        &mut self,
        fr: Frame,
        fnames: &Vec<String>,
        argnames: &Vec<String>,
        dest: Option<(String, Type)>,
        pos: Option<Position>,
        Ghost(s0): Ghost<StateView>,
    ) -> (r: Result<bool, InterpError>)
        requires
            old(self).mid_inv(fr),
            s0 == old(self).view_with(fr),
            fr.pc < usize::MAX,
        ensures
            (match spec_call(s0, fnames@, argnames@, rd_view(dest), pos) {
                StepRes::Next(s2) => r == Ok::<bool, InterpError>(false) && final(self)@ == s2
                    && final(self).inv(),
                StepRes::Fail(k, p2) => (match r {
                    Err(e) => e.kind == k && e.pos == p2,
                    Ok(_) => false,
                }) && final(self)@.out == s0.out,
                StepRes::Done(_) => false,
            }),
    {
        let mut fr = fr;
        if self.checkpoint.is_some() {
            return Err(InterpError { kind: ErrorKind::IllegalDuringSpeculation, pos: pos });
        }
        if fnames.len() != 1 {
            return Err(InterpError { kind: ErrorKind::ArgumentCountMismatch, pos: pos });
        }
        let fi = match find_func_exec(&self.funcs, &fnames[0], 0) {
            None => {
                return Err(
                    InterpError { kind: ErrorKind::UnresolvedFunction(fnames[0].clone()), pos: pos },
                );
            },
            Some(fi) => fi,
        };
        let dest_ok = match (&dest, &self.funcs[fi].return_type) {
            (None, _) => true,
            (Some(d), Some(rt)) => type_eq(rt, &d.1),
            (Some(_), None) => false,
        };
        if !dest_ok {
            return Err(InterpError { kind: ErrorKind::ReturnTypeMismatch, pos: pos });
        }
        if self.frames.len() >= MAX_CALL_DEPTH - 1 {
            return Err(InterpError { kind: ErrorKind::StackExhausted, pos: pos });
        }
        let vals = match eval_args_exec(&fr.env, argnames, 0) {
            Err(k) => {
                return Err(InterpError { kind: k, pos: pos });
            },
            Ok(v) => v,
        };
        if vals.len() != self.funcs[fi].args.len() {
            return Err(InterpError { kind: ErrorKind::ArgumentCountMismatch, pos: pos });
        }
        let ghost c0 = self.counts@;
        self.counts.enter();
        proof {
            assert(self.counts@ =~= cm_enter(c0));
        }
        let mut env2 = Env::new();
        match bind_params_exec(&mut env2, &mut self.counts, &self.funcs[fi].args, &vals, 0) {
            Err(k) => Err(InterpError { kind: k, pos: pos }),
            Ok(()) => {
                fr.pc = fr.pc + 1;
                self.frames.push(fr);
                self.frames.push(Frame { env: env2, func: fi, pc: 0, ret_dest: dest });
                proof {
                    let s2 = spec_call(s0, fnames@, argnames@, rd_view(self.frames@.last().ret_dest), pos)->Next_0;
                    assert(self@.frames =~= s2.frames);
                    assert(self@ =~= s2);
                }
                Ok(false)
            },
        }
    }

    /// Leave the innermost call by the strict three-step protocol: check the
    /// returned value, subtract the frame's deltas from the global counts,
    /// bind the value in the caller, then reclaim what reached zero.
    fn finish_return(
        &mut self,
        fr: Frame,
        val: Option<Value>,
        pos: Option<Position>,
        Ghost(s0): Ghost<StateView>,
    ) -> (r: Result<bool, InterpError>)
        requires
            old(self).mid_inv(fr),
            s0 == old(self).view_with(fr),
        ensures
            (match spec_return(s0, val, pos) {
                StepRes::Next(s2) => r == Ok::<bool, InterpError>(false) && final(self)@ == s2
                    && final(self).inv(),
                StepRes::Done(s2) => r == Ok::<bool, InterpError>(true) && final(self)@ == s2
                    && final(self).inv(),
                StepRes::Fail(k, p2) => (match r {
                    Err(e) => e.kind == k && e.pos == p2,
                    Ok(_) => false,
                }) && final(self)@.out == s0.out,
            }),
    {
        if self.checkpoint.is_some() {
            return Err(InterpError { kind: ErrorKind::IllegalDuringSpeculation, pos: pos });
        }
        let type_err: Option<ErrorKind> = match (&self.funcs[fr.func].return_type, &val) {
            (None, None) => None,
            (None, Some(_)) => Some(ErrorKind::ReturnTypeMismatch),
            (Some(_), None) => Some(ErrorKind::MissingReturnValue),
            (Some(t), Some(v)) => {
                let vt = runtime_type(v);
                if type_eq(&vt, t) {
                    None
                } else {
                    Some(ErrorKind::ReturnTypeMismatch)
                }
            },
        };
        match type_err {
            Some(k) => {
                return Err(InterpError { kind: k, pos: pos });
            },
            None => {},
        }
        let ghost c0 = self.counts@;
        let garbage = self.counts.exeunt();
        proof {
            assert(self.counts@ =~= cm_exeunt(c0));
            assert forall|a: usize| #[trigger] garbage@.contains(a)
                    <==> garbage_set(c0).contains(a) by {
                assert(garbage@.contains(a) <==> (c0.total.dom().contains(a)
                    && c0.total_of(a) - #[trigger] c0.delta_of(a) == 0));
                assert(garbage_set(c0).contains(a) == (c0.total.dom().contains(a)
                    && c0.total_of(a) - c0.delta_of(a) == 0));
            }
        }
        let rd = fr.ret_dest;
        if self.frames.len() == 0 {
            self.reclaim(&garbage, None, Ghost(garbage_set(c0)));
            proof {
                let s2 = spec_return(s0, val, pos)->Done_0;
                assert(self@.frames =~= s2.frames);
                assert(self@ =~= s2);
            }
            Ok(true)
        } else {
            match rd {
                None => {
                    self.reclaim(&garbage, None, Ghost(garbage_set(c0)));
                    proof {
                        let s2 = spec_return(s0, val, pos)->Next_0;
                        assert(self@.frames =~= s2.frames);
                        assert(self@ =~= s2);
                    }
                    Ok(false)
                },
                Some(d) => {
                    let name = d.0;
                    let t = d.1;
                    let v = match val {
                        Some(v) => v,
                        None => {
                            return Err(
                                InterpError { kind: ErrorKind::MissingReturnValue, pos: pos },
                            );
                        },
                    };
                    let vt = runtime_type(&v);
                    if !type_eq(&vt, &t) {
                        return Err(InterpError { kind: ErrorKind::ReturnTypeMismatch, pos: pos });
                    }
                    let keep: Option<usize> = match &v {
                        Value::Ptr(p) => Some(p.base),
                        _ => None,
                    };
                    let mut caller = self.frames.pop().unwrap();
                    match bind_var(&mut caller.env, &mut self.counts, &mut self.heap, &name, v) {
                        Err(k) => {
                            return Err(InterpError { kind: k, pos: pos });
                        },
                        Ok(()) => {},
                    }
                    self.frames.push(caller);
                    self.reclaim(&garbage, keep, Ghost(garbage_set(c0)));
                    proof {
                        let s2 = spec_return(s0, val, pos)->Next_0;
                        assert(self@.frames =~= s2.frames);
                        assert(self@ =~= s2);
                    }
                    Ok(false)
                },
            }
        }
    }

    /// Execute the instruction at the innermost frame's position; past the
    /// last instruction, return implicitly with no value. Returns whether
    /// the outermost call has now returned. The machine takes exactly the
    /// step that [`spec_step`] describes.
    pub fn step(&mut self) -> (r: Result<bool, InterpError>)
        requires
            old(self).inv(),
            old(self)@.frames.len() > 0,
        ensures
            (match spec_step(old(self)@) {
                StepRes::Next(s2) => r == Ok::<bool, InterpError>(false) && final(self)@ == s2
                    && final(self).inv(),
                StepRes::Done(s2) => r == Ok::<bool, InterpError>(true) && final(self)@ == s2
                    && final(self).inv(),
                StepRes::Fail(k, p) => (match r {
                    Err(e) => e.kind == k && e.pos == p,
                    Ok(_) => false,
                }) && final(self)@.out == old(self)@.out,
            }),
    {
        let ghost s0 = self@;
        let mut fr = self.frames.pop().unwrap();
        proof {
            assert(fr@ == s0.frames.last());
            assert(self.frames@.map_values(|f: Frame| f@) =~= s0.frames.drop_last());
            assert(s0 =~= self.view_with(fr));
            assert(self.mid_inv(fr));
        }
        let fidx = fr.func;
        let pc = fr.pc;
        if pc >= self.funcs[fidx].instrs.len() {
            return self.finish_return(fr, None, None, Ghost(s0));
        }
        match &self.funcs[fidx].instrs[pc] {
            Code::Label { label, pos } => {
                fr.pc = pc + 1;
                self.frames.push(fr);
                proof {
                    let s2 = spec_step(s0)->Next_0;
                    assert(self@.frames =~= s2.frames);
                    assert(self@ =~= s2);
                }
                Ok(false)
            },
            Code::Instruction(ins) => match ins {
                Instruction::Constant { dest, op, pos, const_type, value } => {
                    let dest = dest.clone();
                    let pos = *pos;
                    let ct = clone_type(const_type);
                    let lit = clone_literal(value);
                    let v = lit_to_value(&lit);
                    let vt = runtime_type(&v);
                    if !type_eq(&vt, &ct) {
                        return Err(InterpError { kind: ErrorKind::ArgumentTypeMismatch, pos: pos });
                    }
                    self.do_bind(fr, &dest, v, pos, Ghost(s0))
                },
                Instruction::Value { args, dest, funcs: fns, labels, op, pos, op_type } => {
                    let op = *op;
                    let pos = *pos;
                    match op {
                        ValueOps::Add | ValueOps::Sub | ValueOps::Mul | ValueOps::Div => {
                            if args.len() != 2 {
                                return Err(InterpError { kind: ErrorKind::ArgumentCountMismatch, pos: pos });
                            }
                            let dest = dest.clone();
                            let ot = clone_type(op_type);
                            let va = match get_val(&fr.env, &args[0]) {
                                None => {
                                    return Err(InterpError { kind: ErrorKind::UnboundVariable(args[0].clone()), pos: pos });
                                },
                                Some(v) => v,
                            };
                            let vb = match get_val(&fr.env, &args[1]) {
                                None => {
                                    return Err(InterpError { kind: ErrorKind::UnboundVariable(args[1].clone()), pos: pos });
                                },
                                Some(v) => v,
                            };
                            let xy = match (va, vb) {
                                (Value::Int(x), Value::Int(y)) => (x, y),
                                _ => {
                                    return Err(InterpError { kind: ErrorKind::ArgumentTypeMismatch, pos: pos });
                                },
                            };
                            let x = xy.0;
                            let y = xy.1;
                            if !type_eq(&ot, &Type::Int) {
                                return Err(InterpError { kind: ErrorKind::ArgumentTypeMismatch, pos: pos });
                            }
                            if op == ValueOps::Div && y == 0 {
                                return Err(InterpError { kind: ErrorKind::DivisionByZero, pos: pos });
                            }
                            let v: i64 = match op {
                                ValueOps::Add => x.wrapping_add(y),
                                ValueOps::Sub => x.wrapping_sub(y),
                                ValueOps::Mul => x.wrapping_mul(y),
                                _ => div64(x, y),
                            };
                            self.do_bind(fr, &dest, Value::Int(v), pos, Ghost(s0))
                        },
                        ValueOps::Eq | ValueOps::Lt | ValueOps::Gt | ValueOps::Le | ValueOps::Ge => {
                            if args.len() != 2 {
                                return Err(InterpError { kind: ErrorKind::ArgumentCountMismatch, pos: pos });
                            }
                            let dest = dest.clone();
                            let ot = clone_type(op_type);
                            let va = match get_val(&fr.env, &args[0]) {
                                None => {
                                    return Err(InterpError { kind: ErrorKind::UnboundVariable(args[0].clone()), pos: pos });
                                },
                                Some(v) => v,
                            };
                            let vb = match get_val(&fr.env, &args[1]) {
                                None => {
                                    return Err(InterpError { kind: ErrorKind::UnboundVariable(args[1].clone()), pos: pos });
                                },
                                Some(v) => v,
                            };
                            let xy = match (va, vb) {
                                (Value::Int(x), Value::Int(y)) => (x, y),
                                _ => {
                                    return Err(InterpError { kind: ErrorKind::ArgumentTypeMismatch, pos: pos });
                                },
                            };
                            let x = xy.0;
                            let y = xy.1;
                            if !type_eq(&ot, &Type::Bool) {
                                return Err(InterpError { kind: ErrorKind::ArgumentTypeMismatch, pos: pos });
                            }
                            let v: bool = match op {
                                ValueOps::Eq => x == y,
                                ValueOps::Lt => x < y,
                                ValueOps::Gt => x > y,
                                ValueOps::Le => x <= y,
                                _ => x >= y,
                            };
                            self.do_bind(fr, &dest, Value::Bool(v), pos, Ghost(s0))
                        },
                        ValueOps::Not => {
                            if args.len() != 1 {
                                return Err(InterpError { kind: ErrorKind::ArgumentCountMismatch, pos: pos });
                            }
                            let dest = dest.clone();
                            let ot = clone_type(op_type);
                            let va = match get_val(&fr.env, &args[0]) {
                                None => {
                                    return Err(InterpError { kind: ErrorKind::UnboundVariable(args[0].clone()), pos: pos });
                                },
                                Some(v) => v,
                            };
                            let x = match va {
                                Value::Bool(x) => x,
                                _ => {
                                    return Err(InterpError { kind: ErrorKind::ArgumentTypeMismatch, pos: pos });
                                },
                            };
                            if !type_eq(&ot, &Type::Bool) {
                                return Err(InterpError { kind: ErrorKind::ArgumentTypeMismatch, pos: pos });
                            }
                            self.do_bind(fr, &dest, Value::Bool(!x), pos, Ghost(s0))
                        },
                        ValueOps::And | ValueOps::Or => {
                            if args.len() != 2 {
                                return Err(InterpError { kind: ErrorKind::ArgumentCountMismatch, pos: pos });
                            }
                            let dest = dest.clone();
                            let ot = clone_type(op_type);
                            let va = match get_val(&fr.env, &args[0]) {
                                None => {
                                    return Err(InterpError { kind: ErrorKind::UnboundVariable(args[0].clone()), pos: pos });
                                },
                                Some(v) => v,
                            };
                            let vb = match get_val(&fr.env, &args[1]) {
                                None => {
                                    return Err(InterpError { kind: ErrorKind::UnboundVariable(args[1].clone()), pos: pos });
                                },
                                Some(v) => v,
                            };
                            let xy = match (va, vb) {
                                (Value::Bool(x), Value::Bool(y)) => (x, y),
                                _ => {
                                    return Err(InterpError { kind: ErrorKind::ArgumentTypeMismatch, pos: pos });
                                },
                            };
                            let x = xy.0;
                            let y = xy.1;
                            if !type_eq(&ot, &Type::Bool) {
                                return Err(InterpError { kind: ErrorKind::ArgumentTypeMismatch, pos: pos });
                            }
                            let v: bool = if op == ValueOps::And {
                                x && y
                            } else {
                                x || y
                            };
                            self.do_bind(fr, &dest, Value::Bool(v), pos, Ghost(s0))
                        },
                        ValueOps::Id => {
                            if args.len() != 1 {
                                return Err(InterpError { kind: ErrorKind::ArgumentCountMismatch, pos: pos });
                            }
                            let dest = dest.clone();
                            let ot = clone_type(op_type);
                            let va = match get_val(&fr.env, &args[0]) {
                                None => {
                                    return Err(InterpError { kind: ErrorKind::UnboundVariable(args[0].clone()), pos: pos });
                                },
                                Some(v) => v,
                            };
                            let vt = runtime_type(&va);
                            if !type_eq(&vt, &ot) {
                                return Err(InterpError { kind: ErrorKind::ArgumentTypeMismatch, pos: pos });
                            }
                            self.do_bind(fr, &dest, va, pos, Ghost(s0))
                        },
                        ValueOps::Call => {
                            let dest = dest.clone();
                            let ot = clone_type(op_type);
                            let fnames = crate::program::clone_names(fns);
                            let argnames = crate::program::clone_names(args);
                            self.do_call(fr, &fnames, &argnames, Some((dest, ot)), pos, Ghost(s0))
                        },
                        ValueOps::Alloc => {
                            if args.len() != 1 {
                                return Err(InterpError { kind: ErrorKind::ArgumentCountMismatch, pos: pos });
                            }
                            let dest = dest.clone();
                            let ot = clone_type(op_type);
                            let va = match get_val(&fr.env, &args[0]) {
                                None => {
                                    return Err(InterpError { kind: ErrorKind::UnboundVariable(args[0].clone()), pos: pos });
                                },
                                Some(v) => v,
                            };
                            let n = match va {
                                Value::Int(n) => n,
                                _ => {
                                    return Err(InterpError { kind: ErrorKind::ArgumentTypeMismatch, pos: pos });
                                },
                            };
                            let e: Type = match ot {
                                Type::Pointer(e) => *e,
                                _ => {
                                    return Err(InterpError { kind: ErrorKind::ArgumentTypeMismatch, pos: pos });
                                },
                            };
                            if n < 0 {
                                return Err(InterpError { kind: ErrorKind::BadAllocationSize, pos: pos });
                            }
                            if n as u64 > usize::MAX as u64 {
                                return Err(InterpError { kind: ErrorKind::BadAllocationSize, pos: pos });
                            }
                            let nus = n as usize;
                            let base = self.heap.allocate(nus, clone_type(&e));
                            let v = Value::Ptr(Pointer { base: base, offset: 0, elem: e });
                            let ghost s1 = StateView { heap: self.heap@, ..s0 };
                            proof {
                                assert(s1 =~= self.view_with(fr));
                            }
                            self.do_bind(fr, &dest, v, pos, Ghost(s1))
                        },
                        ValueOps::Load => {
                            if args.len() != 1 {
                                return Err(InterpError { kind: ErrorKind::ArgumentCountMismatch, pos: pos });
                            }
                            let dest = dest.clone();
                            let ot = clone_type(op_type);
                            let va = match get_val(&fr.env, &args[0]) {
                                None => {
                                    return Err(InterpError { kind: ErrorKind::UnboundVariable(args[0].clone()), pos: pos });
                                },
                                Some(v) => v,
                            };
                            let p = match va {
                                Value::Ptr(p) => p,
                                _ => {
                                    return Err(InterpError { kind: ErrorKind::ArgumentTypeMismatch, pos: pos });
                                },
                            };
                            if !self.heap.is_live(p.base) {
                                return Err(InterpError { kind: ErrorKind::InvalidPointer, pos: pos });
                            }
                            let len = self.heap.len_of(p.base);
                            if p.offset < 0 {
                                return Err(InterpError { kind: ErrorKind::OutOfBounds, pos: pos });
                            }
                            if p.offset as u64 >= len as u64 {
                                return Err(InterpError { kind: ErrorKind::OutOfBounds, pos: pos });
                            }
                            let v = match self.heap.read(p.base, p.offset as usize) {
                                None => {
                                    return Err(InterpError { kind: ErrorKind::UninitializedLoad, pos: pos });
                                },
                                Some(v) => v,
                            };
                            let vt = runtime_type(&v);
                            if !type_eq(&vt, &ot) {
                                return Err(InterpError { kind: ErrorKind::ArgumentTypeMismatch, pos: pos });
                            }
                            self.do_bind(fr, &dest, v, pos, Ghost(s0))
                        },
                        ValueOps::PtrAdd => {
                            if args.len() != 2 {
                                return Err(InterpError { kind: ErrorKind::ArgumentCountMismatch, pos: pos });
                            }
                            let dest = dest.clone();
                            let ot = clone_type(op_type);
                            let va = match get_val(&fr.env, &args[0]) {
                                None => {
                                    return Err(InterpError { kind: ErrorKind::UnboundVariable(args[0].clone()), pos: pos });
                                },
                                Some(v) => v,
                            };
                            let vb = match get_val(&fr.env, &args[1]) {
                                None => {
                                    return Err(InterpError { kind: ErrorKind::UnboundVariable(args[1].clone()), pos: pos });
                                },
                                Some(v) => v,
                            };
                            let pk = match (va, vb) {
                                (Value::Ptr(p), Value::Int(k)) => (p, k),
                                _ => {
                                    return Err(InterpError { kind: ErrorKind::ArgumentTypeMismatch, pos: pos });
                                },
                            };
                            let p = pk.0;
                            let k = pk.1;
                            if !self.heap.is_live(p.base) {
                                return Err(InterpError { kind: ErrorKind::InvalidPointer, pos: pos });
                            }
                            let v = Value::Ptr(
                                Pointer { base: p.base, offset: p.offset.wrapping_add(k), elem: p.elem },
                            );
                            let vt = runtime_type(&v);
                            if !type_eq(&vt, &ot) {
                                return Err(InterpError { kind: ErrorKind::ArgumentTypeMismatch, pos: pos });
                            }
                            self.do_bind(fr, &dest, v, pos, Ghost(s0))
                        },
                    }
                },
                Instruction::Effect { args, funcs: fns, labels, op, pos } => {
                    let op = *op;
                    let pos = *pos;
                    match op {
                        EffectOps::Jump => {
                            if labels.len() != 1 {
                                return Err(InterpError { kind: ErrorKind::ArgumentCountMismatch, pos: pos });
                            }
                            let lbl = labels[0].clone();
                            let t = match find_label_exec(&self.funcs[fidx].instrs, &lbl, 0) {
                                None => {
                                    return Err(InterpError { kind: ErrorKind::UnresolvedLabel(lbl), pos: pos });
                                },
                                Some(t) => t,
                            };
                            fr.pc = t;
                            self.frames.push(fr);
                            proof {
                                let s2 = spec_step(s0)->Next_0;
                                assert(self@.frames =~= s2.frames);
                                assert(self@ =~= s2);
                            }
                            Ok(false)
                        },
                        EffectOps::Branch => {
                            if args.len() != 1 || labels.len() != 2 {
                                return Err(InterpError { kind: ErrorKind::ArgumentCountMismatch, pos: pos });
                            }
                            let va = match get_val(&fr.env, &args[0]) {
                                None => {
                                    return Err(InterpError { kind: ErrorKind::UnboundVariable(args[0].clone()), pos: pos });
                                },
                                Some(v) => v,
                            };
                            let b = match va {
                                Value::Bool(b) => b,
                                _ => {
                                    return Err(InterpError { kind: ErrorKind::ArgumentTypeMismatch, pos: pos });
                                },
                            };
                            let lbl = if b {
                                labels[0].clone()
                            } else {
                                labels[1].clone()
                            };
                            let t = match find_label_exec(&self.funcs[fidx].instrs, &lbl, 0) {
                                None => {
                                    return Err(InterpError { kind: ErrorKind::UnresolvedLabel(lbl), pos: pos });
                                },
                                Some(t) => t,
                            };
                            fr.pc = t;
                            self.frames.push(fr);
                            proof {
                                let s2 = spec_step(s0)->Next_0;
                                assert(self@.frames =~= s2.frames);
                                assert(self@ =~= s2);
                            }
                            Ok(false)
                        },
                        EffectOps::Call => {
                            let fnames = crate::program::clone_names(fns);
                            let argnames = crate::program::clone_names(args);
                            self.do_call(fr, &fnames, &argnames, None, pos, Ghost(s0))
                        },
                        EffectOps::Return => {
                            if args.len() == 0 {
                                self.finish_return(fr, None, pos, Ghost(s0))
                            } else if args.len() == 1 {
                                let va = match get_val(&fr.env, &args[0]) {
                                    None => {
                                        return Err(InterpError { kind: ErrorKind::UnboundVariable(args[0].clone()), pos: pos });
                                    },
                                    Some(v) => v,
                                };
                                self.finish_return(fr, Some(va), pos, Ghost(s0))
                            } else {
                                Err(InterpError { kind: ErrorKind::ArgumentCountMismatch, pos: pos })
                            }
                        },
                        EffectOps::Print => {
                            let line = match print_line_exec(&fr.env, args, 0) {
                                Err(k) => {
                                    return Err(InterpError { kind: k, pos: pos });
                                },
                                Ok(line) => line,
                            };
                            let sline = chars_to_string(&line);
                            self.out.push(sline);
                            fr.pc = pc + 1;
                            self.frames.push(fr);
                            proof {
                                let s2 = spec_step(s0)->Next_0;
                                assert(self@.frames =~= s2.frames);
                                assert(self@.out =~= s2.out);
                                assert(self@ =~= s2);
                            }
                            Ok(false)
                        },
                        EffectOps::Nop => {
                            fr.pc = pc + 1;
                            self.frames.push(fr);
                            proof {
                                let s2 = spec_step(s0)->Next_0;
                                assert(self@.frames =~= s2.frames);
                                assert(self@ =~= s2);
                            }
                            Ok(false)
                        },
                        EffectOps::Store => {
                            if args.len() != 2 {
                                return Err(InterpError { kind: ErrorKind::ArgumentCountMismatch, pos: pos });
                            }
                            let va = match get_val(&fr.env, &args[0]) {
                                None => {
                                    return Err(InterpError { kind: ErrorKind::UnboundVariable(args[0].clone()), pos: pos });
                                },
                                Some(v) => v,
                            };
                            let vb = match get_val(&fr.env, &args[1]) {
                                None => {
                                    return Err(InterpError { kind: ErrorKind::UnboundVariable(args[1].clone()), pos: pos });
                                },
                                Some(v) => v,
                            };
                            let p = match va {
                                Value::Ptr(p) => p,
                                _ => {
                                    return Err(InterpError { kind: ErrorKind::ArgumentTypeMismatch, pos: pos });
                                },
                            };
                            if !self.heap.is_live(p.base) {
                                return Err(InterpError { kind: ErrorKind::InvalidPointer, pos: pos });
                            }
                            let len = self.heap.len_of(p.base);
                            if p.offset < 0 {
                                return Err(InterpError { kind: ErrorKind::OutOfBounds, pos: pos });
                            }
                            if p.offset as u64 >= len as u64 {
                                return Err(InterpError { kind: ErrorKind::OutOfBounds, pos: pos });
                            }
                            let vt = runtime_type(&vb);
                            if !type_eq(&vt, &p.elem) {
                                return Err(InterpError { kind: ErrorKind::ArgumentTypeMismatch, pos: pos });
                            }
                            self.heap.write(p.base, p.offset as usize, vb);
                            fr.pc = pc + 1;
                            self.frames.push(fr);
                            proof {
                                let s2 = spec_step(s0)->Next_0;
                                assert(self@.frames =~= s2.frames);
                                assert(self@.heap =~= s2.heap);
                                assert(self@ =~= s2);
                            }
                            Ok(false)
                        },
                        EffectOps::Free => {
                            if args.len() != 1 {
                                return Err(InterpError { kind: ErrorKind::ArgumentCountMismatch, pos: pos });
                            }
                            let va = match get_val(&fr.env, &args[0]) {
                                None => {
                                    return Err(InterpError { kind: ErrorKind::UnboundVariable(args[0].clone()), pos: pos });
                                },
                                Some(v) => v,
                            };
                            let p = match va {
                                Value::Ptr(p) => p,
                                _ => {
                                    return Err(InterpError { kind: ErrorKind::ArgumentTypeMismatch, pos: pos });
                                },
                            };
                            if p.offset != 0 {
                                return Err(InterpError { kind: ErrorKind::InvalidPointer, pos: pos });
                            }
                            if !self.heap.is_live(p.base) {
                                return Err(InterpError { kind: ErrorKind::DoubleFree, pos: pos });
                            }
                            self.heap.release(p.base);
                            fr.pc = pc + 1;
                            self.frames.push(fr);
                            proof {
                                let s2 = spec_step(s0)->Next_0;
                                assert(self@.frames =~= s2.frames);
                                assert(self@.heap =~= s2.heap);
                                assert(self@ =~= s2);
                            }
                            Ok(false)
                        },
                        EffectOps::Speculate => {
                            if self.checkpoint.is_some() {
                                return Err(InterpError { kind: ErrorKind::NestedSpeculation, pos: pos });
                            }
                            let cp = Checkpoint {
                                env: fr.env.duplicate(),
                                counts: self.counts.duplicate(),
                                heap: self.heap.duplicate(),
                            };
                            self.checkpoint = Some(cp);
                            fr.pc = pc + 1;
                            self.frames.push(fr);
                            proof {
                                let s2 = spec_step(s0)->Next_0;
                                assert(self@.frames =~= s2.frames);
                                assert(self@ =~= s2);
                            }
                            Ok(false)
                        },
                        EffectOps::Commit => {
                            if self.checkpoint.is_none() {
                                return Err(InterpError { kind: ErrorKind::NotSpeculating, pos: pos });
                            }
                            self.checkpoint = None;
                            fr.pc = pc + 1;
                            self.frames.push(fr);
                            proof {
                                let s2 = spec_step(s0)->Next_0;
                                assert(self@.frames =~= s2.frames);
                                assert(self@ =~= s2);
                            }
                            Ok(false)
                        },
                        EffectOps::Guard => {
                            if self.checkpoint.is_none() {
                                return Err(InterpError { kind: ErrorKind::NotSpeculating, pos: pos });
                            }
                            if args.len() != 1 || labels.len() != 1 {
                                return Err(InterpError { kind: ErrorKind::ArgumentCountMismatch, pos: pos });
                            }
                            let va = match get_val(&fr.env, &args[0]) {
                                None => {
                                    return Err(InterpError { kind: ErrorKind::UnboundVariable(args[0].clone()), pos: pos });
                                },
                                Some(v) => v,
                            };
                            let b = match va {
                                Value::Bool(b) => b,
                                _ => {
                                    return Err(InterpError { kind: ErrorKind::ArgumentTypeMismatch, pos: pos });
                                },
                            };
                            if b {
                                fr.pc = pc + 1;
                                self.frames.push(fr);
                                proof {
                                    let s2 = spec_step(s0)->Next_0;
                                    assert(self@.frames =~= s2.frames);
                                    assert(self@ =~= s2);
                                }
                                Ok(false)
                            } else {
                                let lbl = labels[0].clone();
                                let t = match find_label_exec(&self.funcs[fidx].instrs, &lbl, 0) {
                                    None => {
                                        return Err(InterpError { kind: ErrorKind::UnresolvedLabel(lbl), pos: pos });
                                    },
                                    Some(t) => t,
                                };
                                let mut cpo: Option<Checkpoint> = None;
                                std::mem::swap(&mut cpo, &mut self.checkpoint);
                                let cp = match cpo {
                                    Some(cp) => cp,
                                    None => vstd::pervasive::unreached(),
                                };
                                fr.env = cp.env;
                                self.counts = cp.counts;
                                self.heap = cp.heap;
                                fr.pc = t;
                                self.frames.push(fr);
                                proof {
                                    let s2 = spec_step(s0)->Next_0;
                                    assert(self@.frames =~= s2.frames);
                                    assert(self@ =~= s2);
                                }
                                Ok(false)
                            }
                        },
                    }
                },
            },
        }
    }

    /// Run for at most `fuel` steps. `Ok(true)` means the outermost call
    /// returned; `Ok(false)` means the step bound ran out first; an error is
    /// fatal and final.
    pub fn run(&mut self, fuel: u64) -> (r: Result<bool, InterpError>)
        requires
            old(self).inv(),
        ensures
            (match spec_run(old(self)@, fuel as nat) {
                RunRes::Finished(s2) => r == Ok::<bool, InterpError>(true) && final(self)@ == s2,
                RunRes::OutOfFuel(s2) => r == Ok::<bool, InterpError>(false) && final(self)@
                    == s2,
                RunRes::Failed(k, p, o) => (match r {
                    Err(e) => e.kind == k && e.pos == p,
                    Ok(_) => false,
                }) && final(self)@.out == o,
            }),
    {
        let ghost start_view = self@;
        let ghost fuel0 = fuel as nat;
        let mut left: u64 = fuel;
        while self.active() && left > 0
            invariant
                self.inv(),
                left <= fuel,
                start_view == old(self)@,
                fuel0 == fuel as nat,
                spec_run(start_view, fuel0) == spec_run(self@, left as nat),
            decreases left,
        {
            let res = self.step();
            match res {
                Err(e) => {
                    return Err(e);
                },
                Ok(true) => {
                    return Ok(true);
                },
                Ok(false) => {
                    left = left - 1;
                },
            }
        }
        if self.active() {
            Ok(false)
        } else {
            Ok(true)
        }
    }
}

/// Load a program, enter the named function with the given argument values,
/// and run to completion within the step bound. Returns the run's outcome
/// and everything it printed.
pub fn run_program(program: Program, entry: &String, args: Vec<Value>, fuel: u64) -> (r: (
    Result<bool, InterpError>,
    Vec<String>,
))
    ensures
        (match spec_start(init_state(program.functions@), *entry, args@) {
            Err(k) => (match r.0 {
                Err(e) => e.kind == k && e.pos is None,
                Ok(_) => false,
            }),
            Ok(s1) => (match spec_run(s1, fuel as nat) {
                RunRes::Finished(s2) => r.0 == Ok::<bool, InterpError>(true)
                    && r.1@.map_values(|s: String| s@) == s2.out,
                RunRes::OutOfFuel(s2) => r.0 == Ok::<bool, InterpError>(false)
                    && r.1@.map_values(|s: String| s@) == s2.out,
                RunRes::Failed(k, p, o) => (match r.0 {
                    Err(e) => e.kind == k && e.pos == p,
                    Ok(_) => false,
                }) && r.1@.map_values(|s: String| s@) == o,
            }),
        }),
{
    let mut machine = Interp::new(program);
    match machine.start(entry, args) {
        Err(e) => {
            let empty: Vec<String> = Vec::new();
            proof {
                assert(empty@.map_values(|s: String| s@) =~= Seq::<Seq<char>>::empty());
            }
            (Err(e), empty)
        },
        Ok(()) => {
            let res = machine.run(fuel);
            let out = machine.out;
            (res, out)
        },
    }
}

} // verus!
