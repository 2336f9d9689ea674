use brilirs::collector::Collector;
use brilirs::extensions::Extensions;
use brilirs::extensions::validate;
use brilirs::interp::run_program;
use brilirs::program::Argument;
use brilirs::program::Code;
use brilirs::program::ConstOps;
use brilirs::program::EffectOps;
use brilirs::program::Function;
use brilirs::program::Instruction;
use brilirs::program::Literal;
use brilirs::program::Program;
use brilirs::program::Type;
use brilirs::semantics::ErrorKind;
use brilirs::semantics::InterpError;
use brilirs::program::ValueOps;
use brilirs::values::Value;

const FUEL: u64 = 1_000_000;

fn konst(dest: &str, t: Type, v: Literal) -> Code {
    Code::Instruction(Instruction::Constant {
        dest: dest.to_string(),
        op: ConstOps::Const,
        pos: None,
        const_type: t,
        value: v,
    })
}

fn val_op(dest: &str, t: Type, op: ValueOps, args: &[&str]) -> Code {
    Code::Instruction(Instruction::Value {
        args: args.iter().map(|s| s.to_string()).collect(),
        dest: dest.to_string(),
        funcs: vec![],
        labels: vec![],
        op,
        pos: None,
        op_type: t,
    })
}

fn call_op(dest: &str, t: Type, func: &str, args: &[&str]) -> Code {
    Code::Instruction(Instruction::Value {
        args: args.iter().map(|s| s.to_string()).collect(),
        dest: dest.to_string(),
        funcs: vec![func.to_string()],
        labels: vec![],
        op: ValueOps::Call,
        pos: None,
        op_type: t,
    })
}

fn effect(op: EffectOps, args: &[&str], funcs: &[&str], labels: &[&str]) -> Code {
    Code::Instruction(Instruction::Effect {
        args: args.iter().map(|s| s.to_string()).collect(),
        funcs: funcs.iter().map(|s| s.to_string()).collect(),
        labels: labels.iter().map(|s| s.to_string()).collect(),
        op,
        pos: None,
    })
}

fn label(name: &str) -> Code {
    Code::Label { label: name.to_string(), pos: None }
}

fn func(name: &str, args: Vec<Argument>, ret: Option<Type>, instrs: Vec<Code>) -> Function {
    Function { args, instrs, name: name.to_string(), pos: None, return_type: ret }
}

fn run_main(functions: Vec<Function>) -> (Result<bool, InterpError>, Vec<String>) {
    run_program(Program { functions }, &"main".to_string(), vec![], FUEL)
}

fn int_arg(name: &str) -> Argument {
    Argument { name: name.to_string(), arg_type: Type::Int }
}

fn ptr_int() -> Type {
    Type::Pointer(Box::new(Type::Int))
}

#[test]
fn prints_constants_and_arithmetic() {
    let main = func(
        "main",
        vec![],
        None,
        vec![
            konst("a", Type::Int, Literal::Int(20)),
            konst("b", Type::Int, Literal::Int(22)),
            val_op("c", Type::Int, ValueOps::Add, &["a", "b"]),
            effect(EffectOps::Print, &["c"], &[], &[]),
            val_op("d", Type::Int, ValueOps::Mul, &["a", "b"]),
            effect(EffectOps::Print, &["d"], &[], &[]),
            val_op("e", Type::Int, ValueOps::Sub, &["a", "b"]),
            effect(EffectOps::Print, &["e"], &[], &[]),
        ],
    );
    let (r, out) = run_main(vec![main]);
    assert!(matches!(r, Ok(true)));
    assert_eq!(out, vec!["42".to_string(), "440".to_string(), "-2".to_string()]);
}

#[test]
fn division_truncates_toward_zero() {
    let main = func(
        "main",
        vec![],
        None,
        vec![
            konst("a", Type::Int, Literal::Int(-7)),
            konst("b", Type::Int, Literal::Int(2)),
            val_op("c", Type::Int, ValueOps::Div, &["a", "b"]),
            effect(EffectOps::Print, &["c"], &[], &[]),
            konst("m", Type::Int, Literal::Int(i64::MIN)),
            konst("n", Type::Int, Literal::Int(-1)),
            val_op("w", Type::Int, ValueOps::Div, &["m", "n"]),
            effect(EffectOps::Print, &["w"], &[], &[]),
        ],
    );
    let (r, out) = run_main(vec![main]);
    assert!(matches!(r, Ok(true)));
    assert_eq!(out, vec!["-3".to_string(), i64::MIN.to_string()]);
}

#[test]
fn division_by_zero_halts_before_later_instructions() {
    let main = func(
        "main",
        vec![],
        None,
        vec![
            konst("x", Type::Int, Literal::Int(4)),
            konst("y", Type::Int, Literal::Int(0)),
            val_op("z", Type::Int, ValueOps::Div, &["x", "y"]),
            effect(EffectOps::Print, &["x"], &[], &[]),
        ],
    );
    let (r, out) = run_main(vec![main]);
    match r {
        Err(e) => assert!(matches!(e.kind, ErrorKind::DivisionByZero)),
        Ok(_) => panic!("expected a division-by-zero error"),
    }
    assert!(out.is_empty());
}

#[test]
fn branch_on_unbound_condition_is_fatal() {
    let main = func(
        "main",
        vec![],
        None,
        vec![
            effect(EffectOps::Branch, &["cond"], &[], &["then", "else"]),
            label("then"),
            label("else"),
        ],
    );
    let (r, out) = run_main(vec![main]);
    match r {
        Err(e) => match e.kind {
            ErrorKind::UnboundVariable(name) => assert_eq!(name, "cond"),
            _ => panic!("expected an unbound-variable error"),
        },
        Ok(_) => panic!("expected an unbound-variable error"),
    }
    assert!(out.is_empty());
}

#[test]
fn jumps_and_branches_follow_labels() {
    let main = func(
        "main",
        vec![],
        None,
        vec![
            konst("t", Type::Bool, Literal::Bool(true)),
            effect(EffectOps::Branch, &["t"], &[], &["yes", "no"]),
            label("no"),
            konst("a", Type::Int, Literal::Int(0)),
            effect(EffectOps::Print, &["a"], &[], &[]),
            effect(EffectOps::Jump, &[], &[], &["end"]),
            label("yes"),
            konst("b", Type::Int, Literal::Int(1)),
            effect(EffectOps::Print, &["b"], &[], &[]),
            label("end"),
            val_op("c", Type::Bool, ValueOps::Eq, &["b", "b"]),
            effect(EffectOps::Print, &["c"], &[], &[]),
        ],
    );
    let (r, out) = run_main(vec![main]);
    assert!(matches!(r, Ok(true)));
    assert_eq!(out, vec!["1".to_string(), "true".to_string()]);
}

#[test]
fn interpreting_twice_gives_identical_output() {
    let build = || {
        func(
            "main",
            vec![],
            None,
            vec![
                konst("i", Type::Int, Literal::Int(0)),
                konst("one", Type::Int, Literal::Int(1)),
                konst("stop", Type::Int, Literal::Int(5)),
                label("loop"),
                effect(EffectOps::Print, &["i"], &[], &[]),
                val_op("i", Type::Int, ValueOps::Add, &["i", "one"]),
                val_op("go", Type::Bool, ValueOps::Lt, &["i", "stop"]),
                effect(EffectOps::Branch, &["go"], &[], &["loop", "end"]),
                label("end"),
            ],
        )
    };
    let (r1, out1) = run_main(vec![build()]);
    let (r2, out2) = run_main(vec![build()]);
    assert!(matches!(r1, Ok(true)));
    assert!(matches!(r2, Ok(true)));
    assert_eq!(out1, out2);
    assert_eq!(out1, vec!["0", "1", "2", "3", "4"].iter().map(|s| s.to_string()).collect::<Vec<_>>());
}

#[test]
fn call_passes_arguments_and_binds_result() {
    let double = func(
        "double",
        vec![int_arg("x")],
        Some(Type::Int),
        vec![
            val_op("y", Type::Int, ValueOps::Add, &["x", "x"]),
            effect(EffectOps::Return, &["y"], &[], &[]),
        ],
    );
    let main = func(
        "main",
        vec![],
        None,
        vec![
            konst("n", Type::Int, Literal::Int(21)),
            call_op("m", Type::Int, "double", &["n"]),
            effect(EffectOps::Print, &["m"], &[], &[]),
        ],
    );
    let (r, out) = run_main(vec![main, double]);
    assert!(matches!(r, Ok(true)));
    assert_eq!(out, vec!["42".to_string()]);
}

#[test]
fn callee_exit_keeps_allocation_held_by_caller() {
    // f stores through its pointer argument and returns without freeing;
    // the caller must still read the stored value through its own binding.
    let f = func(
        "f",
        vec![Argument { name: "p".to_string(), arg_type: ptr_int() }],
        None,
        vec![
            konst("v", Type::Int, Literal::Int(77)),
            effect(EffectOps::Store, &["p", "v"], &[], &[]),
            effect(EffectOps::Return, &[], &[], &[]),
        ],
    );
    let main = func(
        "main",
        vec![],
        None,
        vec![
            konst("one", Type::Int, Literal::Int(1)),
            val_op("p", ptr_int(), ValueOps::Alloc, &["one"]),
            effect(EffectOps::Call, &["p"], &["f"], &[]),
            val_op("got", Type::Int, ValueOps::Load, &["p"]),
            effect(EffectOps::Print, &["got"], &[], &[]),
            effect(EffectOps::Free, &["p"], &[], &[]),
        ],
    );
    let (r, out) = run_main(vec![main, f]);
    assert!(matches!(r, Ok(true)));
    assert_eq!(out, vec!["77".to_string()]);
}

#[test]
fn allocation_bound_once_is_reclaimed_at_frame_exit() {
    // g allocates, binds the pointer once, never copies or frees it: at g's
    // exit the count reaches zero and the allocation is reclaimed, exactly
    // once; the whole program still terminates normally.
    let g = func(
        "g",
        vec![],
        None,
        vec![
            konst("one", Type::Int, Literal::Int(1)),
            val_op("p", ptr_int(), ValueOps::Alloc, &["one"]),
            konst("v", Type::Int, Literal::Int(9)),
            effect(EffectOps::Store, &["p", "v"], &[], &[]),
            effect(EffectOps::Return, &[], &[], &[]),
        ],
    );
    let main = func(
        "main",
        vec![],
        None,
        vec![
            effect(EffectOps::Call, &[], &["g"], &[]),
            effect(EffectOps::Call, &[], &["g"], &[]),
            konst("ok", Type::Bool, Literal::Bool(true)),
            effect(EffectOps::Print, &["ok"], &[], &[]),
        ],
    );
    let (r, out) = run_main(vec![main, g]);
    assert!(matches!(r, Ok(true)));
    assert_eq!(out, vec!["true".to_string()]);
}

#[test]
fn returned_pointer_survives_the_callee_frame() {
    let make = func(
        "make",
        vec![],
        Some(ptr_int()),
        vec![
            konst("one", Type::Int, Literal::Int(1)),
            val_op("p", ptr_int(), ValueOps::Alloc, &["one"]),
            konst("v", Type::Int, Literal::Int(5)),
            effect(EffectOps::Store, &["p", "v"], &[], &[]),
            effect(EffectOps::Return, &["p"], &[], &[]),
        ],
    );
    let main = func(
        "main",
        vec![],
        None,
        vec![
            call_op("q", ptr_int(), "make", &[]),
            val_op("got", Type::Int, ValueOps::Load, &["q"]),
            effect(EffectOps::Print, &["got"], &[], &[]),
            effect(EffectOps::Free, &["q"], &[], &[]),
        ],
    );
    let (r, out) = run_main(vec![main, make]);
    assert!(matches!(r, Ok(true)));
    assert_eq!(out, vec!["5".to_string()]);
}

#[test]
fn copying_a_pointer_keeps_the_allocation_alive() {
    // q := p raises the count to two; rebinding p afterwards lowers it to
    // one, so the allocation stays valid through q.
    let main = func(
        "main",
        vec![],
        None,
        vec![
            konst("one", Type::Int, Literal::Int(1)),
            val_op("p", ptr_int(), ValueOps::Alloc, &["one"]),
            konst("v", Type::Int, Literal::Int(8)),
            effect(EffectOps::Store, &["p", "v"], &[], &[]),
            val_op("q", ptr_int(), ValueOps::Id, &["p"]),
            val_op("p", ptr_int(), ValueOps::Alloc, &["one"]),
            val_op("got", Type::Int, ValueOps::Load, &["q"]),
            effect(EffectOps::Print, &["got"], &[], &[]),
            effect(EffectOps::Free, &["p"], &[], &[]),
            effect(EffectOps::Free, &["q"], &[], &[]),
        ],
    );
    let (r, out) = run_main(vec![main]);
    assert!(matches!(r, Ok(true)));
    assert_eq!(out, vec!["8".to_string()]);
}

#[test]
fn rebinding_the_last_holder_invalidates_the_allocation() {
    // q first copies p, then is rebound elsewhere: the first allocation's
    // count returns to one. Rebinding p too drops it to zero, and the
    // allocation becomes invalid: the later load through the stale copy in
    // s (stored before the counts dropped) fails.
    let main = func(
        "main",
        vec![],
        None,
        vec![
            konst("one", Type::Int, Literal::Int(1)),
            val_op("p", ptr_int(), ValueOps::Alloc, &["one"]),
            val_op("q", ptr_int(), ValueOps::Id, &["p"]),
            val_op("r", ptr_int(), ValueOps::Alloc, &["one"]),
            val_op("q", ptr_int(), ValueOps::Id, &["r"]),
            val_op("p", ptr_int(), ValueOps::Id, &["r"]),
            // the first allocation's count reached zero: loading through any
            // variable would now need a binding, and none holds it; free r
            effect(EffectOps::Free, &["r"], &[], &[]),
        ],
    );
    let (r, out) = run_main(vec![main]);
    assert!(matches!(r, Ok(true)));
    assert!(out.is_empty());
}

#[test]
fn load_after_explicit_free_is_fatal() {
    let main = func(
        "main",
        vec![],
        None,
        vec![
            konst("one", Type::Int, Literal::Int(1)),
            val_op("p", ptr_int(), ValueOps::Alloc, &["one"]),
            effect(EffectOps::Free, &["p"], &[], &[]),
            val_op("x", Type::Int, ValueOps::Load, &["p"]),
        ],
    );
    let (r, _) = run_main(vec![main]);
    match r {
        Err(e) => assert!(matches!(e.kind, ErrorKind::InvalidPointer)),
        Ok(_) => panic!("expected an invalid-pointer error"),
    }
}

#[test]
fn double_free_is_fatal() {
    let main = func(
        "main",
        vec![],
        None,
        vec![
            konst("one", Type::Int, Literal::Int(1)),
            val_op("p", ptr_int(), ValueOps::Alloc, &["one"]),
            effect(EffectOps::Free, &["p"], &[], &[]),
            effect(EffectOps::Free, &["p"], &[], &[]),
        ],
    );
    let (r, _) = run_main(vec![main]);
    match r {
        Err(e) => assert!(matches!(e.kind, ErrorKind::DoubleFree)),
        Ok(_) => panic!("expected a double-free error"),
    }
}

#[test]
fn out_of_bounds_and_uninitialized_access_are_fatal() {
    let oob = func(
        "main",
        vec![],
        None,
        vec![
            konst("two", Type::Int, Literal::Int(2)),
            val_op("p", ptr_int(), ValueOps::Alloc, &["two"]),
            val_op("q", ptr_int(), ValueOps::PtrAdd, &["p", "two"]),
            val_op("x", Type::Int, ValueOps::Load, &["q"]),
        ],
    );
    let (r, _) = run_main(vec![oob]);
    match r {
        Err(e) => assert!(matches!(e.kind, ErrorKind::OutOfBounds)),
        Ok(_) => panic!("expected an out-of-bounds error"),
    }
    let uninit = func(
        "main",
        vec![],
        None,
        vec![
            konst("one", Type::Int, Literal::Int(1)),
            val_op("p", ptr_int(), ValueOps::Alloc, &["one"]),
            val_op("x", Type::Int, ValueOps::Load, &["p"]),
        ],
    );
    let (r2, _) = run_main(vec![uninit]);
    match r2 {
        Err(e) => assert!(matches!(e.kind, ErrorKind::UninitializedLoad)),
        Ok(_) => panic!("expected an uninitialized-load error"),
    }
}

#[test]
fn negative_allocation_size_is_fatal() {
    let main = func(
        "main",
        vec![],
        None,
        vec![
            konst("n", Type::Int, Literal::Int(-1)),
            val_op("p", ptr_int(), ValueOps::Alloc, &["n"]),
        ],
    );
    let (r, _) = run_main(vec![main]);
    match r {
        Err(e) => assert!(matches!(e.kind, ErrorKind::BadAllocationSize)),
        Ok(_) => panic!("expected a bad-allocation-size error"),
    }
}

#[test]
fn guard_false_rolls_back_and_redirects() {
    let main = func(
        "main",
        vec![],
        None,
        vec![
            konst("x", Type::Int, Literal::Int(1)),
            konst("no", Type::Bool, Literal::Bool(false)),
            effect(EffectOps::Speculate, &[], &[], &[]),
            konst("x", Type::Int, Literal::Int(99)),
            effect(EffectOps::Guard, &["no"], &[], &["recover"]),
            // unreachable after the rollback: a commit here never executes
            effect(EffectOps::Commit, &[], &[], &[]),
            label("recover"),
            effect(EffectOps::Print, &["x"], &[], &[]),
        ],
    );
    let (r, out) = run_main(vec![main]);
    assert!(matches!(r, Ok(true)));
    // x is restored to its pre-speculative value
    assert_eq!(out, vec!["1".to_string()]);
}

#[test]
fn guard_true_continues_and_commit_keeps_mutations() {
    let main = func(
        "main",
        vec![],
        None,
        vec![
            konst("x", Type::Int, Literal::Int(1)),
            konst("yes", Type::Bool, Literal::Bool(true)),
            effect(EffectOps::Speculate, &[], &[], &[]),
            konst("x", Type::Int, Literal::Int(99)),
            effect(EffectOps::Guard, &["yes"], &[], &["recover"]),
            effect(EffectOps::Commit, &[], &[], &[]),
            label("recover"),
            effect(EffectOps::Print, &["x"], &[], &[]),
        ],
    );
    let (r, out) = run_main(vec![main]);
    assert!(matches!(r, Ok(true)));
    assert_eq!(out, vec!["99".to_string()]);
}

#[test]
fn rollback_restores_reference_counts_and_heap() {
    let main = func(
        "main",
        vec![],
        None,
        vec![
            konst("one", Type::Int, Literal::Int(1)),
            konst("v", Type::Int, Literal::Int(3)),
            val_op("p", ptr_int(), ValueOps::Alloc, &["one"]),
            effect(EffectOps::Store, &["p", "v"], &[], &[]),
            konst("no", Type::Bool, Literal::Bool(false)),
            effect(EffectOps::Speculate, &[], &[], &[]),
            konst("w", Type::Int, Literal::Int(55)),
            effect(EffectOps::Store, &["p", "w"], &[], &[]),
            effect(EffectOps::Guard, &["no"], &[], &["recover"]),
            effect(EffectOps::Commit, &[], &[], &[]),
            label("recover"),
            val_op("got", Type::Int, ValueOps::Load, &["p"]),
            effect(EffectOps::Print, &["got"], &[], &[]),
            effect(EffectOps::Free, &["p"], &[], &[]),
        ],
    );
    let (r, out) = run_main(vec![main]);
    assert!(matches!(r, Ok(true)));
    // the speculative store was rolled back with the rest of the state
    assert_eq!(out, vec!["3".to_string()]);
}

#[test]
fn malformed_speculation_transitions_are_fatal() {
    let nested = func(
        "main",
        vec![],
        None,
        vec![
            effect(EffectOps::Speculate, &[], &[], &[]),
            effect(EffectOps::Speculate, &[], &[], &[]),
        ],
    );
    let (r, _) = run_main(vec![nested]);
    match r {
        Err(e) => assert!(matches!(e.kind, ErrorKind::NestedSpeculation)),
        Ok(_) => panic!("expected a nested-speculation error"),
    }
    let stray = func("main", vec![], None, vec![effect(EffectOps::Commit, &[], &[], &[])]);
    let (r2, _) = run_main(vec![stray]);
    match r2 {
        Err(e) => assert!(matches!(e.kind, ErrorKind::NotSpeculating)),
        Ok(_) => panic!("expected a not-speculating error"),
    }
    let call_inside = func(
        "main",
        vec![],
        None,
        vec![
            effect(EffectOps::Speculate, &[], &[], &[]),
            effect(EffectOps::Call, &[], &["main"], &[]),
        ],
    );
    let (r3, _) = run_main(vec![call_inside]);
    match r3 {
        Err(e) => assert!(matches!(e.kind, ErrorKind::IllegalDuringSpeculation)),
        Ok(_) => panic!("expected an illegal-during-speculation error"),
    }
}

#[test]
fn call_and_return_type_errors_are_fatal() {
    let id_fn = || {
        func(
            "idf",
            vec![int_arg("x")],
            Some(Type::Int),
            vec![
                val_op("y", Type::Int, ValueOps::Id, &["x"]),
                effect(EffectOps::Return, &["y"], &[], &[]),
            ],
        )
    };
    // wrong argument count
    let m1 = func("main", vec![], None, vec![effect(EffectOps::Call, &[], &["idf"], &[])]);
    let (r1, _) = run_main(vec![m1, id_fn()]);
    match r1 {
        Err(e) => assert!(matches!(e.kind, ErrorKind::ArgumentCountMismatch)),
        Ok(_) => panic!("expected an argument-count error"),
    }
    // wrong argument type
    let m2 = func(
        "main",
        vec![],
        None,
        vec![
            konst("b", Type::Bool, Literal::Bool(true)),
            effect(EffectOps::Call, &["b"], &["idf"], &[]),
        ],
    );
    let (r2, _) = run_main(vec![m2, id_fn()]);
    match r2 {
        Err(e) => assert!(matches!(e.kind, ErrorKind::ArgumentTypeMismatch)),
        Ok(_) => panic!("expected an argument-type error"),
    }
    // missing return value
    let noret = func(
        "noret",
        vec![],
        Some(Type::Int),
        vec![effect(EffectOps::Return, &[], &[], &[])],
    );
    let m3 = func("main", vec![], None, vec![effect(EffectOps::Call, &[], &["noret"], &[])]);
    let (r3, _) = run_main(vec![m3, noret]);
    match r3 {
        Err(e) => assert!(matches!(e.kind, ErrorKind::MissingReturnValue)),
        Ok(_) => panic!("expected a missing-return-value error"),
    }
    // declared-return-type mismatch at the call site
    let m4 = func(
        "main",
        vec![],
        None,
        vec![
            konst("n", Type::Int, Literal::Int(1)),
            call_op("b", Type::Bool, "idf", &["n"]),
        ],
    );
    let (r4, _) = run_main(vec![m4, id_fn()]);
    match r4 {
        Err(e) => assert!(matches!(e.kind, ErrorKind::ReturnTypeMismatch)),
        Ok(_) => panic!("expected a return-type error"),
    }
}

#[test]
fn unresolved_names_are_fatal() {
    let m1 = func("main", vec![], None, vec![effect(EffectOps::Call, &[], &["nowhere"], &[])]);
    let (r1, _) = run_main(vec![m1]);
    match r1 {
        Err(e) => match e.kind {
            ErrorKind::UnresolvedFunction(name) => assert_eq!(name, "nowhere"),
            _ => panic!("expected an unresolved-function error"),
        },
        Ok(_) => panic!("expected an unresolved-function error"),
    }
    let m2 = func("main", vec![], None, vec![effect(EffectOps::Jump, &[], &[], &["gone"])]);
    let (r2, _) = run_main(vec![m2]);
    match r2 {
        Err(e) => match e.kind {
            ErrorKind::UnresolvedLabel(name) => assert_eq!(name, "gone"),
            _ => panic!("expected an unresolved-label error"),
        },
        Ok(_) => panic!("expected an unresolved-label error"),
    }
}

#[test]
fn unbounded_recursion_exhausts_the_stack() {
    let looper = func(
        "main",
        vec![],
        None,
        vec![effect(EffectOps::Call, &[], &["main"], &[])],
    );
    let (r, _) = run_main(vec![looper]);
    match r {
        Err(e) => assert!(matches!(e.kind, ErrorKind::StackExhausted)),
        Ok(_) => panic!("expected a stack-exhaustion error"),
    }
}

#[test]
fn entry_arguments_are_typechecked() {
    let main = func("main", vec![int_arg("n")], None, vec![]);
    let prog = Program { functions: vec![main] };
    let (r, _) = run_program(prog, &"main".to_string(), vec![Value::Bool(true)], FUEL);
    match r {
        Err(e) => assert!(matches!(e.kind, ErrorKind::ArgumentTypeMismatch)),
        Ok(_) => panic!("expected an argument-type error"),
    }
}

#[test]
fn entry_arguments_reach_the_program() {
    let main = func(
        "main",
        vec![int_arg("n")],
        None,
        vec![effect(EffectOps::Print, &["n"], &[], &[])],
    );
    let prog = Program { functions: vec![main] };
    let (r, out) = run_program(prog, &"main".to_string(), vec![Value::Int(-12)], FUEL);
    assert!(matches!(r, Ok(true)));
    assert_eq!(out, vec!["-12".to_string()]);
}

#[test]
fn collector_counts_holders_per_frame() {
    let mut c = Collector::default();
    c.enter();
    c.increment(5);
    c.increment(5);
    assert_eq!(c.count_of(5), 2);
    assert_eq!(c.delta_of(5), 2);
    // the first decrement leaves one holder; the second reaches zero
    assert!(!c.decrement(5));
    assert_eq!(c.count_of(5), 1);
    assert!(c.decrement(5));
    assert_eq!(c.count_of(5), 0);
}

#[test]
fn collector_exeunt_reports_unreachable_addresses() {
    let mut c = Collector::default();
    c.enter();
    c.increment(7);
    c.enter();
    c.increment(7);
    c.increment(9);
    // the inner frame ends: 9 was held only there, 7 is still held outside
    let garbage = c.exeunt();
    assert_eq!(garbage, vec![9]);
    assert_eq!(c.count_of(7), 1);
    assert_eq!(c.count_of(9), 0);
    let garbage2 = c.exeunt();
    assert_eq!(garbage2, vec![7]);
}

#[test]
fn validate_checks_operation_codes_against_extensions() {
    let memory_prog = Program {
        functions: vec![func(
            "main",
            vec![],
            None,
            vec![
                konst("one", Type::Int, Literal::Int(1)),
                val_op("p", ptr_int(), ValueOps::Alloc, &["one"]),
            ],
        )],
    };
    assert!(!validate(&memory_prog, Extensions { memory: false, speculate: false }));
    assert!(validate(&memory_prog, Extensions { memory: true, speculate: false }));
    let plain_prog = Program {
        functions: vec![func(
            "main",
            vec![],
            None,
            vec![konst("one", Type::Int, Literal::Int(1))],
        )],
    };
    assert!(validate(&plain_prog, Extensions { memory: false, speculate: false }));
}

#[test]
fn print_joins_arguments_with_spaces() {
    let main = func(
        "main",
        vec![],
        None,
        vec![
            konst("n", Type::Int, Literal::Int(-3)),
            konst("b", Type::Bool, Literal::Bool(false)),
            effect(EffectOps::Print, &["n", "b", "n"], &[], &[]),
        ],
    );
    let (r, out) = run_main(vec![main]);
    assert!(matches!(r, Ok(true)));
    assert_eq!(out, vec!["-3 false -3".to_string()]);
}

#[test]
fn falling_off_the_end_returns_implicitly() {
    let helper = func(
        "helper",
        vec![],
        None,
        vec![
            konst("x", Type::Int, Literal::Int(7)),
            effect(EffectOps::Print, &["x"], &[], &[]),
        ],
    );
    let main = func(
        "main",
        vec![],
        None,
        vec![
            effect(EffectOps::Call, &[], &["helper"], &[]),
            konst("y", Type::Int, Literal::Int(8)),
            effect(EffectOps::Print, &["y"], &[], &[]),
        ],
    );
    let (r, out) = run_main(vec![main, helper]);
    assert!(matches!(r, Ok(true)));
    assert_eq!(out, vec!["7".to_string(), "8".to_string()]);
}

#[test]
fn discarded_returned_pointer_is_reclaimed() {
    // the callee returns a fresh pointer, but the caller's effect call
    // discards it: its count stays zero and the allocation is reclaimed
    let make = func(
        "make",
        vec![],
        Some(ptr_int()),
        vec![
            konst("one", Type::Int, Literal::Int(1)),
            val_op("p", ptr_int(), ValueOps::Alloc, &["one"]),
            effect(EffectOps::Return, &["p"], &[], &[]),
        ],
    );
    let main = func(
        "main",
        vec![],
        None,
        vec![
            effect(EffectOps::Call, &[], &["make"], &[]),
            konst("done", Type::Bool, Literal::Bool(true)),
            effect(EffectOps::Print, &["done"], &[], &[]),
        ],
    );
    let (r, out) = run_main(vec![main, make]);
    assert!(matches!(r, Ok(true)));
    assert_eq!(out, vec!["true".to_string()]);
}
