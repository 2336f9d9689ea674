use brilirs::program::Argument;
use brilirs::program::Code;
use brilirs::program::ConstOps;
use brilirs::program::EffectOps;
use brilirs::program::Function;
use brilirs::program::Instruction;
use brilirs::program::Literal;
use brilirs::program::Program;
use brilirs::program::Type;
use brilirs::program::ValueOps;
use brilirs::program::clone_type;
use brilirs::program::type_eq;
use brilirs::program::Position;

fn ptr_int() -> Type {
    Type::Pointer(Box::new(Type::Int))
}

#[test]
fn types_render_canonically() {
    assert_eq!(Type::Int.to_text(), "int");
    assert_eq!(Type::Bool.to_text(), "bool");
    assert_eq!(ptr_int().to_text(), "ptr<int>");
    assert_eq!(Type::Pointer(Box::new(ptr_int())).to_text(), "ptr<ptr<int>>");
}

#[test]
fn literals_render_canonically() {
    assert_eq!(Literal::Int(0).to_text(), "0");
    assert_eq!(Literal::Int(42).to_text(), "42");
    assert_eq!(Literal::Int(-5).to_text(), "-5");
    assert_eq!(Literal::Int(i64::MAX).to_text(), "9223372036854775807");
    assert_eq!(Literal::Int(i64::MIN).to_text(), "-9223372036854775808");
    assert_eq!(Literal::Bool(true).to_text(), "true");
    assert_eq!(Literal::Bool(false).to_text(), "false");
}

#[test]
fn constant_instructions_render_canonically() {
    let ins = Instruction::Constant {
        dest: "v0".to_string(),
        op: ConstOps::Const,
        pos: None,
        const_type: Type::Int,
        value: Literal::Int(4),
    };
    assert_eq!(ins.to_text(), "v0: int = const 4;");
}

#[test]
fn value_instructions_render_with_marked_operands() {
    let add = Instruction::Value {
        args: vec!["a".to_string(), "b".to_string()],
        dest: "c".to_string(),
        funcs: vec![],
        labels: vec![],
        op: ValueOps::Add,
        pos: None,
        op_type: Type::Int,
    };
    assert_eq!(add.to_text(), "c: int = add a b;");
    let call = Instruction::Value {
        args: vec!["x".to_string()],
        dest: "r".to_string(),
        funcs: vec!["f".to_string()],
        labels: vec![],
        op: ValueOps::Call,
        pos: None,
        op_type: Type::Bool,
    };
    assert_eq!(call.to_text(), "r: bool = call @f x;");
    let allocate = Instruction::Value {
        args: vec!["n".to_string()],
        dest: "p".to_string(),
        funcs: vec![],
        labels: vec![],
        op: ValueOps::Alloc,
        pos: None,
        op_type: ptr_int(),
    };
    assert_eq!(allocate.to_text(), "p: ptr<int> = alloc n;");
}

#[test]
fn effect_instructions_render_with_marked_operands() {
    let br = Instruction::Effect {
        args: vec!["cond".to_string()],
        funcs: vec![],
        labels: vec!["then".to_string(), "else".to_string()],
        op: EffectOps::Branch,
        pos: None,
    };
    assert_eq!(br.to_text(), "br cond .then .else;");
    let ret = Instruction::Effect {
        args: vec![],
        funcs: vec![],
        labels: vec![],
        op: EffectOps::Return,
        pos: None,
    };
    assert_eq!(ret.to_text(), "ret;");
    let print = Instruction::Effect {
        args: vec!["a".to_string(), "b".to_string()],
        funcs: vec![],
        labels: vec![],
        op: EffectOps::Print,
        pos: None,
    };
    assert_eq!(print.to_text(), "print a b;");
    let guard = Instruction::Effect {
        args: vec!["ok".to_string()],
        funcs: vec![],
        labels: vec!["recover".to_string()],
        op: EffectOps::Guard,
        pos: None,
    };
    assert_eq!(guard.to_text(), "guard ok .recover;");
}

#[test]
fn labels_and_instructions_render_as_lines() {
    let lbl = Code::Label { label: "loop".to_string(), pos: None };
    assert_eq!(lbl.to_text(), ".loop:");
    let ins = Code::Instruction(Instruction::Effect {
        args: vec![],
        funcs: vec![],
        labels: vec![],
        op: EffectOps::Nop,
        pos: None,
    });
    assert_eq!(ins.to_text(), "  nop;");
}

#[test]
fn arguments_render_canonically() {
    let a = Argument { name: "x".to_string(), arg_type: ptr_int() };
    assert_eq!(a.to_text(), "x: ptr<int>");
}

#[test]
fn functions_and_programs_render_canonically() {
    let f = Function {
        args: vec![
            Argument { name: "a".to_string(), arg_type: Type::Int },
            Argument { name: "b".to_string(), arg_type: Type::Bool },
        ],
        instrs: vec![
            Code::Instruction(Instruction::Value {
                args: vec!["a".to_string(), "a".to_string()],
                dest: "c".to_string(),
                funcs: vec![],
                labels: vec![],
                op: ValueOps::Add,
                pos: None,
                op_type: Type::Int,
            }),
            Code::Instruction(Instruction::Effect {
                args: vec!["c".to_string()],
                funcs: vec![],
                labels: vec![],
                op: EffectOps::Return,
                pos: None,
            }),
        ],
        name: "sum".to_string(),
        pos: None,
        return_type: Some(Type::Int),
    };
    assert_eq!(f.to_text(), "@sum(a: int, b: bool): int {\n  c: int = add a a;\n  ret c;\n}");
    let bare = Function {
        args: vec![],
        instrs: vec![Code::Label { label: "top".to_string(), pos: None }],
        name: "main".to_string(),
        pos: None,
        return_type: None,
    };
    let expected_bare = "@main {\n.top:\n}";
    assert_eq!(bare.to_text(), expected_bare);
    let p = Program { functions: vec![bare] };
    assert_eq!(p.to_text(), format!("{}\n", expected_bare));
}

#[test]
fn literal_types_and_positions_are_reported() {
    assert!(type_eq(&Literal::Int(3).get_type(), &Type::Int));
    assert!(type_eq(&Literal::Bool(false).get_type(), &Type::Bool));
    let pos = Some(Position { col: 3, row: 9 });
    let ins = Instruction::Effect {
        args: vec![],
        funcs: vec![],
        labels: vec![],
        op: EffectOps::Nop,
        pos,
    };
    assert_eq!(ins.get_pos(), pos);
}

#[test]
fn type_equality_is_structural() {
    assert!(type_eq(&ptr_int(), &ptr_int()));
    assert!(!type_eq(&ptr_int(), &Type::Pointer(Box::new(Type::Bool))));
    assert!(!type_eq(&Type::Int, &Type::Bool));
    let t = Type::Pointer(Box::new(ptr_int()));
    assert!(type_eq(&clone_type(&t), &t));
}

#[test]
fn parsing_rendered_types_gives_them_back() {
    let samples = vec![
        Type::Int,
        Type::Bool,
        ptr_int(),
        Type::Pointer(Box::new(Type::Pointer(Box::new(Type::Bool)))),
    ];
    for t in samples {
        let text = t.to_text();
        match brilirs::parse::parse_type(&text) {
            Some(back) => assert!(type_eq(&back, &t)),
            None => panic!("a rendered type failed to parse"),
        }
    }
    assert!(brilirs::parse::parse_type("float").is_none());
    assert!(brilirs::parse::parse_type("ptr<int").is_none());
    assert!(brilirs::parse::parse_type("intx").is_none());
}

#[test]
fn parsing_rendered_literals_gives_them_back() {
    let samples = vec![
        Literal::Int(0),
        Literal::Int(42),
        Literal::Int(-1),
        Literal::Int(i64::MAX),
        Literal::Int(i64::MIN),
        Literal::Bool(true),
        Literal::Bool(false),
    ];
    for l in samples {
        let text = l.to_text();
        match brilirs::parse::parse_literal(&text) {
            Some(back) => match (&back, &l) {
                (Literal::Int(a), Literal::Int(b)) => assert_eq!(a, b),
                (Literal::Bool(a), Literal::Bool(b)) => assert_eq!(a, b),
                _ => panic!("a literal changed kind in the round trip"),
            },
            None => panic!("a rendered literal failed to parse"),
        }
    }
    assert!(brilirs::parse::parse_literal("").is_none());
    assert!(brilirs::parse::parse_literal("9223372036854775808").is_none());
    assert!(matches!(
        brilirs::parse::parse_literal("-9223372036854775808"),
        Some(Literal::Int(i64::MIN))
    ));
}

#[test]
fn operation_codes_render_their_mnemonics() {
    assert_eq!(ConstOps::Const.to_text(), "const");
    assert_eq!(ValueOps::PtrAdd.to_text(), "ptradd");
    assert_eq!(ValueOps::Div.to_text(), "div");
    assert_eq!(EffectOps::Jump.to_text(), "jmp");
    assert_eq!(EffectOps::Branch.to_text(), "br");
    assert_eq!(EffectOps::Return.to_text(), "ret");
    assert_eq!(EffectOps::Speculate.to_text(), "speculate");
}
