//! Rendering of programs in the canonical human-readable text form:
//! `@name(arg: type, ...): returntype { ... }` per function, `.label:` for
//! labels, `dest: type = op args;` for constant and value instructions,
//! `op args;` for effect instructions, with function and label operands
//! prefixed `@` and `.`.
use vstd::prelude::*;

use crate::program::Argument;
use crate::program::Code;
use crate::program::ConstOps;
use crate::program::EffectOps;
use crate::program::Function;
use crate::program::Instruction;
use crate::program::Literal;
use crate::program::Program;
use crate::program::Type;
use crate::program::ValueOps;
use crate::values::Value;
use crate::text::chars_to_string;
use crate::text::str_to_chars;

verus! {

/// The character of one decimal digit.
pub open spec fn digit(n: nat) -> char {
    if n == 0 { '0' }
    else if n == 1 { '1' }
    else if n == 2 { '2' }
    else if n == 3 { '3' }
    else if n == 4 { '4' }
    else if n == 5 { '5' }
    else if n == 6 { '6' }
    else if n == 7 { '7' }
    else if n == 8 { '8' }
    else { '9' }
}

/// The decimal representation of a natural number, most significant digit
/// first, with no leading zeros (`0` itself is one digit).
pub open spec fn dec_rep(n: nat) -> Seq<char>
    decreases n,
{
    if n < 10 {
        seq![digit(n)]
    } else {
        dec_rep(n / 10).push(digit(n % 10))
    }
}

/// The decimal representation of an integer, `-` first when negative.
pub open spec fn int_text(i: int) -> Seq<char> {
    if i < 0 {
        seq!['-'] + dec_rep((-i) as nat)
    } else {
        dec_rep(i as nat)
    }
}

/// `true` or `false`.
pub open spec fn bool_text(b: bool) -> Seq<char> {
    if b {
        seq!['t', 'r', 'u', 'e']
    } else {
        seq!['f', 'a', 'l', 's', 'e']
    }
}

/// The text of a type: `int`, `bool`, or `ptr<...>`.
pub open spec fn type_text(t: Type) -> Seq<char>
    decreases t,
{
    match t {
        Type::Int => seq!['i', 'n', 't'],
        Type::Bool => seq!['b', 'o', 'o', 'l'],
        Type::Pointer(e) => seq!['p', 't', 'r', '<'] + type_text(*e) + seq!['>'],
    }
}

/// The text of a literal value.
pub open spec fn literal_text(l: Literal) -> Seq<char> {
    match l {
        Literal::Int(i) => int_text(i as int),
        Literal::Bool(b) => bool_text(b),
    }
}

/// The text of the constant operation code.
pub open spec fn const_op_text(op: ConstOps) -> Seq<char> {
    seq!['c', 'o', 'n', 's', 't']
}

/// The mnemonic of an operation code.
pub open spec fn value_op_text(op: ValueOps) -> Seq<char> {
    match op {
        ValueOps::Add => seq!['a', 'd', 'd'],
        ValueOps::Sub => seq!['s', 'u', 'b'],
        ValueOps::Mul => seq!['m', 'u', 'l'],
        ValueOps::Div => seq!['d', 'i', 'v'],
        ValueOps::Eq => seq!['e', 'q'],
        ValueOps::Lt => seq!['l', 't'],
        ValueOps::Gt => seq!['g', 't'],
        ValueOps::Le => seq!['l', 'e'],
        ValueOps::Ge => seq!['g', 'e'],
        ValueOps::Not => seq!['n', 'o', 't'],
        ValueOps::And => seq!['a', 'n', 'd'],
        ValueOps::Or => seq!['o', 'r'],
        ValueOps::Call => seq!['c', 'a', 'l', 'l'],
        ValueOps::Id => seq!['i', 'd'],
        ValueOps::Alloc => seq!['a', 'l', 'l', 'o', 'c'],
        ValueOps::Load => seq!['l', 'o', 'a', 'd'],
        ValueOps::PtrAdd => seq!['p', 't', 'r', 'a', 'd', 'd'],
    }
}

/// The mnemonic of an operation code.
pub open spec fn effect_op_text(op: EffectOps) -> Seq<char> {
    match op {
        EffectOps::Jump => seq!['j', 'm', 'p'],
        EffectOps::Branch => seq!['b', 'r'],
        EffectOps::Call => seq!['c', 'a', 'l', 'l'],
        EffectOps::Return => seq!['r', 'e', 't'],
        EffectOps::Print => seq!['p', 'r', 'i', 'n', 't'],
        EffectOps::Nop => seq!['n', 'o', 'p'],
        EffectOps::Store => seq!['s', 't', 'o', 'r', 'e'],
        EffectOps::Free => seq!['f', 'r', 'e', 'e'],
        EffectOps::Speculate => seq!['s', 'p', 'e', 'c', 'u', 'l', 'a', 't', 'e'],
        EffectOps::Commit => seq!['c', 'o', 'm', 'm', 'i', 't'],
        EffectOps::Guard => seq!['g', 'u', 'a', 'r', 'd'],
    }
}

/// Append the mnemonic of an operation code.
fn push_value_op(out: &mut Vec<char>, op: ValueOps)
    ensures
        final(out)@ == old(out)@ + value_op_text(op),
{
    match op {
        ValueOps::Add => {
            out.push('a'); out.push('d'); out.push('d');
            proof { assert(out@ =~= old(out)@ + value_op_text(op)); }
        },
        ValueOps::Sub => {
            out.push('s'); out.push('u'); out.push('b');
            proof { assert(out@ =~= old(out)@ + value_op_text(op)); }
        },
        ValueOps::Mul => {
            out.push('m'); out.push('u'); out.push('l');
            proof { assert(out@ =~= old(out)@ + value_op_text(op)); }
        },
        ValueOps::Div => {
            out.push('d'); out.push('i'); out.push('v');
            proof { assert(out@ =~= old(out)@ + value_op_text(op)); }
        },
        ValueOps::Eq => {
            out.push('e'); out.push('q');
            proof { assert(out@ =~= old(out)@ + value_op_text(op)); }
        },
        ValueOps::Lt => {
            out.push('l'); out.push('t');
            proof { assert(out@ =~= old(out)@ + value_op_text(op)); }
        },
        ValueOps::Gt => {
            out.push('g'); out.push('t');
            proof { assert(out@ =~= old(out)@ + value_op_text(op)); }
        },
        ValueOps::Le => {
            out.push('l'); out.push('e');
            proof { assert(out@ =~= old(out)@ + value_op_text(op)); }
        },
        ValueOps::Ge => {
            out.push('g'); out.push('e');
            proof { assert(out@ =~= old(out)@ + value_op_text(op)); }
        },
        ValueOps::Not => {
            out.push('n'); out.push('o'); out.push('t');
            proof { assert(out@ =~= old(out)@ + value_op_text(op)); }
        },
        ValueOps::And => {
            out.push('a'); out.push('n'); out.push('d');
            proof { assert(out@ =~= old(out)@ + value_op_text(op)); }
        },
        ValueOps::Or => {
            out.push('o'); out.push('r');
            proof { assert(out@ =~= old(out)@ + value_op_text(op)); }
        },
        ValueOps::Call => {
            out.push('c'); out.push('a'); out.push('l'); out.push('l');
            proof { assert(out@ =~= old(out)@ + value_op_text(op)); }
        },
        ValueOps::Id => {
            out.push('i'); out.push('d');
            proof { assert(out@ =~= old(out)@ + value_op_text(op)); }
        },
        ValueOps::Alloc => {
            out.push('a'); out.push('l'); out.push('l'); out.push('o'); out.push('c');
            proof { assert(out@ =~= old(out)@ + value_op_text(op)); }
        },
        ValueOps::Load => {
            out.push('l'); out.push('o'); out.push('a'); out.push('d');
            proof { assert(out@ =~= old(out)@ + value_op_text(op)); }
        },
        ValueOps::PtrAdd => {
            out.push('p'); out.push('t'); out.push('r'); out.push('a'); out.push('d'); out.push('d');
            proof { assert(out@ =~= old(out)@ + value_op_text(op)); }
        },
    }
}

/// Append the mnemonic of an operation code.
fn push_effect_op(out: &mut Vec<char>, op: EffectOps)
    ensures
        final(out)@ == old(out)@ + effect_op_text(op),
{
    match op {
        EffectOps::Jump => {
            out.push('j'); out.push('m'); out.push('p');
            proof { assert(out@ =~= old(out)@ + effect_op_text(op)); }
        },
        EffectOps::Branch => {
            out.push('b'); out.push('r');
            proof { assert(out@ =~= old(out)@ + effect_op_text(op)); }
        },
        EffectOps::Call => {
            out.push('c'); out.push('a'); out.push('l'); out.push('l');
            proof { assert(out@ =~= old(out)@ + effect_op_text(op)); }
        },
        EffectOps::Return => {
            out.push('r'); out.push('e'); out.push('t');
            proof { assert(out@ =~= old(out)@ + effect_op_text(op)); }
        },
        EffectOps::Print => {
            out.push('p'); out.push('r'); out.push('i'); out.push('n'); out.push('t');
            proof { assert(out@ =~= old(out)@ + effect_op_text(op)); }
        },
        EffectOps::Nop => {
            out.push('n'); out.push('o'); out.push('p');
            proof { assert(out@ =~= old(out)@ + effect_op_text(op)); }
        },
        EffectOps::Store => {
            out.push('s'); out.push('t'); out.push('o'); out.push('r'); out.push('e');
            proof { assert(out@ =~= old(out)@ + effect_op_text(op)); }
        },
        EffectOps::Free => {
            out.push('f'); out.push('r'); out.push('e'); out.push('e');
            proof { assert(out@ =~= old(out)@ + effect_op_text(op)); }
        },
        EffectOps::Speculate => {
            out.push('s'); out.push('p'); out.push('e'); out.push('c'); out.push('u'); out.push('l'); out.push('a'); out.push('t'); out.push('e');
            proof { assert(out@ =~= old(out)@ + effect_op_text(op)); }
        },
        EffectOps::Commit => {
            out.push('c'); out.push('o'); out.push('m'); out.push('m'); out.push('i'); out.push('t');
            proof { assert(out@ =~= old(out)@ + effect_op_text(op)); }
        },
        EffectOps::Guard => {
            out.push('g'); out.push('u'); out.push('a'); out.push('r'); out.push('d');
            proof { assert(out@ =~= old(out)@ + effect_op_text(op)); }
        },
    }
}

/// The text of a runtime value, as the print operation formats it: integers
/// in decimal, booleans as `true`/`false`, and a pointer as its base address
/// and offset after the word `ptr`.
pub open spec fn value_text(v: Value) -> Seq<char> {
    match v {
        Value::Int(i) => int_text(i as int),
        Value::Bool(b) => bool_text(b),
        Value::Ptr(p) => seq!['p', 't', 'r', ' '] + dec_rep(p.base as nat) + seq![' ']
            + int_text(p.offset as int),
    }
}

/// One function argument: `name: type`.
pub open spec fn arg_text(a: Argument) -> Seq<char> {
    a.name@ + seq![':', ' '] + type_text(a.arg_type)
}

/// The arguments from position `i` on, separated by `, `.
pub open spec fn args_text(args: Seq<Argument>, i: int) -> Seq<char>
    decreases args.len() - i,
{
    if i < 0 || i >= args.len() {
        Seq::empty()
    } else if i + 1 < args.len() {
        arg_text(args[i]) + seq![',', ' '] + args_text(args, i + 1)
    } else {
        arg_text(args[i])
    }
}

/// Operand names from position `i` on, each preceded by a space and, for
/// function and label operands, their `@` or `.` mark.
pub open spec fn names_text(names: Seq<String>, mark: Seq<char>, i: int) -> Seq<char>
    decreases names.len() - i,
{
    if i < 0 || i >= names.len() {
        Seq::empty()
    } else {
        seq![' '] + mark + names[i]@ + names_text(names, mark, i + 1)
    }
}

/// The text of one instruction, without the trailing newline.
pub open spec fn instruction_text(ins: Instruction) -> Seq<char> {
    match ins {
        Instruction::Constant { dest, op, pos, const_type, value } =>
            dest@ + seq![':', ' '] + type_text(const_type) + seq![' ', '=', ' ']
                + const_op_text(op) + seq![' '] + literal_text(value) + seq![';'],
        Instruction::Value { args, dest, funcs, labels, op, pos, op_type } =>
            dest@ + seq![':', ' '] + type_text(op_type) + seq![' ', '=', ' ']
                + value_op_text(op) + names_text(funcs@, seq!['@'], 0)
                + names_text(args@, Seq::empty(), 0) + names_text(labels@, seq!['.'], 0)
                + seq![';'],
        Instruction::Effect { args, funcs, labels, op, pos } =>
            effect_op_text(op) + names_text(funcs@, seq!['@'], 0)
                + names_text(args@, Seq::empty(), 0) + names_text(labels@, seq!['.'], 0)
                + seq![';'],
    }
}

/// The text of one body item: `.label:`, or an instruction indented by two
/// spaces.
pub open spec fn code_text(c: Code) -> Seq<char> {
    match c {
        Code::Label { label, pos } => seq!['.'] + label@ + seq![':'],
        Code::Instruction(ins) => seq![' ', ' '] + instruction_text(ins),
    }
}

/// The body items from position `i` on, one per line.
pub open spec fn codes_text(instrs: Seq<Code>, i: int) -> Seq<char>
    decreases instrs.len() - i,
{
    if i < 0 || i >= instrs.len() {
        Seq::empty()
    } else {
        code_text(instrs[i]) + seq!['\n'] + codes_text(instrs, i + 1)
    }
}

/// The text of one function: header, then one line per body item, then the
/// closing brace.
pub open spec fn function_text(f: Function) -> Seq<char> {
    seq!['@'] + f.name@
        + (if f.args.len() > 0 { seq!['('] + args_text(f.args@, 0) + seq![')'] } else { Seq::empty() })
        + (match f.return_type {
            Some(t) => seq![':', ' '] + type_text(t),
            None => Seq::empty(),
        })
        + seq![' ', '{', '\n'] + codes_text(f.instrs@, 0) + seq!['}']
}

/// The functions from position `i` on, one blank-line-free block per
/// function, each followed by a newline.
pub open spec fn functions_text(fs: Seq<Function>, i: int) -> Seq<char>
    decreases fs.len() - i,
{
    if i < 0 || i >= fs.len() {
        Seq::empty()
    } else {
        function_text(fs[i]) + seq!['\n'] + functions_text(fs, i + 1)
    }
}

/// The text of a whole program.
pub open spec fn program_text(p: Program) -> Seq<char> {
    functions_text(p.functions@, 0)
}

/// Append one decimal digit's character.
fn push_digit(out: &mut Vec<char>, d: u64)
    requires
        d < 10,
    ensures
        final(out)@ == old(out)@ + seq![digit(d as nat)],
{
    let c = if d == 0 { '0' }
    else if d == 1 { '1' }
    else if d == 2 { '2' }
    else if d == 3 { '3' }
    else if d == 4 { '4' }
    else if d == 5 { '5' }
    else if d == 6 { '6' }
    else if d == 7 { '7' }
    else if d == 8 { '8' }
    else { '9' };
    out.push(c);
    proof {
        assert(out@ =~= old(out)@ + seq![digit(d as nat)]);
    }
}

/// Append the decimal representation of a natural number.
fn push_dec(out: &mut Vec<char>, n: u64)
    ensures
        final(out)@ == old(out)@ + dec_rep(n as nat),
{
    let mut temp: Vec<char> = Vec::new();
    let mut m: u64 = n;
    while m >= 10
        invariant
            dec_rep(n as nat) =~= dec_rep(m as nat) + temp@.reverse(),
        decreases m,
    {
        let ghost temp0 = temp@;
        let ghost m0 = m as nat;
        push_digit(&mut temp, m % 10);
        m = m / 10;
        proof {
            assert(temp@ =~= temp0.push(digit(m0 % 10)));
            assert(temp@.reverse() =~= seq![digit(m0 % 10)] + temp0.reverse());
            assert(dec_rep(m0) =~= dec_rep(m0 / 10).push(digit(m0 % 10)));
            assert(dec_rep(m0 / 10).push(digit(m0 % 10)) + temp0.reverse()
                =~= dec_rep(m0 / 10) + (seq![digit(m0 % 10)] + temp0.reverse()));
            assert(dec_rep(n as nat) =~= dec_rep(m as nat) + temp@.reverse());
        }
    }
    let ghost temp0 = temp@;
    let ghost m0 = m as nat;
    push_digit(&mut temp, m);
    proof {
        assert(temp@ =~= temp0.push(digit(m0)));
        assert(temp@.reverse() =~= seq![digit(m0)] + temp0.reverse());
        assert(dec_rep(m0) =~= seq![digit(m0)]);
        assert(dec_rep(n as nat) =~= temp@.reverse());
    }
    let mut k: usize = temp.len();
    while k > 0
        invariant
            0 <= k <= temp@.len(),
            out@ =~= old(out)@ + temp@.reverse().take(temp@.len() - k),
        decreases k,
    {
        k = k - 1;
        out.push(temp[k]);
        proof {
            assert(temp@.reverse()[temp@.len() - k - 1] == temp@[k as int]);
            assert(out@ =~= old(out)@ + temp@.reverse().take(temp@.len() - k));
        }
    }
    proof {
        assert(temp@.reverse().take(temp@.len() as int) =~= temp@.reverse());
        assert(out@ =~= old(out)@ + dec_rep(n as nat));
    }
}

/// Append the decimal representation of a signed integer.
fn push_int(out: &mut Vec<char>, i: i64)
    ensures
        final(out)@ == old(out)@ + int_text(i as int),
{
    if i >= 0 {
        push_dec(out, i as u64);
    } else {
        out.push('-');
        let ghost mid = out@;
        let m: u64 = (-(i as i128)) as u64;
        proof {
            assert(m as nat == (-(i as int)) as nat);
        }
        push_dec(out, m);
        proof {
            assert(out@ =~= old(out)@ + seq!['-'] + dec_rep((-(i as int)) as nat));
            assert(old(out)@ + seq!['-'] + dec_rep((-(i as int)) as nat)
                =~= old(out)@ + int_text(i as int));
        }
    }
}

/// Append the characters of a name.
fn push_name(out: &mut Vec<char>, s: &String)
    ensures
        final(out)@ == old(out)@ + s@,
{
    let mut cs = str_to_chars(s.as_str());
    out.append(&mut cs);
}

/// Append `true` or `false`.
fn push_bool(out: &mut Vec<char>, b: bool)
    ensures
        final(out)@ == old(out)@ + bool_text(b),
{
    if b {
        out.push('t'); out.push('r'); out.push('u'); out.push('e');
    } else {
        out.push('f'); out.push('a'); out.push('l'); out.push('s'); out.push('e');
    }
    proof {
        assert(out@ =~= old(out)@ + bool_text(b));
    }
}

/// Append the text of a type.
fn push_type(out: &mut Vec<char>, t: &Type)
    ensures
        final(out)@ == old(out)@ + type_text(*t),
    decreases t,
{
    match t {
        Type::Int => {
            out.push('i'); out.push('n'); out.push('t');
            proof { assert(out@ =~= old(out)@ + type_text(*t)); }
        },
        Type::Bool => {
            out.push('b'); out.push('o'); out.push('o'); out.push('l');
            proof { assert(out@ =~= old(out)@ + type_text(*t)); }
        },
        Type::Pointer(e) => {
            out.push('p'); out.push('t'); out.push('r'); out.push('<');
            push_type(out, e);
            out.push('>');
            proof { assert(out@ =~= old(out)@ + type_text(*t)); }
        },
    }
}

/// Append the text of a literal.
fn push_literal(out: &mut Vec<char>, l: &Literal)
    ensures
        final(out)@ == old(out)@ + literal_text(*l),
{
    match l {
        Literal::Int(i) => push_int(out, *i),
        Literal::Bool(b) => push_bool(out, *b),
    }
}

/// Append the text of a runtime value.
pub fn push_value(out: &mut Vec<char>, v: &Value)
    ensures
        final(out)@ == old(out)@ + value_text(*v),
{
    match v {
        Value::Int(i) => push_int(out, *i),
        Value::Bool(b) => push_bool(out, *b),
        Value::Ptr(p) => {
            out.push('p'); out.push('t'); out.push('r'); out.push(' ');
            push_dec(out, p.base as u64);
            out.push(' ');
            push_int(out, p.offset);
            proof { assert(out@ =~= old(out)@ + value_text(*v)); }
        },
    }
}


/// Append the argument list from position `i` on.
fn push_args(out: &mut Vec<char>, args: &Vec<Argument>, i: usize)
    requires
        i <= args@.len(),
    ensures
        final(out)@ == old(out)@ + args_text(args@, i as int),
    decreases args@.len() - i,
{
    if i < args.len() {
        push_name(out, &args[i].name);
        out.push(':');
        out.push(' ');
        push_type(out, &args[i].arg_type);
        proof {
            assert(out@ =~= old(out)@ + arg_text(args@[i as int]));
        }
        if i + 1 < args.len() {
            out.push(',');
            out.push(' ');
            push_args(out, args, i + 1);
            proof {
                assert(out@ =~= old(out)@ + args_text(args@, i as int));
            }
        } else {
            proof {
                assert(out@ =~= old(out)@ + args_text(args@, i as int));
            }
        }
    } else {
        proof {
            assert(out@ =~= old(out)@ + args_text(args@, i as int));
        }
    }
}

/// Append operand names from position `i` on, each with its mark.
fn push_names(out: &mut Vec<char>, names: &Vec<String>, mark: Option<char>, i: usize)
    requires
        i <= names@.len(),
    ensures
        final(out)@ == old(out)@ + names_text(
            names@,
            match mark {
                Some(c) => seq![c],
                None => Seq::empty(),
            },
            i as int,
        ),
    decreases names@.len() - i,
{
    if i < names.len() {
        out.push(' ');
        match mark {
            Some(c) => {
                out.push(c);
            },
            None => {},
        }
        push_name(out, &names[i]);
        push_names(out, names, mark, i + 1);
        proof {
            let markseq = match mark {
                Some(c) => seq![c],
                None => Seq::<char>::empty(),
            };
            assert(out@ =~= old(out)@ + names_text(names@, markseq, i as int));
        }
    } else {
        proof {
            let markseq = match mark {
                Some(c) => seq![c],
                None => Seq::<char>::empty(),
            };
            assert(out@ =~= old(out)@ + names_text(names@, markseq, i as int));
        }
    }
}

/// Append the text of one instruction.
fn push_instruction(out: &mut Vec<char>, ins: &Instruction)
    ensures
        final(out)@ == old(out)@ + instruction_text(*ins),
{
    match ins {
        Instruction::Constant { dest, op, pos, const_type, value } => {
            push_name(out, dest);
            out.push(':');
            out.push(' ');
            push_type(out, const_type);
            out.push(' ');
            out.push('=');
            out.push(' ');
            out.push('c'); out.push('o'); out.push('n'); out.push('s'); out.push('t');
            out.push(' ');
            push_literal(out, value);
            out.push(';');
            proof {
                assert(out@ =~= old(out)@ + instruction_text(*ins));
            }
        },
        Instruction::Value { args, dest, funcs, labels, op, pos, op_type } => {
            push_name(out, dest);
            out.push(':');
            out.push(' ');
            push_type(out, op_type);
            out.push(' ');
            out.push('=');
            out.push(' ');
            push_value_op(out, *op);
            push_names(out, funcs, Some('@'), 0);
            push_names(out, args, None, 0);
            push_names(out, labels, Some('.'), 0);
            out.push(';');
            proof {
                assert(out@ =~= old(out)@ + instruction_text(*ins));
            }
        },
        Instruction::Effect { args, funcs, labels, op, pos } => {
            push_effect_op(out, *op);
            push_names(out, funcs, Some('@'), 0);
            push_names(out, args, None, 0);
            push_names(out, labels, Some('.'), 0);
            out.push(';');
            proof {
                assert(out@ =~= old(out)@ + instruction_text(*ins));
            }
        },
    }
}

/// Append the text of one body item.
fn push_code(out: &mut Vec<char>, c: &Code)
    ensures
        final(out)@ == old(out)@ + code_text(*c),
{
    match c {
        Code::Label { label, pos } => {
            out.push('.');
            push_name(out, label);
            out.push(':');
            proof {
                assert(out@ =~= old(out)@ + code_text(*c));
            }
        },
        Code::Instruction(ins) => {
            out.push(' ');
            out.push(' ');
            push_instruction(out, ins);
            proof {
                assert(out@ =~= old(out)@ + code_text(*c));
            }
        },
    }
}

/// Append the body items from position `i` on, one per line.
fn push_codes(out: &mut Vec<char>, instrs: &Vec<Code>, i: usize)
    requires
        i <= instrs@.len(),
    ensures
        final(out)@ == old(out)@ + codes_text(instrs@, i as int),
    decreases instrs@.len() - i,
{
    if i < instrs.len() {
        push_code(out, &instrs[i]);
        out.push('\n');
        push_codes(out, instrs, i + 1);
        proof {
            assert(out@ =~= old(out)@ + codes_text(instrs@, i as int));
        }
    } else {
        proof {
            assert(out@ =~= old(out)@ + codes_text(instrs@, i as int));
        }
    }
}

/// Append the text of one function.
fn push_function(out: &mut Vec<char>, f: &Function)
    ensures
        final(out)@ == old(out)@ + function_text(*f),
{
    out.push('@');
    push_name(out, &f.name);
    if f.args.len() > 0 {
        out.push('(');
        push_args(out, &f.args, 0);
        out.push(')');
    }
    match &f.return_type {
        Some(t) => {
            out.push(':');
            out.push(' ');
            push_type(out, t);
        },
        None => {},
    }
    out.push(' ');
    out.push('{');
    out.push('\n');
    push_codes(out, &f.instrs, 0);
    out.push('}');
    proof {
        assert(out@ =~= old(out)@ + function_text(*f));
    }
}

/// Append the functions from position `i` on, each followed by a newline.
fn push_functions(out: &mut Vec<char>, fs: &Vec<Function>, i: usize)
    requires
        i <= fs@.len(),
    ensures
        final(out)@ == old(out)@ + functions_text(fs@, i as int),
    decreases fs@.len() - i,
{
    if i < fs.len() {
        push_function(out, &fs[i]);
        out.push('\n');
        push_functions(out, fs, i + 1);
        proof {
            assert(out@ =~= old(out)@ + functions_text(fs@, i as int));
        }
    } else {
        proof {
            assert(out@ =~= old(out)@ + functions_text(fs@, i as int));
        }
    }
}

impl Type {
    /// The canonical text of this type.
    pub fn to_text(&self) -> (r: String)
        ensures
            r@ == type_text(*self),
    {
        let mut out: Vec<char> = Vec::new();
        push_type(&mut out, self);
        chars_to_string(&out)
    }
}

impl Literal {
    /// The canonical text of this literal.
    pub fn to_text(&self) -> (r: String)
        ensures
            r@ == literal_text(*self),
    {
        let mut out: Vec<char> = Vec::new();
        push_literal(&mut out, self);
        chars_to_string(&out)
    }
}

impl Instruction {
    /// The canonical text of this instruction.
    pub fn to_text(&self) -> (r: String)
        ensures
            r@ == instruction_text(*self),
    {
        let mut out: Vec<char> = Vec::new();
        push_instruction(&mut out, self);
        chars_to_string(&out)
    }
}

impl Code {
    /// The canonical text of this body item.
    pub fn to_text(&self) -> (r: String)
        ensures
            r@ == code_text(*self),
    {
        let mut out: Vec<char> = Vec::new();
        push_code(&mut out, self);
        chars_to_string(&out)
    }
}

impl Argument {
    /// The canonical text of this argument: `name: type`.
    pub fn to_text(&self) -> (r: String)
        ensures
            r@ == arg_text(*self),
    {
        let mut out: Vec<char> = Vec::new();
        push_name(&mut out, &self.name);
        out.push(':');
        out.push(' ');
        push_type(&mut out, &self.arg_type);
        proof {
            assert(out@ =~= arg_text(*self));
        }
        chars_to_string(&out)
    }
}

impl Function {
    /// The canonical text of this function.
    pub fn to_text(&self) -> (r: String)
        ensures
            r@ == function_text(*self),
    {
        let mut out: Vec<char> = Vec::new();
        push_function(&mut out, self);
        chars_to_string(&out)
    }
}

impl Program {
    /// The canonical text of this program.
    pub fn to_text(&self) -> (r: String)
        ensures
            r@ == program_text(*self),
    {
        let mut out: Vec<char> = Vec::new();
        push_functions(&mut out, &self.functions, 0);
        chars_to_string(&out)
    }
}


impl ConstOps {
    /// The mnemonic of this operation code.
    pub fn to_text(&self) -> (r: String)
        ensures
            r@ == const_op_text(*self),
    {
        let mut out: Vec<char> = Vec::new();
        out.push('c'); out.push('o'); out.push('n'); out.push('s'); out.push('t');
        proof {
            assert(out@ =~= const_op_text(*self));
        }
        chars_to_string(&out)
    }
}

impl ValueOps {
    /// The mnemonic of this operation code.
    pub fn to_text(&self) -> (r: String)
        ensures
            r@ == value_op_text(*self),
    {
        let mut out: Vec<char> = Vec::new();
        push_value_op(&mut out, *self);
        chars_to_string(&out)
    }
}

impl EffectOps {
    /// The mnemonic of this operation code.
    pub fn to_text(&self) -> (r: String)
        ensures
            r@ == effect_op_text(*self),
    {
        let mut out: Vec<char> = Vec::new();
        push_effect_op(&mut out, *self);
        chars_to_string(&out)
    }
}

/// The text of a runtime value, as print formats it.
pub fn value_to_text(v: &Value) -> (r: String)
    ensures
        r@ == value_text(*v),
{
    let mut out: Vec<char> = Vec::new();
    push_value(&mut out, v);
    chars_to_string(&out)
}

} // verus!
