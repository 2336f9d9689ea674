//! The IR data model: functions, instructions, operation codes, types and
//! literal values. Immutable once loaded; the execution engine only reads it.
use vstd::prelude::*;

verus! {

/// A source position, kept for diagnostics only; it never affects execution.
#[derive(Debug, Clone, Copy, PartialEq, Eq, Structural)]
pub struct Position {
    /// Column
    pub col: u64,
    /// Row
    pub row: u64,
}

/// The closed set of value types: integer, boolean, and pointer-to-type.
/// Two types are compatible only if structurally identical.
pub enum Type {
    /// 64-bit two's-complement integer
    Int,
    /// Boolean
    Bool,
    /// Pointer into one heap allocation, indexing values of the element type
    Pointer(Box<Type>),
}

/// A literal value as it appears in a constant instruction.
#[derive(Debug, Clone)]
pub enum Literal {
    /// Integer literal
    Int(i64),
    /// Boolean literal
    Bool(bool),
}

/// The single operation code of constant instructions.
#[derive(Debug, Clone, Copy, PartialEq, Eq, Structural)]
pub enum ConstOps {
    /// `const`
    Const,
}

/// Operation codes of effect instructions (no destination variable).
#[derive(Debug, Clone, Copy, PartialEq, Eq, Structural)]
pub enum EffectOps {
    /// `jmp`: unconditional transfer to a label
    Jump,
    /// `br`: conditional transfer, choosing one of two labels
    Branch,
    /// `call`: function call whose result, if any, is discarded
    Call,
    /// `ret`: return from the current call, with an optional value
    Return,
    /// `print`: write the arguments, formatted by runtime type
    Print,
    /// `nop`: do nothing
    Nop,
    /// `store`: write a value into a heap cell (memory extension)
    Store,
    /// `free`: explicitly release an allocation (memory extension)
    Free,
    /// `speculate`: enter speculative execution (speculation extension)
    Speculate,
    /// `commit`: leave speculative execution, keeping its effects
    Commit,
    /// `guard`: keep speculating if the condition holds, else roll back
    Guard,
}

/// Operation codes of value instructions (they bind a destination variable).
#[derive(Debug, Clone, Copy, PartialEq, Eq, Structural)]
pub enum ValueOps {
    /// Integer addition, wrapping on overflow
    Add,
    /// Integer subtraction, wrapping on overflow
    Sub,
    /// Integer multiplication, wrapping on overflow
    Mul,
    /// Integer division, truncating; division by zero is a fatal error
    Div,
    /// Integer equality
    Eq,
    /// Integer strictly-less-than
    Lt,
    /// Integer strictly-greater-than
    Gt,
    /// Integer less-than-or-equal
    Le,
    /// Integer greater-than-or-equal
    Ge,
    /// Boolean negation
    Not,
    /// Boolean conjunction, not short-circuiting
    And,
    /// Boolean disjunction, not short-circuiting
    Or,
    /// Function call whose result is bound to the destination
    Call,
    /// Copy a value unchanged
    Id,
    /// Reserve a fresh heap allocation (memory extension)
    Alloc,
    /// Read one heap cell through a pointer (memory extension)
    Load,
    /// Move a pointer by an integer offset (memory extension)
    PtrAdd,
}

/// One instruction, in one of three shapes: a constant binding, a value
/// operation with a destination, or an effect operation without one.
pub enum Instruction {
    /// Bind a literal of the declared type to the destination variable.
    Constant {
        /// destination variable
        dest: String,
        /// `const`
        op: ConstOps,
        /// The source position of the instruction if provided
        pos: Option<Position>,
        /// Declared type of the destination
        const_type: Type,
        /// The literal being stored in the variable
        value: Literal,
    },
    /// Compute a value from arguments and bind it to the destination.
    Value {
        /// List of variables as arguments
        args: Vec<String>,
        /// destination variable
        dest: String,
        /// List of function names
        funcs: Vec<String>,
        /// List of labels
        labels: Vec<String>,
        /// Operation being executed
        op: ValueOps,
        /// The source position of the instruction if provided
        pos: Option<Position>,
        /// Declared type of the destination
        op_type: Type,
    },
    /// Perform an effect; binds no variable.
    Effect {
        /// List of variables as arguments
        args: Vec<String>,
        /// List of function names
        funcs: Vec<String>,
        /// List of labels
        labels: Vec<String>,
        /// Operation being executed
        op: EffectOps,
        /// The source position of the instruction if provided
        pos: Option<Position>,
    },
}

/// One item of a function body: a label, or an instruction. Labels are names
/// bound to positions; instruction identity within a function is its position.
pub enum Code {
    /// A label naming the position it stands at
    Label {
        /// The name of the label
        label: String,
        /// Where the label is located in source code
        pos: Option<Position>,
    },
    /// An instruction
    Instruction(Instruction),
}

/// An argument of a function: a name and its declared type.
pub struct Argument {
    /// The argument's name
    pub name: String,
    /// The argument's declared type
    pub arg_type: Type,
}

/// A named function: ordered parameters, an optional return type, and an
/// ordered sequence of labeled or unlabeled instructions.
pub struct Function {
    /// Any arguments the function accepts
    pub args: Vec<Argument>,
    /// The instructions of this function
    pub instrs: Vec<Code>,
    /// The name of the function
    pub name: String,
    /// The position of this function in the original source code
    pub pos: Option<Position>,
    /// The possible return type of this function
    pub return_type: Option<Type>,
}

/// A whole program: a list of functions.
pub struct Program {
    /// A list of functions declared in the program
    pub functions: Vec<Function>,
}

impl Instruction {
    /// A helper function to extract the position value if it exists from an
    /// instruction.
    pub fn get_pos(&self) -> (r: Option<Position>)
        ensures
            r == self.spec_pos(),
    {
        match self {
            Instruction::Constant { pos, .. }
            | Instruction::Value { pos, .. }
            | Instruction::Effect { pos, .. } => *pos,
        }
    }

    /// The position field, whichever shape the instruction has.
    pub open spec fn spec_pos(&self) -> Option<Position> {
        match self {
            Instruction::Constant { pos, .. } => *pos,
            Instruction::Value { pos, .. } => *pos,
            Instruction::Effect { pos, .. } => *pos,
        }
    }
}

impl Literal {
    /// The type a literal carries: an integer literal has type `int`, a
    /// boolean literal type `bool`.
    pub fn get_type(&self) -> (r: Type)
        ensures
            r == self.spec_type(),
    {
        match self {
            Literal::Int(_) => Type::Int,
            Literal::Bool(_) => Type::Bool,
        }
    }

    /// The type of a literal, at the specification level.
    pub open spec fn spec_type(&self) -> Type {
        match self {
            Literal::Int(_) => Type::Int,
            Literal::Bool(_) => Type::Bool,
        }
    }
}

/// Structural type equality: pointer types compare element types recursively.
pub fn type_eq(a: &Type, b: &Type) -> (r: bool)
    ensures
        r == (a == b),
    decreases a,
{
    match (a, b) {
        (Type::Int, Type::Int) => true,
        (Type::Bool, Type::Bool) => true,
        (Type::Pointer(ea), Type::Pointer(eb)) => type_eq(ea, eb),
        _ => false,
    }
}

/// An exact copy of a type, stated as such so contracts can rely on it.
pub fn clone_type(t: &Type) -> (r: Type)
    ensures
        r == *t,
    decreases t,
{
    match t {
        Type::Int => Type::Int,
        Type::Bool => Type::Bool,
        Type::Pointer(e) => Type::Pointer(Box::new(clone_type(e))),
    }
}

/// An exact copy of a literal.
pub fn clone_literal(l: &Literal) -> (r: Literal)
    ensures
        r == *l,
{
    match l {
        Literal::Int(i) => Literal::Int(*i),
        Literal::Bool(b) => Literal::Bool(*b),
    }
}

/// An exact copy of a list of names.
pub fn clone_names(v: &Vec<String>) -> (r: Vec<String>)
    ensures
        r@ == v@,
{
    let mut out: Vec<String> = Vec::new();
    let mut i: usize = 0;
    while i < v.len()
        invariant
            0 <= i <= v@.len(),
            out@ =~= v@.take(i as int),
        decreases v@.len() - i,
    {
        out.push(v[i].clone());
        i += 1;
        proof {
            assert(out@ =~= v@.take(i as int));
        }
    }
    proof {
        assert(out@ =~= v@);
    }
    out
}

} // verus!
