//! Parsing of the canonical text forms of types and literal values, the
//! leaves of the rendering in [`crate::render`]. Parsing a rendered type or
//! literal is proved to give back exactly the value that was rendered.
use vstd::prelude::*;

use crate::program::Literal;
use crate::program::Type;
use crate::render::bool_text;
use crate::render::dec_rep;
use crate::render::digit;
use crate::render::literal_text;
use crate::render::type_text;
use crate::text::str_to_chars;

verus! {

/// Whether a character is a decimal digit.
pub open spec fn is_digit(c: char) -> bool {
    '0' <= c <= '9'
}

/// The numeric value of a decimal digit character.
pub open spec fn digit_val(c: char) -> nat {
    if c == '0' { 0 }
    else if c == '1' { 1 }
    else if c == '2' { 2 }
    else if c == '3' { 3 }
    else if c == '4' { 4 }
    else if c == '5' { 5 }
    else if c == '6' { 6 }
    else if c == '7' { 7 }
    else if c == '8' { 8 }
    else { 9 }
}

/// Whether every character of a sequence is a decimal digit.
pub open spec fn all_digits(s: Seq<char>) -> bool {
    forall|i: int| 0 <= i < s.len() ==> is_digit(#[trigger] s[i])
}

/// The number a digit sequence denotes, most significant digit first.
pub open spec fn dec_value(s: Seq<char>) -> nat
    decreases s.len(),
{
    if s.len() == 0 {
        0
    } else {
        dec_value(s.drop_last()) * 10 + digit_val(s.last())
    }
}

/// The literal a whole character sequence denotes: `true`, `false`, or a
/// decimal integer with an optional leading minus sign, within the 64-bit
/// signed range. Anything else denotes no literal.
pub open spec fn spec_parse_literal(s: Seq<char>) -> Option<Literal> {
    if s == bool_text(true) {
        Some(Literal::Bool(true))
    } else if s == bool_text(false) {
        Some(Literal::Bool(false))
    } else if s.len() >= 2 && s[0] == '-' && all_digits(s.skip(1)) {
        if dec_value(s.skip(1)) <= 0x8000_0000_0000_0000 {
            Some(Literal::Int((-(dec_value(s.skip(1)) as int)) as i64))
        } else {
            None
        }
    } else if s.len() >= 1 && all_digits(s) {
        if dec_value(s) <= i64::MAX as nat {
            Some(Literal::Int(dec_value(s) as i64))
        } else {
            None
        }
    } else {
        None
    }
}

/// The type a prefix of a character sequence denotes, with what follows it:
/// `int`, `bool`, or `ptr<` around an element type.
pub open spec fn spec_parse_type_prefix(s: Seq<char>) -> Option<(Type, Seq<char>)>
    decreases s.len(),
{
    if s.len() >= 3 && s.subrange(0, 3) == seq!['i', 'n', 't'] {
        Some((Type::Int, s.skip(3)))
    } else if s.len() >= 4 && s.subrange(0, 4) == seq!['b', 'o', 'o', 'l'] {
        Some((Type::Bool, s.skip(4)))
    } else if s.len() >= 4 && s.subrange(0, 4) == seq!['p', 't', 'r', '<'] {
        match spec_parse_type_prefix(s.skip(4)) {
            None => None,
            Some((e, rest)) => if rest.len() >= 1 && rest[0] == '>' {
                Some((Type::Pointer(Box::new(e)), rest.skip(1)))
            } else {
                None
            },
        }
    } else {
        None
    }
}

/// The type a whole character sequence denotes, if it is exactly one type.
pub open spec fn spec_parse_type(s: Seq<char>) -> Option<Type> {
    match spec_parse_type_prefix(s) {
        Some((t, rest)) => if rest.len() == 0 {
            Some(t)
        } else {
            None
        },
        None => None,
    }
}

/// Every digit of a rendered number is a digit character, and none of them
/// is a letter or a sign.
proof fn lemma_dec_rep_digits(n: nat)
    ensures
        all_digits(dec_rep(n)),
        dec_rep(n).len() >= 1,
        is_digit(dec_rep(n)[0]),
        dec_rep(n)[0] != '-',
        dec_rep(n)[0] != 't',
        dec_rep(n)[0] != 'f',
    decreases n,
{
    if n < 10 {
    } else {
        lemma_dec_rep_digits(n / 10);
        assert forall|i: int| 0 <= i < dec_rep(n).len() implies is_digit(#[trigger] dec_rep(n)[i]) by {
            if i < dec_rep(n).len() - 1 {
                assert(dec_rep(n)[i] == dec_rep(n / 10)[i]);
            } else {
                assert(dec_rep(n)[i] == digit(n % 10));
            }
        }
    }
}

/// Reading a digit's character back gives the digit.
proof fn lemma_digit_inverse(d: nat)
    requires
        d < 10,
    ensures
        digit_val(digit(d)) == d,
{
}

/// Reading back the decimal representation of a number gives the number.
proof fn lemma_dec_value_inverse(n: nat)
    ensures
        dec_value(dec_rep(n)) == n,
    decreases n,
{
    if n < 10 {
        lemma_digit_inverse(n);
        assert(dec_rep(n) == seq![digit(n)]);
        assert(dec_rep(n).drop_last() =~= Seq::<char>::empty());
        assert(dec_rep(n).last() == digit(n));
        assert(dec_value(Seq::<char>::empty()) == 0);
        assert(dec_value(dec_rep(n)) == dec_value(Seq::<char>::empty()) * 10 + digit_val(
            digit(n),
        ));
        assert(dec_value(dec_rep(n)) == n);
    } else {
        lemma_dec_value_inverse(n / 10);
        lemma_digit_inverse(n % 10);
        assert(dec_rep(n) == dec_rep(n / 10).push(digit(n % 10)));
        assert(dec_rep(n).drop_last() =~= dec_rep(n / 10));
        assert(dec_rep(n).last() == digit(n % 10));
        assert(dec_value(dec_rep(n)) == dec_value(dec_rep(n / 10)) * 10 + digit_val(
            digit(n % 10),
        ));
        assert(n / 10 * 10 + n % 10 == n) by (nonlinear_arith);
        assert(dec_value(dec_rep(n)) == n);
    }
}

/// Parsing renders back: reading the canonical text of any literal gives
/// exactly that literal. One direction of the textual round trip, at the
/// literal level.
pub proof fn lemma_literal_round_trip(l: Literal)
    ensures
        spec_parse_literal(literal_text(l)) == Some(l),
{
    match l {
        Literal::Bool(b) => {
            assert(bool_text(true)[0] == 't');
            assert(bool_text(false)[0] == 'f');
            assert(bool_text(true).len() != bool_text(false).len());
        },
        Literal::Int(i) => {
            let s = literal_text(l);
            if i >= 0 {
                let n = i as nat;
                lemma_dec_rep_digits(n);
                lemma_dec_value_inverse(n);
                assert(s == dec_rep(n));
                assert(s[0] != 't' && bool_text(true)[0] == 't');
                assert(s != bool_text(true));
                assert(s[0] != 'f' && bool_text(false)[0] == 'f');
                assert(s != bool_text(false));
                assert(s[0] != '-');
                assert(dec_value(s) == n <= i64::MAX as nat);
            } else {
                let n = (-(i as int)) as nat;
                lemma_dec_rep_digits(n);
                lemma_dec_value_inverse(n);
                assert(s == seq!['-'] + dec_rep(n));
                assert(s[0] == '-');
                assert(bool_text(true)[0] == 't' && bool_text(false)[0] == 'f');
                assert(s != bool_text(true) && s != bool_text(false));
                assert(s.skip(1) =~= dec_rep(n));
                assert(s.len() >= 2);
                assert(dec_value(s.skip(1)) == n <= 0x8000_0000_0000_0000);
                assert((-(n as int)) as i64 == i);
            }
        },
    }
}

/// Parsing renders back: reading the canonical text of any type, followed
/// by anything at all, gives exactly that type and leaves the rest. One
/// direction of the textual round trip, at the type level.
pub proof fn lemma_type_prefix_round_trip(t: Type, rest: Seq<char>)
    ensures
        spec_parse_type_prefix(type_text(t) + rest) == Some((t, rest)),
    decreases t,
{
    let s = type_text(t) + rest;
    match t {
        Type::Int => {
            assert(s.subrange(0, 3) =~= seq!['i', 'n', 't']);
            assert(s.skip(3) =~= rest);
        },
        Type::Bool => {
            assert(s.subrange(0, 3)[0] == 'b');
            assert(s.subrange(0, 3) != seq!['i', 'n', 't']);
            assert(s.subrange(0, 4) =~= seq!['b', 'o', 'o', 'l']);
            assert(s.skip(4) =~= rest);
        },
        Type::Pointer(e) => {
            assert(s[0] == 'p');
            if s.len() >= 3 && s.subrange(0, 3) == seq!['i', 'n', 't'] {
                assert(s.subrange(0, 3)[0] == 'i');
                assert(false);
            }
            if s.len() >= 4 && s.subrange(0, 4) == seq!['b', 'o', 'o', 'l'] {
                assert(s.subrange(0, 4)[0] == 'b');
                assert(false);
            }
            assert(s.subrange(0, 4) =~= seq!['p', 't', 'r', '<']);
            lemma_type_prefix_round_trip(*e, seq!['>'] + rest);
            assert(s.skip(4) =~= type_text(*e) + (seq!['>'] + rest));
            let inner = spec_parse_type_prefix(s.skip(4));
            assert(inner == Some((*e, seq!['>'] + rest)));
            assert((seq!['>'] + rest)[0] == '>');
            assert((seq!['>'] + rest).skip(1) =~= rest);
        },
    }
}

/// Reading the canonical text of a type gives exactly that type back.
pub proof fn lemma_type_round_trip(t: Type)
    ensures
        spec_parse_type(type_text(t)) == Some(t),
{
    lemma_type_prefix_round_trip(t, Seq::empty());
    assert(type_text(t) + Seq::<char>::empty() =~= type_text(t));
}

/// The value of a digit prefix never shrinks as more digits follow.
proof fn lemma_dec_value_monotone(s: Seq<char>, k: int)
    requires
        0 <= k <= s.len(),
    ensures
        dec_value(s.take(k)) <= dec_value(s),
    decreases s.len() - k,
{
    if k < s.len() {
        lemma_dec_value_monotone(s, k + 1);
        assert(s.take(k + 1).drop_last() =~= s.take(k));
        assert(dec_value(s.take(k + 1)) == dec_value(s.take(k)) * 10 + digit_val(
            s.take(k + 1).last(),
        ));
    } else {
        assert(s.take(k) =~= s);
    }
}

/// The digit character of a value, executable.
fn digit_value(c: char) -> (r: Option<u64>)
    ensures
        r == if is_digit(c) {
            Some(digit_val(c) as u64)
        } else {
            None::<u64>
        },
{
    match c {
        '0' => Some(0),
        '1' => Some(1),
        '2' => Some(2),
        '3' => Some(3),
        '4' => Some(4),
        '5' => Some(5),
        '6' => Some(6),
        '7' => Some(7),
        '8' => Some(8),
        '9' => Some(9),
        _ => None,
    }
}

/// The number a digit sequence denotes, when all its characters are digits
/// and the value stays within the bound; `None` otherwise.
fn parse_magnitude(v: &Vec<char>, from: usize, bound: u64) -> (r: Option<u64>)
    requires
        from <= v@.len(),
    ensures
        (match r {
            Some(m) => all_digits(v@.skip(from as int)) && dec_value(v@.skip(from as int))
                == m as nat && m <= bound,
            None => !all_digits(v@.skip(from as int)) || dec_value(v@.skip(from as int))
                > bound as nat,
        }),
{
    let ghost s = v@.skip(from as int);
    let mut acc: u64 = 0;
    let mut i: usize = from;
    while i < v.len()
        invariant
            from <= i <= v@.len(),
            s == v@.skip(from as int),
            all_digits(s.take(i - from)),
            acc as nat == dec_value(s.take(i - from)),
            acc <= bound,
        decreases v@.len() - i,
    {
        let d = match digit_value(v[i]) {
            Some(d) => d,
            None => {
                proof {
                    assert(s[i - from] == v@[i as int]);
                    assert(!all_digits(s));
                }
                return None;
            },
        };
        let wide: u128 = acc as u128 * 10 + d as u128;
        proof {
            assert(s.take(i - from + 1).drop_last() =~= s.take(i - from));
            assert(s.take(i - from + 1).last() == v@[i as int]);
        }
        if wide > bound as u128 {
            proof {
                assert(dec_value(s.take(i - from + 1)) == wide);
                lemma_dec_value_monotone(s, i - from + 1);
            }
            return None;
        }
        acc = wide as u64;
        i += 1;
    }
    proof {
        assert(s.take(i - from) =~= s);
    }
    Some(acc)
}

/// The literal a string denotes, if any: `true`, `false`, or a decimal
/// integer in the 64-bit signed range.
pub fn parse_literal(text: &str) -> (r: Option<Literal>)
    ensures
        r == spec_parse_literal(text@),
{
    let v = str_to_chars(text);
    if v.len() == 4 && v[0] == 't' && v[1] == 'r' && v[2] == 'u' && v[3] == 'e' {
        proof {
            assert(v@ =~= bool_text(true));
        }
        return Some(Literal::Bool(true));
    }
    if v.len() == 5 && v[0] == 'f' && v[1] == 'a' && v[2] == 'l' && v[3] == 's' && v[4] == 'e' {
        proof {
            assert(v@ =~= bool_text(false));
        }
        return Some(Literal::Bool(false));
    }
    proof {
        if v@ == bool_text(true) {
            assert(v@.len() == 4 && v@[0] == 't' && v@[1] == 'r' && v@[2] == 'u' && v@[3]
                == 'e');
        }
        if v@ == bool_text(false) {
            assert(v@.len() == 5 && v@[0] == 'f' && v@[1] == 'a' && v@[2] == 'l' && v@[3]
                == 's' && v@[4] == 'e');
        }
    }
    if v.len() >= 2 && v[0] == '-' {
        match parse_magnitude(&v, 1, 0x8000_0000_0000_0000) {
            None => {
                proof {
                    assert(!is_digit('-'));
                    assert(v@[0] == '-');
                    assert(!all_digits(v@));
                    assert(spec_parse_literal(text@) is None);
                }
                None
            },
            Some(m) => {
                let r: i64 = if m == 0x8000_0000_0000_0000 {
                    i64::MIN
                } else {
                    -(m as i64)
                };
                proof {
                    assert(v@.skip(1) == text@.skip(1));
                }
                Some(Literal::Int(r))
            },
        }
    } else if v.len() >= 1 {
        match parse_magnitude(&v, 0, i64::MAX as u64) {
            None => {
                proof {
                    assert(v@.skip(0) =~= v@);
                    assert(spec_parse_literal(text@) is None);
                }
                None
            },
            Some(m) => {
                proof {
                    assert(v@.skip(0) =~= v@);
                }
                Some(Literal::Int(m as i64))
            },
        }
    } else {
        proof {
            assert(spec_parse_literal(text@) is None);
        }
        None
    }
}

/// The type a prefix of the characters denotes, and the position just past
/// it.
fn parse_type_at(v: &Vec<char>, from: usize) -> (r: Option<(Type, usize)>)
    requires
        from <= v@.len(),
    ensures
        (match r {
            Some(p) => from <= p.1 <= v@.len() && spec_parse_type_prefix(v@.skip(from as int))
                == Some((p.0, v@.skip(p.1 as int))),
            None => spec_parse_type_prefix(v@.skip(from as int)) is None,
        }),
    decreases v@.len() - from,
{
    let ghost s = v@.skip(from as int);
    let n = v.len();
    if n - from >= 3 && v[from] == 'i' && v[from + 1] == 'n' && v[from + 2] == 't' {
        proof {
            assert(s.subrange(0, 3) =~= seq!['i', 'n', 't']);
            assert(s.skip(3) =~= v@.skip(from + 3));
        }
        return Some((Type::Int, from + 3));
    }
    if n - from >= 4 && v[from] == 'b' && v[from + 1] == 'o' && v[from + 2] == 'o' && v[from + 3]
        == 'l' {
        proof {
            assert(s.len() < 3 || s.subrange(0, 3)[0] == 'b');
            assert(s.subrange(0, 4) =~= seq!['b', 'o', 'o', 'l']);
            assert(s.skip(4) =~= v@.skip(from + 4));
        }
        return Some((Type::Bool, from + 4));
    }
    if n - from >= 4 && v[from] == 'p' && v[from + 1] == 't' && v[from + 2] == 'r' && v[from + 3]
        == '<' {
        proof {
            assert(s.len() < 3 || s.subrange(0, 3)[0] == 'p');
            assert(s.len() < 4 || s.subrange(0, 4)[0] == 'p');
            assert(s.subrange(0, 4) =~= seq!['p', 't', 'r', '<']);
            assert(s.skip(4) =~= v@.skip(from + 4));
        }
        match parse_type_at(v, from + 4) {
            None => {
                return None;
            },
            Some(inner) => {
                let e = inner.0;
                let after = inner.1;
                if after < n && v[after] == '>' {
                    proof {
                        assert(v@.skip(after as int)[0] == '>');
                        assert(v@.skip(after as int).skip(1) =~= v@.skip(after + 1));
                    }
                    return Some((Type::Pointer(Box::new(e)), after + 1));
                } else {
                    proof {
                        if after < v@.len() {
                            assert(v@.skip(after as int)[0] == v@[after as int]);
                        }
                    }
                    return None;
                }
            },
        }
    }
    proof {
        if s.len() >= 3 && s.subrange(0, 3) == seq!['i', 'n', 't'] {
            assert(v@[from as int] == s[0] && s.subrange(0, 3)[0] == 'i');
            assert(v@[from + 1] == s[1] && s.subrange(0, 3)[1] == 'n');
            assert(v@[from + 2] == s[2] && s.subrange(0, 3)[2] == 't');
            assert(false);
        }
        if s.len() >= 4 && s.subrange(0, 4) == seq!['b', 'o', 'o', 'l'] {
            assert(v@[from as int] == s[0] && s.subrange(0, 4)[0] == 'b');
            assert(v@[from + 1] == s[1] && s.subrange(0, 4)[1] == 'o');
            assert(v@[from + 2] == s[2] && s.subrange(0, 4)[2] == 'o');
            assert(v@[from + 3] == s[3] && s.subrange(0, 4)[3] == 'l');
            assert(false);
        }
        if s.len() >= 4 && s.subrange(0, 4) == seq!['p', 't', 'r', '<'] {
            assert(v@[from as int] == s[0] && s.subrange(0, 4)[0] == 'p');
            assert(v@[from + 1] == s[1] && s.subrange(0, 4)[1] == 't');
            assert(v@[from + 2] == s[2] && s.subrange(0, 4)[2] == 'r');
            assert(v@[from + 3] == s[3] && s.subrange(0, 4)[3] == '<');
            assert(false);
        }
    }
    None
}

/// The type a whole string denotes, if it is exactly one canonical type.
pub fn parse_type(text: &str) -> (r: Option<Type>)
    ensures
        r == spec_parse_type(text@),
{
    let v = str_to_chars(text);
    proof {
        assert(v@.skip(0) =~= v@);
    }
    match parse_type_at(&v, 0) {
        None => None,
        Some(p) => {
            if p.1 == v.len() {
                proof {
                    assert(v@.skip(p.1 as int).len() == 0);
                }
                Some(p.0)
            } else {
                proof {
                    assert(v@.skip(p.1 as int).len() > 0);
                }
                None
            }
        },
    }
}

} // verus!
