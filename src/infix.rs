//! Expression grammars built from operator layers by precedence climbing.
//!
//! Level 0 of a grammar is its atom: a literal after an optional sign, or an
//! expression of the top level between brackets. Level `k` (from 1) is the
//! layer `layers[k - 1]`, whose operands are, unless it says otherwise,
//! expressions of level `k - 1`; so later layers bind more loosely.
use vstd::prelude::*;

use crate::character::Character;
use crate::error::{complete, finish, Expected, ParseError};
use crate::numeric::{after_sign, signed, Literal};

verus! {

/// How the operators of a layer stand to their operands.
#[derive(Clone, Copy, Debug, PartialEq, Eq, Structural)]
pub enum Fixity {
    /// Any number of operators before an operand; the nearest binds first.
    Prefix,
    /// At most one operator before an operand.
    PrefixOnce,
    /// Any number of operators after an operand; the nearest binds first.
    Postfix,
    /// At most one operator after an operand.
    PostfixOnce,
    /// At most one operator between two operands.
    Binary,
    /// Operators between operands, grouped from the left.
    Left,
    /// Operators between operands, grouped from the right.
    Right,
}

/// One level of operators.
#[derive(Debug)]
pub struct Layer {
    pub fixity: Fixity,
    /// The operators, each one ASCII character.
    pub operators: Vec<u8>,
    /// For `Binary` and `Right`: the level of the operands that stand before
    /// an operator, in place of the next tighter level. Only a tighter level
    /// than this layer's own is taken; any other is ignored.
    pub before: Option<usize>,
    /// For `Binary` and `Left`: the level of the operands that stand after an
    /// operator, in place of the next tighter level. Any level up to the top
    /// is taken; one above the top is ignored.
    pub after: Option<usize>,
}

/// A parsed expression.
#[derive(Debug)]
pub enum Expr<T> {
    Atom(T),
    Prefix(u8, Box<Expr<T>>),
    Postfix(Box<Expr<T>>, u8),
    Infix(Box<Expr<T>>, u8, Box<Expr<T>>),
}

/// An expression grammar: its atoms, its brackets and its operator layers,
/// from the tightest to the loosest.
#[derive(Debug)]
pub struct Grammar<L> {
    /// The literal of the atoms.
    pub atom: L,
    /// Whether a `+` may stand before a literal (a `-` always may).
    pub plus_sign: bool,
    /// The opening bracket.
    pub open: u8,
    /// The closing bracket.
    pub close: u8,
    pub layers: Vec<Layer>,
}

/// The operator at `q`, if the character there is one of `ops`.
pub open spec fn op_spec<C: Character>(s: Seq<C>, q: int, ops: Seq<u8>) -> Option<u8> {
    if 0 <= q < s.len() && exists|j: int| 0 <= j < ops.len() && #[trigger] ops[j] as nat == s[q].code() {
        Some(s[q].code() as u8)
    } else {
        None
    }
}

/// The level of the operands before an operator in layer `k`.
pub open spec fn before_level(layer: Layer, k: int) -> int {
    match layer.before {
        Some(l) => if l < k {
            l as int
        } else {
            k - 1
        },
        None => k - 1,
    }
}

/// The level of the operands after an operator in layer `k`.
pub open spec fn after_level(layer: Layer, k: int, top: int) -> int {
    match layer.after {
        Some(l) => if l <= top {
            l as int
        } else {
            k - 1
        },
        None => k - 1,
    }
}

/// Operators after `acc`, which ends at `q`, each applied to all before it.
pub open spec fn postfix_spec<C: Character, T>(s: Seq<C>, ops: Seq<u8>, acc: Expr<T>, q: int) -> (Expr<T>, usize)
    decreases s.len() - q,
{
    if 0 <= q < s.len() && op_spec(s, q, ops) is Some {
        postfix_spec(s, ops, Expr::Postfix(Box::new(acc), op_spec(s, q, ops)->0), q + 1)
    } else {
        (acc, q as usize)
    }
}

/// The expression of `level` at `pos`, and the position after it. (A
/// position outside the input, or a level that the grammar lacks, gives a
/// failure; the parsers never ask for either.)
pub open spec fn expr_spec<C: Character, T, L: Literal<C, T>>(g: Grammar<L>, s: Seq<C>, pos: int, level: int) -> Result<(Expr<T>, usize), ParseError>
    decreases s.len() - pos, level, 2int,
{
    if pos < 0 || pos > s.len() || level < 0 || level > g.layers@.len() {
        Err(ParseError { position: pos as usize, expected: Expected::End })
    } else if level == 0 {
        if pos < s.len() && s[pos].code() == g.open as nat {
            match expr_spec(g, s, pos + 1, g.layers@.len() as int) {
                Ok((x, q)) => if q < s.len() && s[q as int].code() == g.close as nat {
                    Ok((x, (q + 1) as usize))
                } else {
                    Err(ParseError { position: q, expected: Expected::Character(g.close) })
                },
                Err(e) => Err(e),
            }
        } else {
            match g.atom.spec_parse(s, after_sign(s, pos, g.plus_sign).0, after_sign(s, pos, g.plus_sign).1) {
                Ok((v, q)) => Ok((Expr::Atom(v), q)),
                Err(e) => Err(e),
            }
        }
    } else {
        let layer = g.layers@[level - 1];
        let ops = layer.operators@;
        match layer.fixity {
            Fixity::Prefix => prefix_spec(g, s, pos, level),
            Fixity::PrefixOnce => match op_spec(s, pos, ops) {
                Some(op) => match expr_spec(g, s, pos + 1, level - 1) {
                    Ok((x, q)) => Ok((Expr::Prefix(op, Box::new(x)), q)),
                    Err(e) => Err(e),
                },
                None => expr_spec(g, s, pos, level - 1),
            },
            Fixity::Postfix => match expr_spec(g, s, pos, level - 1) {
                Ok((x, q)) => Ok(postfix_spec(s, ops, x, q as int)),
                Err(e) => Err(e),
            },
            Fixity::PostfixOnce => match expr_spec(g, s, pos, level - 1) {
                Ok((x, q)) => match op_spec(s, q as int, ops) {
                    Some(op) => Ok((Expr::Postfix(Box::new(x), op), (q + 1) as usize)),
                    None => Ok((x, q)),
                },
                Err(e) => Err(e),
            },
            Fixity::Binary => match expr_spec(g, s, pos, before_level(layer, level)) {
                Ok((x, q)) => if q >= pos && op_spec(s, q as int, ops) is Some {
                    match expr_spec(g, s, q + 1, after_level(layer, level, g.layers@.len() as int)) {
                        Ok((y, e)) => Ok((Expr::Infix(Box::new(x), op_spec(s, q as int, ops)->0, Box::new(y)), e)),
                        Err(_) => Ok((x, q)),
                    }
                } else {
                    Ok((x, q))
                },
                Err(e) => Err(e),
            },
            Fixity::Left => match expr_spec(g, s, pos, level - 1) {
                Ok((x, q)) => if pos <= q <= s.len() {
                    Ok(left_spec(g, s, level, x, q as int))
                } else {
                    Ok((x, q))
                },
                Err(e) => Err(e),
            },
            Fixity::Right => right_spec(g, s, pos, level),
        }
    }
}

/// A run of operators of the `Prefix` layer `k` at `q`, then its operand.
pub open spec fn prefix_spec<C: Character, T, L: Literal<C, T>>(g: Grammar<L>, s: Seq<C>, q: int, k: int) -> Result<(Expr<T>, usize), ParseError>
    decreases s.len() - q, k, 1int,
{
    if q < 0 || q > s.len() || k < 1 || k > g.layers@.len() {
        Err(ParseError { position: q as usize, expected: Expected::End })
    } else {
        match op_spec(s, q, g.layers@[k - 1].operators@) {
            Some(op) => match prefix_spec(g, s, q + 1, k) {
                Ok((x, e)) => Ok((Expr::Prefix(op, Box::new(x)), e)),
                Err(e) => Err(e),
            },
            None => expr_spec(g, s, q, k - 1),
        }
    }
}

/// Pairs of an operator of the `Left` layer `k` and an operand after `acc`,
/// which ends at `q`, each grouped with all before it. A pair whose operand
/// fails is not read.
pub open spec fn left_spec<C: Character, T, L: Literal<C, T>>(g: Grammar<L>, s: Seq<C>, k: int, acc: Expr<T>, q: int) -> (Expr<T>, usize)
    decreases s.len() - q, k, 0int,
{
    if q < 0 || q > s.len() || k < 1 || k > g.layers@.len() {
        (acc, q as usize)
    } else {
        let layer = g.layers@[k - 1];
        match op_spec(s, q, layer.operators@) {
            Some(op) => match expr_spec(g, s, q + 1, after_level(layer, k, g.layers@.len() as int)) {
                Ok((y, e)) => if q < e <= s.len() {
                    left_spec(g, s, k, Expr::Infix(Box::new(acc), op, Box::new(y)), e as int)
                } else {
                    (acc, q as usize)
                },
                Err(_) => (acc, q as usize),
            },
            None => (acc, q as usize),
        }
    }
}

/// Pairs of an operand and an operator of the `Right` layer `k` from `q`,
/// then a last operand, grouped from the right. A pair without its operator
/// is not read.
pub open spec fn right_spec<C: Character, T, L: Literal<C, T>>(g: Grammar<L>, s: Seq<C>, q: int, k: int) -> Result<(Expr<T>, usize), ParseError>
    decreases s.len() - q, k, 1int,
{
    if q < 0 || q > s.len() || k < 1 || k > g.layers@.len() {
        Err(ParseError { position: q as usize, expected: Expected::End })
    } else {
        let layer = g.layers@[k - 1];
        match expr_spec(g, s, q, before_level(layer, k)) {
            Ok((x, e)) => if e >= q && op_spec(s, e as int, layer.operators@) is Some {
                match right_spec(g, s, e + 1, k) {
                    Ok((rest, end)) => Ok(
                        (Expr::Infix(Box::new(x), op_spec(s, e as int, layer.operators@)->0, Box::new(rest)), end),
                    ),
                    Err(err) => Err(err),
                }
            } else {
                expr_spec(g, s, q, k - 1)
            },
            Err(_) => expr_spec(g, s, q, k - 1),
        }
    }
}

/// The operator at `q`, if the character there is one of `ops`.
fn operator_at<C: Character>(input: &[C], q: usize, ops: &Vec<u8>) -> (r: Option<u8>)
    requires
        q <= input@.len(),
    ensures
        r == op_spec(input@, q as int, ops@),
        input@.len() <= usize::MAX,
{
    if q >= input.len() {
        return None;
    }
    let mut j: usize = 0;
    while j < ops.len()
        invariant
            j <= ops@.len(),
            q < input@.len(),
            forall|i: int| 0 <= i < j ==> ops@[i] as nat != input@[q as int].code(),
        decreases ops@.len() - j,
    {
        if input[q].eq_byte(ops[j]) {
            return Some(ops[j]);
        }
        j = j + 1;
    }
    None
}

fn before_level_of(layer: &Layer, k: usize) -> (r: usize)
    requires
        k >= 1,
    ensures
        r as int == before_level(*layer, k as int),
{
    match layer.before {
        Some(l) => if l < k {
            l
        } else {
            k - 1
        },
        None => k - 1,
    }
}

fn after_level_of(layer: &Layer, k: usize, top: usize) -> (r: usize)
    requires
        1 <= k <= top,
    ensures
        r as int == after_level(*layer, k as int, top as int),
        r <= top,
{
    match layer.after {
        Some(l) => if l <= top {
            l
        } else {
            k - 1
        },
        None => k - 1,
    }
}

/// Parses an expression of `level` at `pos`: the expression and the
/// position after it.
pub fn parse_level<C: Character, T, L: Literal<C, T>>(g: &Grammar<L>, input: &[C], pos: usize, level: usize) -> (r: Result<(Expr<T>, usize), ParseError>)
    requires
        g.atom.well_formed(),
        pos <= input@.len(),
        level <= g.layers@.len(),
    ensures
        r == expr_spec::<C, T, L>(*g, input@, pos as int, level as int),
        r is Ok ==> pos < (r->Ok_0).1 <= input@.len(),
    decreases input@.len() - pos, level, 2int,
{
    let len = input.len();
    if level == 0 {
        if pos < len && input[pos].eq_byte(g.open) {
            match parse_level(g, input, pos + 1, g.layers.len()) {
                Ok((x, q)) => if q < len && input[q].eq_byte(g.close) {
                    Ok((x, q + 1))
                } else {
                    Err(ParseError::new(q, Expected::Character(g.close)))
                },
                Err(e) => Err(e),
            }
        } else {
            match signed(&g.atom, input, pos, g.plus_sign) {
                Ok((v, q)) => Ok((Expr::Atom(v), q)),
                Err(e) => Err(e),
            }
        }
    } else {
        let layer = &g.layers[level - 1];
        match layer.fixity {
            Fixity::Prefix => parse_prefix(g, input, pos, level),
            Fixity::PrefixOnce => match operator_at(input, pos, &layer.operators) {
                Some(op) => match parse_level(g, input, pos + 1, level - 1) {
                    Ok((x, q)) => Ok((Expr::Prefix(op, Box::new(x)), q)),
                    Err(e) => Err(e),
                },
                None => parse_level(g, input, pos, level - 1),
            },
            Fixity::Postfix => match parse_level(g, input, pos, level - 1) {
                Ok((x, q)) => Ok(parse_postfix(input, &layer.operators, x, q)),
                Err(e) => Err(e),
            },
            Fixity::PostfixOnce => match parse_level(g, input, pos, level - 1) {
                Ok((x, q)) => match operator_at(input, q, &layer.operators) {
                    Some(op) => Ok((Expr::Postfix(Box::new(x), op), q + 1)),
                    None => Ok((x, q)),
                },
                Err(e) => Err(e),
            },
            Fixity::Binary => match parse_level(g, input, pos, before_level_of(layer, level)) {
                Ok((x, q)) => match operator_at(input, q, &layer.operators) {
                    Some(op) => match parse_level(
                        g,
                        input,
                        q + 1,
                        after_level_of(layer, level, g.layers.len()),
                    ) {
                        Ok((y, e)) => Ok((Expr::Infix(Box::new(x), op, Box::new(y)), e)),
                        Err(_) => Ok((x, q)),
                    },
                    None => Ok((x, q)),
                },
                Err(e) => Err(e),
            },
            Fixity::Left => match parse_level(g, input, pos, level - 1) {
                Ok((x, q)) => Ok(parse_left(g, input, level, x, q)),
                Err(e) => Err(e),
            },
            Fixity::Right => parse_right(g, input, pos, level),
        }
    }
}

/// A run of operators of the `Prefix` layer `k` at `q`, then its operand.
fn parse_prefix<C: Character, T, L: Literal<C, T>>(g: &Grammar<L>, input: &[C], q: usize, k: usize) -> (r: Result<(Expr<T>, usize), ParseError>)
    requires
        g.atom.well_formed(),
        q <= input@.len(),
        1 <= k <= g.layers@.len(),
    ensures
        r == prefix_spec::<C, T, L>(*g, input@, q as int, k as int),
        r is Ok ==> q < (r->Ok_0).1 <= input@.len(),
    decreases input@.len() - q, k, 1int,
{
    match operator_at(input, q, &g.layers[k - 1].operators) {
        Some(op) => match parse_prefix(g, input, q + 1, k) {
            Ok((x, e)) => Ok((Expr::Prefix(op, Box::new(x)), e)),
            Err(e) => Err(e),
        },
        None => parse_level(g, input, q, k - 1),
    }
}

/// Operators of `ops` after `acc`, which ends at `q`.
fn parse_postfix<C: Character, T>(input: &[C], ops: &Vec<u8>, acc: Expr<T>, q: usize) -> (r: (Expr<T>, usize))
    requires
        q <= input@.len(),
    ensures
        r == postfix_spec(input@, ops@, acc, q as int),
        q <= r.1 <= input@.len(),
{
    proof {
        assert(input@.len() == input.len());
    }
    let mut tree = acc;
    let mut at = q;
    loop
        invariant
            input@.len() <= usize::MAX,
            q <= at <= input@.len(),
            postfix_spec(input@, ops@, acc, q as int) == postfix_spec(input@, ops@, tree, at as int),
        decreases input@.len() - at,
    {
        match operator_at(input, at, ops) {
            Some(op) => {
                tree = Expr::Postfix(Box::new(tree), op);
                at = at + 1;
            },
            None => return (tree, at),
        }
    }
}

/// Pairs of an operator of the `Left` layer `k` and an operand after `acc`,
/// which ends at `q`.
fn parse_left<C: Character, T, L: Literal<C, T>>(g: &Grammar<L>, input: &[C], k: usize, acc: Expr<T>, q: usize) -> (r: (Expr<T>, usize))
    requires
        g.atom.well_formed(),
        q <= input@.len(),
        1 <= k <= g.layers@.len(),
    ensures
        r == left_spec::<C, T, L>(*g, input@, k as int, acc, q as int),
        q <= r.1 <= input@.len(),
    decreases input@.len() - q, k, 0int,
{
    let layer = &g.layers[k - 1];
    let top = g.layers.len();
    proof {
        assert(input@.len() == input.len());
    }
    let mut tree = acc;
    let mut at = q;
    loop
        invariant
            input@.len() <= usize::MAX,
            g.atom.well_formed(),
            1 <= k <= g.layers@.len(),
            top == g.layers@.len(),
            *layer == g.layers@[k - 1],
            q <= at <= input@.len(),
            left_spec::<C, T, L>(*g, input@, k as int, acc, q as int) == left_spec::<C, T, L>(
                *g,
                input@,
                k as int,
                tree,
                at as int,
            ),
        decreases input@.len() - at,
    {
        match operator_at(input, at, &layer.operators) {
            Some(op) => match parse_level(g, input, at + 1, after_level_of(layer, k, top)) {
                Ok((y, e)) => {
                    tree = Expr::Infix(Box::new(tree), op, Box::new(y));
                    at = e;
                },
                Err(_) => return (tree, at),
            },
            None => return (tree, at),
        }
    }
}

/// Pairs of an operand and an operator of the `Right` layer `k` from `q`,
/// then a last operand.
fn parse_right<C: Character, T, L: Literal<C, T>>(g: &Grammar<L>, input: &[C], q: usize, k: usize) -> (r: Result<(Expr<T>, usize), ParseError>)
    requires
        g.atom.well_formed(),
        q <= input@.len(),
        1 <= k <= g.layers@.len(),
    ensures
        r == right_spec::<C, T, L>(*g, input@, q as int, k as int),
        r is Ok ==> q < (r->Ok_0).1 <= input@.len(),
    decreases input@.len() - q, k, 1int,
{
    let layer = &g.layers[k - 1];
    match parse_level(g, input, q, before_level_of(layer, k)) {
        Ok((x, e)) => match operator_at(input, e, &layer.operators) {
            Some(op) => match parse_right(g, input, e + 1, k) {
                Ok((rest, end)) => Ok((Expr::Infix(Box::new(x), op, Box::new(rest)), end)),
                Err(err) => Err(err),
            },
            None => parse_level(g, input, q, k - 1),
        },
        Err(_) => parse_level(g, input, q, k - 1),
    }
}

/// Parses the whole of `input` as an expression of the grammar's top level.
pub fn parse_expression<C: Character, T, L: Literal<C, T>>(g: &Grammar<L>, input: &[C]) -> (r: Result<Expr<T>, ParseError>)
    requires
        g.atom.well_formed(),
    ensures
        r == complete(expr_spec::<C, T, L>(*g, input@, 0, g.layers@.len() as int), input@.len() as int),
{
    finish(parse_level(g, input, 0, g.layers.len()), input.len())
}

} // verus!
