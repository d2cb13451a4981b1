//! The parser: mutually recursive productions over the token sequence.

use vstd::prelude::*;

use crate::ast::{lemma_nodes_view, node_view, nodes_view, BinOp, Node, ParseError, ParseErrorKind, SpecNode,
    Type, UnOp};
use crate::token::{SpecToken, Token};

verus! {

/// The next cursor position after a sub-production that ended at `j`, never
/// behind `i + 1` nor beyond `limit`. Every production consumes at least one
/// token and ends within the input, so the guard only makes that progress
/// manifest inside recursive definitions.
pub open spec fn adv(limit: int, i: int, j: int) -> int {
    if i < j && j <= limit {
        j
    } else {
        i + 1
    }
}

/// A parse error of kind `kind` at token index `i`.
pub open spec fn perr(kind: ParseErrorKind, i: int) -> ParseError {
    ParseError { kind: kind, pos: i as usize }
}

/// Whether `t` is one of the five type keywords.
pub open spec fn is_type_token(t: SpecToken) -> bool {
    t is IntT || t is FloatT || t is CharT || t is BoolT || t is VoidT
}

/// The type a type keyword token names.
pub open spec fn type_of_token(t: SpecToken) -> Type {
    match t {
        SpecToken::IntT => Type::IntT,
        SpecToken::FloatT => Type::FloatT,
        SpecToken::CharT => Type::CharT,
        SpecToken::BoolT => Type::BoolT,
        _ => Type::VoidT,
    }
}

/// The statements of the top-level block: type keywords start function
/// definitions; any other top-level token is deliberately skipped, without
/// a diagnostic.
pub open spec fn spec_parse_top(toks: Seq<SpecToken>, i: int) -> Result<Seq<SpecNode>, ParseError>
    decreases toks.len() - i, 1int, 0int,
{
    if i >= toks.len() {
        Ok(Seq::empty())
    } else if is_type_token(toks[i]) {
        match spec_parse_func_def(toks, i) {
            Err(e) => Err(e),
            Ok((f, j)) => match spec_parse_top(toks, adv(toks.len() as int, i, j + 1)) {
                Err(e) => Err(e),
                Ok(rest) => Ok(seq![f] + rest),
            },
        }
    } else {
        spec_parse_top(toks, i + 1)
    }
}

/// A function definition: type keyword, name, parenthesized parameter list,
/// braced body. The cursor ends at the body's closing brace, which the
/// top level consumes.
pub open spec fn spec_parse_func_def(toks: Seq<SpecToken>, i: int) -> Result<
    (SpecNode, int),
    ParseError,
>
    decreases toks.len() - i, 0int, 0int,
{
    if i >= toks.len() {
        Err(perr(ParseErrorKind::UnexpectedEnd, toks.len() as int))
    } else if !is_type_token(toks[i]) {
        Err(perr(ParseErrorKind::ExpectedType, i))
    } else {
        let ret_t = type_of_token(toks[i]);
        if i + 1 >= toks.len() {
            Err(perr(ParseErrorKind::UnexpectedEnd, toks.len() as int))
        } else {
            match toks[i + 1] {
                SpecToken::Id { lexeme } => {
                    if i + 2 >= toks.len() {
                        Err(perr(ParseErrorKind::UnexpectedEnd, toks.len() as int))
                    } else if !(toks[i + 2] is LP) {
                        Err(perr(ParseErrorKind::ExpectedLParen, i + 2))
                    } else {
                        match spec_parse_params(toks, i + 3) {
                            Err(e) => Err(e),
                            Ok((params, k)) => {
                                if k >= toks.len() {
                                    Err(perr(ParseErrorKind::UnexpectedEnd, toks.len() as int))
                                } else if !(toks[k] is RP) {
                                    Err(perr(ParseErrorKind::ExpectedRParen, k))
                                } else if k + 1 >= toks.len() {
                                    Err(perr(ParseErrorKind::UnexpectedEnd, toks.len() as int))
                                } else if !(toks[k + 1] is LC) {
                                    Err(perr(ParseErrorKind::ExpectedLBrace, k + 1))
                                } else {
                                    match spec_parse_stmts(
                                        toks,
                                        adv(toks.len() as int, i, k + 2),
                                        true,
                                    ) {
                                        Err(e) => Err(e),
                                        Ok((body, r)) => Ok(
                                            (
                                                SpecNode::FuncDef {
                                                    ret_t: ret_t,
                                                    name: Box::new(SpecNode::Id { id: lexeme }),
                                                    args: Box::new(
                                                        SpecNode::Block { vec: params },
                                                    ),
                                                    block: Box::new(SpecNode::Block { vec: body }),
                                                },
                                                r,
                                            ),
                                        ),
                                    }
                                }
                            },
                        }
                    }
                },
                _ => Err(perr(ParseErrorKind::ExpectedName, i + 1)),
            }
        }
    }
}

/// A parameter list, after the opening parenthesis: an optional first typed
/// parameter, then comma-led parameters. Ends at the token that should be
/// the closing parenthesis.
pub open spec fn spec_parse_params(toks: Seq<SpecToken>, i: int) -> Result<
    (Seq<SpecNode>, int),
    ParseError,
>
    decreases toks.len() - i, 2int, 0int,
{
    if i >= toks.len() {
        Err(perr(ParseErrorKind::UnexpectedEnd, toks.len() as int))
    } else if is_type_token(toks[i]) {
        match spec_parse_var(toks, i, true) {
            Err(e) => Err(e),
            Ok((v, k)) => match spec_parse_params_more(toks, adv(toks.len() as int, i, k)) {
                Err(e) => Err(e),
                Ok((more, r)) => Ok((seq![v] + more, r)),
            },
        }
    } else {
        spec_parse_params_more(toks, i)
    }
}

/// The comma-led tail of a parameter list.
pub open spec fn spec_parse_params_more(toks: Seq<SpecToken>, i: int) -> Result<
    (Seq<SpecNode>, int),
    ParseError,
>
    decreases toks.len() - i, 1int, 0int,
{
    if i >= toks.len() {
        Err(perr(ParseErrorKind::UnexpectedEnd, toks.len() as int))
    } else if toks[i] is Comma {
        match spec_parse_var(toks, i + 1, true) {
            Err(e) => Err(e),
            Ok((v, k)) => match spec_parse_params_more(toks, adv(toks.len() as int, i, k)) {
                Err(e) => Err(e),
                Ok((more, r)) => Ok((seq![v] + more, r)),
            },
        }
    } else {
        Ok((Seq::empty(), i))
    }
}

/// A variable declaration: non-void type keyword, then name. In parameter
/// mode that is all. In statement mode an `=` starts an initializer and the
/// whole declaration becomes an assignment expression statement; a `;` ends
/// a bare declaration; any other follower is a parse error, so that the
/// declaration cannot end without a terminator.
pub open spec fn spec_parse_var(toks: Seq<SpecToken>, i: int, is_arg: bool) -> Result<
    (SpecNode, int),
    ParseError,
>
    decreases toks.len() - i, 0int, 0int,
{
    if i >= toks.len() {
        Err(perr(ParseErrorKind::UnexpectedEnd, toks.len() as int))
    } else if toks[i] is VoidT {
        Err(perr(ParseErrorKind::VoidVarType, i))
    } else if !is_type_token(toks[i]) {
        Err(perr(ParseErrorKind::ExpectedVarType, i))
    } else {
        let var_t = type_of_token(toks[i]);
        if i + 1 >= toks.len() {
            Err(perr(ParseErrorKind::UnexpectedEnd, toks.len() as int))
        } else {
            match toks[i + 1] {
                SpecToken::Id { lexeme } => {
                    let def = SpecNode::VarDef {
                        var_t: var_t,
                        name: Box::new(SpecNode::Id { id: lexeme }),
                    };
                    if is_arg {
                        Ok((def, i + 2))
                    } else if i + 2 >= toks.len() {
                        Err(perr(ParseErrorKind::UnexpectedEnd, toks.len() as int))
                    } else if toks[i + 2] is Assignment {
                        match spec_parse_expr(toks, i + 3) {
                            Err(e) => Err(e),
                            Ok((rhs, j)) => Ok(
                                (
                                    SpecNode::Expr {
                                        e: Box::new(
                                            SpecNode::BinE {
                                                exprl: Box::new(def),
                                                op: BinOp::Assignment,
                                                exprr: Box::new(rhs),
                                            },
                                        ),
                                    },
                                    j,
                                ),
                            ),
                        }
                    } else if toks[i + 2] is Semicolon {
                        Ok((def, i + 3))
                    } else {
                        Err(perr(ParseErrorKind::MissingDeclTerminator, i + 2))
                    }
                },
                _ => Err(perr(ParseErrorKind::ExpectedVarName, i + 1)),
            }
        }
    }
}

/// A statement block's contents, up to (not consuming) the closing brace.
/// Declarations, if-statements, expression statements and empty statements
/// are always available; while-statements only where `allow_while` holds
/// (they are not part of the grammar of if- and else-branches).
pub open spec fn spec_parse_stmts(toks: Seq<SpecToken>, i: int, allow_while: bool) -> Result<
    (Seq<SpecNode>, int),
    ParseError,
>
    decreases toks.len() - i, 5int, 0int,
{
    if i >= toks.len() {
        Err(perr(ParseErrorKind::UnexpectedEnd, toks.len() as int))
    } else {
        match toks[i] {
            SpecToken::RC => Ok((Seq::empty(), i)),
            SpecToken::CharT | SpecToken::BoolT | SpecToken::IntT | SpecToken::FloatT => {
                match spec_parse_var(toks, i, false) {
                    Err(e) => Err(e),
                    Ok((n, j)) => match spec_parse_stmts(
                        toks,
                        adv(toks.len() as int, i, j),
                        allow_while,
                    ) {
                        Err(e) => Err(e),
                        Ok((rest, r)) => Ok((seq![n] + rest, r)),
                    },
                }
            },
            SpecToken::If => match spec_parse_if(toks, i) {
                Err(e) => Err(e),
                Ok((n, j)) => match spec_parse_stmts(
                    toks,
                    adv(toks.len() as int, i, j),
                    allow_while,
                ) {
                    Err(e) => Err(e),
                    Ok((rest, r)) => Ok((seq![n] + rest, r)),
                },
            },
            SpecToken::While => {
                if allow_while {
                    match spec_parse_while(toks, i) {
                        Err(e) => Err(e),
                        Ok((n, j)) => match spec_parse_stmts(
                            toks,
                            adv(toks.len() as int, i, j),
                            allow_while,
                        ) {
                            Err(e) => Err(e),
                            Ok((rest, r)) => Ok((seq![n] + rest, r)),
                        },
                    }
                } else {
                    Err(perr(ParseErrorKind::UnexpectedToken, i))
                }
            },
            SpecToken::Id { lexeme: _ } | SpecToken::Negation | SpecToken::Inc | SpecToken::Dec => {
                match spec_parse_expr(toks, i) {
                    Err(e) => Err(e),
                    Ok((n, j)) => match spec_parse_stmts(
                        toks,
                        adv(toks.len() as int, i, j),
                        allow_while,
                    ) {
                        Err(e) => Err(e),
                        Ok((rest, r)) => Ok((seq![n] + rest, r)),
                    },
                }
            },
            SpecToken::Semicolon => spec_parse_stmts(toks, i + 1, allow_while),
            _ => Err(perr(ParseErrorKind::UnexpectedToken, i)),
        }
    }
}

/// An if-statement, with its cursor at the `if` token: condition in
/// parentheses, braced then-branch, and then either an `else if`
/// continuation (a further `If` node in the chain), a plain `else` branch,
/// or nothing (the `Empty` sentinel).
pub open spec fn spec_parse_if(toks: Seq<SpecToken>, i: int) -> Result<(SpecNode, int), ParseError>
    decreases toks.len() - i, 3int, 0int,
{
    if i + 1 >= toks.len() {
        Err(perr(ParseErrorKind::UnexpectedEnd, toks.len() as int))
    } else if !(toks[i + 1] is LP) {
        Err(perr(ParseErrorKind::ExpectedLParen, i + 1))
    } else {
        match spec_parse_expr(toks, i + 2) {
            Err(e) => Err(e),
            Ok((cond, j)) => {
                if j + 1 >= toks.len() {
                    Err(perr(ParseErrorKind::UnexpectedEnd, toks.len() as int))
                } else if !(toks[j + 1] is LC) {
                    Err(perr(ParseErrorKind::ExpectedLBrace, j + 1))
                } else {
                    match spec_parse_stmts(toks, adv(toks.len() as int, i, j + 2), false) {
                        Err(e) => Err(e),
                        Ok((body, r)) => {
                            let block = SpecNode::Block { vec: body };
                            if r + 1 >= toks.len() {
                                Err(perr(ParseErrorKind::UnexpectedEnd, toks.len() as int))
                            } else if toks[r + 1] is Else {
                                if r + 2 >= toks.len() {
                                    Err(perr(ParseErrorKind::UnexpectedEnd, toks.len() as int))
                                } else if toks[r + 2] is If {
                                    match spec_parse_if(toks, adv(toks.len() as int, i, r + 2)) {
                                        Err(e) => Err(e),
                                        Ok((inner, end)) => Ok(
                                            (
                                                SpecNode::If {
                                                    cond: Box::new(cond),
                                                    block: Box::new(block),
                                                    next: Box::new(inner),
                                                },
                                                end,
                                            ),
                                        ),
                                    }
                                } else {
                                    match spec_parse_stmts(
                                        toks,
                                        adv(toks.len() as int, i, r + 3),
                                        false,
                                    ) {
                                        Err(e) => Err(e),
                                        Ok((eb, r2)) => Ok(
                                            (
                                                SpecNode::If {
                                                    cond: Box::new(cond),
                                                    block: Box::new(block),
                                                    next: Box::new(
                                                        SpecNode::Else {
                                                            block: Box::new(
                                                                SpecNode::Block { vec: eb },
                                                            ),
                                                        },
                                                    ),
                                                },
                                                r2 + 1,
                                            ),
                                        ),
                                    }
                                }
                            } else {
                                Ok(
                                    (
                                        SpecNode::If {
                                            cond: Box::new(cond),
                                            block: Box::new(block),
                                            next: Box::new(SpecNode::Empty),
                                        },
                                        r + 1,
                                    ),
                                )
                            }
                        },
                    }
                }
            },
        }
    }
}

/// A while-statement, with its cursor at the `while` token: condition in
/// parentheses and a braced body with the full statement dispatch. The
/// closing brace belongs to the production and is consumed.
pub open spec fn spec_parse_while(toks: Seq<SpecToken>, i: int) -> Result<
    (SpecNode, int),
    ParseError,
>
    decreases toks.len() - i, 3int, 0int,
{
    if i + 1 >= toks.len() {
        Err(perr(ParseErrorKind::UnexpectedEnd, toks.len() as int))
    } else if !(toks[i + 1] is LP) {
        Err(perr(ParseErrorKind::ExpectedLParen, i + 1))
    } else {
        match spec_parse_expr(toks, i + 2) {
            Err(e) => Err(e),
            Ok((cond, j)) => {
                if j + 1 >= toks.len() {
                    Err(perr(ParseErrorKind::UnexpectedEnd, toks.len() as int))
                } else if !(toks[j + 1] is LC) {
                    Err(perr(ParseErrorKind::ExpectedLBrace, j + 1))
                } else {
                    match spec_parse_stmts(toks, adv(toks.len() as int, i, j + 2), true) {
                        Err(e) => Err(e),
                        Ok((body, r)) => Ok(
                            (
                                SpecNode::While {
                                    cond: Box::new(cond),
                                    block: Box::new(SpecNode::Block { vec: body }),
                                },
                                r + 1,
                            ),
                        ),
                    }
                }
            },
        }
    }
}

/// An expression: a leading term chosen by the current token (with one
/// token of lookahead to tell a call from a variable), then at most one
/// binary continuation, whose right side is a full expression again; there
/// is deliberately no operator precedence. Character and boolean literals
/// are terminal terms. A `;` ends the expression and is consumed; `,` and
/// `)` end it and stay for the caller.
pub open spec fn spec_parse_expr(toks: Seq<SpecToken>, i: int) -> Result<
    (SpecNode, int),
    ParseError,
>
    decreases toks.len() - i, 4int, 0int,
{
    if i >= toks.len() {
        Err(perr(ParseErrorKind::UnexpectedEnd, toks.len() as int))
    } else {
        match toks[i] {
            SpecToken::Id { lexeme: _ } => {
                if i + 1 >= toks.len() {
                    Err(perr(ParseErrorKind::UnexpectedEnd, toks.len() as int))
                } else if toks[i + 1] is LP {
                    match spec_parse_func_call(toks, i) {
                        Err(e) => Err(e),
                        Ok((fc, j)) => spec_parse_bin_func_call(
                            toks,
                            adv(toks.len() as int, i, j),
                            fc,
                        ),
                    }
                } else {
                    match spec_parse_bin_var(toks, i) {
                        Err(e) => Err(e),
                        Ok((bv, j)) => Ok((SpecNode::Expr { e: Box::new(bv) }, j)),
                    }
                }
            },
            SpecToken::Negation => spec_parse_unary(toks, i, UnOp::Negation),
            SpecToken::Inc => spec_parse_unary(toks, i, UnOp::Inc),
            SpecToken::Dec => spec_parse_unary(toks, i, UnOp::Dec),
            SpecToken::CharN { num } => Ok(
                (SpecNode::Expr { e: Box::new(SpecNode::CharN { n: num }) }, i + 1),
            ),
            SpecToken::IntN { num } => {
                if i + 1 >= toks.len() {
                    Err(perr(ParseErrorKind::UnexpectedEnd, toks.len() as int))
                } else if !(toks[i + 1] is Semicolon) && !(toks[i + 1] is RP) {
                    spec_parse_bin_lit(toks, i + 1, SpecNode::IntN { n: num })
                } else {
                    Ok((SpecNode::Expr { e: Box::new(SpecNode::IntN { n: num }) }, i + 1))
                }
            },
            SpecToken::FloatN { lexeme } => {
                if i + 1 >= toks.len() {
                    Err(perr(ParseErrorKind::UnexpectedEnd, toks.len() as int))
                } else if !(toks[i + 1] is Semicolon) && !(toks[i + 1] is RP) {
                    spec_parse_bin_lit(toks, i + 1, SpecNode::FloatN { lexeme })
                } else {
                    Ok((SpecNode::Expr { e: Box::new(SpecNode::FloatN { lexeme }) }, i + 1))
                }
            },
            SpecToken::BoolTrue => Ok((SpecNode::Expr { e: Box::new(SpecNode::BoolTrue) }, i + 1)),
            SpecToken::BoolFalse => Ok(
                (SpecNode::Expr { e: Box::new(SpecNode::BoolFalse) }, i + 1),
            ),
            _ => Err(perr(ParseErrorKind::MalformedExpr, i)),
        }
    }
}

/// A prefix operator applied to an identifier or call, with its cursor at
/// the operator token.
pub open spec fn spec_parse_unary(toks: Seq<SpecToken>, i: int, op: UnOp) -> Result<
    (SpecNode, int),
    ParseError,
>
    decreases toks.len() - i, 3int, 0int,
{
    if i + 1 >= toks.len() {
        Err(perr(ParseErrorKind::UnexpectedEnd, toks.len() as int))
    } else {
        match toks[i + 1] {
            SpecToken::Id { lexeme: _ } => {
                if i + 2 >= toks.len() {
                    Err(perr(ParseErrorKind::UnexpectedEnd, toks.len() as int))
                } else if toks[i + 2] is LP {
                    match spec_parse_func_call(toks, i + 1) {
                        Err(e) => Err(e),
                        Ok((fc, j)) => Ok(
                            (
                                SpecNode::Expr {
                                    e: Box::new(SpecNode::UnE { op: op, expr: Box::new(fc) }),
                                },
                                j,
                            ),
                        ),
                    }
                } else {
                    match spec_parse_bin_var(toks, i + 1) {
                        Err(e) => Err(e),
                        Ok((bv, j)) => Ok(
                            (
                                SpecNode::Expr {
                                    e: Box::new(SpecNode::UnE { op: op, expr: Box::new(bv) }),
                                },
                                j,
                            ),
                        ),
                    }
                }
            },
            _ => Err(perr(ParseErrorKind::UnexpectedToken, i + 1)),
        }
    }
}

/// A function call, with its cursor at the called identifier (the next
/// token is the opening parenthesis): comma-separated argument expressions
/// up to the closing parenthesis, which is consumed.
pub open spec fn spec_parse_func_call(toks: Seq<SpecToken>, i: int) -> Result<
    (SpecNode, int),
    ParseError,
>
    decreases toks.len() - i, 2int, 0int,
{
    if i >= toks.len() {
        Err(perr(ParseErrorKind::UnexpectedEnd, toks.len() as int))
    } else {
        match toks[i] {
            SpecToken::Id { lexeme } => {
                let name = SpecNode::Id { id: lexeme };
                if i + 2 >= toks.len() {
                    Err(perr(ParseErrorKind::UnexpectedEnd, toks.len() as int))
                } else if toks[i + 2] is RP {
                    Ok(
                        (
                            SpecNode::FuncCall {
                                name: Box::new(name),
                                args: Box::new(SpecNode::Block { vec: Seq::empty() }),
                            },
                            i + 3,
                        ),
                    )
                } else {
                    match spec_parse_expr(toks, i + 2) {
                        Err(e) => Err(e),
                        Ok((a, k)) => match spec_parse_args(toks, adv(toks.len() as int, i, k)) {
                            Err(e) => Err(e),
                            Ok((more, r)) => Ok(
                                (
                                    SpecNode::FuncCall {
                                        name: Box::new(name),
                                        args: Box::new(SpecNode::Block { vec: seq![a] + more }),
                                    },
                                    r + 1,
                                ),
                            ),
                        },
                    }
                }
            },
            _ => Err(perr(ParseErrorKind::ExpectedName, i)),
        }
    }
}

/// The comma-led tail of an argument list, ending at (not consuming) the
/// closing parenthesis.
pub open spec fn spec_parse_args(toks: Seq<SpecToken>, i: int) -> Result<
    (Seq<SpecNode>, int),
    ParseError,
>
    decreases toks.len() - i, 1int, 0int,
{
    if i >= toks.len() {
        Err(perr(ParseErrorKind::UnexpectedEnd, toks.len() as int))
    } else if toks[i] is RP {
        Ok((Seq::empty(), i))
    } else if toks[i] is Comma {
        match spec_parse_expr(toks, i + 1) {
            Err(e) => Err(e),
            Ok((a, k)) => match spec_parse_args(toks, adv(toks.len() as int, i, k)) {
                Err(e) => Err(e),
                Ok((more, r)) => Ok((seq![a] + more, r)),
            },
        }
    } else {
        Err(perr(ParseErrorKind::UnexpectedToken, i))
    }
}

/// The continuation after a call term: one arithmetic operator with a full
/// expression as right side, or a terminator.
pub open spec fn spec_parse_bin_func_call(toks: Seq<SpecToken>, i: int, fc: SpecNode) -> Result<
    (SpecNode, int),
    ParseError,
>
    decreases toks.len() - i, 0int, 1int,
{
    if i >= toks.len() {
        Err(perr(ParseErrorKind::UnexpectedEnd, toks.len() as int))
    } else {
        match toks[i] {
            SpecToken::Plus => spec_bin_rhs_plain(toks, i, fc, BinOp::Add),
            SpecToken::Minus => spec_bin_rhs_plain(toks, i, fc, BinOp::Sub),
            SpecToken::Star => spec_bin_rhs_plain(toks, i, fc, BinOp::Mul),
            SpecToken::Slash => spec_bin_rhs_plain(toks, i, fc, BinOp::Div),
            SpecToken::Semicolon => Ok((fc, i + 1)),
            SpecToken::Comma | SpecToken::RP => Ok((fc, i)),
            _ => Err(perr(ParseErrorKind::MalformedExpr, i)),
        }
    }
}

/// A binary node `left op <expression after i>`, not wrapped further.
pub open spec fn spec_bin_rhs_plain(
    toks: Seq<SpecToken>,
    i: int,
    left: SpecNode,
    op: BinOp,
) -> Result<(SpecNode, int), ParseError>
    decreases toks.len() - i, 0int, 0int,
{
    if i >= toks.len() {
        Err(perr(ParseErrorKind::UnexpectedEnd, toks.len() as int))
    } else {
        match spec_parse_expr(toks, i + 1) {
            Err(e) => Err(e),
            Ok((rhs, j)) => Ok(
                (SpecNode::BinE { exprl: Box::new(left), op: op, exprr: Box::new(rhs) }, j),
            ),
        }
    }
}

/// The continuation after a variable term: a binary operator with a full
/// expression as right side, a prefix operator restarting a unary
/// expression (the variable term is then dropped), or a terminator.
pub open spec fn spec_parse_bin_var(toks: Seq<SpecToken>, i: int) -> Result<
    (SpecNode, int),
    ParseError,
>
    decreases toks.len() - i, 1int, 0int,
{
    if i >= toks.len() {
        Err(perr(ParseErrorKind::UnexpectedEnd, toks.len() as int))
    } else {
        match toks[i] {
            SpecToken::Id { lexeme } => {
                let v = SpecNode::Var { name: Box::new(SpecNode::Id { id: lexeme }) };
                if i + 1 >= toks.len() {
                    Err(perr(ParseErrorKind::UnexpectedEnd, toks.len() as int))
                } else {
                    match toks[i + 1] {
                        SpecToken::Plus => spec_bin_rhs_plain(toks, i + 1, v, BinOp::Add),
                        SpecToken::Minus => spec_bin_rhs_plain(toks, i + 1, v, BinOp::Sub),
                        SpecToken::Star => spec_bin_rhs_plain(toks, i + 1, v, BinOp::Mul),
                        SpecToken::Slash => spec_bin_rhs_plain(toks, i + 1, v, BinOp::Div),
                        SpecToken::UnAdd => spec_bin_rhs_plain(toks, i + 1, v, BinOp::UnAdd),
                        SpecToken::UnSub => spec_bin_rhs_plain(toks, i + 1, v, BinOp::UnSub),
                        SpecToken::UnMul => spec_bin_rhs_plain(toks, i + 1, v, BinOp::UnMul),
                        SpecToken::UnDiv => spec_bin_rhs_plain(toks, i + 1, v, BinOp::UnDiv),
                        SpecToken::Assignment => spec_bin_rhs_plain(
                            toks,
                            i + 1,
                            v,
                            BinOp::Assignment,
                        ),
                        SpecToken::Equal => spec_bin_rhs_plain(toks, i + 1, v, BinOp::Equal),
                        SpecToken::NotEqual => spec_bin_rhs_plain(toks, i + 1, v, BinOp::NotEqual),
                        SpecToken::Lesser => spec_bin_rhs_plain(toks, i + 1, v, BinOp::Lesser),
                        SpecToken::Bigger => spec_bin_rhs_plain(toks, i + 1, v, BinOp::Bigger),
                        SpecToken::LesserEqual => spec_bin_rhs_plain(
                            toks,
                            i + 1,
                            v,
                            BinOp::LesserEqual,
                        ),
                        SpecToken::BiggerEqual => spec_bin_rhs_plain(
                            toks,
                            i + 1,
                            v,
                            BinOp::BiggerEqual,
                        ),
                        SpecToken::Negation => spec_un_rhs(toks, i + 1, UnOp::Negation),
                        SpecToken::Inc => spec_un_rhs(toks, i + 1, UnOp::Inc),
                        SpecToken::Dec => spec_un_rhs(toks, i + 1, UnOp::Dec),
                        SpecToken::Semicolon => Ok((v, i + 2)),
                        SpecToken::Comma | SpecToken::RP => Ok((v, i + 1)),
                        _ => Err(perr(ParseErrorKind::MalformedExpr, i + 1)),
                    }
                }
            },
            _ => Err(perr(ParseErrorKind::ExpectedName, i)),
        }
    }
}

/// A unary node `op <expression after i>`.
pub open spec fn spec_un_rhs(toks: Seq<SpecToken>, i: int, op: UnOp) -> Result<
    (SpecNode, int),
    ParseError,
>
    decreases toks.len() - i, 0int, 0int,
{
    if i >= toks.len() {
        Err(perr(ParseErrorKind::UnexpectedEnd, toks.len() as int))
    } else {
        match spec_parse_expr(toks, i + 1) {
            Err(e) => Err(e),
            Ok((rhs, j)) => Ok((SpecNode::UnE { op: op, expr: Box::new(rhs) }, j)),
        }
    }
}

/// The continuation after an integer or float literal term: an arithmetic
/// operator (the result stays wrapped as an expression statement), a
/// comparison operator (the result is a bare binary node), or a
/// terminator.
pub open spec fn spec_parse_bin_lit(toks: Seq<SpecToken>, i: int, leaf: SpecNode) -> Result<
    (SpecNode, int),
    ParseError,
>
    decreases toks.len() - i, 0int, 1int,
{
    if i >= toks.len() {
        Err(perr(ParseErrorKind::UnexpectedEnd, toks.len() as int))
    } else {
        match toks[i] {
            SpecToken::Plus => spec_bin_rhs_wrapped(toks, i, leaf, BinOp::Add),
            SpecToken::Minus => spec_bin_rhs_wrapped(toks, i, leaf, BinOp::Sub),
            SpecToken::Star => spec_bin_rhs_wrapped(toks, i, leaf, BinOp::Mul),
            SpecToken::Slash => spec_bin_rhs_wrapped(toks, i, leaf, BinOp::Div),
            SpecToken::Equal => spec_bin_rhs_plain(toks, i, leaf, BinOp::Equal),
            SpecToken::NotEqual => spec_bin_rhs_plain(toks, i, leaf, BinOp::NotEqual),
            SpecToken::Lesser => spec_bin_rhs_plain(toks, i, leaf, BinOp::Lesser),
            SpecToken::Bigger => spec_bin_rhs_plain(toks, i, leaf, BinOp::Bigger),
            SpecToken::LesserEqual => spec_bin_rhs_plain(toks, i, leaf, BinOp::LesserEqual),
            SpecToken::BiggerEqual => spec_bin_rhs_plain(toks, i, leaf, BinOp::BiggerEqual),
            SpecToken::Semicolon => Ok((SpecNode::Expr { e: Box::new(leaf) }, i + 1)),
            SpecToken::Comma | SpecToken::RP => Ok((SpecNode::Expr { e: Box::new(leaf) }, i)),
            _ => Err(perr(ParseErrorKind::UnexpectedToken, i)),
        }
    }
}

/// A binary node `left op <expression after i>`, wrapped as an expression
/// statement.
pub open spec fn spec_bin_rhs_wrapped(
    toks: Seq<SpecToken>,
    i: int,
    left: SpecNode,
    op: BinOp,
) -> Result<(SpecNode, int), ParseError>
    decreases toks.len() - i, 0int, 0int,
{
    if i >= toks.len() {
        Err(perr(ParseErrorKind::UnexpectedEnd, toks.len() as int))
    } else {
        match spec_parse_expr(toks, i + 1) {
            Err(e) => Err(e),
            Ok((rhs, j)) => Ok(
                (
                    SpecNode::Expr {
                        e: Box::new(
                            SpecNode::BinE { exprl: Box::new(left), op: op, exprr: Box::new(rhs) },
                        ),
                    },
                    j,
                ),
            ),
        }
    }
}

/// The whole token sequence as one root block of function definitions, or
/// the first parse error: the specification the parser is proved against.
pub open spec fn spec_parse(toks: Seq<SpecToken>) -> Result<SpecNode, ParseError> {
    match spec_parse_top(toks, 0) {
        Err(e) => Err(e),
        Ok(fs) => Ok(SpecNode::Block { vec: fs }),
    }
}

/// `rest` with `node` put in front.
fn cons_node(node: Node, rest: Vec<Node>) -> (v: Vec<Node>)
    ensures
        v.deep_view() == seq![node@] + rest.deep_view(),
{
    let ghost n0 = node@;
    let ghost r0 = rest.deep_view();
    let mut v = rest;
    v.insert(0, node);
    proof {
        assert forall|k: int| 0 <= k < v.deep_view().len() implies v.deep_view()[k] == (seq![n0]
            + r0)[k] by {
            if k > 0 {
                assert(v@[k] == v@.subrange(1, v@.len() as int)[k - 1]);
            }
        }
        assert(v.deep_view() =~= seq![n0] + r0);
    }
    v
}

/// A block node owning `children`.
fn block_node(children: Vec<Node>) -> (node: Node)
    ensures
        node@ == (SpecNode::Block { vec: children.deep_view() }),
{
    let ghost v0 = children@;
    let ghost c = children.deep_view();
    let node = Node::Block { vec: children };
    proof {
        lemma_nodes_view(v0);
        assert(nodes_view(v0) =~= c);
    }
    node
}

/// A parse error of kind `kind` at token index `pos`.
fn mk_err(kind: ParseErrorKind, pos: usize) -> (e: ParseError)
    ensures
        e == perr(kind, pos as int),
{
    ParseError { kind, pos }
}

/// The executable mirror of `spec_bin_rhs_plain`: consume the operator at
/// the cursor and parse the full right-hand expression.
fn parse_bin_rhs_plain(index: &mut usize, tokens: &Vec<Token>, left: Node, op: BinOp) -> (r: Result<
    Node,
    ParseError,
>)
    ensures
        match r {
            Ok(node) => {
                &&& spec_bin_rhs_plain(tokens.deep_view(), *old(index) as int, left@, op)
                    == Ok::<(SpecNode, int), ParseError>((node@, *final(index) as int))
                &&& *old(index) < *final(index) <= tokens@.len()
            },
            Err(e) => spec_bin_rhs_plain(tokens.deep_view(), *old(index) as int, left@, op)
                == Err::<(SpecNode, int), ParseError>(e),
        },
    decreases tokens@.len() - *index, 0int, 0int,
{
    let n = tokens.len();
    if *index >= n {
        return Err(mk_err(ParseErrorKind::UnexpectedEnd, n));
    }
    *index += 1;
    match parse_expr(index, tokens) {
        Err(e) => Err(e),
        Ok(rhs) => Ok(Node::BinE { exprl: Box::new(left), op, exprr: Box::new(rhs) }),
    }
}

/// The executable mirror of `spec_bin_rhs_wrapped`.
fn parse_bin_rhs_wrapped(
    index: &mut usize,
    tokens: &Vec<Token>,
    left: Node,
    op: BinOp,
) -> (r: Result<Node, ParseError>)
    ensures
        match r {
            Ok(node) => {
                &&& spec_bin_rhs_wrapped(tokens.deep_view(), *old(index) as int, left@, op)
                    == Ok::<(SpecNode, int), ParseError>((node@, *final(index) as int))
                &&& *old(index) < *final(index) <= tokens@.len()
            },
            Err(e) => spec_bin_rhs_wrapped(tokens.deep_view(), *old(index) as int, left@, op)
                == Err::<(SpecNode, int), ParseError>(e),
        },
    decreases tokens@.len() - *index, 0int, 0int,
{
    let n = tokens.len();
    if *index >= n {
        return Err(mk_err(ParseErrorKind::UnexpectedEnd, n));
    }
    *index += 1;
    match parse_expr(index, tokens) {
        Err(e) => Err(e),
        Ok(rhs) => {
            let ghost l0 = left@;
            let ghost r0 = rhs@;
            let inner = Node::BinE { exprl: Box::new(left), op, exprr: Box::new(rhs) };
            proof {
                assert(inner@ == (SpecNode::BinE {
                    exprl: Box::new(l0),
                    op,
                    exprr: Box::new(r0),
                }));
            }
            Ok(Node::Expr { e: Box::new(inner) })
        },
    }
}

/// The executable mirror of `spec_un_rhs`.
fn parse_un_rhs(index: &mut usize, tokens: &Vec<Token>, op: UnOp) -> (r: Result<Node, ParseError>)
    ensures
        match r {
            Ok(node) => {
                &&& spec_un_rhs(tokens.deep_view(), *old(index) as int, op) == Ok::<
                    (SpecNode, int),
                    ParseError,
                >((node@, *final(index) as int))
                &&& *old(index) < *final(index) <= tokens@.len()
            },
            Err(e) => spec_un_rhs(tokens.deep_view(), *old(index) as int, op) == Err::<
                (SpecNode, int),
                ParseError,
            >(e),
        },
    decreases tokens@.len() - *index, 0int, 0int,
{
    let n = tokens.len();
    if *index >= n {
        return Err(mk_err(ParseErrorKind::UnexpectedEnd, n));
    }
    *index += 1;
    match parse_expr(index, tokens) {
        Err(e) => Err(e),
        Ok(rhs) => Ok(Node::UnE { op, expr: Box::new(rhs) }),
    }
}

/// The continuation after an integer or float literal term.
fn parse_bin_lit_expr(index: &mut usize, tokens: &Vec<Token>, leaf: Node) -> (r: Result<
    Node,
    ParseError,
>)
    ensures
        match r {
            Ok(node) => {
                &&& spec_parse_bin_lit(tokens.deep_view(), *old(index) as int, leaf@) == Ok::<
                    (SpecNode, int),
                    ParseError,
                >((node@, *final(index) as int))
                &&& *old(index) <= *final(index) <= tokens@.len()
            },
            Err(e) => spec_parse_bin_lit(tokens.deep_view(), *old(index) as int, leaf@) == Err::<
                (SpecNode, int),
                ParseError,
            >(e),
        },
    decreases tokens@.len() - *index, 0int, 2int,
{
    let n = tokens.len();
    if *index >= n {
        return Err(mk_err(ParseErrorKind::UnexpectedEnd, n));
    }
    match &tokens[*index] {
        Token::Plus => parse_bin_rhs_wrapped(index, tokens, leaf, BinOp::Add),
        Token::Minus => parse_bin_rhs_wrapped(index, tokens, leaf, BinOp::Sub),
        Token::Star => parse_bin_rhs_wrapped(index, tokens, leaf, BinOp::Mul),
        Token::Slash => parse_bin_rhs_wrapped(index, tokens, leaf, BinOp::Div),
        Token::Equal => parse_bin_rhs_plain(index, tokens, leaf, BinOp::Equal),
        Token::NotEqual => parse_bin_rhs_plain(index, tokens, leaf, BinOp::NotEqual),
        Token::Lesser => parse_bin_rhs_plain(index, tokens, leaf, BinOp::Lesser),
        Token::Bigger => parse_bin_rhs_plain(index, tokens, leaf, BinOp::Bigger),
        Token::LesserEqual => parse_bin_rhs_plain(index, tokens, leaf, BinOp::LesserEqual),
        Token::BiggerEqual => parse_bin_rhs_plain(index, tokens, leaf, BinOp::BiggerEqual),
        Token::Semicolon => {
            *index += 1;
            Ok(Node::Expr { e: Box::new(leaf) })
        },
        Token::Comma | Token::RP => Ok(Node::Expr { e: Box::new(leaf) }),
        _ => Err(mk_err(ParseErrorKind::UnexpectedToken, *index)),
    }
}

/// The continuation after an integer literal.
fn parse_bin_int_expr(index: &mut usize, tokens: &Vec<Token>, num: i32) -> (r: Result<
    Node,
    ParseError,
>)
    ensures
        match r {
            Ok(node) => {
                &&& spec_parse_bin_lit(
                    tokens.deep_view(),
                    *old(index) as int,
                    SpecNode::IntN { n: num },
                ) == Ok::<(SpecNode, int), ParseError>((node@, *final(index) as int))
                &&& *old(index) <= *final(index) <= tokens@.len()
            },
            Err(e) => spec_parse_bin_lit(
                tokens.deep_view(),
                *old(index) as int,
                SpecNode::IntN { n: num },
            ) == Err::<(SpecNode, int), ParseError>(e),
        },
    decreases tokens@.len() - *index, 0int, 3int,
{
    parse_bin_lit_expr(index, tokens, Node::IntN { n: num })
}

/// The continuation after a float literal.
fn parse_bin_float_expr(index: &mut usize, tokens: &Vec<Token>, lexeme: String) -> (r: Result<
    Node,
    ParseError,
>)
    ensures
        match r {
            Ok(node) => {
                &&& spec_parse_bin_lit(
                    tokens.deep_view(),
                    *old(index) as int,
                    SpecNode::FloatN { lexeme: lexeme@ },
                ) == Ok::<(SpecNode, int), ParseError>((node@, *final(index) as int))
                &&& *old(index) <= *final(index) <= tokens@.len()
            },
            Err(e) => spec_parse_bin_lit(
                tokens.deep_view(),
                *old(index) as int,
                SpecNode::FloatN { lexeme: lexeme@ },
            ) == Err::<(SpecNode, int), ParseError>(e),
        },
    decreases tokens@.len() - *index, 0int, 3int,
{
    parse_bin_lit_expr(index, tokens, Node::FloatN { lexeme })
}

/// The continuation after a call term.
fn parse_bin_func_call_expr(index: &mut usize, tokens: &Vec<Token>, func_call: Node) -> (r: Result<
    Node,
    ParseError,
>)
    ensures
        match r {
            Ok(node) => {
                &&& spec_parse_bin_func_call(tokens.deep_view(), *old(index) as int, func_call@)
                    == Ok::<(SpecNode, int), ParseError>((node@, *final(index) as int))
                &&& *old(index) <= *final(index) <= tokens@.len()
            },
            Err(e) => spec_parse_bin_func_call(tokens.deep_view(), *old(index) as int, func_call@)
                == Err::<(SpecNode, int), ParseError>(e),
        },
    decreases tokens@.len() - *index, 0int, 2int,
{
    let n = tokens.len();
    if *index >= n {
        return Err(mk_err(ParseErrorKind::UnexpectedEnd, n));
    }
    match &tokens[*index] {
        Token::Plus => parse_bin_rhs_plain(index, tokens, func_call, BinOp::Add),
        Token::Minus => parse_bin_rhs_plain(index, tokens, func_call, BinOp::Sub),
        Token::Star => parse_bin_rhs_plain(index, tokens, func_call, BinOp::Mul),
        Token::Slash => parse_bin_rhs_plain(index, tokens, func_call, BinOp::Div),
        Token::Semicolon => {
            *index += 1;
            Ok(func_call)
        },
        Token::Comma | Token::RP => Ok(func_call),
        _ => Err(mk_err(ParseErrorKind::MalformedExpr, *index)),
    }
}

/// The continuation after a variable term.
fn parse_bin_var_expr(index: &mut usize, tokens: &Vec<Token>) -> (r: Result<Node, ParseError>)
    ensures
        match r {
            Ok(node) => {
                &&& spec_parse_bin_var(tokens.deep_view(), *old(index) as int) == Ok::<
                    (SpecNode, int),
                    ParseError,
                >((node@, *final(index) as int))
                &&& *old(index) < *final(index) <= tokens@.len()
            },
            Err(e) => spec_parse_bin_var(tokens.deep_view(), *old(index) as int) == Err::<
                (SpecNode, int),
                ParseError,
            >(e),
        },
    decreases tokens@.len() - *index, 1int, 0int,
{
    let n = tokens.len();
    if *index >= n {
        return Err(mk_err(ParseErrorKind::UnexpectedEnd, n));
    }
    let var_name = match &tokens[*index] {
        Token::Id { tok_lexeme } => tok_lexeme.clone(),
        _ => {
            return Err(mk_err(ParseErrorKind::ExpectedName, *index));
        },
    };
    let ghost nm = var_name@;
    let name_node = Node::Id { id: var_name };
    proof {
        assert(name_node@ == (SpecNode::Id { id: nm }));
    }
    let v = Node::Var { name: Box::new(name_node) };
    proof {
        assert(v@ == (SpecNode::Var { name: Box::new(SpecNode::Id { id: nm }) }));
    }
    if *index + 1 >= n {
        return Err(mk_err(ParseErrorKind::UnexpectedEnd, n));
    }
    *index += 1;
    match &tokens[*index] {
        Token::Plus => parse_bin_rhs_plain(index, tokens, v, BinOp::Add),
        Token::Minus => parse_bin_rhs_plain(index, tokens, v, BinOp::Sub),
        Token::Star => parse_bin_rhs_plain(index, tokens, v, BinOp::Mul),
        Token::Slash => parse_bin_rhs_plain(index, tokens, v, BinOp::Div),
        Token::UnAdd => parse_bin_rhs_plain(index, tokens, v, BinOp::UnAdd),
        Token::UnSub => parse_bin_rhs_plain(index, tokens, v, BinOp::UnSub),
        Token::UnMul => parse_bin_rhs_plain(index, tokens, v, BinOp::UnMul),
        Token::UnDiv => parse_bin_rhs_plain(index, tokens, v, BinOp::UnDiv),
        Token::Assignment => parse_bin_rhs_plain(index, tokens, v, BinOp::Assignment),
        Token::Equal => parse_bin_rhs_plain(index, tokens, v, BinOp::Equal),
        Token::NotEqual => parse_bin_rhs_plain(index, tokens, v, BinOp::NotEqual),
        Token::Lesser => parse_bin_rhs_plain(index, tokens, v, BinOp::Lesser),
        Token::Bigger => parse_bin_rhs_plain(index, tokens, v, BinOp::Bigger),
        Token::LesserEqual => parse_bin_rhs_plain(index, tokens, v, BinOp::LesserEqual),
        Token::BiggerEqual => parse_bin_rhs_plain(index, tokens, v, BinOp::BiggerEqual),
        Token::Negation => parse_un_rhs(index, tokens, UnOp::Negation),
        Token::Inc => parse_un_rhs(index, tokens, UnOp::Inc),
        Token::Dec => parse_un_rhs(index, tokens, UnOp::Dec),
        Token::Semicolon => {
            *index += 1;
            Ok(v)
        },
        Token::Comma | Token::RP => Ok(v),
        _ => Err(mk_err(ParseErrorKind::MalformedExpr, *index)),
    }
}

/// The comma-led tail of an argument list.
fn parse_args(index: &mut usize, tokens: &Vec<Token>) -> (r: Result<Vec<Node>, ParseError>)
    ensures
        match r {
            Ok(ns) => {
                &&& spec_parse_args(tokens.deep_view(), *old(index) as int) == Ok::<
                    (Seq<SpecNode>, int),
                    ParseError,
                >((ns.deep_view(), *final(index) as int))
                &&& *old(index) <= *final(index) < tokens@.len()
            },
            Err(e) => spec_parse_args(tokens.deep_view(), *old(index) as int) == Err::<
                (Seq<SpecNode>, int),
                ParseError,
            >(e),
        },
    decreases tokens@.len() - *index, 1int, 0int,
{
    let n = tokens.len();
    if *index >= n {
        return Err(mk_err(ParseErrorKind::UnexpectedEnd, n));
    }
    match &tokens[*index] {
        Token::RP => {
            let ns: Vec<Node> = Vec::new();
            proof {
                assert(ns.deep_view() =~= Seq::<SpecNode>::empty());
            }
            Ok(ns)
        },
        Token::Comma => {
            *index += 1;
            match parse_expr(index, tokens) {
                Err(e) => Err(e),
                Ok(a) => match parse_args(index, tokens) {
                    Err(e) => Err(e),
                    Ok(more) => Ok(cons_node(a, more)),
                },
            }
        },
        _ => Err(mk_err(ParseErrorKind::UnexpectedToken, *index)),
    }
}

/// A function call, with its cursor at the called identifier.
fn parse_func_call(index: &mut usize, tokens: &Vec<Token>) -> (r: Result<Node, ParseError>)
    ensures
        match r {
            Ok(node) => {
                &&& spec_parse_func_call(tokens.deep_view(), *old(index) as int) == Ok::<
                    (SpecNode, int),
                    ParseError,
                >((node@, *final(index) as int))
                &&& *old(index) < *final(index) <= tokens@.len()
            },
            Err(e) => spec_parse_func_call(tokens.deep_view(), *old(index) as int) == Err::<
                (SpecNode, int),
                ParseError,
            >(e),
        },
    decreases tokens@.len() - *index, 2int, 0int,
{
    let n = tokens.len();
    if *index >= n {
        return Err(mk_err(ParseErrorKind::UnexpectedEnd, n));
    }
    let func_name = match &tokens[*index] {
        Token::Id { tok_lexeme } => tok_lexeme.clone(),
        _ => {
            return Err(mk_err(ParseErrorKind::ExpectedName, *index));
        },
    };
    let ghost nm = func_name@;
    let name = Node::Id { id: func_name };
    proof {
        assert(name@ == (SpecNode::Id { id: nm }));
    }
    if *index + 1 >= n || *index + 2 >= n {
        return Err(mk_err(ParseErrorKind::UnexpectedEnd, n));
    }
    if let Token::RP = &tokens[*index + 2] {
        *index += 3;
        let args: Vec<Node> = Vec::new();
        proof {
            assert(args.deep_view() =~= Seq::<SpecNode>::empty());
        }
        let args_block = block_node(args);
        return Ok(Node::FuncCall { name: Box::new(name), args: Box::new(args_block) });
    }
    *index += 2;
    match parse_expr(index, tokens) {
        Err(e) => Err(e),
        Ok(a) => match parse_args(index, tokens) {
            Err(e) => Err(e),
            Ok(more) => {
                *index += 1;
                let args_block = block_node(cons_node(a, more));
                Ok(Node::FuncCall { name: Box::new(name), args: Box::new(args_block) })
            },
        },
    }
}

/// A prefix operator applied to an identifier or call.
fn parse_unary_expr(index: &mut usize, tokens: &Vec<Token>, op: UnOp) -> (r: Result<
    Node,
    ParseError,
>)
    ensures
        match r {
            Ok(node) => {
                &&& spec_parse_unary(tokens.deep_view(), *old(index) as int, op) == Ok::<
                    (SpecNode, int),
                    ParseError,
                >((node@, *final(index) as int))
                &&& *old(index) < *final(index) <= tokens@.len()
            },
            Err(e) => spec_parse_unary(tokens.deep_view(), *old(index) as int, op) == Err::<
                (SpecNode, int),
                ParseError,
            >(e),
        },
    decreases tokens@.len() - *index, 3int, 0int,
{
    let n = tokens.len();
    if *index >= n || *index + 1 >= n {
        return Err(mk_err(ParseErrorKind::UnexpectedEnd, n));
    }
    match &tokens[*index + 1] {
        Token::Id { tok_lexeme: _ } => {
            if *index + 2 >= n {
                return Err(mk_err(ParseErrorKind::UnexpectedEnd, n));
            }
            if let Token::LP = &tokens[*index + 2] {
                *index += 1;
                match parse_func_call(index, tokens) {
                    Err(e) => Err(e),
                    Ok(fc) => {
                        let ghost f0 = fc@;
                        let inner = Node::UnE { op, expr: Box::new(fc) };
                        proof {
                            assert(inner@ == (SpecNode::UnE { op, expr: Box::new(f0) }));
                        }
                        Ok(Node::Expr { e: Box::new(inner) })
                    },
                }
            } else {
                *index += 1;
                match parse_bin_var_expr(index, tokens) {
                    Err(e) => Err(e),
                    Ok(bv) => {
                        let ghost b0 = bv@;
                        let inner = Node::UnE { op, expr: Box::new(bv) };
                        proof {
                            assert(inner@ == (SpecNode::UnE { op, expr: Box::new(b0) }));
                        }
                        Ok(Node::Expr { e: Box::new(inner) })
                    },
                }
            }
        },
        _ => Err(mk_err(ParseErrorKind::UnexpectedToken, *index + 1)),
    }
}

/// An expression, dispatched on its leading token.
fn parse_expr(index: &mut usize, tokens: &Vec<Token>) -> (r: Result<Node, ParseError>)
    ensures
        match r {
            Ok(node) => {
                &&& spec_parse_expr(tokens.deep_view(), *old(index) as int) == Ok::<
                    (SpecNode, int),
                    ParseError,
                >((node@, *final(index) as int))
                &&& *old(index) < *final(index) <= tokens@.len()
            },
            Err(e) => spec_parse_expr(tokens.deep_view(), *old(index) as int) == Err::<
                (SpecNode, int),
                ParseError,
            >(e),
        },
    decreases tokens@.len() - *index, 4int, 0int,
{
    let n = tokens.len();
    if *index >= n {
        return Err(mk_err(ParseErrorKind::UnexpectedEnd, n));
    }
    match &tokens[*index] {
        Token::Id { tok_lexeme: _ } => {
            if *index + 1 >= n {
                return Err(mk_err(ParseErrorKind::UnexpectedEnd, n));
            }
            if let Token::LP = &tokens[*index + 1] {
                match parse_func_call(index, tokens) {
                    Err(e) => Err(e),
                    Ok(fc) => parse_bin_func_call_expr(index, tokens, fc),
                }
            } else {
                match parse_bin_var_expr(index, tokens) {
                    Err(e) => Err(e),
                    Ok(bv) => Ok(Node::Expr { e: Box::new(bv) }),
                }
            }
        },
        Token::Negation => parse_unary_expr(index, tokens, UnOp::Negation),
        Token::Inc => parse_unary_expr(index, tokens, UnOp::Inc),
        Token::Dec => parse_unary_expr(index, tokens, UnOp::Dec),
        Token::CharN { num } => {
            let num = *num;
            *index += 1;
            let leaf = Node::CharN { n: num };
            proof {
                assert(leaf@ == (SpecNode::CharN { n: num }));
            }
            Ok(Node::Expr { e: Box::new(leaf) })
        },
        Token::IntN { num } => {
            let num = *num;
            if *index + 1 >= n {
                return Err(mk_err(ParseErrorKind::UnexpectedEnd, n));
            }
            let terminated = match &tokens[*index + 1] {
                Token::Semicolon | Token::RP => true,
                _ => false,
            };
            *index += 1;
            if !terminated {
                parse_bin_int_expr(index, tokens, num)
            } else {
                let leaf = Node::IntN { n: num };
            proof {
                assert(leaf@ == (SpecNode::IntN { n: num }));
            }
            Ok(Node::Expr { e: Box::new(leaf) })
            }
        },
        Token::FloatN { lexeme } => {
            let lexeme = lexeme.clone();
            if *index + 1 >= n {
                return Err(mk_err(ParseErrorKind::UnexpectedEnd, n));
            }
            let terminated = match &tokens[*index + 1] {
                Token::Semicolon | Token::RP => true,
                _ => false,
            };
            *index += 1;
            if !terminated {
                parse_bin_float_expr(index, tokens, lexeme)
            } else {
                let ghost lx = lexeme@;
                let leaf = Node::FloatN { lexeme };
                proof {
                    assert(leaf@ == (SpecNode::FloatN { lexeme: lx }));
                }
                Ok(Node::Expr { e: Box::new(leaf) })
            }
        },
        Token::BoolTrue => {
            *index += 1;
            let leaf = Node::BoolTrue;
            proof {
                assert(leaf@ == (SpecNode::BoolTrue));
            }
            Ok(Node::Expr { e: Box::new(leaf) })
        },
        Token::BoolFalse => {
            *index += 1;
            let leaf = Node::BoolFalse;
            proof {
                assert(leaf@ == (SpecNode::BoolFalse));
            }
            Ok(Node::Expr { e: Box::new(leaf) })
        },
        _ => Err(mk_err(ParseErrorKind::MalformedExpr, *index)),
    }
}

/// A variable declaration, in statement or parameter mode.
fn parse_var(index: &mut usize, tokens: &Vec<Token>, is_arg: bool) -> (r: Result<Node, ParseError>)
    ensures
        match r {
            Ok(node) => {
                &&& spec_parse_var(tokens.deep_view(), *old(index) as int, is_arg) == Ok::<
                    (SpecNode, int),
                    ParseError,
                >((node@, *final(index) as int))
                &&& *old(index) < *final(index) <= tokens@.len()
            },
            Err(e) => spec_parse_var(tokens.deep_view(), *old(index) as int, is_arg) == Err::<
                (SpecNode, int),
                ParseError,
            >(e),
        },
    decreases tokens@.len() - *index, 0int, 0int,
{
    let n = tokens.len();
    if *index >= n {
        return Err(mk_err(ParseErrorKind::UnexpectedEnd, n));
    }
    let var_t = match &tokens[*index] {
        Token::VoidT => {
            return Err(mk_err(ParseErrorKind::VoidVarType, *index));
        },
        Token::IntT => Type::IntT,
        Token::FloatT => Type::FloatT,
        Token::CharT => Type::CharT,
        Token::BoolT => Type::BoolT,
        _ => {
            return Err(mk_err(ParseErrorKind::ExpectedVarType, *index));
        },
    };
    if *index + 1 >= n {
        return Err(mk_err(ParseErrorKind::UnexpectedEnd, n));
    }
    let var_name = match &tokens[*index + 1] {
        Token::Id { tok_lexeme } => tok_lexeme.clone(),
        _ => {
            return Err(mk_err(ParseErrorKind::ExpectedVarName, *index + 1));
        },
    };
    let ghost nm = var_name@;
    let name_node = Node::Id { id: var_name };
    proof {
        assert(name_node@ == (SpecNode::Id { id: nm }));
    }
    let def = Node::VarDef { var_t, name: Box::new(name_node) };
    proof {
        assert(def@ == (SpecNode::VarDef { var_t, name: Box::new(SpecNode::Id { id: nm }) }));
    }
    if is_arg {
        *index += 2;
        return Ok(def);
    }
    if *index + 2 >= n {
        return Err(mk_err(ParseErrorKind::UnexpectedEnd, n));
    }
    match &tokens[*index + 2] {
        Token::Assignment => {
            *index += 3;
            match parse_expr(index, tokens) {
                Err(e) => Err(e),
                Ok(rhs) => {
                    let ghost d0 = def@;
                    let ghost r0 = rhs@;
                    let inner = Node::BinE {
                        exprl: Box::new(def),
                        op: BinOp::Assignment,
                        exprr: Box::new(rhs),
                    };
                    proof {
                        assert(inner@ == (SpecNode::BinE {
                            exprl: Box::new(d0),
                            op: BinOp::Assignment,
                            exprr: Box::new(r0),
                        }));
                    }
                    Ok(Node::Expr { e: Box::new(inner) })
                },
            }
        },
        Token::Semicolon => {
            *index += 3;
            Ok(def)
        },
        _ => Err(mk_err(ParseErrorKind::MissingDeclTerminator, *index + 2)),
    }
}

/// The comma-led tail of a parameter list.
fn parse_params_more(index: &mut usize, tokens: &Vec<Token>) -> (r: Result<Vec<Node>, ParseError>)
    ensures
        match r {
            Ok(ns) => {
                &&& spec_parse_params_more(tokens.deep_view(), *old(index) as int) == Ok::<
                    (Seq<SpecNode>, int),
                    ParseError,
                >((ns.deep_view(), *final(index) as int))
                &&& *old(index) <= *final(index) < tokens@.len()
            },
            Err(e) => spec_parse_params_more(tokens.deep_view(), *old(index) as int) == Err::<
                (Seq<SpecNode>, int),
                ParseError,
            >(e),
        },
    decreases tokens@.len() - *index, 1int, 0int,
{
    let n = tokens.len();
    if *index >= n {
        return Err(mk_err(ParseErrorKind::UnexpectedEnd, n));
    }
    if let Token::Comma = &tokens[*index] {
        *index += 1;
        match parse_var(index, tokens, true) {
            Err(e) => Err(e),
            Ok(v) => match parse_params_more(index, tokens) {
                Err(e) => Err(e),
                Ok(more) => Ok(cons_node(v, more)),
            },
        }
    } else {
        let ns: Vec<Node> = Vec::new();
        proof {
            assert(ns.deep_view() =~= Seq::<SpecNode>::empty());
        }
        Ok(ns)
    }
}

/// A parameter list, after the opening parenthesis.
fn parse_params(index: &mut usize, tokens: &Vec<Token>) -> (r: Result<Vec<Node>, ParseError>)
    ensures
        match r {
            Ok(ns) => {
                &&& spec_parse_params(tokens.deep_view(), *old(index) as int) == Ok::<
                    (Seq<SpecNode>, int),
                    ParseError,
                >((ns.deep_view(), *final(index) as int))
                &&& *old(index) <= *final(index) < tokens@.len()
            },
            Err(e) => spec_parse_params(tokens.deep_view(), *old(index) as int) == Err::<
                (Seq<SpecNode>, int),
                ParseError,
            >(e),
        },
    decreases tokens@.len() - *index, 2int, 0int,
{
    let n = tokens.len();
    if *index >= n {
        return Err(mk_err(ParseErrorKind::UnexpectedEnd, n));
    }
    let is_ty = match &tokens[*index] {
        Token::IntT | Token::FloatT | Token::CharT | Token::BoolT | Token::VoidT => true,
        _ => false,
    };
    if is_ty {
        match parse_var(index, tokens, true) {
            Err(e) => Err(e),
            Ok(v) => match parse_params_more(index, tokens) {
                Err(e) => Err(e),
                Ok(more) => Ok(cons_node(v, more)),
            },
        }
    } else {
        parse_params_more(index, tokens)
    }
}

/// A statement block, up to (not consuming) its closing brace.
fn parse_stmts(index: &mut usize, tokens: &Vec<Token>, allow_while: bool) -> (r: Result<
    Vec<Node>,
    ParseError,
>)
    ensures
        match r {
            Ok(ns) => {
                &&& spec_parse_stmts(tokens.deep_view(), *old(index) as int, allow_while) == Ok::<
                    (Seq<SpecNode>, int),
                    ParseError,
                >((ns.deep_view(), *final(index) as int))
                &&& *old(index) <= *final(index) < tokens@.len()
            },
            Err(e) => spec_parse_stmts(tokens.deep_view(), *old(index) as int, allow_while)
                == Err::<(Seq<SpecNode>, int), ParseError>(e),
        },
    decreases tokens@.len() - *index, 5int, 0int,
{
    let n = tokens.len();
    if *index >= n {
        return Err(mk_err(ParseErrorKind::UnexpectedEnd, n));
    }
    match &tokens[*index] {
        Token::RC => {
            let ns: Vec<Node> = Vec::new();
            proof {
                assert(ns.deep_view() =~= Seq::<SpecNode>::empty());
            }
            Ok(ns)
        },
        Token::CharT | Token::BoolT | Token::IntT | Token::FloatT => {
            match parse_var(index, tokens, false) {
                Err(e) => Err(e),
                Ok(node) => match parse_stmts(index, tokens, allow_while) {
                    Err(e) => Err(e),
                    Ok(rest) => Ok(cons_node(node, rest)),
                },
            }
        },
        Token::If => {
            match parse_if(index, tokens) {
                Err(e) => Err(e),
                Ok(node) => match parse_stmts(index, tokens, allow_while) {
                    Err(e) => Err(e),
                    Ok(rest) => Ok(cons_node(node, rest)),
                },
            }
        },
        Token::While => {
            if allow_while {
                match parse_while(index, tokens) {
                    Err(e) => Err(e),
                    Ok(node) => match parse_stmts(index, tokens, allow_while) {
                        Err(e) => Err(e),
                        Ok(rest) => Ok(cons_node(node, rest)),
                    },
                }
            } else {
                Err(mk_err(ParseErrorKind::UnexpectedToken, *index))
            }
        },
        Token::Id { tok_lexeme: _ } | Token::Negation | Token::Inc | Token::Dec => {
            match parse_expr(index, tokens) {
                Err(e) => Err(e),
                Ok(node) => match parse_stmts(index, tokens, allow_while) {
                    Err(e) => Err(e),
                    Ok(rest) => Ok(cons_node(node, rest)),
                },
            }
        },
        Token::Semicolon => {
            *index += 1;
            parse_stmts(index, tokens, allow_while)
        },
        _ => Err(mk_err(ParseErrorKind::UnexpectedToken, *index)),
    }
}

/// An if-statement, with its cursor at the `if` token.
fn parse_if(index: &mut usize, tokens: &Vec<Token>) -> (r: Result<Node, ParseError>)
    ensures
        match r {
            Ok(node) => {
                &&& spec_parse_if(tokens.deep_view(), *old(index) as int) == Ok::<
                    (SpecNode, int),
                    ParseError,
                >((node@, *final(index) as int))
                &&& *old(index) < *final(index) <= tokens@.len()
            },
            Err(e) => spec_parse_if(tokens.deep_view(), *old(index) as int) == Err::<
                (SpecNode, int),
                ParseError,
            >(e),
        },
    decreases tokens@.len() - *index, 3int, 0int,
{
    let n = tokens.len();
    if *index >= n || *index + 1 >= n {
        return Err(mk_err(ParseErrorKind::UnexpectedEnd, n));
    }
    match &tokens[*index + 1] {
        Token::LP => {},
        _ => {
            return Err(mk_err(ParseErrorKind::ExpectedLParen, *index + 1));
        },
    }
    *index += 2;
    match parse_expr(index, tokens) {
        Err(e) => Err(e),
        Ok(cond) => {
            if *index >= n || *index + 1 >= n {
                return Err(mk_err(ParseErrorKind::UnexpectedEnd, n));
            }
            match &tokens[*index + 1] {
                Token::LC => {},
                _ => {
                    return Err(mk_err(ParseErrorKind::ExpectedLBrace, *index + 1));
                },
            }
            *index += 2;
            match parse_stmts(index, tokens, false) {
                Err(e) => Err(e),
                Ok(body) => {
                    let block = block_node(body);
                    *index += 1;
                    if *index >= n {
                        return Err(mk_err(ParseErrorKind::UnexpectedEnd, n));
                    }
                    match &tokens[*index] {
                        Token::Else => {
                            if *index + 1 >= n {
                                return Err(mk_err(ParseErrorKind::UnexpectedEnd, n));
                            }
                            let chains = match &tokens[*index + 1] {
                                Token::If => true,
                                _ => false,
                            };
                            if chains {
                                *index += 1;
                                match parse_if(index, tokens) {
                                    Err(e) => Err(e),
                                    Ok(inner) => Ok(
                                        Node::If {
                                            cond: Box::new(cond),
                                            block: Box::new(block),
                                            next: Box::new(inner),
                                        },
                                    ),
                                }
                            } else {
                                *index += 2;
                                match parse_stmts(index, tokens, false) {
                                    Err(e) => Err(e),
                                    Ok(eb) => {
                                        *index += 1;
                                        let eblock = block_node(eb);
                                        let ghost eb0 = eblock@;
                                        let alt = Node::Else { block: Box::new(eblock) };
                                        proof {
                                            assert(alt@ == (SpecNode::Else {
                                                block: Box::new(eb0),
                                            }));
                                        }
                                        Ok(
                                            Node::If {
                                                cond: Box::new(cond),
                                                block: Box::new(block),
                                                next: Box::new(alt),
                                            },
                                        )
                                    },
                                }
                            }
                        },
                        _ => {
                            let sentinel = Node::Empty;
                            proof {
                                assert(sentinel@ == SpecNode::Empty);
                            }
                            Ok(
                                Node::If {
                                    cond: Box::new(cond),
                                    block: Box::new(block),
                                    next: Box::new(sentinel),
                                },
                            )
                        },
                    }
                },
            }
        },
    }
}

/// A while-statement, with its cursor at the `while` token. The closing
/// brace of the body is consumed.
fn parse_while(index: &mut usize, tokens: &Vec<Token>) -> (r: Result<Node, ParseError>)
    ensures
        match r {
            Ok(node) => {
                &&& spec_parse_while(tokens.deep_view(), *old(index) as int) == Ok::<
                    (SpecNode, int),
                    ParseError,
                >((node@, *final(index) as int))
                &&& *old(index) < *final(index) <= tokens@.len()
            },
            Err(e) => spec_parse_while(tokens.deep_view(), *old(index) as int) == Err::<
                (SpecNode, int),
                ParseError,
            >(e),
        },
    decreases tokens@.len() - *index, 3int, 0int,
{
    let n = tokens.len();
    if *index >= n || *index + 1 >= n {
        return Err(mk_err(ParseErrorKind::UnexpectedEnd, n));
    }
    match &tokens[*index + 1] {
        Token::LP => {},
        _ => {
            return Err(mk_err(ParseErrorKind::ExpectedLParen, *index + 1));
        },
    }
    *index += 2;
    match parse_expr(index, tokens) {
        Err(e) => Err(e),
        Ok(cond) => {
            if *index >= n || *index + 1 >= n {
                return Err(mk_err(ParseErrorKind::UnexpectedEnd, n));
            }
            match &tokens[*index + 1] {
                Token::LC => {},
                _ => {
                    return Err(mk_err(ParseErrorKind::ExpectedLBrace, *index + 1));
                },
            }
            *index += 2;
            match parse_stmts(index, tokens, true) {
                Err(e) => Err(e),
                Ok(body) => {
                    *index += 1;
                    let block = block_node(body);
                    Ok(Node::While { cond: Box::new(cond), block: Box::new(block) })
                },
            }
        },
    }
}

/// A function definition, with its cursor at the return type keyword. The
/// cursor ends at the body's closing brace.
fn parse_func_def(index: &mut usize, tokens: &Vec<Token>) -> (r: Result<Node, ParseError>)
    ensures
        match r {
            Ok(node) => {
                &&& spec_parse_func_def(tokens.deep_view(), *old(index) as int) == Ok::<
                    (SpecNode, int),
                    ParseError,
                >((node@, *final(index) as int))
                &&& *old(index) < *final(index) < tokens@.len()
            },
            Err(e) => spec_parse_func_def(tokens.deep_view(), *old(index) as int) == Err::<
                (SpecNode, int),
                ParseError,
            >(e),
        },
    decreases tokens@.len() - *index, 6int, 0int,
{
    let n = tokens.len();
    if *index >= n {
        return Err(mk_err(ParseErrorKind::UnexpectedEnd, n));
    }
    let ret_t = match &tokens[*index] {
        Token::IntT => Type::IntT,
        Token::FloatT => Type::FloatT,
        Token::CharT => Type::CharT,
        Token::BoolT => Type::BoolT,
        Token::VoidT => Type::VoidT,
        _ => {
            return Err(mk_err(ParseErrorKind::ExpectedType, *index));
        },
    };
    if *index + 1 >= n {
        return Err(mk_err(ParseErrorKind::UnexpectedEnd, n));
    }
    let func_name = match &tokens[*index + 1] {
        Token::Id { tok_lexeme } => tok_lexeme.clone(),
        _ => {
            return Err(mk_err(ParseErrorKind::ExpectedName, *index + 1));
        },
    };
    let ghost nm = func_name@;
    let name_node = Node::Id { id: func_name };
    proof {
        assert(name_node@ == (SpecNode::Id { id: nm }));
    }
    if *index + 2 >= n {
        return Err(mk_err(ParseErrorKind::UnexpectedEnd, n));
    }
    match &tokens[*index + 2] {
        Token::LP => {},
        _ => {
            return Err(mk_err(ParseErrorKind::ExpectedLParen, *index + 2));
        },
    }
    *index += 3;
    match parse_params(index, tokens) {
        Err(e) => Err(e),
        Ok(params) => {
            match &tokens[*index] {
                Token::RP => {},
                _ => {
                    return Err(mk_err(ParseErrorKind::ExpectedRParen, *index));
                },
            }
            if *index + 1 >= n {
                return Err(mk_err(ParseErrorKind::UnexpectedEnd, n));
            }
            match &tokens[*index + 1] {
                Token::LC => {},
                _ => {
                    return Err(mk_err(ParseErrorKind::ExpectedLBrace, *index + 1));
                },
            }
            *index += 2;
            match parse_stmts(index, tokens, true) {
                Err(e) => Err(e),
                Ok(body) => {
                    let args_block = block_node(params);
                    let body_block = block_node(body);
                    Ok(
                        Node::FuncDef {
                            ret_t,
                            name: Box::new(name_node),
                            args: Box::new(args_block),
                            block: Box::new(body_block),
                        },
                    )
                },
            }
        },
    }
}

/// The top level: function definitions are collected; any other top-level
/// token is deliberately skipped.
fn parse_top(index: &mut usize, tokens: &Vec<Token>) -> (r: Result<Vec<Node>, ParseError>)
    ensures
        match r {
            Ok(ns) => spec_parse_top(tokens.deep_view(), *old(index) as int) == Ok::<
                Seq<SpecNode>,
                ParseError,
            >(ns.deep_view()),
            Err(e) => spec_parse_top(tokens.deep_view(), *old(index) as int) == Err::<
                Seq<SpecNode>,
                ParseError,
            >(e),
        },
    decreases tokens@.len() - *index, 7int, 0int,
{
    let n = tokens.len();
    if *index >= n {
        let ns: Vec<Node> = Vec::new();
        proof {
            assert(ns.deep_view() =~= Seq::<SpecNode>::empty());
        }
        return Ok(ns);
    }
    let is_ty = match &tokens[*index] {
        Token::IntT | Token::FloatT | Token::CharT | Token::BoolT | Token::VoidT => true,
        _ => false,
    };
    if is_ty {
        match parse_func_def(index, tokens) {
            Err(e) => Err(e),
            Ok(f) => {
                *index += 1;
                match parse_top(index, tokens) {
                    Err(e) => Err(e),
                    Ok(rest) => Ok(cons_node(f, rest)),
                }
            },
        }
    } else {
        *index += 1;
        parse_top(index, tokens)
    }
}

/// Parse the whole token sequence, appending the one root block that
/// `spec_parse` assigns to it, or return the first parse error and append
/// nothing.
pub fn parse(tokens: &Vec<Token>, ast: &mut Vec<Node>) -> (r: Result<(), ParseError>)
    ensures
        match r {
            Ok(_) => {
                &&& spec_parse(tokens.deep_view()) is Ok
                &&& final(ast).deep_view() == old(ast).deep_view() + seq![
                    spec_parse(tokens.deep_view())->Ok_0,
                ]
            },
            Err(e) => {
                &&& spec_parse(tokens.deep_view()) == Err::<SpecNode, ParseError>(e)
                &&& final(ast).deep_view() == old(ast).deep_view()
            },
        },
{
    let mut index: usize = 0;
    match parse_top(&mut index, tokens) {
        Err(e) => Err(e),
        Ok(fs) => {
            let root = block_node(fs);
            let ghost r0 = root@;
            ast.push(root);
            proof {
                assert(ast.deep_view() =~= old(ast).deep_view() + seq![r0]);
            }
            Ok(())
        },
    }
}

} // verus!
