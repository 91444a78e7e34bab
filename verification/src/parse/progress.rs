//! Every rule of the grammar consumes input: none leaves more to read than
//! it found, and those that take a token leave less. So the bounds that
//! the grammar puts on each parse before it goes on never change a parse.

use crate::lex::lexer::{lemma_next_progress, lemma_peek_progress, State};
use crate::lex::token::{Kind, Token};
use crate::parse::ast::{ExprModel, IdentModel, NodeModel};
use crate::parse::grammar::{
    block,
    block_loop,
    call,
    climb,
    conditional,
    entries,
    entries_loop,
    entry,
    expect_ident,
    expect_token,
    expr,
    expr_from,
    exprs,
    exprs_loop,
    function,
    held,
    infix,
    infix_of,
    let_stmt,
    node,
    operator_of,
    params,
    params_loop,
    prefix,
    return_stmt,
    skip_optional_semicolon,
    standalone_expr,
    take_if,
    Parsed,
    Precedence,
};
use vstd::prelude::*;

verus! {

/// `parsed` leaves no more to read than `from` did.
pub open spec fn kept<T>(input: Seq<u8>, from: State, parsed: Parsed<T>) -> bool {
    parsed.state.left(input) <= from.left(input)
}

/// `parsed` leaves no more to read than `from` did, and less where it
/// succeeded.
pub open spec fn advanced<T>(input: Seq<u8>, from: State, parsed: Parsed<T>) -> bool {
    &&& kept(input, from, parsed)
    &&& parsed.value is Ok ==> parsed.state.left(input) < from.left(input)
}

/// A parse that keeps within what was left is not changed by the bound on
/// it.
pub proof fn lemma_held<T>(input: Seq<u8>, from: State, parsed: Parsed<T>)
    requires
        kept(input, from, parsed),
    ensures
        held(input, from, parsed) == parsed,
{
}

/// Taking an expected token consumes it.
pub proof fn lemma_expect_token(input: Seq<u8>, st: State, expected: Kind)
    ensures
        advanced(input, st, expect_token(input, st, expected)),
{
    lemma_next_progress(input, st);
}

/// Taking an identifier consumes it.
pub proof fn lemma_expect_ident(input: Seq<u8>, st: State)
    ensures
        advanced(input, st, expect_ident(input, st)),
{
    lemma_next_progress(input, st);
}

/// Taking a token where it is of the kind asked for consumes it; looking
/// at another consumes nothing.
pub proof fn lemma_take_if(input: Seq<u8>, st: State, kind: Kind)
    ensures
        take_if(input, st, kind).1.left(input) <= st.left(input),
        take_if(input, st, kind).0 ==> take_if(input, st, kind).1.left(input) < st.left(input),
        skip_optional_semicolon(input, st).left(input) <= st.left(input),
{
    lemma_peek_progress(input, st);
    lemma_next_progress(input, st.peek(input).state);
    lemma_peek_progress(input, st);
}

/// The parameters keep within what was left.
pub proof fn lemma_params_loop(input: Seq<u8>, st: State, acc: Seq<IdentModel>)
    ensures
        advanced(input, st, params_loop(input, st, acc)),
    decreases st.left(input),
{
    reveal(params_loop);
    lemma_expect_ident(input, st);
    let ident = expect_ident(input, st);
    lemma_next_progress(input, ident.state);
    match ident.value {
        Ok(i) => {
            let step = ident.state.next(input);
            match step.item {
                Some(Ok(tk)) => {
                    if tk.kind == Kind::Comma {
                        lemma_params_loop(input, step.state, acc.push(i));
                    }
                },
                _ => {},
            }
        },
        Err(_) => {},
    }
}

/// The parameters keep within what was left.
pub proof fn lemma_params(input: Seq<u8>, st: State)
    ensures
        advanced(input, st, params(input, st)),
{
    lemma_take_if(input, st, Kind::RightParen);
    lemma_params_loop(input, take_if(input, st, Kind::RightParen).1, Seq::empty());
}

/// An expression consumes input.
pub proof fn lemma_expr_from(input: Seq<u8>, st: State, prec: Option<Precedence>)
    ensures
        advanced(input, st, expr_from(input, st, prec)),
    decreases st.left(input), 0nat,
{
    reveal(expr_from);
    reveal(prefix);
    reveal(climb);
    lemma_next_progress(input, st);
    let step = st.next(input);
    match step.item {
        Some(Ok(token)) => {
            lemma_prefix(input, step.state, token);
            let first = held(input, step.state, prefix(input, step.state, token));
            match first.value {
                Ok(left) => {
                    lemma_climb(input, first.state, left, prec);
                },
                Err(_) => {},
            }
        },
        _ => {},
    }
}

/// Growing an expression by infix parts keeps within what was left.
pub proof fn lemma_climb(input: Seq<u8>, st: State, left: ExprModel, prec: Option<Precedence>)
    ensures
        kept(input, st, climb(input, st, left, prec)),
    decreases st.left(input), 1nat,
{
    reveal(climb);
    reveal(infix);
    lemma_peek_progress(input, st);
    let looked = st.peek(input);
    lemma_next_progress(input, looked.state);
    match looked.item {
        Some(Ok(tk)) => {
            lemma_infix(input, looked.state, left);
            let grown = infix(input, looked.state, left);
            match grown.value {
                Ok(next) => {
                    if grown.state.left(input) < st.left(input) {
                        lemma_climb(input, grown.state, next, prec);
                    }
                },
                Err(_) => {},
            }
        },
        _ => {},
    }
}

/// An expression consumes input.
pub proof fn lemma_expr(input: Seq<u8>, st: State)
    ensures
        advanced(input, st, expr(input, st)),
    decreases st.left(input), 1nat,
{
    reveal(expr);
    reveal(expr_from);
    lemma_expr_from(input, st, None);
}

/// What follows the first token of an expression keeps within what was
/// left.
pub proof fn lemma_prefix(input: Seq<u8>, st: State, token: Token)
    ensures
        kept(input, st, prefix(input, st, token)),
    decreases st.left(input), 5nat,
{
    reveal(prefix);
    reveal(expr);
    reveal(function);
    reveal(conditional);
    reveal(exprs);
    reveal(entries);
    match token.kind {
        Kind::LeftParen => {
            lemma_expr(input, st);
            let inner = held(input, st, expr(input, st));
            lemma_expect_token(input, inner.state, Kind::RightParen);
        },
        Kind::Fn => {
            lemma_function(input, st, token.pos);
        },
        Kind::If => {
            lemma_conditional(input, st, token.pos);
        },
        Kind::LeftBracket => {
            lemma_exprs(input, st, Kind::RightBracket);
        },
        Kind::Hyphen => {
            lemma_expr(input, st);
        },
        Kind::Bang => {
            lemma_expr(input, st);
        },
        Kind::LeftBrace => {
            lemma_entries(input, st);
        },
        _ => {},
    }
}

/// An infix part consumes its operator.
pub proof fn lemma_infix(input: Seq<u8>, st: State, left: ExprModel)
    ensures
        advanced(input, st, infix(input, st, left)),
    decreases st.left(input), 0nat,
{
    reveal(infix);
    reveal(expr_from);
    reveal(call);
    reveal(expr);
    lemma_next_progress(input, st);
    let step = st.next(input);
    match step.item {
        Some(Ok(tk)) => {
            match operator_of(tk.kind) {
                Some(_) => {
                    lemma_expr_from(input, step.state, infix_of(tk.kind));
                },
                None => {
                    if tk.kind == Kind::LeftParen {
                        lemma_call(input, step.state, tk.pos, left);
                    } else if tk.kind == Kind::LeftBracket {
                        lemma_expr(input, step.state);
                        let inner = held(input, step.state, expr(input, step.state));
                        lemma_expect_token(input, inner.state, Kind::RightBracket);
                    }
                },
            }
        },
        _ => {},
    }
}

/// A function expression consumes input.
pub proof fn lemma_function(input: Seq<u8>, st: State, pos: usize)
    ensures
        advanced(input, st, function(input, st, pos)),
    decreases st.left(input), 2nat,
{
    reveal(function);
    reveal(block);
    lemma_expect_token(input, st, Kind::LeftParen);
    let open = expect_token(input, st, Kind::LeftParen);
    match open.value {
        Ok(_) => {
            lemma_params(input, open.state);
            let list = held(input, open.state, params(input, open.state));
            match list.value {
                Ok(_) => {
                    lemma_block(input, list.state);
                },
                Err(_) => {},
            }
        },
        Err(_) => {},
    }
}

/// The arguments of a call keep within what was left.
pub proof fn lemma_call(input: Seq<u8>, st: State, pos: usize, target: ExprModel)
    ensures
        kept(input, st, call(input, st, pos, target)),
    decreases st.left(input), 4nat,
{
    reveal(call);
    reveal(exprs);
    lemma_exprs(input, st, Kind::RightParen);
}

/// A conditional consumes input.
pub proof fn lemma_conditional(input: Seq<u8>, st: State, pos: usize)
    ensures
        advanced(input, st, conditional(input, st, pos)),
    decreases st.left(input), 2nat,
{
    reveal(conditional);
    reveal(expr);
    reveal(block);
    lemma_expr(input, st);
    let condition = held(input, st, expr(input, st));
    match condition.value {
        Ok(_) => {
            lemma_block(input, condition.state);
            let consequence = held(input, condition.state, block(input, condition.state));
            match consequence.value {
                Ok(_) => {
                    lemma_take_if(input, consequence.state, Kind::Else);
                    let taken = take_if(input, consequence.state, Kind::Else);
                    if taken.0 {
                        lemma_block(input, taken.1);
                    }
                },
                Err(_) => {},
            }
        },
        Err(_) => {},
    }
}

/// A list of expressions keeps within what was left.
pub proof fn lemma_exprs(input: Seq<u8>, st: State, end: Kind)
    ensures
        kept(input, st, exprs(input, st, end)),
    decreases st.left(input), 3nat,
{
    reveal(exprs);
    reveal(exprs_loop);
    lemma_take_if(input, st, end);
    let taken = take_if(input, st, end);
    if !taken.0 {
        lemma_exprs_loop(input, taken.1, end, Seq::empty());
    }
}

/// A list of expressions keeps within what was left.
pub proof fn lemma_exprs_loop(input: Seq<u8>, st: State, end: Kind, acc: Seq<ExprModel>)
    ensures
        kept(input, st, exprs_loop(input, st, end, acc)),
    decreases st.left(input), 2nat,
{
    reveal(exprs_loop);
    reveal(expr);
    lemma_expr(input, st);
    let element = held(input, st, expr(input, st));
    lemma_next_progress(input, element.state);
    match element.value {
        Ok(e) => {
            let step = element.state.next(input);
            match step.item {
                Some(Ok(tk)) => {
                    if tk.kind == Kind::Comma {
                        lemma_exprs_loop(input, step.state, end, acc.push(e));
                    }
                },
                _ => {},
            }
        },
        Err(_) => {},
    }
}

/// The entries of a map literal keep within what was left.
pub proof fn lemma_entries(input: Seq<u8>, st: State)
    ensures
        kept(input, st, entries(input, st)),
    decreases st.left(input), 4nat,
{
    reveal(entries);
    reveal(entries_loop);
    lemma_take_if(input, st, Kind::RightBrace);
    let taken = take_if(input, st, Kind::RightBrace);
    if !taken.0 {
        lemma_entries_loop(input, taken.1, Seq::empty());
    }
}

/// An entry of a map literal consumes input.
pub proof fn lemma_entry(input: Seq<u8>, st: State)
    ensures
        advanced(input, st, entry(input, st)),
    decreases st.left(input), 2nat,
{
    reveal(entry);
    reveal(expr);
    lemma_expr(input, st);
    let key = held(input, st, expr(input, st));
    match key.value {
        Ok(_) => {
            lemma_expect_token(input, key.state, Kind::Colon);
            let colon = expect_token(input, key.state, Kind::Colon);
            match colon.value {
                Ok(_) => {
                    lemma_expr(input, colon.state);
                },
                Err(_) => {},
            }
        },
        Err(_) => {},
    }
}

/// The entries of a map literal keep within what was left.
pub proof fn lemma_entries_loop(input: Seq<u8>, st: State, acc: Seq<(ExprModel, ExprModel)>)
    ensures
        kept(input, st, entries_loop(input, st, acc)),
    decreases st.left(input), 3nat,
{
    reveal(entries_loop);
    reveal(entry);
    lemma_entry(input, st);
    let element = held(input, st, entry(input, st));
    lemma_next_progress(input, element.state);
    match element.value {
        Ok(e) => {
            let step = element.state.next(input);
            match step.item {
                Some(Ok(tk)) => {
                    if tk.kind == Kind::Comma {
                        lemma_entries_loop(input, step.state, acc.push(e));
                    }
                },
                _ => {},
            }
        },
        Err(_) => {},
    }
}

/// A block consumes input.
pub proof fn lemma_block(input: Seq<u8>, st: State)
    ensures
        advanced(input, st, block(input, st)),
    decreases st.left(input), 0nat,
{
    reveal(block);
    reveal(block_loop);
    lemma_expect_token(input, st, Kind::LeftBrace);
    let open = expect_token(input, st, Kind::LeftBrace);
    match open.value {
        Ok(pos) => {
            lemma_block_loop(input, open.state, pos, Seq::empty());
        },
        Err(_) => {},
    }
}

/// The nodes of a block keep within what was left.
pub proof fn lemma_block_loop(input: Seq<u8>, st: State, pos: usize, acc: Seq<NodeModel>)
    ensures
        kept(input, st, block_loop(input, st, pos, acc)),
    decreases st.left(input), 4nat,
{
    reveal(block_loop);
    reveal(node);
    lemma_peek_progress(input, st);
    let looked = st.peek(input);
    lemma_next_progress(input, looked.state);
    match looked.item {
        Some(Ok(tk)) => {
            if tk.kind != Kind::RightBrace {
                lemma_node(input, looked.state);
                let item = node(input, looked.state);
                match item.value {
                    Ok(Some(n)) => {
                        if item.state.left(input) < st.left(input) {
                            lemma_block_loop(input, item.state, pos, acc.push(n));
                        }
                    },
                    _ => {},
                }
            }
        },
        _ => {},
    }
}

/// A node consumes input; the end of the input consumes nothing.
pub proof fn lemma_node(input: Seq<u8>, st: State)
    ensures
        kept(input, st, node(input, st)),
        node(input, st).value matches Ok(Some(_)) ==> node(input, st).state.left(input) < st.left(
            input,
        ),
    decreases st.left(input), 3nat,
{
    reveal(node);
    reveal(let_stmt);
    reveal(return_stmt);
    reveal(standalone_expr);
    lemma_peek_progress(input, st);
    let looked = st.peek(input);
    lemma_next_progress(input, looked.state);
    match looked.item {
        Some(Ok(tk)) => {
            if tk.kind == Kind::Let {
                lemma_let_stmt(input, looked.state);
            } else if tk.kind == Kind::Return {
                lemma_return_stmt(input, looked.state);
            } else {
                lemma_standalone_expr(input, looked.state);
            }
        },
        _ => {},
    }
}

/// A `let` statement consumes input.
pub proof fn lemma_let_stmt(input: Seq<u8>, st: State)
    ensures
        advanced(input, st, let_stmt(input, st)),
    decreases st.left(input), 2nat,
{
    reveal(let_stmt);
    reveal(expr);
    lemma_expect_token(input, st, Kind::Let);
    let keyword = expect_token(input, st, Kind::Let);
    lemma_expect_ident(input, keyword.state);
    let name = expect_ident(input, keyword.state);
    lemma_expect_token(input, name.state, Kind::Assign);
    let sign = expect_token(input, name.state, Kind::Assign);
    if keyword.value is Ok && name.value is Ok && sign.value is Ok {
        lemma_expr(input, sign.state);
        lemma_take_if(input, expr(input, sign.state).state, Kind::Semicolon);
    }
}

/// A `return` statement consumes input.
pub proof fn lemma_return_stmt(input: Seq<u8>, st: State)
    ensures
        advanced(input, st, return_stmt(input, st)),
    decreases st.left(input), 2nat,
{
    reveal(return_stmt);
    reveal(expr);
    lemma_expect_token(input, st, Kind::Return);
    let keyword = expect_token(input, st, Kind::Return);
    if keyword.value is Ok {
        lemma_take_if(input, keyword.state, Kind::Semicolon);
        let taken = take_if(input, keyword.state, Kind::Semicolon);
        if !taken.0 {
            lemma_expr(input, taken.1);
            lemma_take_if(input, expr(input, taken.1).state, Kind::Semicolon);
        }
    }
}

/// An expression that stands alone consumes input.
pub proof fn lemma_standalone_expr(input: Seq<u8>, st: State)
    ensures
        advanced(input, st, standalone_expr(input, st)),
    decreases st.left(input), 2nat,
{
    reveal(standalone_expr);
    reveal(expr);
    lemma_expr(input, st);
    lemma_take_if(input, expr(input, st).state, Kind::Semicolon);
}

} // verus!
