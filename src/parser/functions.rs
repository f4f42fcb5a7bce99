//! Function declarations and function calls.
use vstd::prelude::*;

use super::{tok, CallParameters, Modifiers, ParseError, ParsedToken, Parser, Parameters, Type};
use crate::lexer::TokenKind;
use crate::lexer::Token;

verus! {

/// A parameter as the contracts see it: name, modifiers, type.
pub type ParamView = (String, Seq<Modifiers>, Type);

/// An argument as the contracts see it: name, modifiers.
pub type ArgView = (String, Seq<Modifiers>);

/// `done` followed by the items that `r` yields, with the position it gives.
pub open spec fn glue<P>(done: Seq<P>, r: Result<(Seq<P>, int), ParseError>) -> Result<
    (Seq<P>, int),
    ParseError,
> {
    match r {
        Ok((items, k)) => Ok((done + items, k)),
        Err(e) => Err(e),
    }
}

/// `mut` and then `const` markers from `j` on, each optional, and the
/// position after them.
pub open spec fn modifiers_at(ts: Seq<Token>, j: int) -> (Seq<Modifiers>, int) {
    let (m1, j1) = if tok(ts, j) is Mut {
        (seq![Modifiers::Mutable], j + 1)
    } else {
        (Seq::empty(), j)
    };
    if tok(ts, j1) is Const {
        (m1.push(Modifiers::Constant), j1 + 1)
    } else {
        (m1, j1)
    }
}

/// The parameter whose name stands at `i`: the name, then modifiers, a type
/// and a comma, each optional; and the position after it.
pub open spec fn parameter_at(ts: Seq<Token>, i: int) -> (ParamView, int) {
    let (mods, j) = modifiers_at(ts, i + 1);
    let (t, k) = match tok(ts, j) {
        TokenKind::Type(t) => (t, j + 1),
        _ => (Type::Unspecified, j),
    };
    let end = if tok(ts, k) is Comma {
        k + 1
    } else {
        k
    };
    ((tok(ts, i)->Unknown_0, mods, t), end)
}

/// The parameters from `i` up to the closing parenthesis, and the position
/// after it.  Each parameter starts with a name.
pub open spec fn parameters_from(ts: Seq<Token>, i: int) -> Result<(Seq<ParamView>, int), ParseError>
    decreases ts.len() - i,
{
    if tok(ts, i) is RightParen {
        Ok((Seq::empty(), i + 1))
    } else if 0 <= i < ts.len() && tok(ts, i) is Unknown {
        let (q, j) = parameter_at(ts, i);
        if j <= i {
            Err(ParseError::Syntax(i as usize))
        } else {
            glue(seq![q], parameters_from(ts, j))
        }
    } else {
        Err(ParseError::Syntax(i as usize))
    }
}

/// The function declaration at `i`: `fn`, a name, `(`, the parameters, `)`,
/// and an optional return type, `void` where there is none.  Returns the
/// name, parameters and return type, and the position of the token after
/// the `)`; the return type is not consumed.
pub open spec fn function_at(ts: Seq<Token>, i: int) -> Result<
    ((String, Seq<ParamView>, Type), int),
    ParseError,
> {
    if !(tok(ts, i) is Fn && tok(ts, i + 1) is Unknown) {
        Err(ParseError::Syntax(i as usize))
    } else if !(tok(ts, i + 2) is LeftParen) {
        Err(ParseError::Syntax((i + 2) as usize))
    } else {
        match parameters_from(ts, i + 3) {
            Ok((params, k)) => {
                let ret = match tok(ts, k) {
                    TokenKind::Type(t) => t,
                    _ => Type::Void,
                };
                Ok(((tok(ts, i + 1)->Unknown_0, params, ret), k))
            },
            Err(e) => Err(e),
        }
    }
}

/// How the contracts see a parameter.
pub open spec fn param_view(q: (String, Vec<Modifiers>, Type)) -> ParamView {
    (q.0, q.1@, q.2)
}

/// How the contracts see a list of parameters.
pub open spec fn params_view(ps: Seq<(String, Vec<Modifiers>, Type)>) -> Seq<ParamView> {
    ps.map_values(|q: (String, Vec<Modifiers>, Type)| param_view(q))
}

/// Is `t` the declaration with name, parameters and return type `f`?
pub open spec fn is_function(t: ParsedToken, f: (String, Seq<ParamView>, Type)) -> bool {
    t matches ParsedToken::Function(name, params, ret) && name == f.0 && params_view(params@) == f.1
        && ret == f.2
}

/// The modifiers at the cursor, which moves past them (see [`modifiers_at`]).
pub fn parse_modifiers(p: &mut Parser) -> (r: Vec<Modifiers>)
    requires
        old(p).wf(),
    ensures
        final(p).wf(),
        final(p).tokens == old(p).tokens,
        final(p).output == old(p).output,
        (r@, final(p).i as int) == modifiers_at(old(p).tokens@, old(p).i as int),
{
    let mut mods: Vec<Modifiers> = Vec::new();
    if p.i < p.tokens.len() && matches!(p.tokens[p.i].kind, TokenKind::Mut) {
        mods.push(Modifiers::Mutable);
        p.advance();
    }
    if p.i < p.tokens.len() && matches!(p.tokens[p.i].kind, TokenKind::Const) {
        mods.push(Modifiers::Constant);
        p.advance();
    }
    proof {
        let (m1, j1) = if tok(old(p).tokens@, old(p).i as int) is Mut {
            (seq![Modifiers::Mutable], old(p).i + 1)
        } else {
            (Seq::<Modifiers>::empty(), old(p).i as int)
        };
        if tok(old(p).tokens@, j1) is Const {
            assert(mods@ =~= m1.push(Modifiers::Constant));
        } else {
            assert(mods@ =~= m1);
        }
    }
    mods
}

/// Parses a function declaration at the cursor and appends it to the
/// output (see [`function_at`]).
pub fn parse_function(p: &mut Parser) -> (r: Result<(), ParseError>)
    requires
        old(p).wf(),
    ensures
        final(p).wf(),
        final(p).tokens == old(p).tokens,
        match function_at(old(p).tokens@, old(p).i as int) {
            Ok((f, k)) => {
                &&& r is Ok
                &&& final(p).i == k
                &&& final(p).output@.len() == old(p).output@.len() + 1
                &&& final(p).output@.drop_last() == old(p).output@
                &&& is_function(final(p).output@.last(), f)
            },
            Err(e) => r == Err::<(), ParseError>(e),
        },
{
    let ghost ts = p.tokens@;
    let i = p.i;
    let n = p.tokens.len();
    if !(i < n && matches!(p.tokens[i].kind, TokenKind::Fn)) {
        return Err(ParseError::Syntax(i));
    }
    let name = if i + 1 < n {
        match &p.tokens[i + 1].kind {
            TokenKind::Unknown(a) => a.clone(),
            _ => return Err(ParseError::Syntax(i)),
        }
    } else {
        return Err(ParseError::Syntax(i));
    };
    if !(i + 2 < n && matches!(p.tokens[i + 2].kind, TokenKind::LeftParen)) {
        return Err(ParseError::Syntax(i + 2));
    }
    p.advance_with(3);
    let mut parameters: Parameters = Vec::new();
    proof {
        if let Ok((qs, k)) = parameters_from(ts, i + 3) {
            assert(Seq::<ParamView>::empty() + qs =~= qs);
        }
        assert(params_view(parameters@) =~= Seq::<ParamView>::empty());
    }
    loop
        invariant_except_break
            parameters_from(ts, i + 3) == glue(params_view(parameters@), parameters_from(ts, p.i as int)),
        invariant
            p.wf(),
            p.tokens == old(p).tokens,
            ts == old(p).tokens@,
            i == old(p).i,
            p.output == old(p).output,
            tok(ts, i as int) is Fn,
            tok(ts, i + 1) == TokenKind::Unknown(name),
            tok(ts, i + 2) is LeftParen,
        ensures
            parameters_from(ts, i + 3) == Ok::<(Seq<ParamView>, int), ParseError>(
                (params_view(parameters@), p.i as int),
            ),
        decreases p.tokens.len() - p.i,
    {
        if p.i < p.tokens.len() && matches!(p.tokens[p.i].kind, TokenKind::RightParen) {
            p.advance();
            proof {
                assert(params_view(parameters@) + Seq::<ParamView>::empty() =~= params_view(parameters@));
            }
            break ;
        }
        let start = p.i;
        let pname = if p.i < p.tokens.len() {
            match &p.tokens[p.i].kind {
                TokenKind::Unknown(a) => a.clone(),
                _ => return Err(ParseError::Syntax(start)),
            }
        } else {
            return Err(ParseError::Syntax(start));
        };
        p.advance();
        let mods = parse_modifiers(p);
        let mut ptype = Type::Unspecified;
        if p.i < p.tokens.len() {
            match &p.tokens[p.i].kind {
                TokenKind::Type(t) => {
                    ptype = *t;
                    p.advance();
                },
                _ => {},
            }
        }
        if p.i < p.tokens.len() && matches!(p.tokens[p.i].kind, TokenKind::Comma) {
            p.advance();
        }
        let ghost done = params_view(parameters@);
        let ghost q = (pname, mods@, ptype);
        parameters.push((pname, mods, ptype));
        proof {
            assert(parameter_at(ts, start as int) == (q, p.i as int));
            assert(params_view(parameters@) =~= done.push(q));
            assert(done.push(q) =~= done + seq![q]);
            if let Ok((qs, k)) = parameters_from(ts, p.i as int) {
                assert(done + (seq![q] + qs) =~= done.push(q) + qs);
            }
        }
    }
    let ret = if p.i < p.tokens.len() {
        match &p.tokens[p.i].kind {
            TokenKind::Type(t) => *t,
            _ => Type::Void,
        }
    } else {
        Type::Void
    };
    p.add_token(ParsedToken::Function(name, parameters, ret));
    proof {
        assert(p.output@.drop_last() =~= old(p).output@);
    }
    Ok(())
}

/// The arguments from `i` up to the closing parenthesis, and the position
/// after it.  An argument is optional modifiers and a name, followed by `,`
/// or `)`; a name followed by anything else is skipped.
pub open spec fn arguments_from(ts: Seq<Token>, i: int) -> Result<(Seq<ArgView>, int), ParseError>
    decreases ts.len() - i,
{
    let (mods, j) = modifiers_at(ts, i);
    if tok(ts, j) is RightParen {
        Ok((Seq::empty(), j + 1))
    } else if !(0 <= i <= j < ts.len() && tok(ts, j) is Unknown) {
        Err(ParseError::Syntax(j as usize))
    } else {
        let arg = (tok(ts, j)->Unknown_0, mods);
        let k = j + 1;
        if tok(ts, k) is Comma {
            glue(seq![arg], arguments_from(ts, k + 1))
        } else if tok(ts, k) is RightParen {
            Ok((seq![arg], k + 1))
        } else {
            arguments_from(ts, k)
        }
    }
}

/// The function call at `i`: a name, `(`, the arguments, `)`.  Returns the
/// name and arguments, and the position after the `)`.
pub open spec fn call_at(ts: Seq<Token>, i: int) -> Result<((String, Seq<ArgView>), int), ParseError> {
    if !(tok(ts, i) is Unknown) {
        Err(ParseError::Syntax(i as usize))
    } else if !(tok(ts, i + 1) is LeftParen) {
        Err(ParseError::Syntax((i + 1) as usize))
    } else {
        match arguments_from(ts, i + 2) {
            Ok((args, k)) => Ok(((tok(ts, i)->Unknown_0, args), k)),
            Err(e) => Err(e),
        }
    }
}

/// How the contracts see a list of arguments.
pub open spec fn args_view(args: Seq<(String, Vec<Modifiers>)>) -> Seq<ArgView> {
    args.map_values(|a: (String, Vec<Modifiers>)| (a.0, a.1@))
}

/// Is `t` the call with name and arguments `c`?
pub open spec fn is_call(t: ParsedToken, c: (String, Seq<ArgView>)) -> bool {
    t matches ParsedToken::FunctionCall(name, args) && name == c.0 && args_view(args@) == c.1
}

/// Parses a function call at the cursor and appends it to the output (see
/// [`call_at`]).
pub fn parse_function_call(p: &mut Parser) -> (r: Result<(), ParseError>)
    requires
        old(p).wf(),
    ensures
        final(p).wf(),
        final(p).tokens == old(p).tokens,
        match call_at(old(p).tokens@, old(p).i as int) {
            Ok((c, k)) => {
                &&& r is Ok
                &&& final(p).i == k
                &&& final(p).output@.len() == old(p).output@.len() + 1
                &&& final(p).output@.drop_last() == old(p).output@
                &&& is_call(final(p).output@.last(), c)
            },
            Err(e) => r == Err::<(), ParseError>(e),
        },
{
    let ghost ts = p.tokens@;
    let i = p.i;
    let n = p.tokens.len();
    let name = if i < n {
        match &p.tokens[i].kind {
            TokenKind::Unknown(a) => a.clone(),
            _ => return Err(ParseError::Syntax(i)),
        }
    } else {
        return Err(ParseError::Syntax(i));
    };
    if !(i + 1 < n && matches!(p.tokens[i + 1].kind, TokenKind::LeftParen)) {
        return Err(ParseError::Syntax(i + 1));
    }
    p.advance_with(2);
    let mut parameters: CallParameters = Vec::new();
    proof {
        if let Ok((args, k)) = arguments_from(ts, i + 2) {
            assert(Seq::<ArgView>::empty() + args =~= args);
        }
        assert(args_view(parameters@) =~= Seq::<ArgView>::empty());
    }
    loop
        invariant_except_break
            arguments_from(ts, i + 2) == glue(args_view(parameters@), arguments_from(ts, p.i as int)),
        invariant
            p.wf(),
            p.tokens == old(p).tokens,
            ts == old(p).tokens@,
            i == old(p).i,
            i + 2 <= p.i,
            p.output == old(p).output,
            tok(ts, i as int) == TokenKind::Unknown(name),
            tok(ts, i + 1) is LeftParen,
        ensures
            arguments_from(ts, i + 2) == Ok::<(Seq<ArgView>, int), ParseError>(
                (args_view(parameters@), p.i as int),
            ),
        decreases p.tokens.len() - p.i,
    {
        let ghost start = p.i as int;
        let ghost done = args_view(parameters@);
        let mods = parse_modifiers(p);
        if p.i < p.tokens.len() && matches!(p.tokens[p.i].kind, TokenKind::RightParen) {
            p.advance();
            proof {
                assert(done + Seq::<ArgView>::empty() =~= done);
            }
            break ;
        }
        let at = p.i;
        let pname = if p.i < p.tokens.len() {
            match &p.tokens[p.i].kind {
                TokenKind::Unknown(a) => a.clone(),
                _ => return Err(ParseError::Syntax(at)),
            }
        } else {
            return Err(ParseError::Syntax(at));
        };
        p.advance();
        let ghost arg = (pname, mods@);
        if p.i < p.tokens.len() && matches!(p.tokens[p.i].kind, TokenKind::Comma) {
            parameters.push((pname, mods));
            p.advance();
            proof {
                assert(args_view(parameters@) =~= done + seq![arg]);
                if let Ok((rest, k)) = arguments_from(ts, p.i as int) {
                    assert(done + (seq![arg] + rest) =~= (done + seq![arg]) + rest);
                }
            }
        } else if p.i < p.tokens.len() && matches!(p.tokens[p.i].kind, TokenKind::RightParen) {
            parameters.push((pname, mods));
            p.advance();
            proof {
                assert(args_view(parameters@) =~= done + seq![arg]);
            }
            break ;
        }
    }
    p.add_token(ParsedToken::FunctionCall(name, parameters));
    proof {
        assert(p.output@.drop_last() =~= old(p).output@);
    }
    Ok(())
}

} // verus!
