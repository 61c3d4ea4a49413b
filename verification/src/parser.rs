//! Declaration parsing: consumes a token sequence and reconstructs one
//! function-declaration header, or fails with no partial record.

use vstd::prelude::*;
use crate::lexer::{Token, TokenModel};

verus! {

/// Parsed representation of one function declaration header.
#[derive(Debug, PartialEq)]
pub struct Ast {
    pub function_name: String,
    /// `(type name, parameter name)` pairs, in source order.
    pub parameters: Vec<(String, String)>,
    pub is_global: bool,
}

/// Ghost image of a declaration record.
pub struct AstModel {
    pub function_name: Seq<char>,
    pub parameters: Seq<(Seq<char>, Seq<char>)>,
    pub is_global: bool,
}

impl View for Ast {
    type V = AstModel;

    open spec fn view(&self) -> AstModel {
        AstModel {
            function_name: self.function_name@,
            parameters: self.parameters.deep_view(),
            is_global: self.is_global,
        }
    }
}

impl DeepView for Ast {
    type V = AstModel;

    open spec fn deep_view(&self) -> AstModel {
        self.view()
    }
}

/// The parameter loop of the grammar, applied to the tokens after the
/// opening parenthesis. A closing parenthesis, or running out of tokens,
/// ends the list. A type name must be followed by an identifier to yield
/// a parameter; a type name followed by anything else drops that
/// parameter and parsing continues past both tokens (the lenient skip).
/// Any other token, notably a comma, fails the parse.
pub open spec fn spec_parse_params(ts: Seq<TokenModel>) -> Option<Seq<(Seq<char>, Seq<char>)>>
    decreases ts.len(),
{
    if ts.len() == 0 {
        Some(Seq::empty())
    } else {
        match ts[0] {
            TokenModel::RightParen => Some(Seq::empty()),
            TokenModel::Type(t) => {
                if ts.len() >= 2 {
                    match ts[1] {
                        TokenModel::Identifier(name) => {
                            match spec_parse_params(ts.skip(2)) {
                                Some(rest) => Some(seq![(t, name)] + rest),
                                None => None,
                            }
                        },
                        _ => spec_parse_params(ts.skip(2)),
                    }
                } else {
                    Some(Seq::empty())
                }
            },
            _ => None,
        }
    }
}

/// The declaration grammar as a function of the token sequence: an
/// optional `global` keyword, then `fn`, a function name, an opening
/// parenthesis, and the parameter list. Any mismatch yields `None`.
pub open spec fn spec_parse(ts: Seq<TokenModel>) -> Option<AstModel> {
    let is_global = ts.len() > 0 && ts[0] is Global;
    let rest = if is_global {
        ts.skip(1)
    } else {
        ts
    };
    if rest.len() >= 3 && rest[0] is Fn && rest[1] is Identifier && rest[2] is LeftParen {
        match spec_parse_params(rest.skip(3)) {
            Some(ps) => Some(
                AstModel { function_name: rest[1]->Identifier_0, parameters: ps, is_global },
            ),
            None => None,
        }
    } else {
        None
    }
}

/// Parses exactly one function-declaration header from the tokens.
/// Succeeds exactly when the grammar above does, returning the record it
/// describes; on any mismatch returns `None` and never a partial record.
pub fn parse(tokens: Vec<Token>) -> (r: Option<Ast>)
    ensures
        r.deep_view() == spec_parse(tokens.deep_view()),
{
    let ghost ts = tokens.deep_view();
    let n = tokens.len();
    proof {
        assert(ts.len() == n);
    }
    let mut i: usize = 0;
    let mut is_global = false;
    if n > 0 && matches!(&tokens[0], Token::Global) {
        is_global = true;
        i = 1;
    }
    let ghost base = i as int;
    let ghost rest = ts.skip(base);
    proof {
        assert(is_global == (ts.len() > 0 && ts[0] is Global));
        assert(rest.len() == n - base);
        if !is_global {
            assert(ts.skip(0) =~= ts);
        }
    }
    if i >= n {
        return None;
    }
    let fn_ok = matches!(&tokens[i], Token::Fn);
    if !fn_ok {
        proof {
            assert(rest[0] == ts[base]);
        }
        return None;
    }
    i = i + 1;
    if i >= n {
        return None;
    }
    let function_name = match &tokens[i] {
        Token::Identifier(s) => s.clone(),
        _ => {
            proof {
                assert(rest[1] == ts[base + 1]);
            }
            return None;
        },
    };
    proof {
        assert(rest[1] == ts[base + 1]);
    }
    i = i + 1;
    if i >= n {
        return None;
    }
    let paren_ok = matches!(&tokens[i], Token::LeftParen);
    if !paren_ok {
        proof {
            assert(rest[2] == ts[base + 2]);
        }
        return None;
    }
    i = i + 1;
    let ghost start = i as int;
    proof {
        assert(rest[0] == ts[base]);
        assert(rest[2] == ts[base + 2]);
        assert(rest.skip(3) =~= ts.skip(start));
        assert(rest[1]->Identifier_0 == function_name@);
    }
    let mut parameters: Vec<(String, String)> = Vec::new();
    proof {
        assert(parameters.deep_view() =~= Seq::<(Seq<char>, Seq<char>)>::empty());
    }
    while i < n
        invariant
            start <= i <= n,
            n == ts.len(),
            ts == tokens.deep_view(),
            spec_parse(ts) == (match spec_parse_params(ts.skip(start)) {
                Some(ps) => Some(
                    AstModel { function_name: function_name@, parameters: ps, is_global },
                ),
                None => None::<AstModel>,
            }),
            spec_parse_params(ts.skip(start)) == (match spec_parse_params(ts.skip(i as int)) {
                Some(tail) => Some(parameters.deep_view() + tail),
                None => None::<Seq<(Seq<char>, Seq<char>)>>,
            }),
        decreases n - i,
    {
        let ghost i0 = i as int;
        proof {
            assert(ts.skip(i0)[0] == ts[i0]);
            assert(ts.skip(i0).len() == n - i0);
        }
        match &tokens[i] {
            Token::RightParen => {
                proof {
                    assert(spec_parse_params(ts.skip(i0)) == Some(
                        Seq::<(Seq<char>, Seq<char>)>::empty(),
                    ));
                    assert(parameters.deep_view() + Seq::<(Seq<char>, Seq<char>)>::empty()
                        =~= parameters.deep_view());
                }
                return Some(Ast { function_name, parameters, is_global });
            },
            Token::Type(typ) => {
                let t = typ.clone();
                if i + 1 < n {
                    proof {
                        assert(ts.skip(i0)[1] == ts[i0 + 1]);
                        assert(ts.skip(i0).skip(2) =~= ts.skip(i0 + 2));
                    }
                    match &tokens[i + 1] {
                        Token::Identifier(nm) => {
                            let name = nm.clone();
                            let ghost dv0 = parameters.deep_view();
                            parameters.push((t, name));
                            proof {
                                assert(parameters.deep_view() =~= dv0.push(
                                    (ts[i0]->Type_0, ts[i0 + 1]->Identifier_0),
                                ));
                                if let Some(tail) = spec_parse_params(ts.skip(i0 + 2)) {
                                    assert(dv0 + (seq![
                                        (ts[i0]->Type_0, ts[i0 + 1]->Identifier_0)] + tail)
                                        =~= parameters.deep_view() + tail);
                                }
                            }
                            i = i + 2;
                        },
                        _ => {
                            i = i + 2;
                        },
                    }
                } else {
                    proof {
                        assert(spec_parse_params(ts.skip(i0)) == Some(
                            Seq::<(Seq<char>, Seq<char>)>::empty(),
                        ));
                        assert(parameters.deep_view() + Seq::<(Seq<char>, Seq<char>)>::empty()
                            =~= parameters.deep_view());
                    }
                    return Some(Ast { function_name, parameters, is_global });
                }
            },
            _ => {
                return None;
            },
        }
    }
    proof {
        assert(ts.skip(n as int).len() == 0);
        assert(parameters.deep_view() + Seq::<(Seq<char>, Seq<char>)>::empty()
            =~= parameters.deep_view());
    }
    Some(Ast { function_name, parameters, is_global })
}

} // verus!
