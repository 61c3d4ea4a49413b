//! Lexical analysis: turns source text into an ordered token sequence.
//! Unrecognized characters are collected as diagnostics and skipped, so
//! lexing consumes the whole input and never fails.

use vstd::prelude::*;
use vstd::string::StrSliceExecFns;
use crate::text::{str_eq, str_has_prefix};

verus! {

/// What `char::is_alphabetic` returns: a function of the character alone.
pub uninterp spec fn char_alphabetic(c: char) -> bool;

/// What `char::is_alphanumeric` returns: a function of the character alone.
pub uninterp spec fn char_alphanumeric(c: char) -> bool;

/// Relies on `char::is_alphabetic` of std: whether the character is
/// alphabetic, decided by the character alone.
pub assume_specification[ char::is_alphabetic ](c: char) -> (r: bool)
    ensures
        r == char_alphabetic(c),
;

/// Relies on `char::is_alphanumeric` of std: whether the character is
/// alphanumeric, decided by the character alone.
pub assume_specification[ char::is_alphanumeric ](c: char) -> (r: bool)
    ensures
        r == char_alphanumeric(c),
;

/// One lexical token, in source order. Immutable once emitted.
#[derive(Debug, PartialEq)]
pub enum Token {
    Global,
    Fn,
    Identifier(String),
    LeftParen,
    RightParen,
    LeftBrace,
    RightBrace,
    Type(String),
    Comma,
}

/// Ghost image of a token, carrying its text as a character sequence.
pub enum TokenModel {
    Global,
    Fn,
    Identifier(Seq<char>),
    LeftParen,
    RightParen,
    LeftBrace,
    RightBrace,
    Type(Seq<char>),
    Comma,
}

impl View for Token {
    type V = TokenModel;

    open spec fn view(&self) -> TokenModel {
        match self {
            Token::Global => TokenModel::Global,
            Token::Fn => TokenModel::Fn,
            Token::Identifier(s) => TokenModel::Identifier(s@),
            Token::LeftParen => TokenModel::LeftParen,
            Token::RightParen => TokenModel::RightParen,
            Token::LeftBrace => TokenModel::LeftBrace,
            Token::RightBrace => TokenModel::RightBrace,
            Token::Type(s) => TokenModel::Type(s@),
            Token::Comma => TokenModel::Comma,
        }
    }
}

impl DeepView for Token {
    type V = TokenModel;

    open spec fn deep_view(&self) -> TokenModel {
        self.view()
    }
}

/// Whitespace the lexer skips without emitting a token.
pub open spec fn spec_is_space(c: char) -> bool {
    c == ' ' || c == '\n' || c == '\t' || c == '\r'
}

/// Whether the character continues an identifier run.
pub open spec fn spec_ident_continue(c: char) -> bool {
    char_alphanumeric(c) || c == '_'
}

/// End of the identifier run continuing at position `i`: the first
/// position at or after `i` whose character does not continue the run.
pub open spec fn spec_ident_end(s: Seq<char>, i: int) -> int
    decreases s.len() - i,
{
    if i < s.len() && spec_ident_continue(s[i]) {
        spec_ident_end(s, i + 1)
    } else {
        i
    }
}

/// The end of an identifier run lies between its start and the end of
/// the text.
pub proof fn lemma_ident_end_bounds(s: Seq<char>, i: int)
    requires
        0 <= i <= s.len(),
    ensures
        i <= spec_ident_end(s, i) <= s.len(),
    decreases s.len() - i,
{
    if i < s.len() && spec_ident_continue(s[i]) {
        lemma_ident_end_bounds(s, i + 1);
    }
}

/// The token an identifier run's text denotes: the keywords `global` and
/// `fn` exactly, a type name for any text that starts with `uint`, and an
/// identifier otherwise.
pub open spec fn spec_classify(text: Seq<char>) -> TokenModel {
    if text == "global"@ {
        TokenModel::Global
    } else if text == "fn"@ {
        TokenModel::Fn
    } else if text.len() >= "uint"@.len() && text.subrange(0, "uint"@.len() as int) == "uint"@ {
        TokenModel::Type(text)
    } else {
        TokenModel::Identifier(text)
    }
}

/// The lexer as a function of the text: the tokens and the diagnostic
/// characters produced from position `i` to the end.
pub open spec fn spec_lex(s: Seq<char>, i: int) -> (Seq<TokenModel>, Seq<char>)
    decreases s.len() - i,
        when 0 <= i <= s.len()
        via spec_lex_decreases
{
    if i >= s.len() {
        (Seq::empty(), Seq::empty())
    } else {
        let c = s[i];
        if spec_is_space(c) {
            spec_lex(s, i + 1)
        } else if c == '(' {
            let rest = spec_lex(s, i + 1);
            (seq![TokenModel::LeftParen] + rest.0, rest.1)
        } else if c == ')' {
            let rest = spec_lex(s, i + 1);
            (seq![TokenModel::RightParen] + rest.0, rest.1)
        } else if c == '{' {
            let rest = spec_lex(s, i + 1);
            (seq![TokenModel::LeftBrace] + rest.0, rest.1)
        } else if c == '}' {
            let rest = spec_lex(s, i + 1);
            (seq![TokenModel::RightBrace] + rest.0, rest.1)
        } else if c == ',' {
            let rest = spec_lex(s, i + 1);
            (seq![TokenModel::Comma] + rest.0, rest.1)
        } else if char_alphabetic(c) {
            let j = spec_ident_end(s, i + 1);
            let rest = spec_lex(s, j);
            (seq![spec_classify(s.subrange(i, j))] + rest.0, rest.1)
        } else {
            let rest = spec_lex(s, i + 1);
            (rest.0, seq![c] + rest.1)
        }
    }
}

#[via_fn]
proof fn spec_lex_decreases(s: Seq<char>, i: int) {
    if 0 <= i < s.len() {
        lemma_ident_end_bounds(s, i + 1);
    }
}

/// Law: lexing is deterministic. Equal texts lex to equal token
/// sequences and equal diagnostics; no state is carried between runs.
pub proof fn lemma_lex_deterministic(s1: Seq<char>, s2: Seq<char>)
    requires
        s1 == s2,
    ensures
        spec_lex(s1, 0) == spec_lex(s2, 0),
{
}

/// Law: an unrecognized character never stops the lexer. It contributes
/// exactly one diagnostic and no token, and lexing resumes with the next
/// character, so every token before and after it is still produced.
pub proof fn lemma_unknown_char_recovery(s: Seq<char>, i: int)
    requires
        0 <= i < s.len(),
        !spec_is_space(s[i]),
        s[i] != '(' && s[i] != ')' && s[i] != '{' && s[i] != '}' && s[i] != ',',
        !char_alphabetic(s[i]),
    ensures
        spec_lex(s, i).0 == spec_lex(s, i + 1).0,
        spec_lex(s, i).1 == seq![s[i]] + spec_lex(s, i + 1).1,
{
}

/// First position at or after `from` where the identifier run ends.
fn ident_end(input: &str, from: usize) -> (j: usize)
    requires
        from <= input@.len(),
    ensures
        from <= j <= input@.len(),
        j as int == spec_ident_end(input@, from as int),
{
    let n = input.unicode_len();
    let mut j = from;
    while j < n
        invariant
            from <= j <= n,
            n == input@.len(),
            spec_ident_end(input@, from as int) == spec_ident_end(input@, j as int),
        decreases n - j,
    {
        let d = input.get_char(j);
        if !(d.is_alphanumeric() || d == '_') {
            return j;
        }
        proof {
            assert(spec_ident_end(input@, j as int) == spec_ident_end(input@, j + 1));
        }
        j += 1;
    }
    j
}

/// Converts source text into its ordered token sequence, together with
/// one diagnostic character for each unrecognized character met. The
/// whole input is consumed; lexing never fails.
pub fn tokenize(input: &str) -> (r: (Vec<Token>, Vec<char>))
    ensures
        r.0.deep_view() == spec_lex(input@, 0).0,
        r.1@ == spec_lex(input@, 0).1,
{
    let ghost s = input@;
    let n = input.unicode_len();
    let mut tokens: Vec<Token> = Vec::new();
    let mut diags: Vec<char> = Vec::new();
    let mut i: usize = 0;
    proof {
        assert(tokens.deep_view() =~= Seq::<TokenModel>::empty());
        assert(tokens.deep_view() + spec_lex(s, 0).0 =~= spec_lex(s, 0).0);
        assert(diags@ + spec_lex(s, 0).1 =~= spec_lex(s, 0).1);
    }
    while i < n
        invariant
            i <= n,
            n == s.len(),
            s == input@,
            spec_lex(s, 0).0 == tokens.deep_view() + spec_lex(s, i as int).0,
            spec_lex(s, 0).1 == diags@ + spec_lex(s, i as int).1,
        decreases n - i,
    {
        let ghost i0 = i as int;
        let c = input.get_char(i);
        if c == ' ' || c == '\n' || c == '\t' || c == '\r' {
            i += 1;
        } else if c == '(' || c == ')' || c == '{' || c == '}' || c == ',' {
            let t = if c == '(' {
                Token::LeftParen
            } else if c == ')' {
                Token::RightParen
            } else if c == '{' {
                Token::LeftBrace
            } else if c == '}' {
                Token::RightBrace
            } else {
                Token::Comma
            };
            let ghost dv0 = tokens.deep_view();
            proof {
                assert(spec_lex(s, i0).0 == seq![t@] + spec_lex(s, i0 + 1).0);
            }
            tokens.push(t);
            proof {
                assert(tokens.deep_view() =~= dv0.push(t@));
                assert(dv0 + (seq![t@] + spec_lex(s, i0 + 1).0) =~= dv0.push(t@) + spec_lex(
                    s,
                    i0 + 1,
                ).0);
            }
            i += 1;
        } else if c.is_alphabetic() {
            let j = ident_end(input, i + 1);
            let text = input.substring_char(i, j);
            let t = if str_eq(text, "global") {
                Token::Global
            } else if str_eq(text, "fn") {
                Token::Fn
            } else if str_has_prefix(text, "uint") {
                Token::Type(text.to_owned())
            } else {
                Token::Identifier(text.to_owned())
            };
            let ghost dv0 = tokens.deep_view();
            proof {
                assert(t@ == spec_classify(s.subrange(i0, j as int)));
                assert(spec_lex(s, i0).0 == seq![t@] + spec_lex(s, j as int).0);
            }
            tokens.push(t);
            proof {
                assert(tokens.deep_view() =~= dv0.push(t@));
                assert(dv0 + (seq![t@] + spec_lex(s, j as int).0) =~= dv0.push(t@) + spec_lex(
                    s,
                    j as int,
                ).0);
            }
            i = j;
        } else {
            let ghost dg0 = diags@;
            proof {
                assert(spec_lex(s, i0).1 == seq![c] + spec_lex(s, i0 + 1).1);
            }
            diags.push(c);
            proof {
                assert(dg0 + (seq![c] + spec_lex(s, i0 + 1).1) =~= diags@ + spec_lex(s, i0 + 1).1);
            }
            i += 1;
        }
    }
    proof {
        assert(tokens.deep_view() + spec_lex(s, n as int).0 =~= tokens.deep_view());
        assert(diags@ + spec_lex(s, n as int).1 =~= diags@);
    }
    (tokens, diags)
}

} // verus!
