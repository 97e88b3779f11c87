//! A round-trip lexer pair for a C-like surface syntax: a tokenizer that
//! turns source text into a positioned token stream, and a reconstructor
//! that regenerates the exact text from the stream, synthesizing all
//! inter-token whitespace from the recorded locations alone.

use vstd::prelude::*;

mod reconstruct;
mod token;
mod tokenizer;

pub use reconstruct::canonical_ws;
pub use reconstruct::gap_text;
pub use reconstruct::lemma_round_trip;
pub use reconstruct::line_breaks;
pub use reconstruct::reconstruct;
pub use reconstruct::spaces;
pub use reconstruct::spec_reconstruct;
pub use token::LexErrModel;
pub use token::LexicalError;
pub use token::LocModel;
pub use token::Location;
pub use token::OpType;
pub use token::ParenType;
pub use token::ParseError;
pub use token::PunctType;
pub use token::Token;
pub use token::TokenModel;
pub use token::TokenType;
pub use token::TokenTypeModel;
pub use token::lex_le;
pub use token::op_spelling;
pub use token::punct_spelling;
pub use token::spec_op_of;
pub use token::token_byte_len;
pub use token::token_text;
pub use token::token_width;
pub use token::tokens_fit;
pub use token::tokens_monotonic_from;
pub use tokenizer::Tokenizer;
pub use tokenizer::ident_run_len;
pub use tokenizer::is_letter;
pub use tokenizer::lemma_tokenize_monotonic;
pub use tokenizer::spec_tokenize;
pub use tokenizer::two_char_token;
pub use token::lemma_op_spelling_injective;
pub use token::lemma_op_table_inverse;
pub use token::lemma_punct_spelling_injective;
pub use token::lemma_width_vs_byte_len;

use token::LexicalError as LexErr;
use token::Token as Tok;
use token::TokenModel as TokModel;

verus! {

/// Drains one source text into an explicit token sequence: the editable
/// intermediate representation between the tokenizer and the reconstructor,
/// where a rewriting pass can be inserted. The first character outside the
/// recognized grammar is returned instead, with its location.
pub fn tokenize(s: &str) -> (r: Result<Vec<Token>, LexErr>)
    ensures
        ({
            let toks = spec_tokenize(s@, 0, 0).0;
            let err = spec_tokenize(s@, 0, 0).1;
            match r {
                Ok(v) => {
                    &&& err is None
                    &&& v.deep_view() == toks
                    &&& tokens_monotonic_from(v.deep_view(), 0, 0)
                    &&& tokens_fit(v.deep_view())
                },
                Err(e) => err == Some(e@),
            }
        }),
{
    let mut tok = Tokenizer::new(s);
    let mut tokens: Vec<Tok> = Vec::new();
    proof {
        assert(tokens.deep_view() =~= Seq::<TokModel>::empty());
        assert(Seq::<TokModel>::empty() + spec_tokenize(s@, 0, 0).0 =~= spec_tokenize(s@, 0, 0).0);
    }
    loop
        invariant
            tok.wf(),
            tokens.deep_view() + spec_tokenize(tok.remaining(), tok.cur_line(), tok.cur_col()).0
                == spec_tokenize(s@, 0, 0).0,
            spec_tokenize(tok.remaining(), tok.cur_line(), tok.cur_col()).1 == spec_tokenize(
                s@,
                0,
                0,
            ).1,
            tokens_fit(tokens.deep_view()),
        ensures
            tokens.deep_view() == spec_tokenize(s@, 0, 0).0,
            spec_tokenize(s@, 0, 0).1 is None,
            tokens_fit(tokens.deep_view()),
        decreases tok.remaining().len(),
    {
        let ghost pre = spec_tokenize(tok.remaining(), tok.cur_line(), tok.cur_col());
        let ghost done = tokens.deep_view();
        match tok.next() {
            Ok(Some(t)) => {
                tokens.push(t);
                proof {
                    assert(tokens.deep_view() =~= done.push(t@));
                    assert(done.push(t@) + pre.0.drop_first() =~= done + pre.0);
                    assert(t@.loc.col + token_width(t@.typ) <= usize::MAX);
                    assert(tokens_fit(tokens.deep_view()));
                }
            },
            Ok(None) => {
                break ;
            },
            Err(e) => {
                return Err(e);
            },
        }
    }
    proof {
        lemma_tokenize_monotonic(s@, 0, 0);
    }
    Ok(tokens)
}

/// Tokenizes the whole source text and reconstructs it with no rewriting
/// pass in between: the identity transform that validates round-tripping.
/// The first character outside the recognized grammar is returned instead,
/// with its location.
pub fn format_string(s: String) -> (r: Result<String, LexErr>)
    ensures
        ({
            let toks = spec_tokenize(s@, 0, 0).0;
            let err = spec_tokenize(s@, 0, 0).1;
            match r {
                Ok(out) => {
                    &&& err is None
                    &&& out@ == spec_reconstruct(toks, 0, 0)
                    &&& canonical_ws(s@) ==> out@ == s@
                },
                Err(e) => err == Some(e@),
            }
        }),
{
    proof {
        if canonical_ws(s@) && spec_tokenize(s@, 0, 0).1 is None {
            lemma_round_trip(s@);
        }
    }
    match tokenize(s.as_str()) {
        Ok(tokens) => Ok(reconstruct(&tokens)),
        Err(e) => Err(e),
    }
}

} // verus!
