//! The tokenizer: a pull-based, maximal-munch lexer over a borrowed source
//! buffer, with editor-style line/column tracking.

use vstd::prelude::*;
use vstd::string::StrSliceExecFns;

use crate::token::{
    LexErrModel, LexicalError, LocModel, Location, OpType, PunctType, Token, TokenModel,
    TokenType, TokenTypeModel, token_width, tokens_monotonic_from,
};

verus! {

/// The identifier-class characters: ASCII letters.
pub open spec fn is_letter(c: char) -> bool {
    ('a' <= c && c <= 'z') || ('A' <= c && c <= 'Z')
}

/// The length of the run of identifier-class characters at the head of `s`:
/// the pending identifier candidate that maximal munch accumulates.
pub open spec fn ident_run_len(s: Seq<char>) -> nat
    decreases s.len(),
{
    if s.len() > 0 && is_letter(s[0]) {
        (1 + ident_run_len(s.skip(1))) as nat
    } else {
        0
    }
}

/// The identifier run never reaches past the end of the text.
pub proof fn lemma_ident_run_len_le(s: Seq<char>)
    ensures
        ident_run_len(s) <= s.len(),
    decreases s.len(),
{
    if s.len() > 0 && is_letter(s[0]) {
        lemma_ident_run_len_le(s.skip(1));
    }
}

/// A scan that saw `k` letters and then the end of the text or a non-letter
/// has found exactly the identifier run.
proof fn lemma_ident_run_len_is(s: Seq<char>, k: nat)
    requires
        k <= s.len(),
        forall|i: int| 0 <= i < k ==> is_letter(#[trigger] s[i]),
        k == s.len() || !is_letter(s[k as int]),
    ensures
        ident_run_len(s) == k,
    decreases s.len(),
{
    if s.len() > 0 && is_letter(s[0]) {
        assert(k > 0);
        let t = s.skip(1);
        assert forall|i: int| 0 <= i < k - 1 implies is_letter(#[trigger] t[i]) by {
            assert(t[i] == s[i + 1]);
        }
        if k < s.len() {
            assert(t[k - 1] == s[k as int]);
        }
        lemma_ident_run_len_is(t, (k - 1) as nat);
    }
}

/// The token that a delimiter character yields under one character of
/// lookahead: the longest spelling that matches wins.
pub open spec fn two_char_token(c: char, lookahead: Option<char>) -> TokenTypeModel {
    if c == '-' {
        if lookahead == Some('>') {
            TokenTypeModel::Punctuation(PunctType::Arrow)
        } else if lookahead == Some('=') {
            TokenTypeModel::Operator(OpType::SubAssign)
        } else {
            TokenTypeModel::Operator(OpType::Sub)
        }
    } else if c == '+' {
        if lookahead == Some('=') {
            TokenTypeModel::Operator(OpType::PlusAssign)
        } else {
            TokenTypeModel::Operator(OpType::Plus)
        }
    } else {
        if lookahead == Some('=') {
            TokenTypeModel::Operator(OpType::LAndAssign)
        } else if lookahead == Some('&') {
            TokenTypeModel::Operator(OpType::And)
        } else {
            TokenTypeModel::Operator(OpType::LAnd)
        }
    }
}

/// What one run of the tokenizer yields from source text `s` with the
/// cursor at `(line, col)`: the tokens up to the end of the text or the
/// first unrecognized character, and that character with its location if
/// one is met.
pub open spec fn spec_tokenize(s: Seq<char>, line: nat, col: nat) -> (Seq<TokenModel>, Option<
    LexErrModel,
>)
    decreases s.len(),
    via spec_tokenize_decreases
{
    let k = ident_run_len(s);
    if s.len() == 0 {
        (Seq::empty(), None::<LexErrModel>)
    } else if k > 0 {
        let tok = TokenModel {
            typ: TokenTypeModel::Indentifier(s.take(k as int)),
            loc: LocModel { line, col },
        };
        let rest = spec_tokenize(s.skip(k as int), line, col + k);
        (seq![tok] + rest.0, rest.1)
    } else if s[0] == ' ' {
        spec_tokenize(s.skip(1), line, col + 1)
    } else if s[0] == '\n' {
        spec_tokenize(s.skip(1), line + 1, 0)
    } else if s[0] == ';' {
        let tok = TokenModel {
            typ: TokenTypeModel::Punctuation(PunctType::Semicolon),
            loc: LocModel { line, col },
        };
        let rest = spec_tokenize(s.skip(1), line, col + 1);
        (seq![tok] + rest.0, rest.1)
    } else if s[0] == ',' {
        let tok = TokenModel {
            typ: TokenTypeModel::Punctuation(PunctType::Comma),
            loc: LocModel { line, col },
        };
        let rest = spec_tokenize(s.skip(1), line, col + 1);
        (seq![tok] + rest.0, rest.1)
    } else if s[0] == '.' {
        let tok = TokenModel {
            typ: TokenTypeModel::Punctuation(PunctType::Dot),
            loc: LocModel { line, col },
        };
        let rest = spec_tokenize(s.skip(1), line, col + 1);
        (seq![tok] + rest.0, rest.1)
    } else if s[0] == '-' || s[0] == '+' || s[0] == '&' {
        let la = if s.len() >= 2 {
            Some(s[1])
        } else {
            None::<char>
        };
        let tt = two_char_token(s[0], la);
        let w = token_width(tt);
        let tok = TokenModel { typ: tt, loc: LocModel { line, col } };
        let rest = spec_tokenize(s.skip(w as int), line, col + w);
        (seq![tok] + rest.0, rest.1)
    } else {
        (Seq::empty(), Some(LexErrModel { character: s[0], loc: LocModel { line, col } }))
    }
}

#[via_fn]
proof fn spec_tokenize_decreases(s: Seq<char>, line: nat, col: nat) {
    lemma_ident_run_len_le(s);
}

/// The pull-based lexer: the unconsumed tail of one source buffer together
/// with the current editor-style cursor.
#[derive(Debug)]
pub struct Tokenizer<'a> {
    data: &'a str,
    col: usize,
    row: usize,
}

impl<'a> Tokenizer<'a> {
    /// The unconsumed tail of the source buffer.
    pub closed spec fn remaining(self) -> Seq<char> {
        self.data@
    }

    /// The line the cursor stands on.
    pub closed spec fn cur_line(self) -> nat {
        self.row as nat
    }

    /// The column the cursor stands on.
    pub closed spec fn cur_col(self) -> nat {
        self.col as nat
    }

    /// The cursor has not drifted so far that draining the rest of the
    /// buffer could overflow its counters.
    pub closed spec fn wf(self) -> bool {
        &&& self.col + self.data@.len() <= usize::MAX
        &&& self.row + self.data@.len() <= usize::MAX
    }

    pub fn new(data: &'a str) -> (t: Self)
        ensures
            t.wf(),
            t.remaining() == data@,
            t.cur_line() == 0,
            t.cur_col() == 0,
    {
        // counting the characters once bounds the cursor for the whole run
        let chars = data.unicode_len();
        proof {
            assert(chars as nat == data@.len());
        }
        Self { data, col: 0, row: 0 }
    }

    /// Emits a delimiter that is always one character long, consuming it.
    fn delimiter_single_char(&mut self, corresponds: TokenType<'a>) -> (r: Token<'a>)
        requires
            old(self).wf(),
            old(self).remaining().len() >= 1,
        ensures
            final(self).wf(),
            final(self).remaining() == old(self).remaining().skip(1),
            final(self).cur_line() == old(self).cur_line(),
            final(self).cur_col() == old(self).cur_col() + 1,
            r.token_type == corresponds,
            r.location@ == (LocModel { line: old(self).cur_line(), col: old(self).cur_col() }),
    {
        let loc = Location::new(self.row, self.col);
        let n = self.data.unicode_len();
        self.data = self.data.substring_char(1, n);
        self.col = self.col + 1;
        Token::new(corresponds, loc)
    }

    /// Emits the delimiter starting at `ch`, inspecting exactly the next
    /// character to pick the longest spelling that matches, and consumes
    /// the spelling.
    fn delimiter_two_chars(&mut self, ch: char) -> (r: Token<'a>)
        requires
            old(self).wf(),
            old(self).remaining().len() >= 1,
            ch == old(self).remaining()[0],
            ch == '-' || ch == '+' || ch == '&',
        ensures
            final(self).wf(),
            ({
                let la = if old(self).remaining().len() >= 2 {
                    Some(old(self).remaining()[1])
                } else {
                    None::<char>
                };
                let tt = two_char_token(ch, la);
                &&& r.token_type@ == tt
                &&& r.location@ == (LocModel {
                    line: old(self).cur_line(),
                    col: old(self).cur_col(),
                })
                &&& final(self).remaining() == old(self).remaining().skip(token_width(tt) as int)
                &&& final(self).cur_line() == old(self).cur_line()
                &&& final(self).cur_col() == old(self).cur_col() + token_width(tt)
            }),
    {
        let loc = Location::new(self.row, self.col);
        let n = self.data.unicode_len();
        let la: Option<char> = if n >= 2 {
            Some(self.data.get_char(1))
        } else {
            None
        };
        let corresponds: TokenType<'a> = if ch == '-' {
            match la {
                Some('>') => TokenType::Punctuation(PunctType::Arrow),
                Some('=') => TokenType::Operator(OpType::SubAssign),
                _ => TokenType::Operator(OpType::Sub),
            }
        } else if ch == '+' {
            match la {
                Some('=') => TokenType::Operator(OpType::PlusAssign),
                _ => TokenType::Operator(OpType::Plus),
            }
        } else {
            match la {
                Some('=') => TokenType::Operator(OpType::LAndAssign),
                Some('&') => TokenType::Operator(OpType::And),
                _ => TokenType::Operator(OpType::LAnd),
            }
        };
        proof {
            assert(corresponds@ == two_char_token(ch, la));
            assert(token_width(corresponds@) == 1 || token_width(corresponds@) == 2);
            assert(token_width(corresponds@) == 2 ==> la is Some && n >= 2);
        }
        let len = corresponds.width();
        self.data = self.data.substring_char(len, n);
        self.col = self.col + len;
        Token::new(corresponds, loc)
    }

    /// Returns the next token, `Ok(None)` once the buffer is exhausted, or
    /// the first character outside the recognized grammar together with its
    /// location. Whitespace between tokens only moves the cursor.
    pub fn next(&mut self) -> (r: Result<Option<Token<'a>>, LexicalError>)
        requires
            old(self).wf(),
        ensures
            final(self).wf(),
            final(self).cur_line() <= usize::MAX,
            final(self).cur_col() <= usize::MAX,
            ({
                let pre = spec_tokenize(
                    old(self).remaining(),
                    old(self).cur_line(),
                    old(self).cur_col(),
                );
                let post = spec_tokenize(
                    final(self).remaining(),
                    final(self).cur_line(),
                    final(self).cur_col(),
                );
                match r {
                    Ok(opt) => match opt {
                        Some(t) => {
                            &&& pre.0.len() > 0
                            &&& t@ == pre.0[0]
                            &&& post == (pre.0.drop_first(), pre.1)
                            &&& t@.loc.line == final(self).cur_line()
                            &&& t@.loc.col + token_width(t@.typ) == final(self).cur_col()
                            &&& final(self).remaining().len() < old(self).remaining().len()
                        },
                        None => {
                            &&& pre.0.len() == 0
                            &&& pre.1 is None
                            &&& final(self).remaining().len() == 0
                        },
                    },
                    Err(e) => {
                        &&& pre.0.len() == 0
                        &&& pre.1 == Some(e@)
                        &&& post == pre
                    },
                }
            }),
    {
        loop
            invariant
                self.wf(),
                spec_tokenize(self.remaining(), self.cur_line(), self.cur_col()) == spec_tokenize(
                    old(self).remaining(),
                    old(self).cur_line(),
                    old(self).cur_col(),
                ),
                self.remaining().len() <= old(self).remaining().len(),
            decreases self.remaining().len(),
        {
            let d = self.data;
            let n = d.unicode_len();
            // scan the pending identifier candidate
            let mut k: usize = 0;
            while k < n && is_letter_char(d.get_char(k))
                invariant
                    k <= n,
                    n as nat == d@.len(),
                    forall|i: int| 0 <= i < k ==> is_letter(#[trigger] d@[i]),
                decreases n - k,
            {
                k = k + 1;
            }
            proof {
                lemma_ident_run_len_is(d@, k as nat);
            }
            if k > 0 {
                // flush the candidate as an identifier at its own start
                let text = d.substring_char(0, k);
                let loc = Location::new(self.row, self.col);
                self.data = d.substring_char(k, n);
                self.col = self.col + k;
                let t = Token::new(TokenType::Indentifier(text), loc);
                proof {
                    let pre = spec_tokenize(d@, loc.line as nat, loc.col as nat);
                    let rest = spec_tokenize(
                        self.remaining(),
                        self.cur_line(),
                        self.cur_col(),
                    );
                    assert(pre.0[0] == t@);
                    assert(pre.0.drop_first() =~= rest.0);
                }
                return Ok(Some(t));
            }
            if n == 0 {
                return Ok(None);
            }
            let c = d.get_char(0);
            match c {
                ' ' => {
                    // a bare space is consumed silently
                    self.data = d.substring_char(1, n);
                    self.col = self.col + 1;
                },
                '\n' => {
                    // a line break moves the cursor to the start of the next line
                    self.data = d.substring_char(1, n);
                    self.row = self.row + 1;
                    self.col = 0;
                },
                ';' => {
                    let ghost line0 = self.cur_line();
                    let ghost col0 = self.cur_col();
                    let t = self.delimiter_single_char(
                        TokenType::Punctuation(PunctType::Semicolon),
                    );
                    proof {
                        let pre = spec_tokenize(d@, line0, col0);
                        let rest = spec_tokenize(
                            self.remaining(),
                            self.cur_line(),
                            self.cur_col(),
                        );
                        assert(pre.0[0] == t@);
                        assert(pre.0.drop_first() =~= rest.0);
                    }
                    return Ok(Some(t));
                },
                ',' => {
                    let ghost line0 = self.cur_line();
                    let ghost col0 = self.cur_col();
                    let t = self.delimiter_single_char(TokenType::Punctuation(PunctType::Comma));
                    proof {
                        let pre = spec_tokenize(d@, line0, col0);
                        let rest = spec_tokenize(
                            self.remaining(),
                            self.cur_line(),
                            self.cur_col(),
                        );
                        assert(pre.0[0] == t@);
                        assert(pre.0.drop_first() =~= rest.0);
                    }
                    return Ok(Some(t));
                },
                '.' => {
                    let ghost line0 = self.cur_line();
                    let ghost col0 = self.cur_col();
                    let t = self.delimiter_single_char(TokenType::Punctuation(PunctType::Dot));
                    proof {
                        let pre = spec_tokenize(d@, line0, col0);
                        let rest = spec_tokenize(
                            self.remaining(),
                            self.cur_line(),
                            self.cur_col(),
                        );
                        assert(pre.0[0] == t@);
                        assert(pre.0.drop_first() =~= rest.0);
                    }
                    return Ok(Some(t));
                },
                '-' | '+' | '&' => {
                    let ghost line0 = self.cur_line();
                    let ghost col0 = self.cur_col();
                    let t = self.delimiter_two_chars(c);
                    proof {
                        let pre = spec_tokenize(d@, line0, col0);
                        let rest = spec_tokenize(
                            self.remaining(),
                            self.cur_line(),
                            self.cur_col(),
                        );
                        assert(pre.0[0] == t@);
                        assert(pre.0.drop_first() =~= rest.0);
                    }
                    return Ok(Some(t));
                },
                _ => {
                    return Err(
                        LexicalError { character: c, location: Location::new(self.row, self.col) },
                    );
                },
            }
        }
    }
}

/// Whether `c` is an identifier-class character.
fn is_letter_char(c: char) -> (r: bool)
    ensures
        r == is_letter(c),
{
    ('a' <= c && c <= 'z') || ('A' <= c && c <= 'Z')
}

/// A token sequence that is monotonic from a cursor stays monotonic from
/// any earlier cursor.
pub proof fn lemma_monotonic_weaken(toks: Seq<TokenModel>, l1: nat, c1: nat, l2: nat, c2: nat)
    requires
        tokens_monotonic_from(toks, l1, c1),
        l2 < l1 || (l2 == l1 && c2 <= c1),
    ensures
        tokens_monotonic_from(toks, l2, c2),
{
}

/// Monotonicity of tokenization: the locations the tokenizer emits, read
/// from the cursor it started at, never move backwards, and each token's
/// own width is accounted for before the next token begins.
pub proof fn lemma_tokenize_monotonic(s: Seq<char>, line: nat, col: nat)
    ensures
        tokens_monotonic_from(spec_tokenize(s, line, col).0, line, col),
    decreases s.len(),
{
    lemma_ident_run_len_le(s);
    let k = ident_run_len(s);
    if s.len() == 0 {
    } else if k > 0 {
        let tok = TokenModel {
            typ: TokenTypeModel::Indentifier(s.take(k as int)),
            loc: LocModel { line, col },
        };
        let rest = spec_tokenize(s.skip(k as int), line, col + k);
        lemma_tokenize_monotonic(s.skip(k as int), line, col + k);
        assert((seq![tok] + rest.0)[0] == tok);
        assert((seq![tok] + rest.0).drop_first() =~= rest.0);
        assert(token_width(tok.typ) == k);
    } else if s[0] == ' ' {
        lemma_tokenize_monotonic(s.skip(1), line, col + 1);
        lemma_monotonic_weaken(spec_tokenize(s, line, col).0, line, col + 1, line, col);
    } else if s[0] == '\n' {
        lemma_tokenize_monotonic(s.skip(1), line + 1, 0);
        lemma_monotonic_weaken(spec_tokenize(s, line, col).0, line + 1, 0, line, col);
    } else if s[0] == ';' || s[0] == ',' || s[0] == '.' {
        let tok = spec_tokenize(s, line, col).0[0];
        let rest = spec_tokenize(s.skip(1), line, col + 1);
        lemma_tokenize_monotonic(s.skip(1), line, col + 1);
        assert((seq![tok] + rest.0)[0] == tok);
        assert((seq![tok] + rest.0).drop_first() =~= rest.0);
    } else if s[0] == '-' || s[0] == '+' || s[0] == '&' {
        let la = if s.len() >= 2 {
            Some(s[1])
        } else {
            None::<char>
        };
        let tt = two_char_token(s[0], la);
        let w = token_width(tt);
        let tok = TokenModel { typ: tt, loc: LocModel { line, col } };
        let rest = spec_tokenize(s.skip(w as int), line, col + w);
        lemma_tokenize_monotonic(s.skip(w as int), line, col + w);
        assert((seq![tok] + rest.0)[0] == tok);
        assert((seq![tok] + rest.0).drop_first() =~= rest.0);
    } else {
    }
}

} // verus!
