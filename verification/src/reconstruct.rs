//! The reconstructor: the deterministic inverse of the tokenizer. It walks
//! an ordered token sequence and re-emits text, synthesizing every
//! inter-token gap — line breaks, then spaces — from the difference between
//! its cursor and the next token's recorded location.

use vstd::prelude::*;
use vstd::string::StringExecFns;

use crate::token::{
    LocModel, PunctType, Token, TokenModel, TokenTypeModel, lex_le, token_text, token_width,
    tokens_fit, tokens_monotonic_from,
};
use crate::tokenizer::{
    ident_run_len, lemma_ident_run_len_le, lemma_tokenize_monotonic, spec_tokenize,
    two_char_token,
};

verus! {

/// `n` spaces.
pub open spec fn spaces(n: nat) -> Seq<char> {
    Seq::new(n, |i: int| ' ')
}

/// `n` line endings. The line ending is the one fixed sequence the
/// reconstructor ever emits.
pub open spec fn line_breaks(n: nat) -> Seq<char> {
    Seq::new(n, |i: int| '\n')
}

/// The whitespace that moves a cursor at `(line, col)` to `loc`: one line
/// break per line skipped — which resets the column — then one space per
/// column skipped.
pub open spec fn gap_text(loc: crate::token::LocModel, line: nat, col: nat) -> Seq<char> {
    if loc.line > line {
        line_breaks((loc.line - line) as nat) + spaces(loc.col)
    } else {
        spaces((loc.col - col) as nat)
    }
}

/// The text reconstructed from `toks` by a cursor starting at `(line, col)`:
/// for each token, the whitespace gap up to its location, then its canonical
/// rendering, with the cursor advanced by exactly the token's width.
pub open spec fn spec_reconstruct(toks: Seq<TokenModel>, line: nat, col: nat) -> Seq<char>
    decreases toks.len(),
{
    if toks.len() == 0 {
        Seq::empty()
    } else {
        let t = toks[0];
        gap_text(t.loc, line, col) + token_text(t.typ) + spec_reconstruct(
            toks.drop_first(),
            t.loc.line,
            t.loc.col + token_width(t.typ),
        )
    }
}

/// Appends `n` line endings.
fn append_line_breaks(out: &mut String, n: usize)
    ensures
        final(out)@ == old(out)@ + line_breaks(n as nat),
{
    proof {
        assert(out@ =~= out@ + line_breaks(0));
    }
    let mut j: usize = 0;
    while j < n
        invariant
            j <= n,
            out@ == old(out)@ + line_breaks(j as nat),
        decreases n - j,
    {
        out.append("\n");
        proof {
            reveal_strlit("\n");
            assert(old(out)@ + line_breaks((j + 1) as nat) =~= (old(out)@ + line_breaks(j as nat))
                + "\n"@);
        }
        j = j + 1;
    }
}

/// Appends `n` spaces.
fn append_spaces(out: &mut String, n: usize)
    ensures
        final(out)@ == old(out)@ + spaces(n as nat),
{
    proof {
        assert(out@ =~= out@ + spaces(0));
    }
    let mut j: usize = 0;
    while j < n
        invariant
            j <= n,
            out@ == old(out)@ + spaces(j as nat),
        decreases n - j,
    {
        out.append(" ");
        proof {
            reveal_strlit(" ");
            assert(old(out)@ + spaces((j + 1) as nat) =~= (old(out)@ + spaces(j as nat)) + " "@);
        }
        j = j + 1;
    }
}

/// Regenerates text from an ordered token sequence. The sequence must be
/// monotonic in lexicographic location order — a violation is a defect in
/// whatever produced the sequence, never a normal input — and its end
/// columns must fit the machine's counters.
pub fn reconstruct<'a>(tokens: &Vec<Token<'a>>) -> (out: String)
    requires
        tokens_monotonic_from(tokens.deep_view(), 0, 0),
        tokens_fit(tokens.deep_view()),
    ensures
        out@ == spec_reconstruct(tokens.deep_view(), 0, 0),
{
    let ghost toks = tokens.deep_view();
    let mut out = String::new();
    let mut col: usize = 0;
    let mut line: usize = 0;
    let mut i: usize = 0;
    proof {
        assert(toks.skip(0) =~= toks);
        assert(out@ + spec_reconstruct(toks, 0, 0) =~= spec_reconstruct(toks, 0, 0));
    }
    while i < tokens.len()
        invariant
            i <= tokens.len(),
            toks == tokens.deep_view(),
            toks.len() == tokens.len(),
            tokens_fit(toks),
            tokens_monotonic_from(toks.skip(i as int), line as nat, col as nat),
            spec_reconstruct(toks, 0, 0) == out@ + spec_reconstruct(
                toks.skip(i as int),
                line as nat,
                col as nat,
            ),
        decreases tokens.len() - i,
    {
        let ghost line0 = line as nat;
        let ghost col0 = col as nat;
        let ghost out0 = out@;
        let ghost rest = toks.skip(i as int);
        let t = &tokens[i];
        proof {
            assert(rest[0] == toks[i as int]);
            assert(t@ == toks[i as int]);
            assert(lex_le(line0, col0, t@.loc));
            assert(tokens_fit(toks) ==> toks[i as int].loc.col + token_width(toks[i as int].typ)
                <= usize::MAX);
        }
        if t.location.line > line {
            let dl = t.location.line - line;
            append_line_breaks(&mut out, dl);
            col = 0;
        }
        if t.location.col > col {
            let dc = t.location.col - col;
            append_spaces(&mut out, dc);
        }
        proof {
            assert(out@ =~= out0 + gap_text(t@.loc, line0, col0));
        }
        let s = t.token_type.to_str();
        out.append(s.as_str());
        col = t.location.col + t.token_type.width();
        line = t.location.line;
        i = i + 1;
        proof {
            assert(rest.drop_first() =~= toks.skip(i as int));
            assert(out@ =~= out0 + (gap_text(t@.loc, line0, col0) + token_text(t@.typ)));
            assert(out0 + spec_reconstruct(rest, line0, col0) =~= out@ + spec_reconstruct(
                toks.skip(i as int),
                line as nat,
                col as nat,
            ));
        }
    }
    proof {
        assert(toks.skip(toks.len() as int) =~= Seq::<TokenModel>::empty());
        assert(out@ + Seq::<char>::empty() =~= out@);
    }
    out
}

/// Source text whose whitespace the reconstructor can reproduce from
/// locations alone: every whitespace gap puts its line breaks before its
/// spaces — no space stands directly before a line break — and the text
/// does not end in whitespace.
pub open spec fn canonical_ws(text: Seq<char>) -> bool {
    &&& forall|i: int|
        0 <= i < text.len() && (#[trigger] text[i]) == ' ' ==> i + 1 < text.len() && text[i + 1]
            != '\n'
    &&& (text.len() > 0 ==> text.last() != '\n')
}

/// Dropping a prefix keeps the whitespace canonical.
proof fn lemma_canonical_skip(text: Seq<char>, n: int)
    requires
        canonical_ws(text),
        0 <= n <= text.len(),
    ensures
        canonical_ws(text.skip(n)),
{
    let t = text.skip(n);
    assert forall|i: int| 0 <= i < t.len() && (#[trigger] t[i]) == ' ' implies i + 1 < t.len()
        && t[i + 1] != '\n' by {
        assert(t[i] == text[i + n]);
        assert(i + n + 1 < text.len());
        assert(t[i + 1] == text[i + 1 + n]);
    }
    if t.len() > 0 {
        assert(t.last() == text.last());
    }
}

/// The inductive heart of the round-trip law, generalized over the cursor.
/// Besides the round trip itself it carries two facts the induction needs:
/// a tokenless text is empty, and a text that does not open with a line
/// break puts its first token on the cursor's own line.
#[verifier::rlimit(50)]
proof fn lemma_round_trip_from(text: Seq<char>, line: nat, col: nat)
    requires
        canonical_ws(text),
        spec_tokenize(text, line, col).1 is None,
    ensures
        spec_reconstruct(spec_tokenize(text, line, col).0, line, col) == text,
        spec_tokenize(text, line, col).0.len() == 0 ==> text.len() == 0,
        spec_tokenize(text, line, col).0.len() > 0 && text.len() > 0 && text[0] != '\n'
            ==> spec_tokenize(text, line, col).0[0].loc.line == line,
    decreases text.len(),
{
    lemma_ident_run_len_le(text);
    let k = ident_run_len(text);
    let toks = spec_tokenize(text, line, col).0;
    if text.len() == 0 {
        assert(toks =~= Seq::<TokenModel>::empty());
        assert(spec_reconstruct(toks, line, col) =~= text);
    } else if k > 0 {
        let tok = TokenModel {
            typ: TokenTypeModel::Indentifier(text.take(k as int)),
            loc: LocModel { line, col },
        };
        let rest = spec_tokenize(text.skip(k as int), line, col + k);
        lemma_canonical_skip(text, k as int);
        lemma_round_trip_from(text.skip(k as int), line, col + k);
        assert(toks =~= seq![tok] + rest.0);
        assert(toks[0] == tok);
        assert(toks.drop_first() =~= rest.0);
        assert(gap_text(tok.loc, line, col) =~= Seq::<char>::empty());
        assert(token_width(tok.typ) == k);
        assert(spec_reconstruct(toks, line, col) =~= text.take(k as int) + text.skip(k as int));
        assert(text.take(k as int) + text.skip(k as int) =~= text);
    } else if text[0] == ' ' {
        // canonical whitespace: a space is never last, nor before a line break
        assert(text[0] == ' ');
        assert(1 < text.len() && text[1] != '\n');
        let s1 = text.skip(1);
        lemma_canonical_skip(text, 1);
        lemma_round_trip_from(s1, line, col + 1);
        let toks1 = spec_tokenize(s1, line, col + 1).0;
        assert(toks == toks1);
        assert(s1.len() > 0);
        if toks1.len() == 0 {
            assert(s1.len() == 0);
        }
        assert(toks1.len() > 0);
        assert(s1[0] == text[1]);
        assert(toks1[0].loc.line == line);
        lemma_tokenize_monotonic(s1, line, col + 1);
        assert(lex_le(line, col + 1, toks1[0].loc));
        assert(toks1[0].loc.col >= col + 1);
        let t0 = toks1[0];
        assert(gap_text(t0.loc, line, col) =~= seq![' '] + gap_text(t0.loc, line, col + 1));
        assert(spec_reconstruct(toks1, line, col) =~= seq![' '] + spec_reconstruct(
            toks1,
            line,
            col + 1,
        ));
        assert(seq![' '] + s1 =~= text);
    } else if text[0] == '\n' {
        let s1 = text.skip(1);
        lemma_canonical_skip(text, 1);
        lemma_round_trip_from(s1, line + 1, 0);
        let toks1 = spec_tokenize(s1, line + 1, 0).0;
        assert(toks == toks1);
        if toks1.len() == 0 {
            // the text would be a bare line break, which canonical
            // whitespace rules out at the end
            assert(s1.len() == 0);
            assert(text.len() == 1);
            assert(text.last() == '\n');
        }
        assert(toks1.len() > 0);
        lemma_tokenize_monotonic(s1, line + 1, 0);
        let t0 = toks1[0];
        assert(lex_le(line + 1, 0, t0.loc));
        assert(t0.loc.line >= line + 1);
        assert(gap_text(t0.loc, line, col) =~= seq!['\n'] + gap_text(t0.loc, line + 1, 0));
        assert(spec_reconstruct(toks1, line, col) =~= seq!['\n'] + spec_reconstruct(
            toks1,
            line + 1,
            0,
        ));
        assert(seq!['\n'] + s1 =~= text);
    } else if text[0] == ';' || text[0] == ',' || text[0] == '.' {
        let s1 = text.skip(1);
        let rest = spec_tokenize(s1, line, col + 1);
        lemma_canonical_skip(text, 1);
        lemma_round_trip_from(s1, line, col + 1);
        let t0 = toks[0];
        assert(t0.loc == (LocModel { line, col }));
        assert(toks.drop_first() =~= rest.0);
        assert(gap_text(t0.loc, line, col) =~= Seq::<char>::empty());
        assert(token_text(t0.typ) =~= seq![text[0]]);
        assert(token_width(t0.typ) == 1);
        assert(spec_reconstruct(toks, line, col) =~= seq![text[0]] + s1);
        assert(seq![text[0]] + s1 =~= text);
    } else if text[0] == '-' || text[0] == '+' || text[0] == '&' {
        let la = if text.len() >= 2 {
            Some(text[1])
        } else {
            None::<char>
        };
        let tt = two_char_token(text[0], la);
        let w = token_width(tt);
        assert(w == 1 || w == 2);
        assert(w == 2 ==> text.len() >= 2);
        let sw = text.skip(w as int);
        let rest = spec_tokenize(sw, line, col + w);
        lemma_canonical_skip(text, w as int);
        lemma_round_trip_from(sw, line, col + w);
        let t0 = toks[0];
        assert(t0 == (TokenModel { typ: tt, loc: LocModel { line, col } }));
        assert(toks.drop_first() =~= rest.0);
        assert(gap_text(t0.loc, line, col) =~= Seq::<char>::empty());
        assert(token_text(tt) =~= text.take(w as int));
        assert(spec_reconstruct(toks, line, col) =~= text.take(w as int) + sw);
        assert(text.take(w as int) + sw =~= text);
    } else {
        // an unrecognized character: excluded, the tokenization succeeded
        assert(spec_tokenize(text, line, col).1 is Some);
    }
}

/// Round-trip law: tokenizing a text drawn from the recognized grammar,
/// then reconstructing the token sequence with no rewriting in between,
/// yields the text itself — provided its whitespace is canonical, with each
/// gap putting line breaks before spaces and none at the end of the text.
pub proof fn lemma_round_trip(text: Seq<char>)
    requires
        canonical_ws(text),
        spec_tokenize(text, 0, 0).1 is None,
    ensures
        spec_reconstruct(spec_tokenize(text, 0, 0).0, 0, 0) == text,
{
    lemma_round_trip_from(text, 0, 0);
}

} // verus!
