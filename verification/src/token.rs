//! The token model: locations, operator and punctuation tables, and the
//! `TokenType` / `Token` pair that the tokenizer emits and the
//! reconstructor consumes.

use vstd::prelude::*;
use vstd::string::StrSliceExecFns;
use vstd::string::StringExecFns;

verus! {

/// Error returned when a piece of text names no entry of the operator table.
#[derive(Debug, Clone, Copy, PartialEq, Eq, Structural)]
pub struct ParseError;

/// The position of a token in the source text, counted the way a text
/// editor counts: 0-indexed line and 0-indexed column, where a column is a
/// character count, not a byte count.
#[derive(Debug, Clone, Copy, PartialEq, Eq, Structural)]
pub struct Location {
    /// the (0-indexed) line (row) of the token
    pub line: usize,
    /// the (0-indexed) column of the token
    pub col: usize,
}

/// Mathematical model of a [`Location`]: an unbounded line/column pair.
pub ghost struct LocModel {
    pub line: nat,
    pub col: nat,
}

impl View for Location {
    type V = LocModel;

    open spec fn view(&self) -> LocModel {
        LocModel { line: self.line as nat, col: self.col as nat }
    }
}

impl Location {
    pub fn new(line: usize, col: usize) -> (r: Self)
        ensures
            r.line == line,
            r.col == col,
    {
        Self { line, col }
    }
}

/// An operator spelling.
#[derive(Debug, Clone, Copy, PartialEq, Eq, Structural)]
pub enum OpType {
    /// the operator `=`
    Assign,
    /// the operator `+`
    Plus,
    /// the operator `-`
    Sub,
    /// the operator `*`
    Mul,
    /// the operator `/`
    Div,
    /// the operator `<<`
    Shl,
    /// the operator `>>`
    Shr,
    /// the operator `%`
    Mod,
    /// the operator `+=`
    PlusAssign,
    /// the operator `-=`
    SubAssign,
    /// the operator `*=`
    MulAssign,
    /// the operator `/=`
    DivAssign,
    /// the operator `<<=`
    ShlAssign,
    /// the operator `>>=`
    ShrAssign,
    /// the operator `%=`
    ModAssign,
    /// the operator `&=`
    LAndAssign,
    /// the operator `|=`
    LOrAssign,
    /// the operator `^=`
    LXorAssign,
    /// the operator `~=`
    LNotAssign,
    /// the operator `&`
    LAnd,
    /// the operator `|`
    LOr,
    /// the operator `^`
    LXor,
    /// the operator `~`
    LNot,
    /// the operator `&&`
    And,
    /// the operator `||`
    Or,
    /// the operator `!`
    Not,
    /// the operator `==`
    Eq,
    /// the operator `!=`
    Neq,
}

/// The canonical spelling of each operator, as a character sequence.
pub open spec fn op_spelling(op: OpType) -> Seq<char> {
    match op {
        OpType::Assign => seq!['='],
        OpType::Plus => seq!['+'],
        OpType::Sub => seq!['-'],
        OpType::Mul => seq!['*'],
        OpType::Div => seq!['/'],
        OpType::Shl => seq!['<', '<'],
        OpType::Shr => seq!['>', '>'],
        OpType::Mod => seq!['%'],
        OpType::PlusAssign => seq!['+', '='],
        OpType::SubAssign => seq!['-', '='],
        OpType::MulAssign => seq!['*', '='],
        OpType::DivAssign => seq!['/', '='],
        OpType::ShlAssign => seq!['<', '<', '='],
        OpType::ShrAssign => seq!['>', '>', '='],
        OpType::ModAssign => seq!['%', '='],
        OpType::LAndAssign => seq!['&', '='],
        OpType::LOrAssign => seq!['|', '='],
        OpType::LXorAssign => seq!['^', '='],
        OpType::LNotAssign => seq!['~', '='],
        OpType::LAnd => seq!['&'],
        OpType::LOr => seq!['|'],
        OpType::LXor => seq!['^'],
        OpType::LNot => seq!['~'],
        OpType::And => seq!['&', '&'],
        OpType::Or => seq!['|', '|'],
        OpType::Not => seq!['!'],
        OpType::Eq => seq!['=', '='],
        OpType::Neq => seq!['!', '='],
    }
}

impl OpType {
    /// The canonical text of the operator.
    pub fn to_str(self) -> (r: &'static str)
        ensures
            r@ == op_spelling(self),
    {
        match self {
            OpType::Assign => {
                proof {
                    reveal_strlit("=");
                    assert("="@ =~= op_spelling(OpType::Assign));
                }
                "="
            },
            OpType::Plus => {
                proof {
                    reveal_strlit("+");
                    assert("+"@ =~= op_spelling(OpType::Plus));
                }
                "+"
            },
            OpType::Sub => {
                proof {
                    reveal_strlit("-");
                    assert("-"@ =~= op_spelling(OpType::Sub));
                }
                "-"
            },
            OpType::Mul => {
                proof {
                    reveal_strlit("*");
                    assert("*"@ =~= op_spelling(OpType::Mul));
                }
                "*"
            },
            OpType::Div => {
                proof {
                    reveal_strlit("/");
                    assert("/"@ =~= op_spelling(OpType::Div));
                }
                "/"
            },
            OpType::Shl => {
                proof {
                    reveal_strlit("<<");
                    assert("<<"@ =~= op_spelling(OpType::Shl));
                }
                "<<"
            },
            OpType::Shr => {
                proof {
                    reveal_strlit(">>");
                    assert(">>"@ =~= op_spelling(OpType::Shr));
                }
                ">>"
            },
            OpType::Mod => {
                proof {
                    reveal_strlit("%");
                    assert("%"@ =~= op_spelling(OpType::Mod));
                }
                "%"
            },
            OpType::PlusAssign => {
                proof {
                    reveal_strlit("+=");
                    assert("+="@ =~= op_spelling(OpType::PlusAssign));
                }
                "+="
            },
            OpType::SubAssign => {
                proof {
                    reveal_strlit("-=");
                    assert("-="@ =~= op_spelling(OpType::SubAssign));
                }
                "-="
            },
            OpType::MulAssign => {
                proof {
                    reveal_strlit("*=");
                    assert("*="@ =~= op_spelling(OpType::MulAssign));
                }
                "*="
            },
            OpType::DivAssign => {
                proof {
                    reveal_strlit("/=");
                    assert("/="@ =~= op_spelling(OpType::DivAssign));
                }
                "/="
            },
            OpType::ShlAssign => {
                proof {
                    reveal_strlit("<<=");
                    assert("<<="@ =~= op_spelling(OpType::ShlAssign));
                }
                "<<="
            },
            OpType::ShrAssign => {
                proof {
                    reveal_strlit(">>=");
                    assert(">>="@ =~= op_spelling(OpType::ShrAssign));
                }
                ">>="
            },
            OpType::ModAssign => {
                proof {
                    reveal_strlit("%=");
                    assert("%="@ =~= op_spelling(OpType::ModAssign));
                }
                "%="
            },
            OpType::LAndAssign => {
                proof {
                    reveal_strlit("&=");
                    assert("&="@ =~= op_spelling(OpType::LAndAssign));
                }
                "&="
            },
            OpType::LOrAssign => {
                proof {
                    reveal_strlit("|=");
                    assert("|="@ =~= op_spelling(OpType::LOrAssign));
                }
                "|="
            },
            OpType::LXorAssign => {
                proof {
                    reveal_strlit("^=");
                    assert("^="@ =~= op_spelling(OpType::LXorAssign));
                }
                "^="
            },
            OpType::LNotAssign => {
                proof {
                    reveal_strlit("~=");
                    assert("~="@ =~= op_spelling(OpType::LNotAssign));
                }
                "~="
            },
            OpType::LAnd => {
                proof {
                    reveal_strlit("&");
                    assert("&"@ =~= op_spelling(OpType::LAnd));
                }
                "&"
            },
            OpType::LOr => {
                proof {
                    reveal_strlit("|");
                    assert("|"@ =~= op_spelling(OpType::LOr));
                }
                "|"
            },
            OpType::LXor => {
                proof {
                    reveal_strlit("^");
                    assert("^"@ =~= op_spelling(OpType::LXor));
                }
                "^"
            },
            OpType::LNot => {
                proof {
                    reveal_strlit("~");
                    assert("~"@ =~= op_spelling(OpType::LNot));
                }
                "~"
            },
            OpType::And => {
                proof {
                    reveal_strlit("&&");
                    assert("&&"@ =~= op_spelling(OpType::And));
                }
                "&&"
            },
            OpType::Or => {
                proof {
                    reveal_strlit("||");
                    assert("||"@ =~= op_spelling(OpType::Or));
                }
                "||"
            },
            OpType::Not => {
                proof {
                    reveal_strlit("!");
                    assert("!"@ =~= op_spelling(OpType::Not));
                }
                "!"
            },
            OpType::Eq => {
                proof {
                    reveal_strlit("==");
                    assert("=="@ =~= op_spelling(OpType::Eq));
                }
                "=="
            },
            OpType::Neq => {
                proof {
                    reveal_strlit("!=");
                    assert("!="@ =~= op_spelling(OpType::Neq));
                }
                "!="
            },
        }
    }

    /// Looks a spelling up in the operator table; `Err` exactly when no
    /// operator is spelled that way.
    pub fn from_str(s: &str) -> (r: Result<OpType, ParseError>)
        ensures
            match r {
                Ok(op) => op_spelling(op) == s@,
                Err(_) => forall|op: OpType| op_spelling(op) != s@,
            },
    {
        let n = s.unicode_len();
        if n == 1 {
            let c0 = s.get_char(0);
            match c0 {
                '=' => {
                    proof { assert(s@ =~= op_spelling(OpType::Assign)); }
                    Ok(OpType::Assign)
                },
                '+' => {
                    proof { assert(s@ =~= op_spelling(OpType::Plus)); }
                    Ok(OpType::Plus)
                },
                '-' => {
                    proof { assert(s@ =~= op_spelling(OpType::Sub)); }
                    Ok(OpType::Sub)
                },
                '*' => {
                    proof { assert(s@ =~= op_spelling(OpType::Mul)); }
                    Ok(OpType::Mul)
                },
                '/' => {
                    proof { assert(s@ =~= op_spelling(OpType::Div)); }
                    Ok(OpType::Div)
                },
                '%' => {
                    proof { assert(s@ =~= op_spelling(OpType::Mod)); }
                    Ok(OpType::Mod)
                },
                '&' => {
                    proof { assert(s@ =~= op_spelling(OpType::LAnd)); }
                    Ok(OpType::LAnd)
                },
                '|' => {
                    proof { assert(s@ =~= op_spelling(OpType::LOr)); }
                    Ok(OpType::LOr)
                },
                '^' => {
                    proof { assert(s@ =~= op_spelling(OpType::LXor)); }
                    Ok(OpType::LXor)
                },
                '~' => {
                    proof { assert(s@ =~= op_spelling(OpType::LNot)); }
                    Ok(OpType::LNot)
                },
                '!' => {
                    proof { assert(s@ =~= op_spelling(OpType::Not)); }
                    Ok(OpType::Not)
                },
                _ => {
                    proof {
                        assert forall|op: OpType| op_spelling(op) != s@ by {
                            lemma_op_spelling_shape(op);
                        }
                    }
                    Err(ParseError)
                },
            }
        } else if n == 2 {
            let c0 = s.get_char(0);
            let c1 = s.get_char(1);
            match (c0, c1) {
                ('<', '<') => {
                    proof { assert(s@ =~= op_spelling(OpType::Shl)); }
                    Ok(OpType::Shl)
                },
                ('>', '>') => {
                    proof { assert(s@ =~= op_spelling(OpType::Shr)); }
                    Ok(OpType::Shr)
                },
                ('&', '&') => {
                    proof { assert(s@ =~= op_spelling(OpType::And)); }
                    Ok(OpType::And)
                },
                ('|', '|') => {
                    proof { assert(s@ =~= op_spelling(OpType::Or)); }
                    Ok(OpType::Or)
                },
                ('+', '=') => {
                    proof { assert(s@ =~= op_spelling(OpType::PlusAssign)); }
                    Ok(OpType::PlusAssign)
                },
                ('-', '=') => {
                    proof { assert(s@ =~= op_spelling(OpType::SubAssign)); }
                    Ok(OpType::SubAssign)
                },
                ('*', '=') => {
                    proof { assert(s@ =~= op_spelling(OpType::MulAssign)); }
                    Ok(OpType::MulAssign)
                },
                ('/', '=') => {
                    proof { assert(s@ =~= op_spelling(OpType::DivAssign)); }
                    Ok(OpType::DivAssign)
                },
                ('%', '=') => {
                    proof { assert(s@ =~= op_spelling(OpType::ModAssign)); }
                    Ok(OpType::ModAssign)
                },
                ('&', '=') => {
                    proof { assert(s@ =~= op_spelling(OpType::LAndAssign)); }
                    Ok(OpType::LAndAssign)
                },
                ('|', '=') => {
                    proof { assert(s@ =~= op_spelling(OpType::LOrAssign)); }
                    Ok(OpType::LOrAssign)
                },
                ('^', '=') => {
                    proof { assert(s@ =~= op_spelling(OpType::LXorAssign)); }
                    Ok(OpType::LXorAssign)
                },
                ('~', '=') => {
                    proof { assert(s@ =~= op_spelling(OpType::LNotAssign)); }
                    Ok(OpType::LNotAssign)
                },
                ('=', '=') => {
                    proof { assert(s@ =~= op_spelling(OpType::Eq)); }
                    Ok(OpType::Eq)
                },
                ('!', '=') => {
                    proof { assert(s@ =~= op_spelling(OpType::Neq)); }
                    Ok(OpType::Neq)
                },
                _ => {
                    proof {
                        assert forall|op: OpType| op_spelling(op) != s@ by {
                            lemma_op_spelling_shape(op);
                        }
                    }
                    Err(ParseError)
                },
            }
        } else if n == 3 {
            let c0 = s.get_char(0);
            let c1 = s.get_char(1);
            let c2 = s.get_char(2);
            match (c0, c1, c2) {
                ('<', '<', '=') => {
                    proof { assert(s@ =~= op_spelling(OpType::ShlAssign)); }
                    Ok(OpType::ShlAssign)
                },
                ('>', '>', '=') => {
                    proof { assert(s@ =~= op_spelling(OpType::ShrAssign)); }
                    Ok(OpType::ShrAssign)
                },
                _ => {
                    proof {
                        assert forall|op: OpType| op_spelling(op) != s@ by {
                            lemma_op_spelling_shape(op);
                        }
                    }
                    Err(ParseError)
                },
            }
        } else {
            proof {
                assert forall|op: OpType| op_spelling(op) != s@ by {
                    lemma_op_spelling_shape(op);
                }
            }
            Err(ParseError)
        }
    }
}

/// The single characters at which a one-character operator spelling starts.
spec fn one_char_op(c: char) -> bool {
    ||| c == '='
    ||| c == '+'
    ||| c == '-'
    ||| c == '*'
    ||| c == '/'
    ||| c == '%'
    ||| c == '&'
    ||| c == '|'
    ||| c == '^'
    ||| c == '~'
    ||| c == '!'
}

/// The character pairs that spell a two-character operator.
spec fn two_char_op(a: char, b: char) -> bool {
    ||| (a == '<' && b == '<')
    ||| (a == '>' && b == '>')
    ||| (a == '&' && b == '&')
    ||| (a == '|' && b == '|')
    ||| (b == '=' && one_char_op(a))
}

/// The character triples that spell a three-character operator.
spec fn three_char_op(a: char, b: char, c: char) -> bool {
    c == '=' && ((a == '<' && b == '<') || (a == '>' && b == '>'))
}

/// Every operator spelling is one, two or three characters long, drawn from
/// the fixed delimiter alphabet above.
proof fn lemma_op_spelling_shape(op: OpType)
    ensures
        ({
            let s = op_spelling(op);
            ||| (s.len() == 1 && one_char_op(s[0]))
            ||| (s.len() == 2 && two_char_op(s[0], s[1]))
            ||| (s.len() == 3 && three_char_op(s[0], s[1], s[2]))
        }),
{
}

/// The operator table maps distinct operators to distinct spellings, so the
/// to-text and from-text directions are mutually inverse.
pub proof fn lemma_op_spelling_injective(a: OpType, b: OpType)
    requires
        op_spelling(a) == op_spelling(b),
    ensures
        a == b,
{
    lemma_op_table_inverse(a);
    lemma_op_table_inverse(b);
}

/// The spec-level inverse of the operator table: the operator spelled by a
/// character sequence, if any.
pub open spec fn spec_op_of(s: Seq<char>) -> Option<OpType> {
    if s.len() == 1 {
        if s[0] == '=' {
            Some(OpType::Assign)
        } else if s[0] == '+' {
            Some(OpType::Plus)
        } else if s[0] == '-' {
            Some(OpType::Sub)
        } else if s[0] == '*' {
            Some(OpType::Mul)
        } else if s[0] == '/' {
            Some(OpType::Div)
        } else if s[0] == '%' {
            Some(OpType::Mod)
        } else if s[0] == '&' {
            Some(OpType::LAnd)
        } else if s[0] == '|' {
            Some(OpType::LOr)
        } else if s[0] == '^' {
            Some(OpType::LXor)
        } else if s[0] == '~' {
            Some(OpType::LNot)
        } else if s[0] == '!' {
            Some(OpType::Not)
        } else {
            None
        }
    } else if s.len() == 2 {
        if s[0] == '<' && s[1] == '<' {
            Some(OpType::Shl)
        } else if s[0] == '>' && s[1] == '>' {
            Some(OpType::Shr)
        } else if s[0] == '&' && s[1] == '&' {
            Some(OpType::And)
        } else if s[0] == '|' && s[1] == '|' {
            Some(OpType::Or)
        } else if s[0] == '+' && s[1] == '=' {
            Some(OpType::PlusAssign)
        } else if s[0] == '-' && s[1] == '=' {
            Some(OpType::SubAssign)
        } else if s[0] == '*' && s[1] == '=' {
            Some(OpType::MulAssign)
        } else if s[0] == '/' && s[1] == '=' {
            Some(OpType::DivAssign)
        } else if s[0] == '%' && s[1] == '=' {
            Some(OpType::ModAssign)
        } else if s[0] == '&' && s[1] == '=' {
            Some(OpType::LAndAssign)
        } else if s[0] == '|' && s[1] == '=' {
            Some(OpType::LOrAssign)
        } else if s[0] == '^' && s[1] == '=' {
            Some(OpType::LXorAssign)
        } else if s[0] == '~' && s[1] == '=' {
            Some(OpType::LNotAssign)
        } else if s[0] == '=' && s[1] == '=' {
            Some(OpType::Eq)
        } else if s[0] == '!' && s[1] == '=' {
            Some(OpType::Neq)
        } else {
            None
        }
    } else if s.len() == 3 {
        if s[0] == '<' && s[1] == '<' && s[2] == '=' {
            Some(OpType::ShlAssign)
        } else if s[0] == '>' && s[1] == '>' && s[2] == '=' {
            Some(OpType::ShrAssign)
        } else {
            None
        }
    } else {
        None
    }
}

/// The two directions of the operator table agree: looking an operator's
/// own spelling up yields that operator back.
pub proof fn lemma_op_table_inverse(op: OpType)
    ensures
        spec_op_of(op_spelling(op)) == Some(op),
{
}

/// Punctuation.
#[derive(Debug, Clone, Copy, PartialEq, Eq, Structural)]
pub enum PunctType {
    /// the punctuation `,`
    Comma,
    /// the punctuation `->`
    Arrow,
    /// the punctuation `.`
    Dot,
    /// the punctuation `;`
    Semicolon,
    /// the punctuation `?`
    QuestionMark,
    /// the punctuation `:`
    Colon,
}

/// The canonical spelling of each punctuation mark.
pub open spec fn punct_spelling(p: PunctType) -> Seq<char> {
    match p {
        PunctType::Comma => seq![','],
        PunctType::Arrow => seq!['-', '>'],
        PunctType::Dot => seq!['.'],
        PunctType::Semicolon => seq![';'],
        PunctType::QuestionMark => seq!['?'],
        PunctType::Colon => seq![':'],
    }
}

impl PunctType {
    /// The canonical text of the punctuation mark.
    pub fn to_str(self) -> (r: &'static str)
        ensures
            r@ == punct_spelling(self),
    {
        match self {
            PunctType::Comma => {
                proof {
                    reveal_strlit(",");
                    assert(","@ =~= punct_spelling(PunctType::Comma));
                }
                ","
            },
            PunctType::Arrow => {
                proof {
                    reveal_strlit("->");
                    assert("->"@ =~= punct_spelling(PunctType::Arrow));
                }
                "->"
            },
            PunctType::Dot => {
                proof {
                    reveal_strlit(".");
                    assert("."@ =~= punct_spelling(PunctType::Dot));
                }
                "."
            },
            PunctType::Semicolon => {
                proof {
                    reveal_strlit(";");
                    assert(";"@ =~= punct_spelling(PunctType::Semicolon));
                }
                ";"
            },
            PunctType::QuestionMark => {
                proof {
                    reveal_strlit("?");
                    assert("?"@ =~= punct_spelling(PunctType::QuestionMark));
                }
                "?"
            },
            PunctType::Colon => {
                proof {
                    reveal_strlit(":");
                    assert(":"@ =~= punct_spelling(PunctType::Colon));
                }
                ":"
            },
        }
    }
}

/// Punctuation marks are spelled pairwise differently, so their to-text and
/// from-text mappings are mutually inverse as well.
pub proof fn lemma_punct_spelling_injective(a: PunctType, b: PunctType)
    requires
        punct_spelling(a) == punct_spelling(b),
    ensures
        a == b,
{
    match a {
        PunctType::Comma => assert(punct_spelling(a)[0] == ','),
        PunctType::Arrow => assert(punct_spelling(a)[0] == '-'),
        PunctType::Dot => assert(punct_spelling(a)[0] == '.'),
        PunctType::Semicolon => assert(punct_spelling(a)[0] == ';'),
        PunctType::QuestionMark => assert(punct_spelling(a)[0] == '?'),
        PunctType::Colon => assert(punct_spelling(a)[0] == ':'),
    }
    match b {
        PunctType::Comma => assert(punct_spelling(b)[0] == ','),
        PunctType::Arrow => assert(punct_spelling(b)[0] == '-'),
        PunctType::Dot => assert(punct_spelling(b)[0] == '.'),
        PunctType::Semicolon => assert(punct_spelling(b)[0] == ';'),
        PunctType::QuestionMark => assert(punct_spelling(b)[0] == '?'),
        PunctType::Colon => assert(punct_spelling(b)[0] == ':'),
    }
    assert(punct_spelling(a)[0] == punct_spelling(b)[0]);
}

/// Parentheses and their relatives.
#[derive(Debug, Clone, Copy, PartialEq, Eq, Structural)]
pub enum ParenType {
    /// open parenthesis `(`
    LParen,
    /// close parenthesis `)`
    RParen,
    /// open brace `{`
    LBrace,
    /// close brace `}`
    RBrace,
    /// open bracket `[`
    LBrack,
    /// close bracket `]`
    RBrack,
}

/// The kind of a token. Textual payloads borrow from the source buffer the
/// token was lexed from; operators, punctuation and line breaks are
/// self-contained.
#[derive(Debug, Clone, Copy, PartialEq, Eq)]
pub enum TokenType<'a> {
    Keyword(&'a str),
    Operator(OpType),
    /// a string literal; including the quotes
    Str(&'a str),
    /// any other literal value, characters are including the quotes
    Const(&'a str),
    Punctuation(PunctType),
    Indentifier(&'a str),
    Linebreak,
    Comment(&'a str),
}

/// Mathematical model of a [`TokenType`]: the same variants over plain
/// character sequences.
pub ghost enum TokenTypeModel {
    Keyword(Seq<char>),
    Operator(OpType),
    Str(Seq<char>),
    Const(Seq<char>),
    Punctuation(PunctType),
    Indentifier(Seq<char>),
    Linebreak,
    Comment(Seq<char>),
}

impl<'a> View for TokenType<'a> {
    type V = TokenTypeModel;

    open spec fn view(&self) -> TokenTypeModel {
        match *self {
            TokenType::Keyword(s) => TokenTypeModel::Keyword(s@),
            TokenType::Operator(op) => TokenTypeModel::Operator(op),
            TokenType::Str(s) => TokenTypeModel::Str(s@),
            TokenType::Const(s) => TokenTypeModel::Const(s@),
            TokenType::Punctuation(p) => TokenTypeModel::Punctuation(p),
            TokenType::Indentifier(s) => TokenTypeModel::Indentifier(s@),
            TokenType::Linebreak => TokenTypeModel::Linebreak,
            TokenType::Comment(s) => TokenTypeModel::Comment(s@),
        }
    }
}

/// The canonical rendering of a token, as a character sequence. A comment's
/// stored payload excludes its two leading marker characters, which the
/// rendering adds back; a line break renders as the one fixed line ending.
pub open spec fn token_text(t: TokenTypeModel) -> Seq<char> {
    match t {
        TokenTypeModel::Keyword(s) => s,
        TokenTypeModel::Operator(op) => op_spelling(op),
        TokenTypeModel::Str(s) => s,
        TokenTypeModel::Const(s) => s,
        TokenTypeModel::Punctuation(p) => punct_spelling(p),
        TokenTypeModel::Indentifier(s) => s,
        TokenTypeModel::Linebreak => seq!['\n'],
        TokenTypeModel::Comment(s) => seq!['/', '/'] + s,
    }
}

/// The number of display columns a token's rendering occupies: its
/// character count, which can be less than its byte count.
pub open spec fn token_width(t: TokenTypeModel) -> nat {
    token_text(t).len()
}

/// The number of source bytes a token's rendering occupies: the UTF-8 byte
/// count of its text. This is what slicing the source buffer consumes, and
/// it differs from [`token_width`] wherever a payload holds multi-byte
/// characters.
pub open spec fn token_byte_len(t: TokenTypeModel) -> nat {
    match t {
        TokenTypeModel::Keyword(s) => vstd::utf8::encode_utf8(s).len(),
        TokenTypeModel::Operator(op) => op_spelling(op).len(),
        TokenTypeModel::Str(s) => vstd::utf8::encode_utf8(s).len(),
        TokenTypeModel::Const(s) => vstd::utf8::encode_utf8(s).len(),
        TokenTypeModel::Punctuation(p) => punct_spelling(p).len(),
        TokenTypeModel::Indentifier(s) => vstd::utf8::encode_utf8(s).len(),
        TokenTypeModel::Linebreak => 1,
        TokenTypeModel::Comment(s) => vstd::utf8::encode_utf8(s).len() + 2,
    }
}

impl<'a> TokenType<'a> {
    /// The number of columns this token spans.
    pub fn width(&self) -> (r: usize)
        requires
            token_width(self@) <= usize::MAX,
        ensures
            r == token_width(self@),
    {
        match *self {
            TokenType::Keyword(kword) => kword.unicode_len(),
            TokenType::Operator(op) => op.to_str().unicode_len(),
            TokenType::Str(lit) => lit.unicode_len(),
            TokenType::Const(cons) => cons.unicode_len(),
            TokenType::Punctuation(pt) => match pt {
                PunctType::Comma
                | PunctType::Dot
                | PunctType::Semicolon
                | PunctType::QuestionMark
                | PunctType::Colon => 1,
                PunctType::Arrow => 2,
            },
            TokenType::Indentifier(ident) => ident.unicode_len(),
            TokenType::Comment(com) => com.unicode_len() + 2,
            TokenType::Linebreak => 1,
        }
    }

    /// The number of rows this token spans.
    pub fn height(&self) -> (r: usize)
        ensures
            r == 1,
    {
        1
    }

    /// The length of the source text represented by the token, in bytes.
    pub fn len(&self) -> (r: usize)
        requires
            token_byte_len(self@) <= usize::MAX,
        ensures
            r == token_byte_len(self@),
    {
        match *self {
            TokenType::Keyword(kword) => kword.len(),
            TokenType::Operator(op) => op.to_str().unicode_len(),
            TokenType::Str(lit) => lit.len(),
            TokenType::Const(cons) => cons.len(),
            TokenType::Punctuation(pt) => match pt {
                PunctType::Comma
                | PunctType::Dot
                | PunctType::Semicolon
                | PunctType::QuestionMark
                | PunctType::Colon => 1,
                PunctType::Arrow => 2,
            },
            TokenType::Indentifier(ident) => ident.len(),
            TokenType::Comment(com) => com.len() + 2,
            TokenType::Linebreak => 1,
        }
    }

    /// The canonical text of the token.
    pub fn to_str(self) -> (r: String)
        ensures
            r@ == token_text(self@),
    {
        match self {
            TokenType::Keyword(kw) => kw.to_owned(),
            TokenType::Operator(op) => op.to_str().to_owned(),
            TokenType::Str(s) => s.to_owned(),
            TokenType::Const(con) => con.to_owned(),
            TokenType::Punctuation(pt) => pt.to_str().to_owned(),
            TokenType::Indentifier(ident) => ident.to_owned(),
            TokenType::Linebreak => {
                proof {
                    reveal_strlit("\n");
                    assert("\n"@ =~= seq!['\n']);
                }
                "\n".to_owned()
            },
            TokenType::Comment(com) => {
                let mut r = "//".to_owned();
                r.append(com);
                proof {
                    reveal_strlit("//");
                    assert(r@ =~= seq!['/', '/'] + com@);
                }
                r
            },
        }
    }
}

/// A character sequence encodes to at least one byte per character.
proof fn lemma_encode_utf8_len_ge(s: Seq<char>)
    ensures
        vstd::utf8::encode_utf8(s).len() >= s.len(),
    decreases s.len(),
{
    if s.len() > 0 {
        lemma_encode_utf8_len_ge(s.drop_first());
    }
}

/// Width/length distinction: a token's byte length is never below its
/// display width; the two agree for the self-contained variants and for
/// ASCII payloads, and both re-add the two marker characters a comment's
/// stored payload drops — so the cursor arithmetic of the reconstructor
/// (widths) and the slicing arithmetic of the source buffer (byte lengths)
/// can never be conflated without changing some multi-byte text.
pub proof fn lemma_width_vs_byte_len(t: TokenTypeModel)
    ensures
        token_width(t) <= token_byte_len(t),
        t is Operator || t is Punctuation || t is Linebreak ==> token_byte_len(t) == token_width(
            t,
        ),
        t is Keyword && vstd::utf8::is_ascii_chars(t->Keyword_0) ==> token_byte_len(t)
            == token_width(t),
        t is Str && vstd::utf8::is_ascii_chars(t->Str_0) ==> token_byte_len(t) == token_width(t),
        t is Const && vstd::utf8::is_ascii_chars(t->Const_0) ==> token_byte_len(t) == token_width(
            t,
        ),
        t is Indentifier && vstd::utf8::is_ascii_chars(t->Indentifier_0) ==> token_byte_len(t)
            == token_width(t),
        t is Comment ==> token_width(t) == t->Comment_0.len() + 2 && token_byte_len(t)
            == vstd::utf8::encode_utf8(t->Comment_0).len() + 2,
{
    match t {
        TokenTypeModel::Keyword(s) => {
            lemma_encode_utf8_len_ge(s);
            if vstd::utf8::is_ascii_chars(s) {
                vstd::utf8::is_ascii_chars_encode_utf8(s);
            }
        },
        TokenTypeModel::Str(s) => {
            lemma_encode_utf8_len_ge(s);
            if vstd::utf8::is_ascii_chars(s) {
                vstd::utf8::is_ascii_chars_encode_utf8(s);
            }
        },
        TokenTypeModel::Const(s) => {
            lemma_encode_utf8_len_ge(s);
            if vstd::utf8::is_ascii_chars(s) {
                vstd::utf8::is_ascii_chars_encode_utf8(s);
            }
        },
        TokenTypeModel::Indentifier(s) => {
            lemma_encode_utf8_len_ge(s);
            if vstd::utf8::is_ascii_chars(s) {
                vstd::utf8::is_ascii_chars_encode_utf8(s);
            }
        },
        TokenTypeModel::Comment(s) => {
            lemma_encode_utf8_len_ge(s);
        },
        _ => {
        },
    }
}

/// A token and its location in the source text.
#[derive(Debug, Clone, Copy, PartialEq, Eq)]
pub struct Token<'a> {
    pub token_type: TokenType<'a>,
    pub location: Location,
}

/// Mathematical model of a [`Token`].
pub ghost struct TokenModel {
    pub typ: TokenTypeModel,
    pub loc: LocModel,
}

impl<'a> View for Token<'a> {
    type V = TokenModel;

    open spec fn view(&self) -> TokenModel {
        TokenModel { typ: self.token_type@, loc: self.location@ }
    }
}

impl<'a> DeepView for Token<'a> {
    type V = TokenModel;

    open spec fn deep_view(&self) -> TokenModel {
        self.view()
    }
}

impl<'a> Token<'a> {
    pub fn new(token_type: TokenType<'a>, location: Location) -> (r: Self)
        ensures
            r.token_type == token_type,
            r.location == location,
    {
        Self { token_type, location }
    }
}

/// A character outside the recognized grammar, together with the location
/// at which the tokenizer met it.
#[derive(Debug, Clone, Copy, PartialEq, Eq)]
pub struct LexicalError {
    /// the offending character
    pub character: char,
    /// where it stands in the source text
    pub location: Location,
}

/// `(line, col)` is at or before `loc` in lexicographic line/column order.
pub open spec fn lex_le(line: nat, col: nat, loc: LocModel) -> bool {
    line < loc.line || (line == loc.line && col <= loc.col)
}

/// The token sequence is non-decreasing in lexicographic location order when
/// read from a cursor at `(line, col)`, and each token's location, advanced
/// by its own width, stays at or before the next token.
pub open spec fn tokens_monotonic_from(toks: Seq<TokenModel>, line: nat, col: nat) -> bool
    decreases toks.len(),
{
    toks.len() == 0 || {
        &&& lex_le(line, col, toks[0].loc)
        &&& tokens_monotonic_from(
            toks.drop_first(),
            toks[0].loc.line,
            toks[0].loc.col + token_width(toks[0].typ),
        )
    }
}

/// Every token's end column fits in `usize`, so an executable cursor can
/// walk the sequence without overflow.
pub open spec fn tokens_fit(toks: Seq<TokenModel>) -> bool {
    forall|i: int|
        0 <= i < toks.len() ==> (#[trigger] toks[i]).loc.col + token_width(toks[i].typ)
            <= usize::MAX && toks[i].loc.line <= usize::MAX
}

/// Mathematical model of a [`LexicalError`].
pub ghost struct LexErrModel {
    pub character: char,
    pub loc: LocModel,
}

impl View for LexicalError {
    type V = LexErrModel;

    open spec fn view(&self) -> LexErrModel {
        LexErrModel { character: self.character, loc: self.location@ }
    }
}

} // verus!
