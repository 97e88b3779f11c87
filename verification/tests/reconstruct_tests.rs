use cmft::{reconstruct, Location, OpType, PunctType, Token, TokenType, Tokenizer};

fn collect_tokens(program: &str) -> Vec<Token<'_>> {
    let mut tok = Tokenizer::new(program);
    let mut tokens = Vec::new();
    loop {
        match tok.next() {
            Ok(Some(t)) => tokens.push(t),
            Ok(None) => break,
            Err(e) => panic!("unexpected lexical error at {:?}", e.location),
        }
    }
    tokens
}

#[test]
fn simple() {
    let program = "abc;ed";
    let tokens = collect_tokens(program);

    let reconstructed = reconstruct(&tokens);
    assert_eq!(program, reconstructed);
}

#[test]
fn spaces() {
    let program = "abc; ed ;";
    let tokens = collect_tokens(program);
    for lit in &tokens {
        if let TokenType::Indentifier(id) = lit.token_type {
            assert!(!id.ends_with(char::is_whitespace));
            assert!(!id.starts_with(char::is_whitespace));
            assert!(id
                .chars()
                .map(|i| matches!(i, 'a'..='z' | 'A'..='Z' | '0'..='9'))
                .reduce(|a, b| a && b)
                .unwrap());
        }
    }

    let reconstructed = reconstruct(&tokens);
    assert_eq!(program, reconstructed);
}

#[test]
fn newline() {
    let program = "abc;\n       ed;";
    let tokens = collect_tokens(program);

    let reconstructed = reconstruct(&tokens);
    assert_eq!(program, reconstructed);
}

#[test]
fn declared_variants_render() {
    // variants the minimal grammar never produces still render canonically
    let tokens = vec![
        Token::new(TokenType::Keyword("if"), Location::new(0, 0)),
        Token::new(TokenType::Str("\"x\""), Location::new(0, 3)),
        Token::new(TokenType::Const("42"), Location::new(0, 7)),
        Token::new(TokenType::Comment("hi"), Location::new(0, 10)),
        Token::new(TokenType::Linebreak, Location::new(0, 14)),
    ];
    let out = reconstruct(&tokens);
    assert_eq!(out, "if \"x\" 42 //hi\n");
}

#[test]
fn gap_emits_line_breaks_then_spaces() {
    let tokens = vec![
        Token::new(TokenType::Indentifier("a"), Location::new(0, 0)),
        Token::new(TokenType::Indentifier("b"), Location::new(2, 3)),
    ];
    let out = reconstruct(&tokens);
    assert_eq!(out, "a\n\n   b");
}

#[test]
fn cursor_advances_by_width_not_len() {
    // a comment payload with a two-byte character: width counts characters
    let comment = TokenType::Comment("caf\u{e9}");
    assert_eq!(comment.width(), 6);
    assert_eq!(comment.len(), 7);
    let tokens = vec![
        Token::new(comment, Location::new(0, 0)),
        Token::new(TokenType::Punctuation(PunctType::Semicolon), Location::new(0, 6)),
    ];
    let out = reconstruct(&tokens);
    // the semicolon follows the comment with no gap: the cursor moved by
    // the comment's width, not its byte length
    assert_eq!(out, "//caf\u{e9};");
}

#[test]
fn width_and_len_agree_on_ascii() {
    let ident = TokenType::Indentifier("abc");
    assert_eq!(ident.width(), 3);
    assert_eq!(ident.len(), 3);
    let arrow = TokenType::Punctuation(PunctType::Arrow);
    assert_eq!(arrow.width(), 2);
    assert_eq!(arrow.len(), 2);
    let op = TokenType::Operator(OpType::ShlAssign);
    assert_eq!(op.width(), 3);
    assert_eq!(op.len(), 3);
    let lb = TokenType::<'static>::Linebreak;
    assert_eq!(lb.width(), 1);
    assert_eq!(lb.len(), 1);
    assert_eq!(lb.height(), 1);
}

#[test]
fn token_text_rendering() {
    assert_eq!(TokenType::Keyword("while").to_str(), "while");
    assert_eq!(TokenType::Operator(OpType::Neq).to_str(), "!=");
    assert_eq!(TokenType::Punctuation(PunctType::Comma).to_str(), ",");
    assert_eq!(TokenType::Indentifier("x").to_str(), "x");
    assert_eq!(TokenType::Str("\"s\"").to_str(), "\"s\"");
    assert_eq!(TokenType::Const("7").to_str(), "7");
    assert_eq!(TokenType::Comment(" note").to_str(), "// note");
    assert_eq!(TokenType::<'static>::Linebreak.to_str(), "\n");
}

#[test]
fn token_new_keeps_fields() {
    let loc = Location::new(3, 4);
    assert_eq!(loc.line, 3);
    assert_eq!(loc.col, 4);
    let t = Token::new(TokenType::Indentifier("zz"), loc);
    assert_eq!(t.token_type, TokenType::Indentifier("zz"));
    assert_eq!(t.location, loc);
}

#[test]
fn empty_token_sequence() {
    let tokens: Vec<Token<'static>> = Vec::new();
    assert_eq!(reconstruct(&tokens), "");
}
