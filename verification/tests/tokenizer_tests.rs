use cmft::{Location, OpType, PunctType, Token, TokenType, Tokenizer};

fn collect_tokens(program: &str) -> Vec<Token<'_>> {
    let mut tok = Tokenizer::new(program);
    let mut tokens = Vec::new();
    loop {
        match tok.next() {
            Ok(Some(t)) => tokens.push(t),
            Ok(None) => break,
            Err(e) => panic!("unexpected lexical error at {:?}", e.location),
        }
    }
    tokens
}

#[test]
fn only_semicolons() {
    let program = ";;;;;;;";
    let tok: Vec<_> = collect_tokens(program).into_iter().map(|i| i.token_type).collect();

    assert_eq!(tok.len(), 7);
    for i in tok {
        assert_eq!(i, TokenType::Punctuation(PunctType::Semicolon));
    }
}

#[test]
fn semicolons_idents() {
    let program = "abc;def;";
    let tok = collect_tokens(program);

    let expected = vec![
        TokenType::Indentifier("abc"),
        TokenType::Punctuation(PunctType::Semicolon),
        TokenType::Indentifier("def"),
        TokenType::Punctuation(PunctType::Semicolon),
    ];

    assert_eq!(tok.len(), expected.len());
    let mut cur_ind = 0;
    for (i, j) in tok.into_iter().zip(expected) {
        assert_eq!(i.token_type, j);
        assert_eq!(i.location.line, 0);
        assert_eq!(i.location.col, cur_ind);
        cur_ind += j.width();
    }
}

#[test]
fn multichar() {
    let program = "ab->cd+=-";
    let expected = vec![
        TokenType::Indentifier("ab"),
        TokenType::Punctuation(PunctType::Arrow),
        TokenType::Indentifier("cd"),
        TokenType::Operator(OpType::PlusAssign),
        TokenType::Operator(OpType::Sub),
    ];
    let tok = collect_tokens(program);

    assert_eq!(tok.len(), expected.len());
    let mut cur_ind = 0;
    for (i, j) in tok.into_iter().zip(expected) {
        assert_eq!(i.token_type, j);
        assert_eq!(i.location.line, 0);
        assert_eq!(i.location.col, cur_ind);
        cur_ind += j.width();
    }
}

#[test]
fn semicolon_columns() {
    let tok = collect_tokens(";;;;;;;");
    assert_eq!(tok.len(), 7);
    for (idx, t) in tok.into_iter().enumerate() {
        assert_eq!(t.token_type, TokenType::Punctuation(PunctType::Semicolon));
        assert_eq!(t.location, Location::new(0, idx));
    }
}

#[test]
fn operator_disambiguation() {
    let minus = collect_tokens("-");
    assert_eq!(minus.len(), 1);
    assert_eq!(minus[0].token_type, TokenType::Operator(OpType::Sub));

    let arrow = collect_tokens("->");
    assert_eq!(arrow.len(), 1);
    assert_eq!(arrow[0].token_type, TokenType::Punctuation(PunctType::Arrow));

    let sub_assign = collect_tokens("-=");
    assert_eq!(sub_assign.len(), 1);
    assert_eq!(sub_assign[0].token_type, TokenType::Operator(OpType::SubAssign));
}

#[test]
fn ampersand_disambiguation() {
    let and = collect_tokens("&&");
    assert_eq!(and.len(), 1);
    assert_eq!(and[0].token_type, TokenType::Operator(OpType::And));

    let land_assign = collect_tokens("&=");
    assert_eq!(land_assign.len(), 1);
    assert_eq!(land_assign[0].token_type, TokenType::Operator(OpType::LAndAssign));

    let land = collect_tokens("&");
    assert_eq!(land.len(), 1);
    assert_eq!(land[0].token_type, TokenType::Operator(OpType::LAnd));

    let plus = collect_tokens("+x");
    assert_eq!(plus.len(), 2);
    assert_eq!(plus[0].token_type, TokenType::Operator(OpType::Plus));
    assert_eq!(plus[1].token_type, TokenType::Indentifier("x"));
    assert_eq!(plus[1].location, Location::new(0, 1));
}

#[test]
fn lexical_error_char_and_location() {
    let mut tok = Tokenizer::new("ab$c");
    let first = tok.next().expect("identifier expected").expect("token expected");
    assert_eq!(first.token_type, TokenType::Indentifier("ab"));
    let err = tok.next().expect_err("the dollar sign is outside the grammar");
    assert_eq!(err.character, '$');
    assert_eq!(err.location, Location::new(0, 2));
    // lexing stops at the offending character
    let again = tok.next().expect_err("the error is not consumed");
    assert_eq!(again.character, '$');
    assert_eq!(again.location, Location::new(0, 2));
}

#[test]
fn lexical_error_after_line_break() {
    let mut tok = Tokenizer::new("abc;\n  @");
    assert!(tok.next().is_ok());
    assert!(tok.next().is_ok());
    let err = tok.next().expect_err("the at sign is outside the grammar");
    assert_eq!(err.character, '@');
    assert_eq!(err.location, Location::new(1, 2));
}

#[test]
fn exhaustion_is_stable() {
    let mut tok = Tokenizer::new("a");
    let t = tok.next().unwrap().unwrap();
    assert_eq!(t.token_type, TokenType::Indentifier("a"));
    assert!(tok.next().unwrap().is_none());
    assert!(tok.next().unwrap().is_none());
}

#[test]
fn trailing_identifier_location() {
    let tok = collect_tokens("a  bc");
    assert_eq!(tok.len(), 2);
    assert_eq!(tok[0].token_type, TokenType::Indentifier("a"));
    assert_eq!(tok[0].location, Location::new(0, 0));
    assert_eq!(tok[1].token_type, TokenType::Indentifier("bc"));
    assert_eq!(tok[1].location, Location::new(0, 3));
}
