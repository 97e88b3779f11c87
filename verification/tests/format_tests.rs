use cmft::{format_string, reconstruct, tokenize, Location, PunctType, Token, TokenType};

#[test]
fn rewriting_pass_between_the_phases() {
    // the token sequence is an editable intermediate representation
    let tokens = tokenize("a;b").unwrap();
    assert_eq!(reconstruct(&tokens), "a;b");
    let mut edited = tokens.clone();
    edited[1] = Token::new(
        TokenType::Punctuation(PunctType::Comma),
        edited[1].location,
    );
    assert_eq!(reconstruct(&edited), "a,b");
}

#[test]
fn format_is_identity_on_canonical_text() {
    let cases = [
        "",
        "abc;ed",
        "abc; ed ;",
        "abc;\n       ed;",
        "ab->cd+=-",
        ";;;;;;;",
        "a\n\n   b",
        "   leading; spaces",
    ];
    for case in cases {
        let out = format_string(case.to_string()).expect("the text is inside the grammar");
        assert_eq!(out, case);
    }
}

#[test]
fn format_drops_trailing_whitespace() {
    // whitespace after the last token leaves no token behind, so nothing
    // records it and the reconstruction ends at the last token
    assert_eq!(format_string("a ".to_string()).unwrap(), "a");
    assert_eq!(format_string("a;\n".to_string()).unwrap(), "a;");
}

#[test]
fn format_normalizes_space_before_line_break() {
    // a space directly before a line break cannot be replayed from
    // locations alone: the gap is re-emitted as line breaks before spaces
    assert_eq!(format_string("ab \ncd".to_string()).unwrap(), "ab\ncd");
}

#[test]
fn format_reports_the_first_bad_character() {
    let err = format_string("abc;\n  1;".to_string()).expect_err("digits are outside the grammar");
    assert_eq!(err.character, '1');
    assert_eq!(err.location, Location::new(1, 2));
}

#[test]
fn format_rejects_bare_assignment_sign() {
    // '=' is only ever read as the lookahead of a compound spelling; on its
    // own it is outside the recognized character grammar
    let err = format_string("=".to_string()).expect_err("a bare sign is not recognized");
    assert_eq!(err.character, '=');
    assert_eq!(err.location, Location::new(0, 0));
}

#[test]
fn format_keeps_indentation() {
    let program = "abc;\n       ed;";
    assert_eq!(format_string(program.to_string()).unwrap(), program);
}
