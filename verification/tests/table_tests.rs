use cmft::{OpType, PunctType};

fn all_ops() -> Vec<OpType> {
    vec![
        OpType::Assign,
        OpType::Plus,
        OpType::Sub,
        OpType::Mul,
        OpType::Div,
        OpType::Shl,
        OpType::Shr,
        OpType::Mod,
        OpType::PlusAssign,
        OpType::SubAssign,
        OpType::MulAssign,
        OpType::DivAssign,
        OpType::ShlAssign,
        OpType::ShrAssign,
        OpType::ModAssign,
        OpType::LAndAssign,
        OpType::LOrAssign,
        OpType::LXorAssign,
        OpType::LNotAssign,
        OpType::LAnd,
        OpType::LOr,
        OpType::LXor,
        OpType::LNot,
        OpType::And,
        OpType::Or,
        OpType::Not,
        OpType::Eq,
        OpType::Neq,
    ]
}

#[test]
fn op_table_round_trips() {
    for op in all_ops() {
        let text = op.to_str();
        let back = OpType::from_str(text).expect("every table entry parses back");
        assert_eq!(back, op);
    }
}

#[test]
fn op_spellings_are_distinct() {
    let ops = all_ops();
    for (i, a) in ops.iter().enumerate() {
        for (j, b) in ops.iter().enumerate() {
            if i != j {
                assert_ne!(a.to_str(), b.to_str());
            }
        }
    }
}

#[test]
fn op_from_str_values() {
    assert_eq!(OpType::from_str("="), Ok(OpType::Assign));
    assert_eq!(OpType::from_str("<<="), Ok(OpType::ShlAssign));
    assert_eq!(OpType::from_str("&&"), Ok(OpType::And));
    assert_eq!(OpType::from_str("!="), Ok(OpType::Neq));
}

#[test]
fn op_from_str_rejects_unknown_text() {
    assert!(OpType::from_str("").is_err());
    assert!(OpType::from_str("@").is_err());
    assert!(OpType::from_str("=>").is_err());
    assert!(OpType::from_str("<<<").is_err());
    assert!(OpType::from_str("<<==").is_err());
    assert!(OpType::from_str("abc").is_err());
}

#[test]
fn punct_spellings() {
    assert_eq!(PunctType::Comma.to_str(), ",");
    assert_eq!(PunctType::Arrow.to_str(), "->");
    assert_eq!(PunctType::Dot.to_str(), ".");
    assert_eq!(PunctType::Semicolon.to_str(), ";");
    assert_eq!(PunctType::QuestionMark.to_str(), "?");
    assert_eq!(PunctType::Colon.to_str(), ":");
}
