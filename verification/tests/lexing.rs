use compass::lexer::tokens::{LexingError, Token};
use compass::lexer::{tokenize, SpannedToken};

fn tokens_of(code: &str) -> Vec<SpannedToken> {
    tokenize(code).expect("lexing should succeed")
}

fn kinds_of(code: &str) -> Vec<Token> {
    tokens_of(code).into_iter().map(|t| t.token).collect()
}

#[test]
fn spans_partition_the_source() {
    let toks = tokens_of("a: i32 = 13");
    let spans: Vec<(usize, usize)> = toks.iter().map(|t| (t.start, t.end)).collect();
    assert_eq!(spans, vec![(0, 1), (1, 2), (3, 6), (7, 8), (9, 11)]);
    // spans are ordered and non-empty
    for t in &toks {
        assert!(t.start < t.end);
    }
    for w in toks.windows(2) {
        assert!(w[0].end <= w[1].start);
    }
}

#[test]
fn keywords_types_and_identifiers() {
    assert_eq!(
        kinds_of("if goto func begin end return load store"),
        vec![
            Token::If,
            Token::Goto,
            Token::Function,
            Token::Begin,
            Token::End,
            Token::Return,
            Token::Load,
            Token::Store,
        ]
    );
    assert_eq!(
        kinds_of("i32 bool foo _bar true false"),
        vec![
            Token::Type("i32".to_string()),
            Token::Type("bool".to_string()),
            Token::Identifier("foo".to_string()),
            Token::Identifier("_bar".to_string()),
            Token::LiteralTrue,
            Token::LiteralFalse,
        ]
    );
}

#[test]
fn operators_and_punctuation() {
    assert_eq!(
        kinds_of("+ - * / = < > <= >= == != && || [ ] ( ) :"),
        vec![
            Token::Add,
            Token::Sub,
            Token::Mul,
            Token::Div,
            Token::Assign,
            Token::LessThan,
            Token::GreaterThan,
            Token::LessThanOrEqual,
            Token::GreaterThanOrEqual,
            Token::Equal,
            Token::NotEqual,
            Token::And,
            Token::Or,
            Token::OpenBracket,
            Token::CloseBracket,
            Token::OpenParen,
            Token::CloseParen,
            Token::Colon,
        ]
    );
}

#[test]
fn integer_literals_across_widths_and_bases() {
    assert_eq!(kinds_of("13"), vec![Token::LiteralI32(13)]);
    assert_eq!(kinds_of("-13"), vec![Token::LiteralI32(-13)]);
    assert_eq!(kinds_of("+13"), vec![Token::LiteralI32(13)]);
    assert_eq!(kinds_of("13i8"), vec![Token::LiteralI8(13)]);
    assert_eq!(kinds_of("-128i8"), vec![Token::LiteralI8(-128)]);
    assert_eq!(kinds_of("13i16"), vec![Token::LiteralI16(13)]);
    assert_eq!(kinds_of("13i64"), vec![Token::LiteralI64(13)]);
    assert_eq!(kinds_of("13u8"), vec![Token::LiteralU8(13)]);
    assert_eq!(kinds_of("13u16"), vec![Token::LiteralU16(13)]);
    assert_eq!(kinds_of("13u32"), vec![Token::LiteralU32(13)]);
    assert_eq!(
        kinds_of("18446744073709551615u64"),
        vec![Token::LiteralU64(18446744073709551615)]
    );
    assert_eq!(kinds_of("0x1F"), vec![Token::LiteralI32(31)]);
    assert_eq!(kinds_of("0x10u16"), vec![Token::LiteralU16(16)]);
    // a hex literal swallows hex-digit suffix lookalikes
    assert_eq!(kinds_of("0x1f32"), vec![Token::LiteralI32(0x1f32)]);
}

#[test]
fn float_literals_keep_their_spelling() {
    assert_eq!(kinds_of("12.0"), vec![Token::LiteralF32("12.0".to_string())]);
    assert_eq!(kinds_of("2."), vec![Token::LiteralF32("2.".to_string())]);
    assert_eq!(kinds_of(".2"), vec![Token::LiteralF32(".2".to_string())]);
    assert_eq!(kinds_of("1f32"), vec![Token::LiteralF32("1f32".to_string())]);
    assert_eq!(
        kinds_of("2.f32"),
        vec![Token::LiteralF32("2.f32".to_string())]
    );
    assert_eq!(
        kinds_of(".3f64"),
        vec![Token::LiteralF64(".3f64".to_string())]
    );
    assert_eq!(
        kinds_of("1f64"),
        vec![Token::LiteralF64("1f64".to_string())]
    );
}

#[test]
fn strings_dereferences_and_casts() {
    assert_eq!(
        kinds_of("\"hello\""),
        vec![Token::LiteralString("\"hello\"".to_string())]
    );
    assert_eq!(
        kinds_of("*ptr_name"),
        vec![Token::Dereference("ptr_name".to_string())]
    );
    assert_eq!(kinds_of("(i32)"), vec![Token::Cast("i32".to_string())]);
    // not a cast: falls back to parenthesis
    assert_eq!(
        kinds_of("(zzz)"),
        vec![
            Token::OpenParen,
            Token::Identifier("zzz".to_string()),
            Token::CloseParen,
        ]
    );
}

#[test]
fn comments_and_whitespace_are_skipped() {
    assert_eq!(
        kinds_of("a # this is a comment\nb"),
        vec![
            Token::Identifier("a".to_string()),
            Token::Identifier("b".to_string()),
        ]
    );
    assert_eq!(kinds_of("# only a comment"), vec![]);
    assert_eq!(kinds_of("  \t\n  "), vec![]);
}

#[test]
fn overflowing_literals_are_reported() {
    let errs = tokenize("300i8").expect_err("should overflow");
    assert_eq!(errs.len(), 1);
    assert_eq!(
        errs[0].kind,
        LexingError::InvalidInteger("overflow error".to_string())
    );
    assert_eq!(errs[0].span.start, 0);
    assert_eq!(errs[0].span.end, 5);

    let errs = tokenize("18446744073709551616u64").expect_err("should overflow");
    assert_eq!(
        errs[0].kind,
        LexingError::InvalidInteger("overflow error".to_string())
    );
}

#[test]
fn invalid_characters_are_reported_with_their_span() {
    let errs = tokenize("a @ b").expect_err("should fail");
    assert_eq!(errs.len(), 1);
    assert_eq!(errs[0].kind, LexingError::InvalidToken);
    assert_eq!((errs[0].span.start, errs[0].span.end), (2, 3));

    let errs = tokenize("é").expect_err("should fail");
    assert_eq!(errs[0].kind, LexingError::NonAsciiCharacter);

    // every invalid span is reported, not only the first
    let errs = tokenize("@ ~").expect_err("should fail");
    assert_eq!(errs.len(), 2);
}
