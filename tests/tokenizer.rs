use minicc::tokenizer::{tokenize, Keyword, TokenKind, TokenizerContext};

#[test]
fn tokenizer_test_remains() {
    assert_eq!(TokenizerContext::new("").remains(), false);
    assert_eq!(TokenizerContext::new("123").remains(), true);
    assert_eq!(TokenizerContext::new(" ").remains(), true);
}

#[test]
fn tokenizer_test_skip_whitespace() {
    let mut ctx = TokenizerContext::new("   123");
    assert_eq!(ctx.skip_whitespace(), true);
    assert_eq!(ctx.rest_input(), b"123".to_vec());

    let mut ctx = TokenizerContext::new("   ");
    assert_eq!(ctx.skip_whitespace(), true);
    assert_eq!(ctx.rest_input(), b"".to_vec());

    let mut ctx = TokenizerContext::new("123   ");
    assert_eq!(ctx.skip_whitespace(), false);
    assert_eq!(ctx.rest_input(), b"123   ".to_vec());
}

#[test]
fn tokenizer_test_consume_number() {
    let mut ctx = TokenizerContext::new("");
    assert_eq!(ctx.consume_number().is_none(), true);

    let mut ctx = TokenizerContext::new("123");
    assert_eq!(
        ctx.consume_number().map(|t| t.kind).unwrap(),
        TokenKind::Number(123)
    );

    let mut ctx = TokenizerContext::new("12+3");
    assert_eq!(
        ctx.consume_number().map(|t| t.kind).unwrap(),
        TokenKind::Number(12)
    );

    let mut ctx = TokenizerContext::new("nan");
    assert_eq!(ctx.consume_number().is_none(), true);
}

#[test]
fn mod_test_remains() {
    assert_eq!(TokenizerContext::new("").remains(), false);
    assert_eq!(TokenizerContext::new("123").remains(), true);
    assert_eq!(TokenizerContext::new(" ").remains(), true);
}

#[test]
fn mod_test_skip_whitespace() {
    let mut ctx = TokenizerContext::new("   123");
    assert_eq!(ctx.skip_whitespace(), true);
    assert_eq!(ctx.rest_input(), b"123".to_vec());

    let mut ctx = TokenizerContext::new("   ");
    assert_eq!(ctx.skip_whitespace(), true);
    assert_eq!(ctx.rest_input(), b"".to_vec());

    let mut ctx = TokenizerContext::new("123   ");
    assert_eq!(ctx.skip_whitespace(), false);
    assert_eq!(ctx.rest_input(), b"123   ".to_vec());
}

#[test]
fn consume_sign() {
    let mut ctx = TokenizerContext::new("123");
    assert!(ctx.consume_sign().is_none());
    assert_eq!(ctx.rest_input(), b"123".to_vec());

    let mut ctx = TokenizerContext::new("+-+123");
    assert!(ctx.consume_sign().is_some());
    assert_eq!(ctx.rest_input(), b"-+123".to_vec());
}

#[test]
fn test_consume_keyword() {
    let mut ctx = TokenizerContext::new("returna");
    assert!(ctx.consume_keyword().is_none());
    assert_eq!(ctx.rest_input(), b"returna".to_vec());

    let mut ctx = TokenizerContext::new("return");
    assert!(ctx.consume_keyword().is_some());
    assert_eq!(ctx.rest_input(), b"".to_vec());

    let mut ctx = TokenizerContext::new("return;");
    assert!(ctx.consume_keyword().is_some());
    assert_eq!(ctx.rest_input(), b";".to_vec());
}

#[test]
fn mod_test_consume_number() {
    let mut ctx = TokenizerContext::new("");
    assert!(ctx.consume_number().is_none());
    assert_eq!(ctx.rest_input(), b"".to_vec());

    let mut ctx = TokenizerContext::new("123");
    assert_eq!(ctx.consume_number().unwrap().kind, TokenKind::Number(123));
    assert_eq!(ctx.rest_input(), b"".to_vec());

    let mut ctx = TokenizerContext::new("12+3");
    assert_eq!(ctx.consume_number().unwrap().kind, TokenKind::Number(12));
    assert_eq!(ctx.rest_input(), b"+3".to_vec());

    let mut ctx = TokenizerContext::new("nan");
    assert!(ctx.consume_number().is_none());
    assert_eq!(ctx.rest_input(), b"nan".to_vec());
}

#[test]
fn test_consume_ident() {
    let mut ctx = TokenizerContext::new("1abc");
    assert!(ctx.consume_ident().is_none());
    assert_eq!(ctx.rest_input(), b"1abc".to_vec());

    let mut ctx = TokenizerContext::new("a1bc");
    assert_eq!(ctx.consume_ident().unwrap().kind, TokenKind::Ident(b"a1bc".to_vec()));
    assert_eq!(ctx.rest_input(), b"".to_vec());

    let mut ctx = TokenizerContext::new("ab1c+2");
    assert_eq!(ctx.consume_ident().unwrap().kind, TokenKind::Ident(b"ab1c".to_vec()));
    assert_eq!(ctx.rest_input(), b"+2".to_vec());
}

#[test]
fn tokenize_ends_with_eof_at_input_length() {
    let tokens = tokenize("a == 10;").unwrap();
    let kinds: Vec<&TokenKind> = tokens.iter().map(|t| &t.kind).collect();
    assert_eq!(
        kinds,
        vec![
            &TokenKind::Ident(b"a".to_vec()),
            &TokenKind::Sign(b"==".to_vec()),
            &TokenKind::Number(10),
            &TokenKind::Sign(b";".to_vec()),
            &TokenKind::Eof,
        ]
    );
    let offsets: Vec<usize> = tokens.iter().map(|t| t.index).collect();
    assert_eq!(offsets, vec![0, 2, 5, 7, 8]);
}

#[test]
fn tokenize_keywords_and_strings() {
    let tokens = tokenize("char sizeof \"hi\" iffy").unwrap();
    assert_eq!(tokens[0].kind, TokenKind::Keyword(Keyword::Char));
    assert_eq!(tokens[1].kind, TokenKind::Keyword(Keyword::SizeOf));
    assert_eq!(tokens[2].kind, TokenKind::Str(b"hi".to_vec()));
    assert_eq!(tokens[3].kind, TokenKind::Ident(b"iffy".to_vec()));
    assert_eq!(tokens[4].kind, TokenKind::Eof);
    assert_eq!(tokens[4].index, 21);
}

#[test]
fn tokenize_rejects_unknown_byte() {
    let err = tokenize("1 @ 2").unwrap_err();
    assert_eq!(err.index, 2);
}

#[test]
fn number_too_large_for_32_bits_is_no_token() {
    let mut ctx = TokenizerContext::new("4294967296");
    assert!(ctx.consume_number().is_none());
    let mut ctx = TokenizerContext::new("4294967295");
    assert_eq!(ctx.consume_number().unwrap().kind, TokenKind::Number(4294967295));
}
