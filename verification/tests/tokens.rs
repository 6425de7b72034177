use lfml::html::parse::LfmlParser;
use lfml::token::{
    duplicate_tokens, same_tokens, tokenize, Delimiter, Spacing, Token, TokenizeError,
};

fn ident(word: &str) -> Token {
    Token::Ident(word.to_string())
}

#[test]
fn tokenize_splits_a_tag_into_its_token_trees() {
    assert_eq!(
        tokenize(r#"a foo="bar" { (x) }"#),
        Ok(vec![
            ident("a"),
            ident("foo"),
            Token::Punct('=', Spacing::Alone),
            Token::Literal("\"bar\"".to_string()),
            Token::Group(
                Delimiter::Brace,
                vec![Token::Group(Delimiter::Parenthesis, vec![ident("x")])]
            ),
        ])
    );
}

#[test]
fn tokenize_keeps_the_joint_of_punctuation() {
    assert_eq!(
        tokenize("a == [1]"),
        Ok(vec![
            ident("a"),
            Token::Punct('=', Spacing::Joint),
            Token::Punct('=', Spacing::Alone),
            Token::Group(Delimiter::Bracket, vec![Token::Literal("1".to_string())]),
        ])
    );
}

#[test]
fn tokenize_of_nothing_is_empty() {
    assert_eq!(tokenize(""), Ok(vec![]));
    assert_eq!(tokenize("  \n "), Ok(vec![]));
}

#[test]
fn tokenize_refuses_unbalanced_brackets() {
    assert_eq!(tokenize("a {"), Err(TokenizeError));
    assert_eq!(tokenize("a )"), Err(TokenizeError));
    assert_eq!(tokenize("( ]"), Err(TokenizeError));
}

#[test]
fn same_tokens_compares_values() {
    let a = tokenize("Some ( i )").unwrap();
    let b = tokenize("Some(i)").unwrap();
    let c = tokenize("Some[i]").unwrap();
    let d = tokenize("Some(j)").unwrap();
    assert!(same_tokens(&a, &b));
    assert!(!same_tokens(&a, &c));
    assert!(!same_tokens(&a, &d));
    assert!(!same_tokens(&a, &tokenize("Some").unwrap()));
    assert!(ident("a").same(&ident("a")));
    assert!(!ident("a").same(&Token::Literal("a".to_string())));
    assert!(!Token::Punct('=', Spacing::Joint).same(&Token::Punct('=', Spacing::Alone)));
}

#[test]
fn duplicate_tokens_copies_the_whole_tree() {
    let a = tokenize(r#"a { b [ "c" ] } - 1"#).unwrap();
    assert_eq!(duplicate_tokens(&a), a);
    assert_eq!(a[1].duplicate(), a[1]);
}

#[test]
fn token_tests() {
    let tokens = tokenize("match ; { }").unwrap();
    assert!(tokens[0].is_ident("match"));
    assert!(!tokens[0].is_ident("if"));
    assert!(!tokens[1].is_ident(";"));
    assert!(tokens[1].is_punct(';'));
    assert!(!tokens[1].is_punct(','));
    assert!(tokens[2].is_group(Delimiter::Brace));
    assert!(!tokens[2].is_group(Delimiter::Bracket));
    assert!(!tokens[0].is_group(Delimiter::Brace));
}

#[test]
fn cursor_looks_ahead_without_moving() {
    let tokens = tokenize("a b").unwrap();
    let mut cursor = LfmlParser::new(&tokens);
    assert_eq!(cursor.peek(), Some(&tokens[0]));
    assert_eq!(cursor.peek(), Some(&tokens[0]));
    assert_eq!(cursor.peek_2(), (Some(&tokens[0]), Some(&tokens[1])));
    assert_eq!(cursor.peek_3(), (Some(&tokens[0]), Some(&tokens[1]), None));
    assert_eq!(cursor.advance(), Some(&tokens[0]));
    assert_eq!(cursor.peek_2(), (Some(&tokens[1]), None));
    assert_eq!(cursor.advance(), Some(&tokens[1]));
    assert_eq!(cursor.peek(), None);
    assert_eq!(cursor.peek_3(), (None, None, None));
    assert_eq!(cursor.advance(), None);
}

#[test]
fn cursor_moves_by_two_and_three() {
    let tokens = tokenize("a b c d").unwrap();
    let mut cursor = LfmlParser::new(&tokens);
    cursor.advance_2();
    assert_eq!(cursor.peek(), Some(&tokens[2]));
    cursor.advance_3();
    assert_eq!(cursor.peek(), None);
    let mut cursor = LfmlParser::new(&tokens);
    cursor.advance_3();
    assert_eq!(cursor.peek(), Some(&tokens[3]));
}

#[test]
fn cursor_reads_node_by_node() {
    let tokens = tokenize(r#"a; ; "x" b {} ;"#).unwrap();
    let mut cursor = LfmlParser::new(&tokens);
    let mut nodes = 0;
    while let Some(node) = cursor.next() {
        assert!(node.is_ok());
        nodes += 1;
    }
    assert_eq!(nodes, 3);
    assert_eq!(cursor.next(), None);
}
