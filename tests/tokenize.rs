use shell_lexer::{classify, classify_char, tokenize, tokenize_classified, CharInfo, Token, TokenKind};

fn lex(s: &str) -> Vec<(TokenKind, String)> {
    tokenize(s.to_string()).into_iter().map(|t: Token| (t.kind, t.lexeme)).collect()
}

fn tok(kind: TokenKind, text: &str) -> (TokenKind, String) {
    (kind, text.to_string())
}

#[test]
fn equality_assign_and_not() {
    assert_eq!(lex("=="), vec![tok(TokenKind::Equality, "==")]);
    assert_eq!(lex("="), vec![tok(TokenKind::Assign, "=")]);
    assert_eq!(lex("=!"), vec![tok(TokenKind::Assign, "="), tok(TokenKind::LogicalNot, "!")]);
}

#[test]
fn logical_and_between_words() {
    assert_eq!(
        lex("a&&b"),
        vec![tok(TokenKind::Word, "a"), tok(TokenKind::LogicalAnd, "&&"), tok(TokenKind::Word, "b")]
    );
}

#[test]
fn quoted_strings() {
    assert_eq!(lex("'hi'"), vec![tok(TokenKind::OneQuoteStr, "hi")]);
    assert_eq!(lex("\"hi\""), vec![tok(TokenKind::TwoQuoteStr, "\"hi\"")]);
}

#[test]
fn unterminated_quote_runs_to_end() {
    assert_eq!(lex("\"abc"), vec![tok(TokenKind::TwoQuoteStr, "\"abc\"")]);
    assert_eq!(lex("'abc"), vec![tok(TokenKind::OneQuoteStr, "abc")]);
}

#[test]
fn whitespace_and_newline() {
    assert_eq!(lex("  \t "), vec![]);
    assert_eq!(lex(""), vec![]);
    assert_eq!(lex("\n"), vec![tok(TokenKind::Newline, "\\n")]);
    assert_eq!(lex("\n")[0].1.len(), 2);
}

#[test]
fn keywords_and_words() {
    assert_eq!(lex("while"), vec![tok(TokenKind::While, "while")]);
    assert_eq!(lex("for"), vec![tok(TokenKind::For, "for")]);
    assert_eq!(lex("if"), vec![tok(TokenKind::If, "if")]);
    assert_eq!(lex("elif"), vec![tok(TokenKind::Elif, "elif")]);
    assert_eq!(lex("else"), vec![tok(TokenKind::Else, "else")]);
    assert_eq!(lex("While"), vec![tok(TokenKind::Word, "While")]);
    assert_eq!(lex("whiles"), vec![tok(TokenKind::Word, "whiles")]);
    assert_eq!(lex("12345"), vec![tok(TokenKind::Word, "12345")]);
    assert_eq!(lex("if2"), vec![tok(TokenKind::Word, "if2")]);
}

#[test]
fn words_stop_at_non_alphanumerics() {
    assert_eq!(
        lex("foo_bar x1"),
        vec![
            tok(TokenKind::Word, "foo"),
            tok(TokenKind::Unknown, "_"),
            tok(TokenKind::Word, "bar"),
            tok(TokenKind::Word, "x1"),
        ]
    );
    assert_eq!(lex("héllo"), vec![tok(TokenKind::Word, "héllo")]);
}

#[test]
fn single_character_tokens() {
    assert_eq!(
        lex("$;(){}[]"),
        vec![
            tok(TokenKind::Dollar, "$"),
            tok(TokenKind::Semicolon, ";"),
            tok(TokenKind::LParen, "("),
            tok(TokenKind::RParen, ")"),
            tok(TokenKind::LCurly, "{"),
            tok(TokenKind::RCurly, "}"),
            tok(TokenKind::LSquare, "["),
            tok(TokenKind::RSquare, "]"),
        ]
    );
}

#[test]
fn operators_one_or_two() {
    assert_eq!(lex("!="), vec![tok(TokenKind::Inequality, "!=")]);
    assert_eq!(lex("!"), vec![tok(TokenKind::LogicalNot, "!")]);
    assert_eq!(lex("||"), vec![tok(TokenKind::LogicalOr, "||")]);
    assert_eq!(lex("|"), vec![tok(TokenKind::Pipe, "|")]);
    assert_eq!(lex("&"), vec![tok(TokenKind::Ampersand, "&")]);
    assert_eq!(lex(">>"), vec![tok(TokenKind::CatRedirect, ">>")]);
    assert_eq!(lex(">"), vec![tok(TokenKind::Redirect, ">")]);
    assert_eq!(
        lex("|||"),
        vec![tok(TokenKind::LogicalOr, "||"), tok(TokenKind::Pipe, "|")]
    );
    assert_eq!(lex("> >"), vec![tok(TokenKind::Redirect, ">"), tok(TokenKind::Redirect, ">")]);
}

#[test]
fn unknown_characters() {
    assert_eq!(
        lex("@#<"),
        vec![tok(TokenKind::Unknown, "@"), tok(TokenKind::Unknown, "#"), tok(TokenKind::Unknown, "<")]
    );
}

#[test]
fn quotes_keep_other_quotes_and_spaces() {
    assert_eq!(lex("'a \"b\" c'"), vec![tok(TokenKind::OneQuoteStr, "a \"b\" c")]);
    assert_eq!(
        lex("\"x 'y'\" z"),
        vec![tok(TokenKind::TwoQuoteStr, "\"x 'y'\""), tok(TokenKind::Word, "z")]
    );
    assert_eq!(lex("''"), vec![tok(TokenKind::OneQuoteStr, "")]);
    assert_eq!(lex("\"\\n\""), vec![tok(TokenKind::TwoQuoteStr, "\"\\n\"")]);
}

#[test]
fn a_full_line() {
    assert_eq!(
        lex("if $x == 'y' { echo \"ok\" >> log; }\n"),
        vec![
            tok(TokenKind::If, "if"),
            tok(TokenKind::Dollar, "$"),
            tok(TokenKind::Word, "x"),
            tok(TokenKind::Equality, "=="),
            tok(TokenKind::OneQuoteStr, "y"),
            tok(TokenKind::LCurly, "{"),
            tok(TokenKind::Word, "echo"),
            tok(TokenKind::TwoQuoteStr, "\"ok\""),
            tok(TokenKind::CatRedirect, ">>"),
            tok(TokenKind::Word, "log"),
            tok(TokenKind::Semicolon, ";"),
            tok(TokenKind::RCurly, "}"),
            tok(TokenKind::Newline, "\\n"),
        ]
    );
}

#[test]
fn lexemes_cover_the_input() {
    // Without whitespace, quotes or newlines each span is its own lexeme.
    let input = "a&&b|c>>d=e!=f$g;(h)[i]{j}";
    let joined: String = tokenize(input.to_string()).into_iter().map(|t| t.lexeme).collect();
    assert_eq!(joined, input);
    let long = "x".repeat(1000);
    assert_eq!(lex(&long), vec![(TokenKind::Word, long.clone())]);
}

#[test]
fn classification_of_characters() {
    assert_eq!(classify_char('a'), CharInfo { ch: 'a', alnum: true, space: false });
    assert_eq!(classify_char('7'), CharInfo { ch: '7', alnum: true, space: false });
    assert_eq!(classify_char('é'), CharInfo { ch: 'é', alnum: true, space: false });
    assert_eq!(classify_char('\t'), CharInfo { ch: '\t', alnum: false, space: true });
    assert_eq!(classify_char('_'), CharInfo { ch: '_', alnum: false, space: false });
    assert_eq!(
        classify("a b"),
        vec![classify_char('a'), classify_char(' '), classify_char('b')]
    );
}

#[test]
fn scanning_follows_the_given_classes() {
    let info = |ch: char, alnum: bool, space: bool| CharInfo { ch, alnum, space };
    // A classification that treats '-' as alphanumeric and 'x' as whitespace.
    let cs = vec![info('a', true, false), info('-', true, false), info('x', false, true), info('b', true, false)];
    let toks: Vec<(TokenKind, String)> =
        tokenize_classified(&cs).into_iter().map(|t| (t.kind, t.lexeme)).collect();
    assert_eq!(toks, vec![tok(TokenKind::Word, "a-"), tok(TokenKind::Word, "b")]);
}
