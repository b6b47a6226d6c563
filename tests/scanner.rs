use rsjj::{error, is_alpha, is_alphanumeric, is_digit, ScanError, ScanErrorKind, Scanner, Token, TokenKind};

fn scan_all(src: &str) -> (Vec<Token>, Vec<ScanError>) {
    let mut s = Scanner::new(src.to_string());
    let tokens = s.scan_tokens();
    (tokens, s.errors().clone())
}

fn triples(tokens: &[Token]) -> Vec<(TokenKind, String, usize)> {
    tokens.iter().map(|t| (t.token_type, t.lexeme.clone(), t.line)).collect()
}

fn kinds(src: &str) -> Vec<TokenKind> {
    scan_all(src).0.iter().map(|t| t.token_type).collect()
}

#[test]
fn parenthesised_sum() {
    let (tokens, errors) = scan_all("(1 + 2)");
    assert!(errors.is_empty());
    assert_eq!(
        triples(&tokens),
        vec![
            (TokenKind::LeftParen, "(".to_string(), 1),
            (TokenKind::Number, "1".to_string(), 1),
            (TokenKind::Plus, "+".to_string(), 1),
            (TokenKind::Number, "2".to_string(), 1),
            (TokenKind::RightParen, ")".to_string(), 1),
            (TokenKind::EndOfInput, "".to_string(), 1),
        ]
    );
}

#[test]
fn comment_then_plus_on_line_two() {
    let (tokens, errors) = scan_all("// comment\n+");
    assert!(errors.is_empty());
    assert_eq!(
        triples(&tokens),
        vec![(TokenKind::Plus, "+".to_string(), 2), (TokenKind::EndOfInput, "".to_string(), 2)]
    );
}

#[test]
fn terminated_string_keeps_quotes() {
    let (tokens, errors) = scan_all("\"abc\"");
    assert!(errors.is_empty());
    assert_eq!(
        triples(&tokens),
        vec![(TokenKind::String, "\"abc\"".to_string(), 1), (TokenKind::EndOfInput, "".to_string(), 1)]
    );
}

#[test]
fn unterminated_string_reported_once() {
    let (tokens, errors) = scan_all("\"abc");
    assert_eq!(errors, vec![ScanError { line: 1, kind: ScanErrorKind::UnterminatedString }]);
    assert_eq!(
        triples(&tokens),
        vec![(TokenKind::String, "\"abc".to_string(), 1), (TokenKind::EndOfInput, "".to_string(), 1)]
    );
}

#[test]
fn unterminated_string_reported_at_last_line() {
    let (tokens, errors) = scan_all("\"a\nb\nc");
    assert_eq!(errors, vec![ScanError { line: 3, kind: ScanErrorKind::UnterminatedString }]);
    assert_eq!(tokens[0].line, 1);
    assert_eq!(tokens[0].lexeme, "\"a\nb\nc");
    assert_eq!(tokens[1].line, 3);
}

#[test]
fn multi_line_string_starts_on_its_first_line() {
    let (tokens, errors) = scan_all("\"a\nb\" x");
    assert!(errors.is_empty());
    assert_eq!(
        triples(&tokens),
        vec![
            (TokenKind::String, "\"a\nb\"".to_string(), 1),
            (TokenKind::Identifier, "x".to_string(), 2),
            (TokenKind::EndOfInput, "".to_string(), 2),
        ]
    );
}

#[test]
fn let_statement() {
    let (tokens, errors) = scan_all("let x = 5");
    assert!(errors.is_empty());
    assert_eq!(
        triples(&tokens),
        vec![
            (TokenKind::Let, "let".to_string(), 1),
            (TokenKind::Identifier, "x".to_string(), 1),
            (TokenKind::Equal, "=".to_string(), 1),
            (TokenKind::Number, "5".to_string(), 1),
            (TokenKind::EndOfInput, "".to_string(), 1),
        ]
    );
}

#[test]
fn unexpected_character() {
    let (tokens, errors) = scan_all("@");
    assert_eq!(errors, vec![ScanError { line: 1, kind: ScanErrorKind::UnexpectedCharacter }]);
    assert_eq!(triples(&tokens), vec![(TokenKind::EndOfInput, "".to_string(), 1)]);
}

#[test]
fn scanning_goes_on_after_errors() {
    let (tokens, errors) = scan_all("@ 1\n# _");
    assert_eq!(
        errors,
        vec![
            ScanError { line: 1, kind: ScanErrorKind::UnexpectedCharacter },
            ScanError { line: 2, kind: ScanErrorKind::UnexpectedCharacter },
            ScanError { line: 2, kind: ScanErrorKind::UnexpectedCharacter },
        ]
    );
    assert_eq!(
        triples(&tokens),
        vec![(TokenKind::Number, "1".to_string(), 1), (TokenKind::EndOfInput, "".to_string(), 2)]
    );
}

#[test]
fn number_with_trailing_dot() {
    let (tokens, _) = scan_all("123.");
    assert_eq!(
        triples(&tokens),
        vec![
            (TokenKind::Number, "123".to_string(), 1),
            (TokenKind::Dot, ".".to_string(), 1),
            (TokenKind::EndOfInput, "".to_string(), 1),
        ]
    );
}

#[test]
fn number_with_fraction() {
    let (tokens, _) = scan_all("123.45");
    assert_eq!(
        triples(&tokens),
        vec![(TokenKind::Number, "123.45".to_string(), 1), (TokenKind::EndOfInput, "".to_string(), 1)]
    );
}

#[test]
fn number_with_two_dots() {
    let (tokens, _) = scan_all("1.2.3");
    assert_eq!(
        triples(&tokens),
        vec![
            (TokenKind::Number, "1.2".to_string(), 1),
            (TokenKind::Dot, ".".to_string(), 1),
            (TokenKind::Number, "3".to_string(), 1),
            (TokenKind::EndOfInput, "".to_string(), 1),
        ]
    );
}

#[test]
fn two_character_operators() {
    assert_eq!(
        kinds("== != <= >="),
        vec![
            TokenKind::EqualEqual,
            TokenKind::BangEqual,
            TokenKind::LessEqual,
            TokenKind::GreaterEqual,
            TokenKind::EndOfInput,
        ]
    );
    assert_eq!(
        kinds("= ! < >"),
        vec![TokenKind::Equal, TokenKind::Bang, TokenKind::Less, TokenKind::Greater, TokenKind::EndOfInput]
    );
    let (tokens, _) = scan_all("===");
    assert_eq!(
        triples(&tokens),
        vec![
            (TokenKind::EqualEqual, "==".to_string(), 1),
            (TokenKind::Equal, "=".to_string(), 1),
            (TokenKind::EndOfInput, "".to_string(), 1),
        ]
    );
    assert_eq!(kinds("!"), vec![TokenKind::Bang, TokenKind::EndOfInput]);
    assert_eq!(kinds("<= ="), vec![TokenKind::LessEqual, TokenKind::Equal, TokenKind::EndOfInput]);
}

#[test]
fn punctuation_and_slash() {
    assert_eq!(
        kinds("(){},.-+;*/"),
        vec![
            TokenKind::LeftParen,
            TokenKind::RightParen,
            TokenKind::LeftBrace,
            TokenKind::RightBrace,
            TokenKind::Comma,
            TokenKind::Dot,
            TokenKind::Minus,
            TokenKind::Plus,
            TokenKind::Semicolon,
            TokenKind::Star,
            TokenKind::Slash,
            TokenKind::EndOfInput,
        ]
    );
}

#[test]
fn comment_at_end_of_input() {
    let (tokens, errors) = scan_all("1 // trailing");
    assert!(errors.is_empty());
    assert_eq!(
        triples(&tokens),
        vec![(TokenKind::Number, "1".to_string(), 1), (TokenKind::EndOfInput, "".to_string(), 1)]
    );
}

#[test]
fn all_reserved_words() {
    assert_eq!(
        kinds("and class else false for fun if nil or print return super this true let while"),
        vec![
            TokenKind::And,
            TokenKind::Class,
            TokenKind::Else,
            TokenKind::False,
            TokenKind::For,
            TokenKind::Fun,
            TokenKind::If,
            TokenKind::Nil,
            TokenKind::Or,
            TokenKind::Print,
            TokenKind::Return,
            TokenKind::Super,
            TokenKind::This,
            TokenKind::True,
            TokenKind::Let,
            TokenKind::While,
            TokenKind::EndOfInput,
        ]
    );
}

#[test]
fn reserved_words_are_exact() {
    assert_eq!(
        kinds("forever For AND whiles x1 fo"),
        vec![
            TokenKind::Identifier,
            TokenKind::Identifier,
            TokenKind::Identifier,
            TokenKind::Identifier,
            TokenKind::Identifier,
            TokenKind::Identifier,
            TokenKind::EndOfInput,
        ]
    );
    let (tokens, _) = scan_all("forever");
    assert_eq!(tokens[0].lexeme, "forever");
}

#[test]
fn empty_input() {
    let (tokens, errors) = scan_all("");
    assert!(errors.is_empty());
    assert_eq!(triples(&tokens), vec![(TokenKind::EndOfInput, "".to_string(), 1)]);
}

#[test]
fn whitespace_only() {
    let (tokens, errors) = scan_all(" \t\r\n\n ");
    assert!(errors.is_empty());
    assert_eq!(triples(&tokens), vec![(TokenKind::EndOfInput, "".to_string(), 3)]);
}

#[test]
fn lines_never_go_down() {
    let (tokens, _) = scan_all("a\nb c\n\n\"s\nt\" d\ne");
    let lines: Vec<usize> = tokens.iter().map(|t| t.line).collect();
    assert_eq!(lines, vec![1, 2, 2, 4, 5, 6, 6]);
    for w in lines.windows(2) {
        assert!(w[0] <= w[1]);
    }
}

#[test]
fn exactly_one_end_of_input_last() {
    let (tokens, _) = scan_all("let a = (b >= 1.5); // done\n@ \"x");
    let ends = tokens.iter().filter(|t| t.token_type == TokenKind::EndOfInput).count();
    assert_eq!(ends, 1);
    assert_eq!(tokens.last().unwrap().token_type, TokenKind::EndOfInput);
}

#[test]
fn lexemes_are_source_text_in_order() {
    let src = "let total = price * 2.5; // tax\nprint total >= 10;";
    let (tokens, _) = scan_all(src);
    let mut from = 0;
    for t in &tokens[..tokens.len() - 1] {
        let at = src[from..].find(t.lexeme.as_str()).unwrap() + from;
        let skipped = &src[from..at];
        assert!(skipped.chars().all(|c| c.is_whitespace()) || skipped.contains("//"));
        from = at + t.lexeme.len();
    }
    assert_eq!(from, src.len());
}

#[test]
fn classification_predicates() {
    assert!(is_digit('0'));
    assert!(is_digit('9'));
    assert!(!is_digit('a'));
    assert!(!is_digit('.'));
    assert!(is_alpha('a'));
    assert!(is_alpha('Z'));
    assert!(!is_alpha('_'));
    assert!(!is_alpha('1'));
    assert!(is_alphanumeric('q'));
    assert!(is_alphanumeric('7'));
    assert!(!is_alphanumeric(' '));
    assert!(!is_alphanumeric('@'));
}

#[test]
fn token_to_string() {
    let t = Token::new(TokenKind::Number, "42".to_string(), 3);
    assert_eq!(t.to_string(), "Number 42");
    let e = Token::new(TokenKind::EndOfInput, String::new(), 1);
    assert_eq!(e.to_string(), "EndOfInput ");
    assert_eq!(TokenKind::GreaterEqual.name(), "GreaterEqual");
}

#[test]
fn error_records() {
    let e = error(7, ScanErrorKind::UnterminatedString);
    assert_eq!(e, ScanError { line: 7, kind: ScanErrorKind::UnterminatedString });
    assert_eq!(ScanErrorKind::UnterminatedString.message(), "Unterminated string");
    assert_eq!(ScanErrorKind::UnexpectedCharacter.message(), "Unexpected character");
}

#[test]
fn step_by_step_scanning() {
    let mut s = Scanner::new("<=x".to_string());
    assert_eq!(s.peek(0), '<');
    assert_eq!(s.peek(1), '=');
    assert_eq!(s.peek(3), '\0');
    assert!(!s.check_next('='));
    assert!(s.check_next('<'));
    assert!(s.check_next('='));
    assert_eq!(s.peek(0), 'x');
    let tokens = s.scan_tokens();
    assert_eq!(
        triples(&tokens),
        vec![(TokenKind::Identifier, "x".to_string(), 1), (TokenKind::EndOfInput, "".to_string(), 1)]
    );
}

#[test]
fn scan_token_one_unit() {
    let mut s = Scanner::new("while1 2".to_string());
    s.scan_token();
    assert_eq!(s.get_current_string(), "while1");
    assert_eq!(s.match_symbol(), None);
    let tokens = s.scan_tokens();
    assert_eq!(
        triples(&tokens),
        vec![
            (TokenKind::Identifier, "while1".to_string(), 1),
            (TokenKind::Number, "2".to_string(), 1),
            (TokenKind::EndOfInput, "".to_string(), 1),
        ]
    );
}

#[test]
fn non_ascii_letters_are_unexpected() {
    let (tokens, errors) = scan_all("é");
    assert_eq!(errors, vec![ScanError { line: 1, kind: ScanErrorKind::UnexpectedCharacter }]);
    assert_eq!(tokens.len(), 1);
    let (tokens, errors) = scan_all("\"é\"");
    assert!(errors.is_empty());
    assert_eq!(tokens[0].lexeme, "\"é\"");
}
