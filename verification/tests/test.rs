use lua_parser::lexer::next_token;
use lua_parser::{tokenize, SyntaxKind, Token};

fn dump_tokens(tokens: &[Token], text: &str) -> String {
    let chars: Vec<char> = text.chars().collect();
    let mut acc = String::new();
    let mut offset = 0usize;
    for token in tokens {
        let len = token.len as usize;
        let token_text: String = chars[offset..offset + len].iter().collect();
        offset += len;
        acc.push_str(&format!("{:?} {} {:?}\n", token.kind, token.len, token_text));
    }
    acc
}

#[test]
fn lexer_tests() {
    let text = "local x = 10\n";
    let tokens = tokenize(text);
    let expected = "LOCAL 5 \"local\"\n\
                    WHITESPACE 1 \" \"\n\
                    IDENT 1 \"x\"\n\
                    WHITESPACE 1 \" \"\n\
                    EQ 1 \"=\"\n\
                    WHITESPACE 1 \" \"\n\
                    NUMBER 2 \"10\"\n\
                    WHITESPACE 1 \"\\n\"\n";
    assert_eq!(dump_tokens(&tokens, text), expected);

    let text = "if x ~= 1 then return end";
    let kinds: Vec<SyntaxKind> = tokenize(text).iter().map(|t| t.kind).collect();
    assert_eq!(
        kinds,
        vec![
            SyntaxKind::IF,
            SyntaxKind::WHITESPACE,
            SyntaxKind::IDENT,
            SyntaxKind::WHITESPACE,
            SyntaxKind::NEQ,
            SyntaxKind::WHITESPACE,
            SyntaxKind::NUMBER,
            SyntaxKind::WHITESPACE,
            SyntaxKind::THEN,
            SyntaxKind::WHITESPACE,
            SyntaxKind::RETURN,
            SyntaxKind::WHITESPACE,
            SyntaxKind::END,
        ]
    );
}

#[test]
fn forward_progress_and_round_trip() {
    let inputs = [
        "local x = 1",
        "--[==[ c ]==] end",
        "\"s\\\"t\"",
        "[[raw]]",
        "@#!$",
        "-- comment to end of line\nnext",
        "",
    ];
    for text in inputs.iter() {
        let tokens = tokenize(text);
        let chars: Vec<char> = text.chars().collect();
        let mut offset = 0usize;
        let mut rebuilt = String::new();
        for token in &tokens {
            assert!(token.len >= 1, "token of length zero in {:?}", text);
            let len = token.len as usize;
            let piece: String = chars[offset..offset + len].iter().collect();
            rebuilt.push_str(&piece);
            offset += len;
        }
        assert_eq!(offset, chars.len(), "tokens do not cover {:?}", text);
        assert_eq!(&rebuilt, text);
    }
}

#[test]
fn tokenizing_is_deterministic() {
    let text = "local t = { 1, 2.5, 0x1F, \"s\" } -- done";
    assert_eq!(tokenize(text), tokenize(text));
}

#[test]
fn long_bracket_level_discipline() {
    // the level-1 closer inside does not end a level-2 string
    let text = "[==[ foo ]=] still-open ]==]";
    let tokens = tokenize(text);
    assert_eq!(tokens.len(), 1);
    assert_eq!(tokens[0].kind, SyntaxKind::STRING);
    assert_eq!(tokens[0].len as usize, text.chars().count());

    // a deeper closer does not end it either
    let text = "[[ x ]=] ]]";
    let tokens = tokenize(text);
    assert_eq!(tokens[0].kind, SyntaxKind::STRING);
    assert_eq!(tokens[0].len as usize, text.chars().count());
}

#[test]
fn escape_handling() {
    // an escaped quote does not terminate the string
    let text = "\"a\\\"b\"";
    let tokens = tokenize(text);
    assert_eq!(tokens.len(), 1);
    assert_eq!(tokens[0].kind, SyntaxKind::STRING);
    assert_eq!(tokens[0].len, 6);

    // an escaped backslash leaves the following quote a real terminator
    let text = "\"a\\\\\" x";
    let tokens = tokenize(text);
    assert_eq!(tokens[0].kind, SyntaxKind::STRING);
    assert_eq!(tokens[0].len, 5);
    assert_eq!(tokens.len(), 3);
}

#[test]
fn keyword_identifier_boundary() {
    let tokens = tokenize("and");
    assert_eq!(tokens.len(), 1);
    assert_eq!(tokens[0].kind, SyntaxKind::AND);

    let tokens = tokenize("andx");
    assert_eq!(tokens.len(), 1);
    assert_eq!(tokens[0].kind, SyntaxKind::IDENT);
    assert_eq!(tokens[0].len, 4);

    // lookup is case-sensitive
    let tokens = tokenize("And");
    assert_eq!(tokens[0].kind, SyntaxKind::IDENT);
    let tokens = tokenize("WHILE");
    assert_eq!(tokens[0].kind, SyntaxKind::IDENT);
}

#[test]
fn unterminated_constructs_absorb_to_eof() {
    let text = "[[ unterminated";
    let tokens = tokenize(text);
    assert_eq!(tokens.len(), 1);
    assert_eq!(tokens[0].kind, SyntaxKind::STRING);
    assert_eq!(tokens[0].len as usize, text.chars().count());

    let tokens = tokenize("\"abc");
    assert_eq!(tokens.len(), 1);
    assert_eq!(tokens[0].kind, SyntaxKind::STRING);
    assert_eq!(tokens[0].len, 4);

    let tokens = tokenize("--[[ open comment");
    assert_eq!(tokens.len(), 1);
    assert_eq!(tokens[0].kind, SyntaxKind::COMMENT);
    assert_eq!(tokens[0].len, 17);
}

#[test]
fn comment_scenarios() {
    let text = "--[==[ comment ]==]";
    let tokens = tokenize(text);
    assert_eq!(tokens.len(), 1);
    assert_eq!(tokens[0].kind, SyntaxKind::COMMENT);
    assert_eq!(tokens[0].len as usize, text.chars().count());

    // two separated minus signs make no comment: `--` requires adjacency
    let kinds: Vec<SyntaxKind> = tokenize("- - 1").iter().map(|t| t.kind).collect();
    assert_eq!(
        kinds,
        vec![
            SyntaxKind::MINUS,
            SyntaxKind::WHITESPACE,
            SyntaxKind::MINUS,
            SyntaxKind::WHITESPACE,
            SyntaxKind::NUMBER,
        ]
    );

    // a line comment stops before the terminator and keeps a bare `\r`
    let tokens = tokenize("-- note\r\nx");
    assert_eq!(tokens[0].kind, SyntaxKind::COMMENT);
    assert_eq!(tokens[0].len, 7);
}

#[test]
fn number_forms() {
    let tokens = tokenize("0x1F");
    assert_eq!(tokens.len(), 1);
    assert_eq!(tokens[0].kind, SyntaxKind::NUMBER);

    let tokens = tokenize("3.14e-2");
    assert_eq!(tokens.len(), 1);
    assert_eq!(tokens[0].kind, SyntaxKind::NUMBER);
    assert_eq!(tokens[0].len, 7);

    let kinds: Vec<SyntaxKind> = tokenize("1..2").iter().map(|t| t.kind).collect();
    assert_eq!(
        kinds,
        vec![SyntaxKind::NUMBER, SyntaxKind::DOT, SyntaxKind::NUMBER]
    );
}

#[test]
fn punctuation_and_error_tokens() {
    let kinds: Vec<SyntaxKind> = tokenize("(){}[];:,.").iter().map(|t| t.kind).collect();
    assert_eq!(
        kinds,
        vec![
            SyntaxKind::L_PAREN,
            SyntaxKind::R_PAREN,
            SyntaxKind::L_CURLY,
            SyntaxKind::R_CURLY,
            SyntaxKind::L_BRACKET,
            SyntaxKind::R_BRACKET,
            SyntaxKind::SEMI,
            SyntaxKind::COLON,
            SyntaxKind::COMMA,
            SyntaxKind::DOT,
        ]
    );

    // a bare `~` has no mapping and falls through to ERROR
    let tokens = tokenize("~");
    assert_eq!(tokens[0].kind, SyntaxKind::ERROR);
    assert_eq!(tokens[0].len, 1);

    let tokens = tokenize("~=");
    assert_eq!(tokens.len(), 1);
    assert_eq!(tokens[0].kind, SyntaxKind::NEQ);

    // an unrecognized character still yields a length-1 token
    let tokens = tokenize("@");
    assert_eq!(tokens.len(), 1);
    assert_eq!(tokens[0].kind, SyntaxKind::ERROR);
    assert_eq!(tokens[0].len, 1);
}

#[test]
fn next_token_returns_one_token() {
    let t = next_token("and more");
    assert_eq!(t.kind, SyntaxKind::AND);
    assert_eq!(t.len, 3);

    let t = next_token("   x");
    assert_eq!(t.kind, SyntaxKind::WHITESPACE);
    assert_eq!(t.len, 3);
}

#[test]
fn trivia_flags() {
    assert!(SyntaxKind::WHITESPACE.is_trivia());
    assert!(SyntaxKind::COMMENT.is_trivia());
    assert!(!SyntaxKind::IDENT.is_trivia());
    assert!(!SyntaxKind::STRING.is_trivia());
    assert!(!SyntaxKind::CHUNK.is_trivia());
}

#[test]
fn kind_display_names() {
    assert_eq!(SyntaxKind::AND.name(), "AND");
    assert_eq!(SyntaxKind::L_PAREN.name(), "L_PAREN");
    assert_eq!(SyntaxKind::WHITESPACE.name(), "WHITESPACE");
    assert_eq!(format!("{:?}", SyntaxKind::NEQ), "NEQ");
}
