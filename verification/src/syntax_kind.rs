use vstd::prelude::*;

verus! {

/// The closed set of lexical and syntactic categories.
///
/// The first group are token kinds produced by the lexer; `CHUNK` and
/// `BLOCK` are interior-node kinds used when a tree is assembled.
#[derive(Debug, Clone, Copy, PartialEq, Eq, Hash, Structural)]
#[allow(non_camel_case_types)]
pub enum SyntaxKind {
    ERROR,
    WHITESPACE,
    COMMENT,
    STRING,
    NUMBER,
    IDENT,
    AND,
    BREAK,
    DO,
    ELSE,
    ELSEIF,
    END,
    FALSE,
    FOR,
    FUNCTION,
    GOTO,
    IF,
    IN,
    LOCAL,
    NIL,
    NOT,
    OR,
    REPEAT,
    RETURN,
    THEN,
    TRUE,
    UNTIL,
    WHILE,
    PLUS,
    MINUS,
    STAR,
    SLASH,
    PERCENT,
    CARET,
    HASH,
    EQ,
    LT,
    GT,
    L_PAREN,
    R_PAREN,
    L_CURLY,
    R_CURLY,
    L_BRACKET,
    R_BRACKET,
    SEMI,
    COLON,
    COMMA,
    DOT,
    NEQ,
    CHUNK,
    BLOCK,
}

/// The kind a single punctuation character lexes to on its own, if any.
/// `~` has no entry: it is only meaningful as part of `~=`.
pub open spec fn char_kind(c: char) -> Option<SyntaxKind> {
    if c == '+' {
        Some(SyntaxKind::PLUS)
    } else if c == '-' {
        Some(SyntaxKind::MINUS)
    } else if c == '*' {
        Some(SyntaxKind::STAR)
    } else if c == '/' {
        Some(SyntaxKind::SLASH)
    } else if c == '%' {
        Some(SyntaxKind::PERCENT)
    } else if c == '^' {
        Some(SyntaxKind::CARET)
    } else if c == '#' {
        Some(SyntaxKind::HASH)
    } else if c == '=' {
        Some(SyntaxKind::EQ)
    } else if c == '<' {
        Some(SyntaxKind::LT)
    } else if c == '>' {
        Some(SyntaxKind::GT)
    } else if c == '(' {
        Some(SyntaxKind::L_PAREN)
    } else if c == ')' {
        Some(SyntaxKind::R_PAREN)
    } else if c == '{' {
        Some(SyntaxKind::L_CURLY)
    } else if c == '}' {
        Some(SyntaxKind::R_CURLY)
    } else if c == '[' {
        Some(SyntaxKind::L_BRACKET)
    } else if c == ']' {
        Some(SyntaxKind::R_BRACKET)
    } else if c == ';' {
        Some(SyntaxKind::SEMI)
    } else if c == ':' {
        Some(SyntaxKind::COLON)
    } else if c == ',' {
        Some(SyntaxKind::COMMA)
    } else if c == '.' {
        Some(SyntaxKind::DOT)
    } else {
        None
    }
}

/// The keyword a whole identifier-shaped word denotes, if any.
/// Lookup is case-sensitive and matches the full word only.
pub open spec fn keyword_kind(w: Seq<char>) -> Option<SyntaxKind> {
    if w.len() == 2 {
        if w[0] == 'd' && w[1] == 'o' {
            Some(SyntaxKind::DO)
        } else if w[0] == 'i' && w[1] == 'f' {
            Some(SyntaxKind::IF)
        } else if w[0] == 'i' && w[1] == 'n' {
            Some(SyntaxKind::IN)
        } else if w[0] == 'o' && w[1] == 'r' {
            Some(SyntaxKind::OR)
        } else {
            None
        }
    } else if w.len() == 3 {
        if w[0] == 'a' && w[1] == 'n' && w[2] == 'd' {
            Some(SyntaxKind::AND)
        } else if w[0] == 'e' && w[1] == 'n' && w[2] == 'd' {
            Some(SyntaxKind::END)
        } else if w[0] == 'f' && w[1] == 'o' && w[2] == 'r' {
            Some(SyntaxKind::FOR)
        } else if w[0] == 'n' && w[1] == 'i' && w[2] == 'l' {
            Some(SyntaxKind::NIL)
        } else if w[0] == 'n' && w[1] == 'o' && w[2] == 't' {
            Some(SyntaxKind::NOT)
        } else {
            None
        }
    } else if w.len() == 4 {
        if w[0] == 'e' && w[1] == 'l' && w[2] == 's' && w[3] == 'e' {
            Some(SyntaxKind::ELSE)
        } else if w[0] == 'g' && w[1] == 'o' && w[2] == 't' && w[3] == 'o' {
            Some(SyntaxKind::GOTO)
        } else if w[0] == 't' && w[1] == 'h' && w[2] == 'e' && w[3] == 'n' {
            Some(SyntaxKind::THEN)
        } else if w[0] == 't' && w[1] == 'r' && w[2] == 'u' && w[3] == 'e' {
            Some(SyntaxKind::TRUE)
        } else {
            None
        }
    } else if w.len() == 5 {
        if w[0] == 'b' && w[1] == 'r' && w[2] == 'e' && w[3] == 'a' && w[4] == 'k' {
            Some(SyntaxKind::BREAK)
        } else if w[0] == 'f' && w[1] == 'a' && w[2] == 'l' && w[3] == 's' && w[4] == 'e' {
            Some(SyntaxKind::FALSE)
        } else if w[0] == 'l' && w[1] == 'o' && w[2] == 'c' && w[3] == 'a' && w[4] == 'l' {
            Some(SyntaxKind::LOCAL)
        } else if w[0] == 'u' && w[1] == 'n' && w[2] == 't' && w[3] == 'i' && w[4] == 'l' {
            Some(SyntaxKind::UNTIL)
        } else if w[0] == 'w' && w[1] == 'h' && w[2] == 'i' && w[3] == 'l' && w[4] == 'e' {
            Some(SyntaxKind::WHILE)
        } else {
            None
        }
    } else if w.len() == 6 {
        if w[0] == 'e' && w[1] == 'l' && w[2] == 's' && w[3] == 'e' && w[4] == 'i' && w[5] == 'f' {
            Some(SyntaxKind::ELSEIF)
        } else if w[0] == 'r' && w[1] == 'e' && w[2] == 'p' && w[3] == 'e' && w[4] == 'a' && w[5]
            == 't' {
            Some(SyntaxKind::REPEAT)
        } else if w[0] == 'r' && w[1] == 'e' && w[2] == 't' && w[3] == 'u' && w[4] == 'r' && w[5]
            == 'n' {
            Some(SyntaxKind::RETURN)
        } else {
            None
        }
    } else if w.len() == 8 {
        if w[0] == 'f' && w[1] == 'u' && w[2] == 'n' && w[3] == 'c' && w[4] == 't' && w[5] == 'i'
            && w[6] == 'o' && w[7] == 'n' {
            Some(SyntaxKind::FUNCTION)
        } else {
            None
        }
    } else {
        None
    }
}

impl SyntaxKind {
    /// Whether this kind is trivia: non-semantic text (whitespace or a
    /// comment) that is kept only so the tree reproduces the source exactly.
    pub fn is_trivia(self) -> (r: bool)
        ensures
            r == (self == SyntaxKind::WHITESPACE || self == SyntaxKind::COMMENT),
    {
        match self {
            SyntaxKind::WHITESPACE | SyntaxKind::COMMENT => true,
            _ => false,
        }
    }

    /// The kind a single punctuation character lexes to on its own, if any.
    pub fn from_char(c: char) -> (r: Option<SyntaxKind>)
        ensures
            r == char_kind(c),
    {
        match c {
            '+' => Some(SyntaxKind::PLUS),
            '-' => Some(SyntaxKind::MINUS),
            '*' => Some(SyntaxKind::STAR),
            '/' => Some(SyntaxKind::SLASH),
            '%' => Some(SyntaxKind::PERCENT),
            '^' => Some(SyntaxKind::CARET),
            '#' => Some(SyntaxKind::HASH),
            '=' => Some(SyntaxKind::EQ),
            '<' => Some(SyntaxKind::LT),
            '>' => Some(SyntaxKind::GT),
            '(' => Some(SyntaxKind::L_PAREN),
            ')' => Some(SyntaxKind::R_PAREN),
            '{' => Some(SyntaxKind::L_CURLY),
            '}' => Some(SyntaxKind::R_CURLY),
            '[' => Some(SyntaxKind::L_BRACKET),
            ']' => Some(SyntaxKind::R_BRACKET),
            ';' => Some(SyntaxKind::SEMI),
            ':' => Some(SyntaxKind::COLON),
            ',' => Some(SyntaxKind::COMMA),
            '.' => Some(SyntaxKind::DOT),
            _ => None,
        }
    }

    /// Keyword lookup for the word `text[start..end]`: the matching keyword
    /// kind, or `None` for a plain identifier. Case-sensitive.
    pub fn from_keyword(text: &Vec<char>, start: usize, end: usize) -> (r: Option<SyntaxKind>)
        requires
            start <= end <= text@.len(),
        ensures
            r == keyword_kind(text@.subrange(start as int, end as int)),
    {
        let n = end - start;
        let ghost w = text@.subrange(start as int, end as int);
        if n == 2 {
            let c0 = text[start];
            let c1 = text[start + 1];
            if c0 == 'd' && c1 == 'o' {
                Some(SyntaxKind::DO)
            } else if c0 == 'i' && c1 == 'f' {
                Some(SyntaxKind::IF)
            } else if c0 == 'i' && c1 == 'n' {
                Some(SyntaxKind::IN)
            } else if c0 == 'o' && c1 == 'r' {
                Some(SyntaxKind::OR)
            } else {
                None
            }
        } else if n == 3 {
            let c0 = text[start];
            let c1 = text[start + 1];
            let c2 = text[start + 2];
            if c0 == 'a' && c1 == 'n' && c2 == 'd' {
                Some(SyntaxKind::AND)
            } else if c0 == 'e' && c1 == 'n' && c2 == 'd' {
                Some(SyntaxKind::END)
            } else if c0 == 'f' && c1 == 'o' && c2 == 'r' {
                Some(SyntaxKind::FOR)
            } else if c0 == 'n' && c1 == 'i' && c2 == 'l' {
                Some(SyntaxKind::NIL)
            } else if c0 == 'n' && c1 == 'o' && c2 == 't' {
                Some(SyntaxKind::NOT)
            } else {
                None
            }
        } else if n == 4 {
            let c0 = text[start];
            let c1 = text[start + 1];
            let c2 = text[start + 2];
            let c3 = text[start + 3];
            if c0 == 'e' && c1 == 'l' && c2 == 's' && c3 == 'e' {
                Some(SyntaxKind::ELSE)
            } else if c0 == 'g' && c1 == 'o' && c2 == 't' && c3 == 'o' {
                Some(SyntaxKind::GOTO)
            } else if c0 == 't' && c1 == 'h' && c2 == 'e' && c3 == 'n' {
                Some(SyntaxKind::THEN)
            } else if c0 == 't' && c1 == 'r' && c2 == 'u' && c3 == 'e' {
                Some(SyntaxKind::TRUE)
            } else {
                None
            }
        } else if n == 5 {
            let c0 = text[start];
            let c1 = text[start + 1];
            let c2 = text[start + 2];
            let c3 = text[start + 3];
            let c4 = text[start + 4];
            if c0 == 'b' && c1 == 'r' && c2 == 'e' && c3 == 'a' && c4 == 'k' {
                Some(SyntaxKind::BREAK)
            } else if c0 == 'f' && c1 == 'a' && c2 == 'l' && c3 == 's' && c4 == 'e' {
                Some(SyntaxKind::FALSE)
            } else if c0 == 'l' && c1 == 'o' && c2 == 'c' && c3 == 'a' && c4 == 'l' {
                Some(SyntaxKind::LOCAL)
            } else if c0 == 'u' && c1 == 'n' && c2 == 't' && c3 == 'i' && c4 == 'l' {
                Some(SyntaxKind::UNTIL)
            } else if c0 == 'w' && c1 == 'h' && c2 == 'i' && c3 == 'l' && c4 == 'e' {
                Some(SyntaxKind::WHILE)
            } else {
                None
            }
        } else if n == 6 {
            let c0 = text[start];
            let c1 = text[start + 1];
            let c2 = text[start + 2];
            let c3 = text[start + 3];
            let c4 = text[start + 4];
            let c5 = text[start + 5];
            if c0 == 'e' && c1 == 'l' && c2 == 's' && c3 == 'e' && c4 == 'i' && c5 == 'f' {
                Some(SyntaxKind::ELSEIF)
            } else if c0 == 'r' && c1 == 'e' && c2 == 'p' && c3 == 'e' && c4 == 'a' && c5 == 't' {
                Some(SyntaxKind::REPEAT)
            } else if c0 == 'r' && c1 == 'e' && c2 == 't' && c3 == 'u' && c4 == 'r' && c5 == 'n' {
                Some(SyntaxKind::RETURN)
            } else {
                None
            }
        } else if n == 8 {
            let c0 = text[start];
            let c1 = text[start + 1];
            let c2 = text[start + 2];
            let c3 = text[start + 3];
            let c4 = text[start + 4];
            let c5 = text[start + 5];
            let c6 = text[start + 6];
            let c7 = text[start + 7];
            if c0 == 'f' && c1 == 'u' && c2 == 'n' && c3 == 'c' && c4 == 't' && c5 == 'i' && c6
                == 'o' && c7 == 'n' {
                Some(SyntaxKind::FUNCTION)
            } else {
                None
            }
        } else {
            None
        }
    }

    /// The stable numeric code of this kind, used where a kind is stored as
    /// a bare integer tag.
    pub fn code(self) -> (r: u16)
        ensures
            r == kind_code(self),
    {
        match self {
            SyntaxKind::ERROR => 0,
            SyntaxKind::WHITESPACE => 1,
            SyntaxKind::COMMENT => 2,
            SyntaxKind::STRING => 3,
            SyntaxKind::NUMBER => 4,
            SyntaxKind::IDENT => 5,
            SyntaxKind::AND => 6,
            SyntaxKind::BREAK => 7,
            SyntaxKind::DO => 8,
            SyntaxKind::ELSE => 9,
            SyntaxKind::ELSEIF => 10,
            SyntaxKind::END => 11,
            SyntaxKind::FALSE => 12,
            SyntaxKind::FOR => 13,
            SyntaxKind::FUNCTION => 14,
            SyntaxKind::GOTO => 15,
            SyntaxKind::IF => 16,
            SyntaxKind::IN => 17,
            SyntaxKind::LOCAL => 18,
            SyntaxKind::NIL => 19,
            SyntaxKind::NOT => 20,
            SyntaxKind::OR => 21,
            SyntaxKind::REPEAT => 22,
            SyntaxKind::RETURN => 23,
            SyntaxKind::THEN => 24,
            SyntaxKind::TRUE => 25,
            SyntaxKind::UNTIL => 26,
            SyntaxKind::WHILE => 27,
            SyntaxKind::PLUS => 28,
            SyntaxKind::MINUS => 29,
            SyntaxKind::STAR => 30,
            SyntaxKind::SLASH => 31,
            SyntaxKind::PERCENT => 32,
            SyntaxKind::CARET => 33,
            SyntaxKind::HASH => 34,
            SyntaxKind::EQ => 35,
            SyntaxKind::LT => 36,
            SyntaxKind::GT => 37,
            SyntaxKind::L_PAREN => 38,
            SyntaxKind::R_PAREN => 39,
            SyntaxKind::L_CURLY => 40,
            SyntaxKind::R_CURLY => 41,
            SyntaxKind::L_BRACKET => 42,
            SyntaxKind::R_BRACKET => 43,
            SyntaxKind::SEMI => 44,
            SyntaxKind::COLON => 45,
            SyntaxKind::COMMA => 46,
            SyntaxKind::DOT => 47,
            SyntaxKind::NEQ => 48,
            SyntaxKind::CHUNK => 49,
            SyntaxKind::BLOCK => 50,
        }
    }

    /// The kind a stored numeric code denotes; an unknown code maps to
    /// `ERROR` so that decoding is total.
    pub fn from_code(code: u16) -> (r: SyntaxKind)
        ensures
            r == code_kind(code),
    {
        if code == 1 {
            SyntaxKind::WHITESPACE
        } else if code == 2 {
            SyntaxKind::COMMENT
        } else if code == 3 {
            SyntaxKind::STRING
        } else if code == 4 {
            SyntaxKind::NUMBER
        } else if code == 5 {
            SyntaxKind::IDENT
        } else if code == 6 {
            SyntaxKind::AND
        } else if code == 7 {
            SyntaxKind::BREAK
        } else if code == 8 {
            SyntaxKind::DO
        } else if code == 9 {
            SyntaxKind::ELSE
        } else if code == 10 {
            SyntaxKind::ELSEIF
        } else if code == 11 {
            SyntaxKind::END
        } else if code == 12 {
            SyntaxKind::FALSE
        } else if code == 13 {
            SyntaxKind::FOR
        } else if code == 14 {
            SyntaxKind::FUNCTION
        } else if code == 15 {
            SyntaxKind::GOTO
        } else if code == 16 {
            SyntaxKind::IF
        } else if code == 17 {
            SyntaxKind::IN
        } else if code == 18 {
            SyntaxKind::LOCAL
        } else if code == 19 {
            SyntaxKind::NIL
        } else if code == 20 {
            SyntaxKind::NOT
        } else if code == 21 {
            SyntaxKind::OR
        } else if code == 22 {
            SyntaxKind::REPEAT
        } else if code == 23 {
            SyntaxKind::RETURN
        } else if code == 24 {
            SyntaxKind::THEN
        } else if code == 25 {
            SyntaxKind::TRUE
        } else if code == 26 {
            SyntaxKind::UNTIL
        } else if code == 27 {
            SyntaxKind::WHILE
        } else if code == 28 {
            SyntaxKind::PLUS
        } else if code == 29 {
            SyntaxKind::MINUS
        } else if code == 30 {
            SyntaxKind::STAR
        } else if code == 31 {
            SyntaxKind::SLASH
        } else if code == 32 {
            SyntaxKind::PERCENT
        } else if code == 33 {
            SyntaxKind::CARET
        } else if code == 34 {
            SyntaxKind::HASH
        } else if code == 35 {
            SyntaxKind::EQ
        } else if code == 36 {
            SyntaxKind::LT
        } else if code == 37 {
            SyntaxKind::GT
        } else if code == 38 {
            SyntaxKind::L_PAREN
        } else if code == 39 {
            SyntaxKind::R_PAREN
        } else if code == 40 {
            SyntaxKind::L_CURLY
        } else if code == 41 {
            SyntaxKind::R_CURLY
        } else if code == 42 {
            SyntaxKind::L_BRACKET
        } else if code == 43 {
            SyntaxKind::R_BRACKET
        } else if code == 44 {
            SyntaxKind::SEMI
        } else if code == 45 {
            SyntaxKind::COLON
        } else if code == 46 {
            SyntaxKind::COMMA
        } else if code == 47 {
            SyntaxKind::DOT
        } else if code == 48 {
            SyntaxKind::NEQ
        } else if code == 49 {
            SyntaxKind::CHUNK
        } else if code == 50 {
            SyntaxKind::BLOCK
        } else {
            SyntaxKind::ERROR
        }
    }
}

/// Spec-level mirror of `SyntaxKind::code`.
pub open spec fn kind_code(k: SyntaxKind) -> u16 {
    match k {
        SyntaxKind::ERROR => 0,
        SyntaxKind::WHITESPACE => 1,
        SyntaxKind::COMMENT => 2,
        SyntaxKind::STRING => 3,
        SyntaxKind::NUMBER => 4,
        SyntaxKind::IDENT => 5,
        SyntaxKind::AND => 6,
        SyntaxKind::BREAK => 7,
        SyntaxKind::DO => 8,
        SyntaxKind::ELSE => 9,
        SyntaxKind::ELSEIF => 10,
        SyntaxKind::END => 11,
        SyntaxKind::FALSE => 12,
        SyntaxKind::FOR => 13,
        SyntaxKind::FUNCTION => 14,
        SyntaxKind::GOTO => 15,
        SyntaxKind::IF => 16,
        SyntaxKind::IN => 17,
        SyntaxKind::LOCAL => 18,
        SyntaxKind::NIL => 19,
        SyntaxKind::NOT => 20,
        SyntaxKind::OR => 21,
        SyntaxKind::REPEAT => 22,
        SyntaxKind::RETURN => 23,
        SyntaxKind::THEN => 24,
        SyntaxKind::TRUE => 25,
        SyntaxKind::UNTIL => 26,
        SyntaxKind::WHILE => 27,
        SyntaxKind::PLUS => 28,
        SyntaxKind::MINUS => 29,
        SyntaxKind::STAR => 30,
        SyntaxKind::SLASH => 31,
        SyntaxKind::PERCENT => 32,
        SyntaxKind::CARET => 33,
        SyntaxKind::HASH => 34,
        SyntaxKind::EQ => 35,
        SyntaxKind::LT => 36,
        SyntaxKind::GT => 37,
        SyntaxKind::L_PAREN => 38,
        SyntaxKind::R_PAREN => 39,
        SyntaxKind::L_CURLY => 40,
        SyntaxKind::R_CURLY => 41,
        SyntaxKind::L_BRACKET => 42,
        SyntaxKind::R_BRACKET => 43,
        SyntaxKind::SEMI => 44,
        SyntaxKind::COLON => 45,
        SyntaxKind::COMMA => 46,
        SyntaxKind::DOT => 47,
        SyntaxKind::NEQ => 48,
        SyntaxKind::CHUNK => 49,
        SyntaxKind::BLOCK => 50,
    }
}

/// Spec-level mirror of `SyntaxKind::from_code`.
pub open spec fn code_kind(code: u16) -> SyntaxKind {
    if code == 1 {
        SyntaxKind::WHITESPACE
    } else if code == 2 {
        SyntaxKind::COMMENT
    } else if code == 3 {
        SyntaxKind::STRING
    } else if code == 4 {
        SyntaxKind::NUMBER
    } else if code == 5 {
        SyntaxKind::IDENT
    } else if code == 6 {
        SyntaxKind::AND
    } else if code == 7 {
        SyntaxKind::BREAK
    } else if code == 8 {
        SyntaxKind::DO
    } else if code == 9 {
        SyntaxKind::ELSE
    } else if code == 10 {
        SyntaxKind::ELSEIF
    } else if code == 11 {
        SyntaxKind::END
    } else if code == 12 {
        SyntaxKind::FALSE
    } else if code == 13 {
        SyntaxKind::FOR
    } else if code == 14 {
        SyntaxKind::FUNCTION
    } else if code == 15 {
        SyntaxKind::GOTO
    } else if code == 16 {
        SyntaxKind::IF
    } else if code == 17 {
        SyntaxKind::IN
    } else if code == 18 {
        SyntaxKind::LOCAL
    } else if code == 19 {
        SyntaxKind::NIL
    } else if code == 20 {
        SyntaxKind::NOT
    } else if code == 21 {
        SyntaxKind::OR
    } else if code == 22 {
        SyntaxKind::REPEAT
    } else if code == 23 {
        SyntaxKind::RETURN
    } else if code == 24 {
        SyntaxKind::THEN
    } else if code == 25 {
        SyntaxKind::TRUE
    } else if code == 26 {
        SyntaxKind::UNTIL
    } else if code == 27 {
        SyntaxKind::WHILE
    } else if code == 28 {
        SyntaxKind::PLUS
    } else if code == 29 {
        SyntaxKind::MINUS
    } else if code == 30 {
        SyntaxKind::STAR
    } else if code == 31 {
        SyntaxKind::SLASH
    } else if code == 32 {
        SyntaxKind::PERCENT
    } else if code == 33 {
        SyntaxKind::CARET
    } else if code == 34 {
        SyntaxKind::HASH
    } else if code == 35 {
        SyntaxKind::EQ
    } else if code == 36 {
        SyntaxKind::LT
    } else if code == 37 {
        SyntaxKind::GT
    } else if code == 38 {
        SyntaxKind::L_PAREN
    } else if code == 39 {
        SyntaxKind::R_PAREN
    } else if code == 40 {
        SyntaxKind::L_CURLY
    } else if code == 41 {
        SyntaxKind::R_CURLY
    } else if code == 42 {
        SyntaxKind::L_BRACKET
    } else if code == 43 {
        SyntaxKind::R_BRACKET
    } else if code == 44 {
        SyntaxKind::SEMI
    } else if code == 45 {
        SyntaxKind::COLON
    } else if code == 46 {
        SyntaxKind::COMMA
    } else if code == 47 {
        SyntaxKind::DOT
    } else if code == 48 {
        SyntaxKind::NEQ
    } else if code == 49 {
        SyntaxKind::CHUNK
    } else if code == 50 {
        SyntaxKind::BLOCK
    } else {
        SyntaxKind::ERROR
    }
}

/// The stable display name of each kind.
pub open spec fn kind_name(k: SyntaxKind) -> Seq<char> {
    match k {
        SyntaxKind::ERROR => "ERROR"@,
        SyntaxKind::WHITESPACE => "WHITESPACE"@,
        SyntaxKind::COMMENT => "COMMENT"@,
        SyntaxKind::STRING => "STRING"@,
        SyntaxKind::NUMBER => "NUMBER"@,
        SyntaxKind::IDENT => "IDENT"@,
        SyntaxKind::AND => "AND"@,
        SyntaxKind::BREAK => "BREAK"@,
        SyntaxKind::DO => "DO"@,
        SyntaxKind::ELSE => "ELSE"@,
        SyntaxKind::ELSEIF => "ELSEIF"@,
        SyntaxKind::END => "END"@,
        SyntaxKind::FALSE => "FALSE"@,
        SyntaxKind::FOR => "FOR"@,
        SyntaxKind::FUNCTION => "FUNCTION"@,
        SyntaxKind::GOTO => "GOTO"@,
        SyntaxKind::IF => "IF"@,
        SyntaxKind::IN => "IN"@,
        SyntaxKind::LOCAL => "LOCAL"@,
        SyntaxKind::NIL => "NIL"@,
        SyntaxKind::NOT => "NOT"@,
        SyntaxKind::OR => "OR"@,
        SyntaxKind::REPEAT => "REPEAT"@,
        SyntaxKind::RETURN => "RETURN"@,
        SyntaxKind::THEN => "THEN"@,
        SyntaxKind::TRUE => "TRUE"@,
        SyntaxKind::UNTIL => "UNTIL"@,
        SyntaxKind::WHILE => "WHILE"@,
        SyntaxKind::PLUS => "PLUS"@,
        SyntaxKind::MINUS => "MINUS"@,
        SyntaxKind::STAR => "STAR"@,
        SyntaxKind::SLASH => "SLASH"@,
        SyntaxKind::PERCENT => "PERCENT"@,
        SyntaxKind::CARET => "CARET"@,
        SyntaxKind::HASH => "HASH"@,
        SyntaxKind::EQ => "EQ"@,
        SyntaxKind::LT => "LT"@,
        SyntaxKind::GT => "GT"@,
        SyntaxKind::L_PAREN => "L_PAREN"@,
        SyntaxKind::R_PAREN => "R_PAREN"@,
        SyntaxKind::L_CURLY => "L_CURLY"@,
        SyntaxKind::R_CURLY => "R_CURLY"@,
        SyntaxKind::L_BRACKET => "L_BRACKET"@,
        SyntaxKind::R_BRACKET => "R_BRACKET"@,
        SyntaxKind::SEMI => "SEMI"@,
        SyntaxKind::COLON => "COLON"@,
        SyntaxKind::COMMA => "COMMA"@,
        SyntaxKind::DOT => "DOT"@,
        SyntaxKind::NEQ => "NEQ"@,
        SyntaxKind::CHUNK => "CHUNK"@,
        SyntaxKind::BLOCK => "BLOCK"@,
    }
}

impl SyntaxKind {
    /// The stable display name of this kind.
    pub fn name(&self) -> (r: String)
        ensures
            r@ == kind_name(*self),
    {
        match self {
            SyntaxKind::ERROR => String::from_str("ERROR"),
            SyntaxKind::WHITESPACE => String::from_str("WHITESPACE"),
            SyntaxKind::COMMENT => String::from_str("COMMENT"),
            SyntaxKind::STRING => String::from_str("STRING"),
            SyntaxKind::NUMBER => String::from_str("NUMBER"),
            SyntaxKind::IDENT => String::from_str("IDENT"),
            SyntaxKind::AND => String::from_str("AND"),
            SyntaxKind::BREAK => String::from_str("BREAK"),
            SyntaxKind::DO => String::from_str("DO"),
            SyntaxKind::ELSE => String::from_str("ELSE"),
            SyntaxKind::ELSEIF => String::from_str("ELSEIF"),
            SyntaxKind::END => String::from_str("END"),
            SyntaxKind::FALSE => String::from_str("FALSE"),
            SyntaxKind::FOR => String::from_str("FOR"),
            SyntaxKind::FUNCTION => String::from_str("FUNCTION"),
            SyntaxKind::GOTO => String::from_str("GOTO"),
            SyntaxKind::IF => String::from_str("IF"),
            SyntaxKind::IN => String::from_str("IN"),
            SyntaxKind::LOCAL => String::from_str("LOCAL"),
            SyntaxKind::NIL => String::from_str("NIL"),
            SyntaxKind::NOT => String::from_str("NOT"),
            SyntaxKind::OR => String::from_str("OR"),
            SyntaxKind::REPEAT => String::from_str("REPEAT"),
            SyntaxKind::RETURN => String::from_str("RETURN"),
            SyntaxKind::THEN => String::from_str("THEN"),
            SyntaxKind::TRUE => String::from_str("TRUE"),
            SyntaxKind::UNTIL => String::from_str("UNTIL"),
            SyntaxKind::WHILE => String::from_str("WHILE"),
            SyntaxKind::PLUS => String::from_str("PLUS"),
            SyntaxKind::MINUS => String::from_str("MINUS"),
            SyntaxKind::STAR => String::from_str("STAR"),
            SyntaxKind::SLASH => String::from_str("SLASH"),
            SyntaxKind::PERCENT => String::from_str("PERCENT"),
            SyntaxKind::CARET => String::from_str("CARET"),
            SyntaxKind::HASH => String::from_str("HASH"),
            SyntaxKind::EQ => String::from_str("EQ"),
            SyntaxKind::LT => String::from_str("LT"),
            SyntaxKind::GT => String::from_str("GT"),
            SyntaxKind::L_PAREN => String::from_str("L_PAREN"),
            SyntaxKind::R_PAREN => String::from_str("R_PAREN"),
            SyntaxKind::L_CURLY => String::from_str("L_CURLY"),
            SyntaxKind::R_CURLY => String::from_str("R_CURLY"),
            SyntaxKind::L_BRACKET => String::from_str("L_BRACKET"),
            SyntaxKind::R_BRACKET => String::from_str("R_BRACKET"),
            SyntaxKind::SEMI => String::from_str("SEMI"),
            SyntaxKind::COLON => String::from_str("COLON"),
            SyntaxKind::COMMA => String::from_str("COMMA"),
            SyntaxKind::DOT => String::from_str("DOT"),
            SyntaxKind::NEQ => String::from_str("NEQ"),
            SyntaxKind::CHUNK => String::from_str("CHUNK"),
            SyntaxKind::BLOCK => String::from_str("BLOCK"),
        }
    }
}

/// Decoding a kind's own code gives the kind back: the numeric tagging is
/// lossless over the whole closed enumeration.
pub proof fn lemma_code_round_trip(k: SyntaxKind)
    ensures
        code_kind(kind_code(k)) == k,
{
}

} // verus!
