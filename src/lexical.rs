use vstd::prelude::*;
use crate::token::{TokenModel, TokenType, word_kind};

verus! {

/// A lexical error.
#[derive(Debug, Clone, Copy, PartialEq, Eq, Structural)]
pub enum LexError {
    /// A character that starts no token.
    UnexpectedChar(u32),
    /// A string literal with no closing quote.
    UnterminatedString,
    /// A string literal that holds a NUL character.
    NulInString,
    /// A block comment with no closing `*)`.
    UnterminatedComment,
}

/// A lexical error and the line on which it was found.
pub struct LexDiag {
    pub line: int,
    pub error: LexError,
}

/// What scanning a text yields: its tokens, the offset at which each starts,
/// and its errors, all in the order of the text.
pub struct ScanModel {
    pub toks: Seq<TokenModel>,
    pub starts: Seq<int>,
    pub errs: Seq<LexDiag>,
}

pub open spec fn is_digit(c: char) -> bool {
    '0' <= c && c <= '9'
}

pub open spec fn is_alpha(c: char) -> bool {
    ('a' <= c && c <= 'z') || ('A' <= c && c <= 'Z') || c == '_'
}

pub open spec fn is_alnum(c: char) -> bool {
    is_alpha(c) || is_digit(c)
}

pub open spec fn is_blank(c: char) -> bool {
    c == ' ' || c == '\t' || c == '\r' || c == '\n'
}

/// The number of newline characters in `s`.
pub open spec fn newlines(s: Seq<char>) -> nat
    decreases s.len(),
{
    if s.len() == 0 {
        0
    } else {
        newlines(s.drop_last()) + if s.last() == '\n' {
            1nat
        } else {
            0nat
        }
    }
}

/// The line (counted from 1) on which offset `i` of `src` lies.
pub open spec fn line_at(src: Seq<char>, i: int) -> int {
    1 + newlines(src.take(i)) as int
}

pub open spec fn at(src: Seq<char>, i: int, c: char) -> bool {
    0 <= i < src.len() && src[i] == c
}

/// The number of letters, digits and underscores from offset `i` on.
pub open spec fn word_len(src: Seq<char>, i: int) -> nat
    decreases src.len() - i,
{
    if 0 <= i < src.len() && is_alnum(src[i]) {
        1 + word_len(src, i + 1)
    } else {
        0
    }
}

/// The number of digits from offset `i` on.
pub open spec fn digits_len(src: Seq<char>, i: int) -> nat
    decreases src.len() - i,
{
    if 0 <= i < src.len() && is_digit(src[i]) {
        1 + digits_len(src, i + 1)
    } else {
        0
    }
}

/// The number of characters from offset `i` up to the next newline or the end.
pub open spec fn rest_of_line(src: Seq<char>, i: int) -> nat
    decreases src.len() - i,
{
    if 0 <= i < src.len() && src[i] != '\n' {
        1 + rest_of_line(src, i + 1)
    } else {
        0
    }
}

/// The length of a string literal's body that starts at offset `i`, up to
/// its closing quote; a backslash takes the next character with it. `None`
/// where the text ends first.
pub open spec fn string_len(src: Seq<char>, i: int) -> Option<nat>
    decreases src.len() - i,
{
    if i < 0 || i >= src.len() {
        None
    } else if src[i] == '"' {
        Some(0)
    } else if src[i] == '\\' {
        if i + 1 < src.len() {
            match string_len(src, i + 2) {
                Some(n) => Some(n + 2),
                None => None,
            }
        } else {
            None
        }
    } else {
        match string_len(src, i + 1) {
            Some(n) => Some(n + 1),
            None => None,
        }
    }
}

/// The number of characters from offset `i`, inside a block comment nested
/// `depth` levels below the outermost, up to and including the `*)` that
/// closes the outermost. `None` where the text ends first.
pub open spec fn comment_len(src: Seq<char>, i: int, depth: nat) -> Option<nat>
    decreases src.len() - i,
{
    if i < 0 || i >= src.len() {
        None
    } else if src[i] == '(' && at(src, i + 1, '*') {
        match comment_len(src, i + 2, depth + 1) {
            Some(n) => Some(n + 2),
            None => None,
        }
    } else if src[i] == '*' && at(src, i + 1, ')') {
        if depth == 0 {
            Some(2)
        } else {
            match comment_len(src, i + 2, (depth - 1) as nat) {
                Some(n) => Some(n + 2),
                None => None,
            }
        }
    } else {
        match comment_len(src, i + 1, depth) {
            Some(n) => Some(n + 1),
            None => None,
        }
    }
}

/// The punctuation or operator token at offset `i`, with its length in
/// characters. A two-character operator is taken whole.
pub open spec fn symbol(src: Seq<char>, i: int) -> Option<(TokenType, nat)> {
    let c = src[i];
    if c == '(' {
        Some((TokenType::LEFTPAREN, 1))
    } else if c == ')' {
        Some((TokenType::RIGHTPAREN, 1))
    } else if c == '{' {
        Some((TokenType::LEFTBRACE, 1))
    } else if c == '}' {
        Some((TokenType::RIGHTBRACE, 1))
    } else if c == ';' {
        Some((TokenType::SEMICOLON, 1))
    } else if c == ':' {
        Some((TokenType::COLON, 1))
    } else if c == ',' {
        Some((TokenType::COMMA, 1))
    } else if c == '.' {
        Some((TokenType::DOT, 1))
    } else if c == '@' {
        Some((TokenType::AT, 1))
    } else if c == '~' {
        Some((TokenType::TILDA, 1))
    } else if c == '+' {
        Some((TokenType::PLUS, 1))
    } else if c == '-' {
        Some((TokenType::MINUS, 1))
    } else if c == '*' {
        Some((TokenType::STAR, 1))
    } else if c == '/' {
        Some((TokenType::SLASH, 1))
    } else if c == '=' {
        if at(src, i + 1, '>') {
            Some((TokenType::RARROW, 2))
        } else {
            Some((TokenType::EQUALITY, 1))
        }
    } else if c == '>' {
        if at(src, i + 1, '=') {
            Some((TokenType::MOREEQUAL, 2))
        } else {
            Some((TokenType::MORETHAN, 1))
        }
    } else if c == '<' {
        if at(src, i + 1, '=') {
            Some((TokenType::LESSEQUAL, 2))
        } else if at(src, i + 1, '-') {
            Some((TokenType::ASSIGN, 2))
        } else {
            Some((TokenType::LESSTHAN, 1))
        }
    } else {
        None
    }
}

/// The end-of-input token alone, at the end of `src`.
pub open spec fn end_of_input(src: Seq<char>) -> ScanModel {
    ScanModel {
        toks: seq![
            TokenModel {
                line: line_at(src, src.len() as int),
                lexeme: Seq::empty(),
                tokentype: TokenType::EOF,
                literal: None,
            },
        ],
        starts: seq![src.len() as int],
        errs: Seq::empty(),
    }
}

/// `rest` with a token in front that starts at offset `i`.
pub open spec fn with_token(
    src: Seq<char>,
    i: int,
    kind: TokenType,
    lexeme: Seq<char>,
    literal: Option<Seq<char>>,
    rest: ScanModel,
) -> ScanModel {
    ScanModel {
        toks: seq![TokenModel { line: line_at(src, i), lexeme, tokentype: kind, literal }]
            + rest.toks,
        starts: seq![i] + rest.starts,
        errs: rest.errs,
    }
}

/// `rest` with an error in front, found at offset `i`.
pub open spec fn with_error(src: Seq<char>, i: int, e: LexError, rest: ScanModel) -> ScanModel {
    ScanModel {
        toks: rest.toks,
        starts: rest.starts,
        errs: seq![LexDiag { line: line_at(src, i), error: e }] + rest.errs,
    }
}

/// Where the lexeme (or the blank, comment or bad character) that starts at
/// offset `i` ends: the scan goes on from there.
pub open spec fn lexeme_end(src: Seq<char>, i: int) -> int {
    let c = src[i];
    if is_blank(c) {
        i + 1
    } else if c == '(' && at(src, i + 1, '*') {
        match comment_len(src, i + 2, 0) {
            Some(n) => i + 2 + n,
            None => src.len() as int,
        }
    } else if c == '-' && at(src, i + 1, '-') {
        i + 2 + rest_of_line(src, i + 2)
    } else if c == '"' {
        match string_len(src, i + 1) {
            Some(n) => i + 2 + n,
            None => src.len() as int,
        }
    } else if is_alpha(c) {
        i + 1 + word_len(src, i + 1)
    } else if is_digit(c) {
        i + 1 + digits_len(src, i + 1)
    } else {
        match symbol(src, i) {
            Some((_, n)) => i + n,
            None => i + 1,
        }
    }
}

/// The scan of `src` from offset `i` on.
#[verifier::opaque]
pub open spec fn lex_from(src: Seq<char>, i: int) -> ScanModel
    decreases (if 0 <= i < src.len() {
        src.len() - i
    } else {
        0
    }),
{
    if i < 0 || i >= src.len() {
        end_of_input(src)
    } else {
        let c = src[i];
        if is_blank(c) {
            lex_from(src, i + 1)
        } else if c == '(' && at(src, i + 1, '*') {
            match comment_len(src, i + 2, 0) {
                Some(n) => lex_from(src, i + 2 + n),
                None => with_error(src, i, LexError::UnterminatedComment, end_of_input(src)),
            }
        } else if c == '-' && at(src, i + 1, '-') {
            lex_from(src, i + 2 + rest_of_line(src, i + 2))
        } else if c == '"' {
            match string_len(src, i + 1) {
                Some(n) => {
                    let body = src.subrange(i + 1, i + 1 + n);
                    if body.contains('\0') {
                        with_error(
                            src,
                            i,
                            LexError::NulInString,
                            with_token(
                                src,
                                i,
                                TokenType::ERROR,
                                src.subrange(i, i + 2 + n),
                                None,
                                lex_from(src, i + 2 + n),
                            ),
                        )
                    } else {
                        with_token(
                            src,
                            i,
                            TokenType::STRING,
                            body,
                            Some(body),
                            lex_from(src, i + 2 + n),
                        )
                    }
                },
                None => with_error(
                    src,
                    i,
                    LexError::UnterminatedString,
                    with_token(
                        src,
                        i,
                        TokenType::ERROR,
                        src.subrange(i, src.len() as int),
                        None,
                        end_of_input(src),
                    ),
                ),
            }
        } else if is_alpha(c) {
            let w = src.subrange(i, i + 1 + word_len(src, i + 1));
            with_token(src, i, word_kind(w), w, Some(w), lex_from(src, i + 1 + word_len(src, i + 1)))
        } else if is_digit(c) {
            let w = src.subrange(i, i + 1 + digits_len(src, i + 1));
            with_token(
                src,
                i,
                TokenType::INTEGER,
                w,
                Some(w),
                lex_from(src, i + 1 + digits_len(src, i + 1)),
            )
        } else {
            match symbol(src, i) {
                Some((kind, n)) => with_token(
                    src,
                    i,
                    kind,
                    src.subrange(i, i + n),
                    None,
                    lex_from(src, i + n),
                ),
                None => with_error(
                    src,
                    i,
                    LexError::UnexpectedChar(c as u32),
                    lex_from(src, i + 1),
                ),
            }
        }
    }
}

/// The scan of a whole text.
pub open spec fn lex(src: Seq<char>) -> ScanModel {
    lex_from(src, 0)
}

} // verus!

verus! {

/// The scan at a character that starts no token: an error, and no token.
pub proof fn lemma_lex_unexpected(src: Seq<char>, i: int)
    requires
        0 <= i < src.len(),
        !is_blank(src[i]),
        !(src[i] == '(' && at(src, i + 1, '*')),
        !(src[i] == '-' && at(src, i + 1, '-')),
        src[i] != '"',
        !is_alnum(src[i]),
        symbol(src, i) is None,
    ensures
        lex_from(src, i).toks == lex_from(src, i + 1).toks,
        lex_from(src, i).errs == seq![
            LexDiag { line: line_at(src, i), error: LexError::UnexpectedChar(src[i] as u32) },
        ] + lex_from(src, i + 1).errs,
{
    reveal(lex_from);
}

} // verus!

verus! {

/// Each token of `m` starts at an offset in `[lo, src.len()]`, and its line
/// is the line of that offset.
pub open spec fn lines_agree(src: Seq<char>, lo: int, m: ScanModel) -> bool {
    &&& m.starts.len() == m.toks.len()
    &&& forall|k: int|
        0 <= k < m.toks.len() ==> {
            &&& lo <= #[trigger] m.starts[k] <= src.len()
            &&& m.toks[k].line == line_at(src, m.starts[k])
        }
}

proof fn lemma_agree_token(
    src: Seq<char>,
    i: int,
    j: int,
    kind: TokenType,
    lexeme: Seq<char>,
    literal: Option<Seq<char>>,
    rest: ScanModel,
)
    requires
        0 <= i <= j,
        i <= src.len(),
        lines_agree(src, j, rest),
    ensures
        lines_agree(src, i, with_token(src, i, kind, lexeme, literal, rest)),
{
    let m = with_token(src, i, kind, lexeme, literal, rest);
    assert forall|k: int| 0 <= k < m.toks.len() implies {
        &&& i <= #[trigger] m.starts[k] <= src.len()
        &&& m.toks[k].line == line_at(src, m.starts[k])
    } by {
        if k > 0 {
            assert(m.starts[k] == rest.starts[k - 1]);
            assert(m.toks[k] == rest.toks[k - 1]);
        }
    }
}

proof fn lemma_agree_error(src: Seq<char>, i: int, e: LexError, rest: ScanModel)
    requires
        lines_agree(src, i, rest),
    ensures
        lines_agree(src, i, with_error(src, i, e, rest)),
{
}

proof fn lemma_agree_end(src: Seq<char>, i: int)
    requires
        0 <= i <= src.len(),
    ensures
        lines_agree(src, i, end_of_input(src)),
{
}

proof fn lemma_agree_weaken(src: Seq<char>, i: int, j: int, m: ScanModel)
    requires
        i <= j,
        lines_agree(src, j, m),
    ensures
        lines_agree(src, i, m),
{
}

proof fn lemma_lines_from(src: Seq<char>, i: int)
    requires
        0 <= i <= src.len(),
    ensures
        lines_agree(src, i, lex_from(src, i)),
    decreases (if i < src.len() {
        src.len() - i
    } else {
        0
    }),
{
    reveal(lex_from);
    if i >= src.len() {
        lemma_agree_end(src, i);
    } else {
        let c = src[i];
        if is_blank(c) {
            lemma_lines_from(src, i + 1);
            lemma_agree_weaken(src, i, i + 1, lex_from(src, i + 1));
        } else if c == '(' && at(src, i + 1, '*') {
            match comment_len(src, i + 2, 0) {
                Some(n) => {
                    lemma_comment_len_bound(src, i + 2, 0);
                    lemma_lines_from(src, i + 2 + n);
                    lemma_agree_weaken(src, i, i + 2 + n, lex_from(src, i + 2 + n));
                },
                None => {
                    lemma_agree_end(src, i);
                    lemma_agree_error(src, i, LexError::UnterminatedComment, end_of_input(src));
                },
            }
        } else if c == '-' && at(src, i + 1, '-') {
            let j = i + 2 + rest_of_line(src, i + 2);
            lemma_rest_of_line_bound(src, i + 2);
            lemma_lines_from(src, j);
            lemma_agree_weaken(src, i, j, lex_from(src, j));
        } else if c == '"' {
            match string_len(src, i + 1) {
                Some(n) => {
                    let j = i + 2 + n;
                    lemma_string_len_bound(src, i + 1);
                    lemma_lines_from(src, j);
                    let body = src.subrange(i + 1, i + 1 + n);
                    lemma_agree_token(src, i, j, TokenType::STRING, body, Some(body), lex_from(src, j));
                    let t = with_token(src, i, TokenType::ERROR, src.subrange(i, j), None, lex_from(src, j));
                    lemma_agree_token(src, i, j, TokenType::ERROR, src.subrange(i, j), None, lex_from(src, j));
                    lemma_agree_error(src, i, LexError::NulInString, t);
                },
                None => {
                    let len = src.len() as int;
                    lemma_agree_end(src, len);
                    lemma_agree_token(src, i, len, TokenType::ERROR, src.subrange(i, len), None, end_of_input(src));
                    let t = with_token(src, i, TokenType::ERROR, src.subrange(i, len), None, end_of_input(src));
                    lemma_agree_error(src, i, LexError::UnterminatedString, t);
                },
            }
        } else if is_alpha(c) {
            let j = i + 1 + word_len(src, i + 1);
            let w = src.subrange(i, j);
            lemma_word_len_bound(src, i + 1);
            lemma_lines_from(src, j);
            lemma_agree_token(src, i, j, word_kind(w), w, Some(w), lex_from(src, j));
        } else if is_digit(c) {
            let j = i + 1 + digits_len(src, i + 1);
            let w = src.subrange(i, j);
            lemma_digits_len_bound(src, i + 1);
            lemma_lines_from(src, j);
            lemma_agree_token(src, i, j, TokenType::INTEGER, w, Some(w), lex_from(src, j));
        } else {
            match symbol(src, i) {
                Some((kind, n)) => {
                    lemma_lines_from(src, i + n);
                    lemma_agree_token(src, i, i + n, kind, src.subrange(i, i + n), None, lex_from(src, i + n));
                },
                None => {
                    lemma_lines_from(src, i + 1);
                    lemma_agree_weaken(src, i, i + 1, lex_from(src, i + 1));
                    lemma_agree_error(src, i, LexError::UnexpectedChar(c as u32), lex_from(src, i + 1));
                },
            }
        }
    }
}

proof fn lemma_rest_of_line_bound(src: Seq<char>, i: int)
    requires
        0 <= i <= src.len(),
    ensures
        i + rest_of_line(src, i) <= src.len(),
    decreases src.len() - i,
{
    if i < src.len() && src[i] != '\n' {
        lemma_rest_of_line_bound(src, i + 1);
    }
}

proof fn lemma_comment_len_bound(src: Seq<char>, i: int, depth: nat)
    requires
        0 <= i <= src.len(),
    ensures
        comment_len(src, i, depth) matches Some(n) ==> i + n <= src.len(),
    decreases src.len() - i,
{
    if i < src.len() {
        if src[i] == '(' && at(src, i + 1, '*') {
            lemma_comment_len_bound(src, i + 2, depth + 1);
        } else if src[i] == '*' && at(src, i + 1, ')') {
            if depth > 0 {
                lemma_comment_len_bound(src, i + 2, (depth - 1) as nat);
            }
        } else {
            lemma_comment_len_bound(src, i + 1, depth);
        }
    }
}

proof fn lemma_word_len_bound(src: Seq<char>, i: int)
    requires
        0 <= i <= src.len(),
    ensures
        i + word_len(src, i) <= src.len(),
    decreases src.len() - i,
{
    if i < src.len() && is_alnum(src[i]) {
        lemma_word_len_bound(src, i + 1);
    }
}

proof fn lemma_digits_len_bound(src: Seq<char>, i: int)
    requires
        0 <= i <= src.len(),
    ensures
        i + digits_len(src, i) <= src.len(),
    decreases src.len() - i,
{
    if i < src.len() && is_digit(src[i]) {
        lemma_digits_len_bound(src, i + 1);
    }
}

proof fn lemma_string_len_bound(src: Seq<char>, i: int)
    requires
        0 <= i <= src.len(),
    ensures
        string_len(src, i) matches Some(n) ==> i + n < src.len(),
    decreases src.len() - i,
{
    if i < src.len() && src[i] != '"' {
        if src[i] == '\\' {
            if i + 1 < src.len() {
                lemma_string_len_bound(src, i + 2);
            }
        } else {
            lemma_string_len_bound(src, i + 1);
        }
    }
}

/// Every token's line is one more than the number of newlines that precede
/// the offset at which the token starts.
pub proof fn lemma_token_lines(src: Seq<char>)
    ensures
        lex(src).starts.len() == lex(src).toks.len(),
        forall|k: int|
            0 <= k < lex(src).toks.len() ==> {
                &&& 0 <= #[trigger] lex(src).starts[k] <= src.len()
                &&& lex(src).toks[k].line == 1 + newlines(src.take(lex(src).starts[k]))
            },
{
    lemma_lines_from(src, 0);
    assert forall|k: int| 0 <= k < lex(src).toks.len() implies {
        &&& 0 <= #[trigger] lex(src).starts[k] <= src.len()
        &&& lex(src).toks[k].line == 1 + newlines(src.take(lex(src).starts[k]))
    } by {
        assert(lines_agree(src, 0, lex(src)));
    }
}

} // verus!

verus! {

/// Where a token starts with `<`, `=` or `>`, the scanner takes the
/// two-character operator `<=`, `<-`, `=>` or `>=` whole when the next
/// character completes it, and the one-character operator otherwise; the
/// scan then goes on right after the operator.
pub proof fn lemma_operator_scan(src: Seq<char>, i: int)
    requires
        0 <= i < src.len(),
        src[i] == '<' || src[i] == '=' || src[i] == '>',
    ensures
        ({
            let two = (src[i] == '<' && (at(src, i + 1, '=') || at(src, i + 1, '-'))) || (src[i]
                == '=' && at(src, i + 1, '>')) || (src[i] == '>' && at(src, i + 1, '='));
            let n: int = if two {
                2
            } else {
                1
            };
            let m = lex_from(src, i);
            &&& m.toks.len() == lex_from(src, i + n).toks.len() + 1
            &&& m.toks[0].lexeme == src.subrange(i, i + n)
            &&& m.toks[0].tokentype == (if src[i] == '<' {
                if at(src, i + 1, '=') {
                    TokenType::LESSEQUAL
                } else if at(src, i + 1, '-') {
                    TokenType::ASSIGN
                } else {
                    TokenType::LESSTHAN
                }
            } else if src[i] == '=' {
                if two {
                    TokenType::RARROW
                } else {
                    TokenType::EQUALITY
                }
            } else if two {
                TokenType::MOREEQUAL
            } else {
                TokenType::MORETHAN
            })
            &&& m.toks.drop_first() == lex_from(src, i + n).toks
        }),
{
    reveal(lex_from);
    let m = lex_from(src, i);
    let two = (src[i] == '<' && (at(src, i + 1, '=') || at(src, i + 1, '-'))) || (src[i] == '='
        && at(src, i + 1, '>')) || (src[i] == '>' && at(src, i + 1, '='));
    let n: int = if two {
        2
    } else {
        1
    };
    assert(m.toks.drop_first() =~= lex_from(src, i + n).toks);
}

} // verus!
