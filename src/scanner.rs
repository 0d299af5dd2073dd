use vstd::prelude::*;
use crate::lexical::{
    comment_len, digits_len, lex, lex_from, line_at, newlines, rest_of_line, string_len, symbol,
    word_len, end_of_input, lexeme_end, is_digit, is_alpha, lemma_lex_unexpected, is_alnum, is_blank, at, LexDiag, LexError, ScanModel,
};
use crate::text::{chars_of, string_of_range};
use crate::token::{keyword_in, word_kind, Token, TokenModel, TokenType};

verus! {

/// A lexical error and the line on which it was found.
#[derive(Debug, Clone, Copy, PartialEq, Eq, Structural)]
pub struct ScanDiagnostic {
    pub line: usize,
    pub error: LexError,
}

/// A failed scan: every token scanned (with `ERROR` tokens inline) and every
/// error, in the order of the text.
#[derive(Debug, Clone)]
pub struct ScanFailure {
    pub tokens: Vec<Token>,
    pub errors: Vec<ScanDiagnostic>,
}

pub open spec fn tokens_view(ts: Seq<Token>) -> Seq<TokenModel> {
    ts.map_values(|t: Token| t@)
}

pub open spec fn diags_view(ds: Seq<ScanDiagnostic>) -> Seq<LexDiag> {
    ds.map_values(|d: ScanDiagnostic| LexDiag { line: d.line as int, error: d.error })
}

/// The scanner's result on `src`, as `lex` describes it: `Ok` with the tokens
/// where the text has no lexical error, else `Err` with tokens and errors.
pub open spec fn scan_result_matches(src: Seq<char>, r: Result<Vec<Token>, ScanFailure>) -> bool {
    let m = lex(src);
    match r {
        Ok(ts) => m.errs.len() == 0 && tokens_view(ts@) == m.toks,
        Err(f) => m.errs.len() > 0 && tokens_view(f.tokens@) == m.toks && diags_view(f.errors@)
            == m.errs,
    }
}

pub proof fn lemma_newlines_bound(s: Seq<char>)
    ensures
        newlines(s) <= s.len(),
    decreases s.len(),
{
    if s.len() > 0 {
        lemma_newlines_bound(s.drop_last());
    }
}

pub proof fn lemma_line_step(src: Seq<char>, k: int)
    requires
        0 <= k < src.len(),
    ensures
        line_at(src, k + 1) == line_at(src, k) + if src[k] == '\n' {
            1int
        } else {
            0int
        },
        line_at(src, k) <= k + 1,
{
    assert(src.take(k + 1).drop_last() =~= src.take(k));
    lemma_newlines_bound(src.take(k));
}

/// One step of the scanner: the cursor moved past the one lexeme that starts
/// at it, at most one token was appended, and what was appended is what
/// `lex_from` yields between the old cursor and the new one.
pub open spec fn stepped(
    s0: Scanner,
    s1: Scanner,
    t0: Seq<Token>,
    t1: Seq<Token>,
    e0: Seq<ScanDiagnostic>,
    e1: Seq<ScanDiagnostic>,
) -> bool {
    &&& s1@ == s0@
    &&& s0.cursor() < s1.cursor() <= s1@.len()
    &&& s1.cursor() == lexeme_end(s0@, s0.cursor())
    &&& (t1 == t0 || (t1.len() == t0.len() + 1 && t1.drop_last() == t0))
    &&& s1.line_no() == line_at(s1@, s1.cursor() as int)
    &&& tokens_view(t1) + lex_from(s1@, s1.cursor() as int).toks == tokens_view(t0) + lex_from(
        s0@,
        s0.cursor() as int,
    ).toks
    &&& diags_view(e1) + lex_from(s1@, s1.cursor() as int).errs == diags_view(e0) + lex_from(
        s0@,
        s0.cursor() as int,
    ).errs
}

/// The scanner over one source text.
pub struct Scanner {
    line: usize,
    start: usize,
    current: usize,
    source: Vec<char>,
}

impl Scanner {
    pub closed spec fn cursor(&self) -> int {
        self.current as int
    }

    pub closed spec fn line_no(&self) -> int {
        self.line as int
    }
}

impl View for Scanner {
    type V = Seq<char>;

    closed spec fn view(&self) -> Seq<char> {
        self.source@
    }
}

fn word_len_exec(src: &Vec<char>, i: usize) -> (n: usize)
    requires
        i <= src@.len(),
    ensures
        n == word_len(src@, i as int),
        i + n <= src@.len(),
{
    let mut k: usize = i;
    while k < src.len() && (src[k] == '_' || ('a' <= src[k] && src[k] <= 'z') || ('A' <= src[k]
        && src[k] <= 'Z') || ('0' <= src[k] && src[k] <= '9'))
        invariant
            i <= k <= src@.len(),
            word_len(src@, i as int) == (k - i) + word_len(src@, k as int),
        decreases src@.len() - k,
    {
        k = k + 1;
    }
    k - i
}

fn digits_len_exec(src: &Vec<char>, i: usize) -> (n: usize)
    requires
        i <= src@.len(),
    ensures
        n == digits_len(src@, i as int),
        i + n <= src@.len(),
{
    let mut k: usize = i;
    while k < src.len() && '0' <= src[k] && src[k] <= '9'
        invariant
            i <= k <= src@.len(),
            digits_len(src@, i as int) == (k - i) + digits_len(src@, k as int),
        decreases src@.len() - k,
    {
        k = k + 1;
    }
    k - i
}

fn rest_of_line_exec(src: &Vec<char>, i: usize) -> (n: usize)
    requires
        i <= src@.len(),
    ensures
        n == rest_of_line(src@, i as int),
        i + n <= src@.len(),
{
    let mut k: usize = i;
    while k < src.len() && src[k] != '\n'
        invariant
            i <= k <= src@.len(),
            rest_of_line(src@, i as int) == (k - i) + rest_of_line(src@, k as int),
        decreases src@.len() - k,
    {
        k = k + 1;
    }
    k - i
}

fn string_len_exec(src: &Vec<char>, i: usize) -> (r: Option<usize>)
    requires
        i <= src@.len(),
    ensures
        match r {
            Some(n) => string_len(src@, i as int) == Some(n as nat) && i + n < src@.len(),
            None => string_len(src@, i as int) is None,
        },
{
    let mut k: usize = i;
    loop
        invariant
            i <= k <= src@.len(),
            match string_len(src@, k as int) {
                Some(n) => string_len(src@, i as int) == Some(((k - i) + n) as nat),
                None => string_len(src@, i as int) is None,
            },
        decreases src@.len() - k,
    {
        if k >= src.len() {
            return None;
        } else if src[k] == '"' {
            return Some(k - i);
        } else if src[k] == '\\' {
            if k + 1 < src.len() {
                k = k + 2;
            } else {
                return None;
            }
        } else {
            k = k + 1;
        }
    }
}

fn comment_len_exec(src: &Vec<char>, i: usize) -> (r: Option<usize>)
    requires
        i <= src@.len(),
    ensures
        match r {
            Some(n) => comment_len(src@, i as int, 0) == Some(n as nat) && i + n <= src@.len(),
            None => comment_len(src@, i as int, 0) is None,
        },
{
    let mut k: usize = i;
    let mut depth: usize = 0;
    loop
        invariant
            i <= k <= src@.len(),
            depth <= k,
            match comment_len(src@, k as int, depth as nat) {
                Some(n) => comment_len(src@, i as int, 0) == Some(((k - i) + n) as nat),
                None => comment_len(src@, i as int, 0) is None,
            },
        decreases src@.len() - k,
    {
        if k >= src.len() {
            return None;
        } else if src[k] == '(' && k + 1 < src.len() && src[k + 1] == '*' {
            k = k + 2;
            depth = depth + 1;
        } else if src[k] == '*' && k + 1 < src.len() && src[k + 1] == ')' {
            if depth == 0 {
                return Some(k + 2 - i);
            }
            k = k + 2;
            depth = depth - 1;
        } else {
            k = k + 1;
        }
    }
}

fn symbol_exec(src: &Vec<char>, i: usize) -> (r: Option<(TokenType, usize)>)
    requires
        i < src@.len(),
    ensures
        match r {
            Some((kind, n)) => symbol(src@, i as int) == Some((kind, n as nat)) && i + n
                <= src@.len(),
            None => symbol(src@, i as int) is None,
        },
{
    let c = src[i];
    let next = if i < src.len() - 1 {
        src[i + 1]
    } else {
        ' '
    };
    if c == '(' {
        Some((TokenType::LEFTPAREN, 1))
    } else if c == ')' {
        Some((TokenType::RIGHTPAREN, 1))
    } else if c == '{' {
        Some((TokenType::LEFTBRACE, 1))
    } else if c == '}' {
        Some((TokenType::RIGHTBRACE, 1))
    } else if c == ';' {
        Some((TokenType::SEMICOLON, 1))
    } else if c == ':' {
        Some((TokenType::COLON, 1))
    } else if c == ',' {
        Some((TokenType::COMMA, 1))
    } else if c == '.' {
        Some((TokenType::DOT, 1))
    } else if c == '@' {
        Some((TokenType::AT, 1))
    } else if c == '~' {
        Some((TokenType::TILDA, 1))
    } else if c == '+' {
        Some((TokenType::PLUS, 1))
    } else if c == '-' {
        Some((TokenType::MINUS, 1))
    } else if c == '*' {
        Some((TokenType::STAR, 1))
    } else if c == '/' {
        Some((TokenType::SLASH, 1))
    } else if c == '=' {
        if next == '>' {
            Some((TokenType::RARROW, 2))
        } else {
            Some((TokenType::EQUALITY, 1))
        }
    } else if c == '>' {
        if next == '=' {
            Some((TokenType::MOREEQUAL, 2))
        } else {
            Some((TokenType::MORETHAN, 1))
        }
    } else if c == '<' {
        if next == '=' {
            Some((TokenType::LESSEQUAL, 2))
        } else if next == '-' {
            Some((TokenType::ASSIGN, 2))
        } else {
            Some((TokenType::LESSTHAN, 1))
        }
    } else {
        None
    }
}

fn contains_nul(src: &Vec<char>, lo: usize, hi: usize) -> (r: bool)
    requires
        lo <= hi <= src@.len(),
    ensures
        r == src@.subrange(lo as int, hi as int).contains('\0'),
{
    let ghost body = src@.subrange(lo as int, hi as int);
    let mut k: usize = lo;
    while k < hi
        invariant
            lo <= k <= hi <= src@.len(),
            body == src@.subrange(lo as int, hi as int),
            forall|j: int| 0 <= j < k - lo ==> body[j] != '\0',
        decreases hi - k,
    {
        if src[k] == '\0' {
            assert(body[k - lo] == '\0');
            return true;
        }
        k = k + 1;
    }
    false
}

impl Scanner {
    pub fn new(source: String) -> (r: Scanner)
        requires
            source@.len() < usize::MAX,
        ensures
            r@ == source@,
    {
        let chars = chars_of(source.as_str());
        Scanner { line: 1, start: 0, current: 0, source: chars }
    }

    /// Moves the cursor forward to `to`, counting the newlines passed.
    fn move_to(&mut self, to: usize)
        requires
            old(self).current <= to <= old(self)@.len(),
            old(self)@.len() < usize::MAX,
            old(self).line == line_at(old(self)@, old(self).current as int),
        ensures
            final(self).source == old(self).source,
            final(self).start == old(self).start,
            final(self).current == to,
            final(self).line == line_at(final(self)@, to as int),
    {
        while self.current < to
            invariant
                self.source == old(self).source,
                self.start == old(self).start,
                old(self).current <= self.current <= to <= self@.len(),
                self@.len() < usize::MAX,
                self.line == line_at(self@, self.current as int),
            decreases to - self.current,
        {
            proof {
                lemma_line_step(self@, self.current as int);
            }
            if self.source[self.current] == '\n' {
                self.line = self.line + 1;
            }
            self.current = self.current + 1;
        }
    }

    /// Appends the token `kind` for the text `[lo, hi)` on the current line,
    /// with that text as its literal where `with_literal` holds.
    fn emit(&self, tokens: &mut Vec<Token>, kind: TokenType, lo: usize, hi: usize, with_literal: bool)
        requires
            lo <= hi <= self@.len(),
        ensures
            final(tokens)@.len() == old(tokens)@.len() + 1,
            final(tokens)@.drop_last() == old(tokens)@,
            tokens_view(final(tokens)@) == tokens_view(old(tokens)@).push(
                TokenModel {
                    line: self.line as int,
                    lexeme: self@.subrange(lo as int, hi as int),
                    tokentype: kind,
                    literal: if with_literal {
                        Some(self@.subrange(lo as int, hi as int))
                    } else {
                        None
                    },
                },
            ),
    {
        let lexeme = string_of_range(&self.source, lo, hi);
        let literal = if with_literal {
            Some(lexeme.clone())
        } else {
            None
        };
        let ghost t0 = tokens@;
        tokens.push(Token::new(self.line, lexeme, kind, literal));
        assert(tokens_view(tokens@) =~= tokens_view(t0).push(tokens@.last()@));
        assert(tokens@.drop_last() =~= t0);
    }

    /// Records the error `e` on the current line.
    fn report(&mut self, errors: &mut Vec<ScanDiagnostic>, e: LexError)
        ensures
            final(self).source == old(self).source,
            final(self).current == old(self).current,
            final(self).line == old(self).line,
            diags_view(final(errors)@) == diags_view(old(errors)@).push(
                LexDiag { line: old(self).line as int, error: e },
            ),
    {
        let ghost e0 = errors@;
        errors.push(ScanDiagnostic { line: self.line, error: e });
        assert(diags_view(errors@) =~= diags_view(e0).push(LexDiag { line: self.line as int, error: e }));
    }

    /// Scans a string literal whose opening quote is at the cursor.
    fn scan_string(&mut self, tokens: &mut Vec<Token>, errors: &mut Vec<ScanDiagnostic>)
        requires
            old(self).current < old(self)@.len() < usize::MAX,
            old(self)@[old(self).current as int] == '"',
            old(self).line == line_at(old(self)@, old(self).current as int),
        ensures
            stepped(*old(self), *final(self), old(tokens)@, final(tokens)@, old(errors)@, final(errors)@),
    {
        let ghost src = self@;
        let ghost t0 = tokens_view(tokens@);
        let ghost e0 = diags_view(errors@);
        let i = self.current;
        let len = self.source.len();
        let ghost rest: ScanModel = lex_from(src, i as int);
        let body_len = string_len_exec(&self.source, i + 1);
        match body_len {
            Some(n) => {
                if contains_nul(&self.source, i + 1, i + 1 + n) {
                    self.report(errors, LexError::NulInString);
                    self.emit(tokens, TokenType::ERROR, i, i + 2 + n, false);
                    self.move_to(i + 2 + n);
                    proof {
                        reveal(lex_from);
                        let after = lex_from(src, i + 2 + n);
                        assert(tokens_view(tokens@) + after.toks =~= t0 + rest.toks);
                        assert(diags_view(errors@) + after.errs =~= e0 + rest.errs);
                    }
                } else {
                    self.emit(tokens, TokenType::STRING, i + 1, i + 1 + n, true);
                    self.move_to(i + 2 + n);
                    proof {
                        reveal(lex_from);
                        let after = lex_from(src, i + 2 + n);
                        assert(tokens_view(tokens@) + after.toks =~= t0 + rest.toks);
                    }
                }
            },
            None => {
                self.report(errors, LexError::UnterminatedString);
                self.emit(tokens, TokenType::ERROR, i, len, false);
                self.move_to(len);
                proof {
                    reveal(lex_from);
                    let after = lex_from(src, len as int);
                    assert(after == end_of_input(src));
                    assert(tokens_view(tokens@) + after.toks =~= t0 + rest.toks);
                    assert(diags_view(errors@) + after.errs =~= e0 + rest.errs);
                }
            },
        }
    }

    /// Scans a word (an identifier or a keyword) or an integer literal that
    /// starts at the cursor.
    fn scan_word(&mut self, tokens: &mut Vec<Token>, errors: &Vec<ScanDiagnostic>)
        requires
            old(self).current < old(self)@.len() < usize::MAX,
            is_alnum(old(self)@[old(self).current as int]),
            old(self).line == line_at(old(self)@, old(self).current as int),
        ensures
            stepped(*old(self), *final(self), old(tokens)@, final(tokens)@, errors@, errors@),
    {
        let ghost src = self@;
        let ghost t0 = tokens_view(tokens@);
        let i = self.current;
        let c = self.source[i];
        let ghost rest: ScanModel = lex_from(src, i as int);
        if '0' <= c && c <= '9' {
            let n = digits_len_exec(&self.source, i + 1);
            self.emit(tokens, TokenType::INTEGER, i, i + 1 + n, true);
            self.move_to(i + 1 + n);
            proof {
                reveal(lex_from);
                let after = lex_from(src, i + 1 + n);
                assert(tokens_view(tokens@) + after.toks =~= t0 + rest.toks);
            }
        } else {
            let n = word_len_exec(&self.source, i + 1);
            let kind = match keyword_in(&self.source, i, i + 1 + n, false) {
                Some(k) => k,
                None => TokenType::IDENTIFIER,
            };
            assert(kind == word_kind(src.subrange(i as int, i + 1 + n)));
            self.emit(tokens, kind, i, i + 1 + n, true);
            self.move_to(i + 1 + n);
            proof {
                reveal(lex_from);
                let after = lex_from(src, i + 1 + n);
                assert(tokens_view(tokens@) + after.toks =~= t0 + rest.toks);
            }
        }
    }

    /// Scans punctuation or an operator at the cursor, or reports the
    /// character there as unexpected.
    fn scan_symbol(&mut self, tokens: &mut Vec<Token>, errors: &mut Vec<ScanDiagnostic>)
        requires
            old(self).current < old(self)@.len() < usize::MAX,
            !is_blank(old(self)@[old(self).current as int]),
            !is_alnum(old(self)@[old(self).current as int]),
            old(self)@[old(self).current as int] != '"',
            !(old(self)@[old(self).current as int] == '(' && at(old(self)@, old(self).current + 1, '*')),
            !(old(self)@[old(self).current as int] == '-' && at(old(self)@, old(self).current + 1, '-')),
            old(self).line == line_at(old(self)@, old(self).current as int),
        ensures
            stepped(*old(self), *final(self), old(tokens)@, final(tokens)@, old(errors)@, final(errors)@),
    {
        let ghost src = self@;
        let ghost t0 = tokens_view(tokens@);
        let ghost e0 = diags_view(errors@);
        let i = self.current;
        let c = self.source[i];
        let ghost rest: ScanModel = lex_from(src, i as int);
        let sym = symbol_exec(&self.source, i);
        match sym {
            Some((kind, n)) => {
                self.emit(tokens, kind, i, i + n, false);
                self.move_to(i + n);
                proof {
                    reveal(lex_from);
                    let after = lex_from(src, i + n);
                    assert(tokens_view(tokens@) + after.toks =~= t0 + rest.toks);
                }
            },
            None => {
                self.report(errors, LexError::UnexpectedChar(c as u32));
                self.move_to(i + 1);
                proof {
                    reveal(lex_from);
                    let after = lex_from(src, i + 1);
                    lemma_lex_unexpected(src, i as int);
                    assert(diags_view(errors@) + after.errs =~= e0 + rest.errs);
                }
            },
        }
    }

    /// Scans the next lexeme from the cursor, appending what it yields.
    fn scan_token(&mut self, tokens: &mut Vec<Token>, errors: &mut Vec<ScanDiagnostic>)
        requires
            old(self).current < old(self)@.len() < usize::MAX,
            old(self).line == line_at(old(self)@, old(self).current as int),
        ensures
            stepped(*old(self), *final(self), old(tokens)@, final(tokens)@, old(errors)@, final(errors)@),
    {
        let ghost src = self@;
        let ghost e0 = diags_view(errors@);
        let i = self.current;
        let len = self.source.len();
        self.start = i;
        let c = self.source[i];
        let next = if i < len - 1 {
            self.source[i + 1]
        } else {
            ' '
        };
        proof {
            lemma_line_step(src, i as int);
            reveal(lex_from);
        }
        if c == ' ' || c == '\t' || c == '\r' || c == '\n' {
            self.move_to(i + 1);
        } else if c == '(' && next == '*' {
            match comment_len_exec(&self.source, i + 2) {
                Some(n) => {
                    self.move_to(i + 2 + n);
                },
                None => {
                    self.report(errors, LexError::UnterminatedComment);
                    self.move_to(len);
                    proof {
                        reveal(lex_from);
                        let after = lex_from(src, len as int);
                        assert(after == end_of_input(src));
                        assert(diags_view(errors@) + after.errs =~= e0 + lex_from(src, i as int).errs);
                    }
                },
            }
        } else if c == '-' && next == '-' {
            let n = rest_of_line_exec(&self.source, i + 2);
            self.move_to(i + 2 + n);
        } else if c == '"' {
            self.scan_string(tokens, errors);
        } else if c == '_' || ('a' <= c && c <= 'z') || ('A' <= c && c <= 'Z') || ('0' <= c && c <= '9') {
            self.scan_word(tokens, errors);
        } else {
            self.scan_symbol(tokens, errors);
        }
    }

    /// Scans the whole source text. Every lexical error is recorded and the
    /// scan goes on after it; the token list always ends with an `EOF` token.
    pub fn scan_tokens(&mut self) -> (r: Result<Vec<Token>, ScanFailure>)
        requires
            old(self)@.len() < usize::MAX,
        ensures
            final(self)@ == old(self)@,
            scan_result_matches(old(self)@, r),
    {
        let ghost src = self@;
        let mut tokens: Vec<Token> = Vec::new();
        let mut errors: Vec<ScanDiagnostic> = Vec::new();
        self.current = 0;
        self.start = 0;
        self.line = 1;
        proof {
            assert(src.take(0) =~= Seq::<char>::empty());
            assert(tokens_view(tokens@) + lex_from(src, 0).toks =~= lex(src).toks);
            assert(diags_view(errors@) + lex_from(src, 0).errs =~= lex(src).errs);
        }
        while self.current < self.source.len()
            invariant
                self@ == src,
                self@.len() < usize::MAX,
                self.current <= self@.len(),
                self.line == line_at(src, self.current as int),
                tokens_view(tokens@) + lex_from(src, self.current as int).toks == lex(src).toks,
                diags_view(errors@) + lex_from(src, self.current as int).errs == lex(src).errs,
            decreases self@.len() - self.current,
        {
            self.scan_token(&mut tokens, &mut errors);
        }
        let ghost t1 = tokens_view(tokens@);
        tokens.push(Token::new(self.line, String::new(), TokenType::EOF, None));
        proof {
            reveal(lex_from);
            assert(tokens_view(tokens@) =~= t1 + lex_from(src, self.current as int).toks);
            assert(diags_view(errors@) =~= lex(src).errs);
        }
        if errors.len() > 0 {
            Err(ScanFailure { tokens, errors })
        } else {
            Ok(tokens)
        }
    }
}

} // verus!
