use vstd::prelude::*;
use crate::text::chars_of;

verus! {

/// The lexical categories of the language.
#[derive(Debug, Clone, Copy, PartialEq, Eq, Structural)]
pub enum TokenType {
    KEYCLASS,
    KEYIF,
    KEYELSE,
    KEYTHEN,
    KEYFI,
    KEYIN,
    KEYINHERITS,
    KEYLET,
    KEYLOOP,
    KEYPOOL,
    KEYWHILE,
    KEYCASE,
    KEYESAC,
    KEYNEW,
    KEYOF,
    KEYTRUE,
    KEYFALSE,
    KEYDELETE,
    INTEGER,
    IDENTIFIER,
    STRING,
    LEFTPAREN,
    RIGHTPAREN,
    LEFTBRACE,
    RIGHTBRACE,
    SEMICOLON,
    COLON,
    COMMA,
    DOT,
    AT,
    TILDA,
    ISVOID,
    STAR,
    SLASH,
    PLUS,
    MINUS,
    NOT,
    LESSTHAN,
    MORETHAN,
    ASSIGN,
    EQUALITY,
    LESSEQUAL,
    MOREEQUAL,
    RARROW,
    EOF,
    ERROR,
}

/// A scanned token: its category, the text it was scanned from, the line on
/// which it starts, and, for identifiers, keywords, integers and strings, its
/// literal text.
#[derive(Debug, Clone)]
pub struct Token {
    pub line: usize,
    pub lexeme: String,
    pub tokentype: TokenType,
    pub literal: Option<String>,
}

/// What a token holds, over mathematical values.
pub struct TokenModel {
    pub line: int,
    pub lexeme: Seq<char>,
    pub tokentype: TokenType,
    pub literal: Option<Seq<char>>,
}

pub open spec fn opt_view(o: Option<String>) -> Option<Seq<char>> {
    match o {
        Some(s) => Some(s@),
        None => None,
    }
}

impl View for Token {
    type V = TokenModel;

    open spec fn view(&self) -> TokenModel {
        TokenModel {
            line: self.line as int,
            lexeme: self.lexeme@,
            tokentype: self.tokentype,
            literal: opt_view(self.literal),
        }
    }
}

/// `c` equals the lowercase letter or symbol `k`, ignoring the case of ASCII letters.
pub open spec fn char_matches(c: char, k: char) -> bool {
    c == k || ('A' <= c && c <= 'Z' && (c as u32) + 32 == (k as u32))
}

/// `w` spells the lowercase word `k`, ignoring the case of ASCII letters.
pub open spec fn word_matches(w: Seq<char>, k: Seq<char>) -> bool {
    w.len() == k.len() && forall|i: int| 0 <= i < w.len() ==> char_matches(#[trigger] w[i], k[i])
}

/// `w` is the keyword spelling `k`: exactly, or ignoring the case of ASCII
/// letters where `exact` does not hold.
pub open spec fn kw_matches(w: Seq<char>, k: Seq<char>, exact: bool) -> bool {
    if exact {
        w == k
    } else {
        word_matches(w, k)
    }
}

/// The keyword category of a word, if it is one. With `exact`, only the
/// lowercase spellings count; without it, keywords are recognised in any
/// case, but the boolean literals still only in lowercase.
pub open spec fn keyword_of(w: Seq<char>, exact: bool) -> Option<TokenType> {
    if kw_matches(w, seq!['d', 'e', 'l', 'e', 't', 'e'], exact) {
        Some(TokenType::KEYDELETE)
    } else if kw_matches(w, seq!['i', 's', 'v', 'o', 'i', 'd'], exact) {
        Some(TokenType::ISVOID)
    } else if kw_matches(w, seq!['c', 'l', 'a', 's', 's'], exact) {
        Some(TokenType::KEYCLASS)
    } else if kw_matches(w, seq!['i', 'f'], exact) {
        Some(TokenType::KEYIF)
    } else if kw_matches(w, seq!['e', 'l', 's', 'e'], exact) {
        Some(TokenType::KEYELSE)
    } else if kw_matches(w, seq!['t', 'h', 'e', 'n'], exact) {
        Some(TokenType::KEYTHEN)
    } else if kw_matches(w, seq!['f', 'i'], exact) {
        Some(TokenType::KEYFI)
    } else if kw_matches(w, seq!['i', 'n'], exact) {
        Some(TokenType::KEYIN)
    } else if kw_matches(w, seq!['l', 'e', 't'], exact) {
        Some(TokenType::KEYLET)
    } else if kw_matches(w, seq!['l', 'o', 'o', 'p'], exact) {
        Some(TokenType::KEYLOOP)
    } else if kw_matches(w, seq!['p', 'o', 'o', 'l'], exact) {
        Some(TokenType::KEYPOOL)
    } else if kw_matches(w, seq!['w', 'h', 'i', 'l', 'e'], exact) {
        Some(TokenType::KEYWHILE)
    } else if kw_matches(w, seq!['c', 'a', 's', 'e'], exact) {
        Some(TokenType::KEYCASE)
    } else if kw_matches(w, seq!['e', 's', 'a', 'c'], exact) {
        Some(TokenType::KEYESAC)
    } else if kw_matches(w, seq!['n', 'e', 'w'], exact) {
        Some(TokenType::KEYNEW)
    } else if kw_matches(w, seq!['o', 'f'], exact) {
        Some(TokenType::KEYOF)
    } else if kw_matches(w, seq!['n', 'o', 't'], exact) {
        Some(TokenType::NOT)
    } else if kw_matches(w, seq!['i', 'n', 'h', 'e', 'r', 'i', 't', 's'], exact) {
        Some(TokenType::KEYINHERITS)
    } else if w == seq!['t', 'r', 'u', 'e'] {
        Some(TokenType::KEYTRUE)
    } else if w == seq!['f', 'a', 'l', 's', 'e'] {
        Some(TokenType::KEYFALSE)
    } else {
        None
    }
}

/// The keyword table: the category of a word spelled exactly as a keyword.
pub open spec fn keyword_table(w: Seq<char>) -> Option<TokenType> {
    keyword_of(w, true)
}

/// The keyword category of a scanned word, whatever the case of its letters.
pub open spec fn keyword_kind(w: Seq<char>) -> Option<TokenType> {
    keyword_of(w, false)
}

/// The category of a scanned word: its keyword category, else `IDENTIFIER`.
pub open spec fn word_kind(w: Seq<char>) -> TokenType {
    match keyword_kind(w) {
        Some(k) => k,
        None => TokenType::IDENTIFIER,
    }
}

fn char_matches_exec(c: char, k: char) -> (r: bool)
    ensures
        r == char_matches(c, k),
{
    c == k || ('A' <= c && c <= 'Z' && (c as u32) + 32 == (k as u32))
}

/// Whether `cs[lo..hi]` spells `k`, ignoring case; `exact` asks for the same case.
fn range_is(cs: &Vec<char>, lo: usize, hi: usize, k: &Vec<char>, exact: bool) -> (r: bool)
    requires
        lo <= hi <= cs@.len(),
    ensures
        exact ==> r == (cs@.subrange(lo as int, hi as int) == k@),
        !exact ==> r == word_matches(cs@.subrange(lo as int, hi as int), k@),
{
    let ghost w = cs@.subrange(lo as int, hi as int);
    if hi - lo != k.len() {
        assert(exact ==> w.len() != k@.len());
        return false;
    }
    let mut i: usize = 0;
    while i < k.len()
        invariant
            lo <= hi <= cs@.len(),
            hi - lo == k@.len(),
            w == cs@.subrange(lo as int, hi as int),
            0 <= i <= k@.len(),
            exact ==> forall|j: int| 0 <= j < i ==> w[j] == k@[j],
            !exact ==> forall|j: int| 0 <= j < i ==> char_matches(#[trigger] w[j], k@[j]),
        decreases k.len() - i,
    {
        let c = cs[lo + i];
        let ok = if exact {
            c == k[i]
        } else {
            char_matches_exec(c, k[i])
        };
        if !ok {
            assert(exact ==> w[i as int] != k@[i as int]);
            assert(!exact ==> !char_matches(w[i as int], k@[i as int]));
            return false;
        }
        i = i + 1;
    }
    assert(exact ==> w =~= k@);
    true
}

/// The keyword category of `cs[lo..hi]`, if it is a keyword.
pub(crate) fn keyword_in(cs: &Vec<char>, lo: usize, hi: usize, exact: bool) -> (r: Option<TokenType>)
    requires
        lo <= hi <= cs@.len(),
    ensures
        r == keyword_of(cs@.subrange(lo as int, hi as int), exact),
{
    if range_is(cs, lo, hi, &vec!['d', 'e', 'l', 'e', 't', 'e'], exact) {
        Some(TokenType::KEYDELETE)
    } else if range_is(cs, lo, hi, &vec!['i', 's', 'v', 'o', 'i', 'd'], exact) {
        Some(TokenType::ISVOID)
    } else if range_is(cs, lo, hi, &vec!['c', 'l', 'a', 's', 's'], exact) {
        Some(TokenType::KEYCLASS)
    } else if range_is(cs, lo, hi, &vec!['i', 'f'], exact) {
        Some(TokenType::KEYIF)
    } else if range_is(cs, lo, hi, &vec!['e', 'l', 's', 'e'], exact) {
        Some(TokenType::KEYELSE)
    } else if range_is(cs, lo, hi, &vec!['t', 'h', 'e', 'n'], exact) {
        Some(TokenType::KEYTHEN)
    } else if range_is(cs, lo, hi, &vec!['f', 'i'], exact) {
        Some(TokenType::KEYFI)
    } else if range_is(cs, lo, hi, &vec!['i', 'n'], exact) {
        Some(TokenType::KEYIN)
    } else if range_is(cs, lo, hi, &vec!['l', 'e', 't'], exact) {
        Some(TokenType::KEYLET)
    } else if range_is(cs, lo, hi, &vec!['l', 'o', 'o', 'p'], exact) {
        Some(TokenType::KEYLOOP)
    } else if range_is(cs, lo, hi, &vec!['p', 'o', 'o', 'l'], exact) {
        Some(TokenType::KEYPOOL)
    } else if range_is(cs, lo, hi, &vec!['w', 'h', 'i', 'l', 'e'], exact) {
        Some(TokenType::KEYWHILE)
    } else if range_is(cs, lo, hi, &vec!['c', 'a', 's', 'e'], exact) {
        Some(TokenType::KEYCASE)
    } else if range_is(cs, lo, hi, &vec!['e', 's', 'a', 'c'], exact) {
        Some(TokenType::KEYESAC)
    } else if range_is(cs, lo, hi, &vec!['n', 'e', 'w'], exact) {
        Some(TokenType::KEYNEW)
    } else if range_is(cs, lo, hi, &vec!['o', 'f'], exact) {
        Some(TokenType::KEYOF)
    } else if range_is(cs, lo, hi, &vec!['n', 'o', 't'], exact) {
        Some(TokenType::NOT)
    } else if range_is(cs, lo, hi, &vec!['i', 'n', 'h', 'e', 'r', 'i', 't', 's'], exact) {
        Some(TokenType::KEYINHERITS)
    } else if range_is(cs, lo, hi, &vec!['t', 'r', 'u', 'e'], true) {
        Some(TokenType::KEYTRUE)
    } else if range_is(cs, lo, hi, &vec!['f', 'a', 'l', 's', 'e'], true) {
        Some(TokenType::KEYFALSE)
    } else {
        None
    }
}

impl Token {
    pub fn new(line: usize, lexeme: String, tokentype: TokenType, literal: Option<String>) -> (r:
        Token)
        ensures
            r.line == line,
            r.lexeme == lexeme,
            r.tokentype == tokentype,
            r.literal == literal,
    {
        Token { line, lexeme, tokentype, literal }
    }

    /// The keyword category of `lexeme`, if it is spelled exactly (in
    /// lowercase) as a keyword of the language.
    pub fn keyword(lexeme: &str) -> (r: Option<TokenType>)
        ensures
            r == keyword_table(lexeme@),
    {
        let cs = chars_of(lexeme);
        proof {
            assert(cs@.subrange(0, cs@.len() as int) =~= cs@);
        }
        keyword_in(&cs, 0, cs.len(), true)
    }

    /// A copy of this token.
    pub fn duplicate(&self) -> (r: Token)
        ensures
            r == *self,
    {
        let literal = match &self.literal {
            Some(s) => Some(s.clone()),
            None => None,
        };
        Token { line: self.line, lexeme: self.lexeme.clone(), tokentype: self.tokentype, literal }
    }
}

} // verus!

verus! {

/// Keywords are found whatever the case of their letters: any spelling of
/// `while` is the while keyword.
pub proof fn lemma_while_any_case(w: Seq<char>)
    requires
        word_matches(w, seq!['w', 'h', 'i', 'l', 'e']),
    ensures
        keyword_kind(w) == Some(TokenType::KEYWHILE),
{
    assert(char_matches(w[0], 'w'));
}

/// The boolean literals are found in lowercase only.
pub proof fn lemma_booleans_lowercase(w: Seq<char>)
    ensures
        keyword_kind(w) == Some(TokenType::KEYTRUE) ==> w == seq!['t', 'r', 'u', 'e'],
        keyword_kind(w) == Some(TokenType::KEYFALSE) ==> w == seq!['f', 'a', 'l', 's', 'e'],
{
}

} // verus!
