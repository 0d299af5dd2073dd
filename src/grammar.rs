use vstd::prelude::*;
use crate::ast::{ClassM, ExprM, FeatureM};
use crate::token::{Token, TokenModel, TokenType};

verus! {

/// A syntax error.
#[derive(Debug, Clone, Copy, PartialEq, Eq, Structural)]
pub enum SyntaxError {
    /// A token of this category was expected where another stands.
    Expected(TokenType),
    /// No expression starts at this token.
    ExpectedExpression,
    /// The left side of `<-` is not a bare identifier.
    InvalidAssignmentTarget,
    /// A feature name is followed by neither `(` nor `:`.
    IllegalFeature,
    /// A class or superclass name starts with a lowercase letter.
    LowercaseTypeName,
    /// Arguments follow an expression that is not a method name.
    NotCallable,
    /// A block holds no expression.
    EmptyBlock,
    /// A case expression has no branch.
    EmptyCase,
}

/// A syntax error and the line on which it was found.
#[derive(Debug, Clone, Copy, PartialEq, Eq, Structural)]
pub struct ParseDiagnostic {
    pub line: usize,
    pub error: SyntaxError,
}

/// The parser's state over a fixed token sequence: the cursor, whether it is
/// recovering from an error (panic mode), and the errors found so far.
pub struct PS {
    pub pos: int,
    pub panic: bool,
    pub errs: Seq<ParseDiagnostic>,
}

/// What remains to be read, as a termination measure.
pub open spec fn left(t: Seq<Token>, s: PS) -> int {
    if s.pos < t.len() {
        t.len() - s.pos
    } else {
        0
    }
}

/// The cursor stands on the last token (the end-of-input marker).
pub open spec fn at_end(t: Seq<Token>, s: PS) -> bool {
    s.pos >= t.len() - 1
}

pub open spec fn checks(t: Seq<Token>, s: PS, k: TokenType) -> bool {
    !at_end(t, s) && t[s.pos].tokentype == k
}

pub open spec fn adv(t: Seq<Token>, s: PS) -> PS {
    if at_end(t, s) {
        s
    } else {
        PS { pos: s.pos + 1, ..s }
    }
}

/// `b`, or `a` where `b` would move the cursor backwards (which no parse
/// step does; this keeps the recursion below visibly well founded).
pub open spec fn fwd(a: PS, b: PS) -> PS {
    if b.pos < a.pos {
        a
    } else {
        b
    }
}

pub open spec fn calm(s: PS) -> PS {
    PS { panic: false, ..s }
}

/// Records an error, unless in panic mode.
pub open spec fn report(s: PS, line: usize, e: SyntaxError) -> PS {
    if s.panic {
        s
    } else {
        PS { errs: s.errs.push(ParseDiagnostic { line, error: e }), ..s }
    }
}

/// Where recovery resumes from `pos`: just past the next `;`, or at the next
/// `class` keyword or the end of input.
pub open spec fn sync_pos(t: Seq<Token>, pos: int) -> int
    decreases t.len() - pos,
{
    if pos >= t.len() - 1 {
        pos
    } else if t[pos].tokentype == TokenType::SEMICOLON {
        pos + 1
    } else if t[pos].tokentype == TokenType::KEYCLASS {
        pos
    } else {
        sync_pos(t, pos + 1)
    }
}

/// A failure to find what the grammar asks for: outside panic mode, records
/// the error at the current token's line, enters panic mode and recovers by
/// moving to `sync_pos`. In panic mode recovery has already happened, so the
/// cursor stays where it put it, for the feature and class loops to resume.
pub open spec fn fail(t: Seq<Token>, s: PS, e: SyntaxError) -> PS {
    if s.panic {
        s
    } else {
        PS {
            pos: sync_pos(t, s.pos),
            panic: true,
            errs: s.errs.push(ParseDiagnostic { line: t[s.pos].line, error: e }),
        }
    }
}

/// The placeholder that stands for a token that was not found.
pub open spec fn missing() -> TokenModel {
    TokenModel { line: 0, lexeme: Seq::empty(), tokentype: TokenType::ERROR, literal: None }
}

/// Takes a token of category `k`, or fails. In panic mode it takes nothing,
/// so that the enclosing constructs unwind to the feature and class loops,
/// which resume where recovery stopped.
pub open spec fn consume(t: Seq<Token>, s: PS, k: TokenType) -> (TokenModel, PS) {
    if s.panic {
        (missing(), s)
    } else if checks(t, s, k) {
        (t[s.pos]@, adv(t, s))
    } else {
        (missing(), fail(t, s, SyntaxError::Expected(k)))
    }
}


/// In panic mode a consumption changes nothing: the cursor stays just past
/// the `;` (or at the `class` keyword) where recovery stopped, even where the
/// token there happens to be the one asked for.
pub proof fn lemma_consume_in_panic(t: Seq<Token>, s: PS, k: TokenType)
    requires
        s.panic,
    ensures
        consume(t, s, k) == (missing(), s),
{
}

/// The parser's initial state.
pub open spec fn start() -> PS {
    PS { pos: 0, panic: false, errs: Seq::empty() }
}

/// A class or superclass name that starts with a lowercase letter is reported.
pub open spec fn check_type_name(s: PS, name: TokenModel) -> PS {
    if name.lexeme.len() > 0 && 'a' <= name.lexeme[0] && name.lexeme[0] <= 'z' {
        report(s, name.line as usize, SyntaxError::LowercaseTypeName)
    } else {
        s
    }
}

/// After a feature (and its `;`): where recovery stopped at a `class` keyword
/// or the end of input, panic mode stays on and the class is left; else it ends.
pub open spec fn settle(t: Seq<Token>, s: PS) -> PS {
    if s.panic && !at_end(t, s) && !checks(t, s, TokenType::KEYCLASS) {
        calm(s)
    } else {
        s
    }
}


pub open spec fn is_comparison(k: TokenType) -> bool {
    k == TokenType::LESSTHAN || k == TokenType::LESSEQUAL || k == TokenType::MORETHAN || k
        == TokenType::MOREEQUAL || k == TokenType::EQUALITY
}

/// `expression ::= assignment`
#[verifier::opaque]
pub open spec fn expression(t: Seq<Token>, s: PS) -> (ExprM, PS)
    decreases left(t, s), 30nat,
{
    if s.pos >= t.len() {
        (ExprM::Error, s)
    } else {
        assignment(t, s)
    }
}

/// `assignment ::= not [<- assignment]`: `<-` associates to the right, and
/// its left side must be a bare identifier, else the error is reported at
/// the `<-` and the whole is an `Error` node.
#[verifier::opaque]
pub open spec fn assignment(t: Seq<Token>, s: PS) -> (ExprM, PS)
    decreases left(t, s), 29nat,
{
    if s.pos >= t.len() || s.panic {
        (ExprM::Error, s)
    } else {
        let (l, s1) = not_expr(t, s);
        let s1 = fwd(s, s1);
        if s1.panic || !checks(t, s1, TokenType::ASSIGN) {
            (l, s1)
        } else {
            let (r, s2) = assignment(t, adv(t, s1));
            match l {
                ExprM::ID(_) => (ExprM::Assign(Box::new(l), Box::new(r)), s2),
                _ => (ExprM::Error, report(s2, t[s1.pos].line, SyntaxError::InvalidAssignmentTarget)),
            }
        }
    }
}

/// `not ::= not not | comparison`
#[verifier::opaque]
pub open spec fn not_expr(t: Seq<Token>, s: PS) -> (ExprM, PS)
    decreases left(t, s), 28nat,
{
    if s.pos >= t.len() || s.panic {
        (ExprM::Error, s)
    } else if checks(t, s, TokenType::NOT) {
        let (e, s1) = not_expr(t, adv(t, s));
        (ExprM::Not(Box::new(e)), s1)
    } else {
        comparison(t, s)
    }
}

/// `comparison ::= term (op term)*`, left-associative.
#[verifier::opaque]
pub open spec fn comparison(t: Seq<Token>, s: PS) -> (ExprM, PS)
    decreases left(t, s), 27nat,
{
    if s.pos >= t.len() || s.panic {
        (ExprM::Error, s)
    } else {
        let (e, s1) = term(t, s);
        comparison_rest(t, fwd(s, s1), e)
    }
}

#[verifier::opaque]
pub open spec fn comparison_rest(t: Seq<Token>, s: PS, e: ExprM) -> (ExprM, PS)
    decreases left(t, s), 26nat,
{
    if s.pos >= t.len() || s.panic || at_end(t, s) || !is_comparison(t[s.pos].tokentype) {
        (e, s)
    } else {
        let op = t[s.pos]@;
        let (r, s1) = term(t, adv(t, s));
        let s1 = fwd(adv(t, s), s1);
        comparison_rest(t, s1, ExprM::Comparison(Box::new(e), op, Box::new(r)))
    }
}

/// `term ::= factor ((+|-) factor)*`, left-associative.
#[verifier::opaque]
pub open spec fn term(t: Seq<Token>, s: PS) -> (ExprM, PS)
    decreases left(t, s), 25nat,
{
    if s.pos >= t.len() || s.panic {
        (ExprM::Error, s)
    } else {
        let (e, s1) = factor(t, s);
        term_rest(t, fwd(s, s1), e)
    }
}

#[verifier::opaque]
pub open spec fn term_rest(t: Seq<Token>, s: PS, e: ExprM) -> (ExprM, PS)
    decreases left(t, s), 24nat,
{
    if s.pos >= t.len() || s.panic || !(checks(t, s, TokenType::PLUS) || checks(t, s, TokenType::MINUS)) {
        (e, s)
    } else {
        let op = t[s.pos]@;
        let (r, s1) = factor(t, adv(t, s));
        let s1 = fwd(adv(t, s), s1);
        term_rest(t, s1, ExprM::Arithmetic(Box::new(e), op, Box::new(r)))
    }
}

/// `factor ::= isvoid ((*|/) isvoid)*`, left-associative.
#[verifier::opaque]
pub open spec fn factor(t: Seq<Token>, s: PS) -> (ExprM, PS)
    decreases left(t, s), 23nat,
{
    if s.pos >= t.len() || s.panic {
        (ExprM::Error, s)
    } else {
        let (e, s1) = isvoid(t, s);
        factor_rest(t, fwd(s, s1), e)
    }
}

#[verifier::opaque]
pub open spec fn factor_rest(t: Seq<Token>, s: PS, e: ExprM) -> (ExprM, PS)
    decreases left(t, s), 22nat,
{
    if s.pos >= t.len() || s.panic || !(checks(t, s, TokenType::STAR) || checks(t, s, TokenType::SLASH)) {
        (e, s)
    } else {
        let op = t[s.pos]@;
        let (r, s1) = isvoid(t, adv(t, s));
        let s1 = fwd(adv(t, s), s1);
        factor_rest(t, s1, ExprM::Factor(Box::new(e), op, Box::new(r)))
    }
}

/// `isvoid ::= isvoid isvoid | unary`
#[verifier::opaque]
pub open spec fn isvoid(t: Seq<Token>, s: PS) -> (ExprM, PS)
    decreases left(t, s), 21nat,
{
    if s.pos >= t.len() || s.panic {
        (ExprM::Error, s)
    } else if checks(t, s, TokenType::ISVOID) {
        let (e, s1) = isvoid(t, adv(t, s));
        (ExprM::IsVoid(Box::new(e)), s1)
    } else {
        unary(t, s)
    }
}

/// `unary ::= ~ unary | primary suffix`
#[verifier::opaque]
pub open spec fn unary(t: Seq<Token>, s: PS) -> (ExprM, PS)
    decreases left(t, s), 20nat,
{
    if s.pos >= t.len() || s.panic {
        (ExprM::Error, s)
    } else if checks(t, s, TokenType::TILDA) {
        let (e, s1) = unary(t, adv(t, s));
        (ExprM::BitWiseNot(Box::new(e)), s1)
    } else {
        let (e, s1) = primary(t, s);
        suffix(t, fwd(s, s1), e)
    }
}

/// The calls that follow a primary expression, each wrapping what came
/// before: `(args)` on it directly (reported as not callable unless the
/// previous token is an identifier), `@TYPE.ID(args)`, and `.ID(args)`.
#[verifier::opaque]
pub open spec fn suffix(t: Seq<Token>, s: PS, e: ExprM) -> (ExprM, PS)
    decreases left(t, s), 19nat,
{
    if s.pos >= t.len() || s.panic {
        (e, s)
    } else if checks(t, s, TokenType::AT) {
        let (ty, s1) = consume(t, adv(t, s), TokenType::IDENTIFIER);
        let s1 = fwd(adv(t, s), s1);
        if checks(t, s1, TokenType::DOT) {
            dot_call(t, adv(t, s1), e, Some(ty))
        } else {
            (e, fail(t, s1, SyntaxError::Expected(TokenType::DOT)))
        }
    } else if checks(t, s, TokenType::DOT) {
        dot_call(t, adv(t, s), e, None)
    } else if checks(t, s, TokenType::LEFTPAREN) {
        let s0 = if s.pos > 0 && t[s.pos - 1].tokentype == TokenType::IDENTIFIER {
            adv(t, s)
        } else {
            adv(t, report(s, t[s.pos].line, SyntaxError::NotCallable))
        };
        let (args, s1) = arguments(t, s0, Seq::empty());
        let s1 = fwd(s0, s1);
        let (_, s2) = consume(t, s1, TokenType::RIGHTPAREN);
        let s2 = fwd(s1, s2);
        suffix(t, s2, ExprM::Dispatch(None, Box::new(e), None, args))
    } else {
        (e, s)
    }
}

/// `ID ( args )` after a `.`, then any further calls.
#[verifier::opaque]
pub open spec fn dot_call(t: Seq<Token>, s: PS, e: ExprM, ty: Option<TokenModel>) -> (ExprM, PS)
    decreases left(t, s), 36nat,
{
    if s.pos >= t.len() || s.panic {
        (e, s)
    } else {
        let (id, s1) = consume(t, s, TokenType::IDENTIFIER);
        let s1 = fwd(s, s1);
        let (_, s2) = consume(t, s1, TokenType::LEFTPAREN);
        let s2 = fwd(s1, s2);
        let (args, s3) = arguments(t, s2, Seq::empty());
        let s3 = fwd(s2, s3);
        let (_, s4) = consume(t, s3, TokenType::RIGHTPAREN);
        let s4 = fwd(s3, s4);
        suffix(t, s4, ExprM::Dispatch(ty, Box::new(e), Some(id), args))
    }
}

/// Comma-separated arguments up to a `)`, appended to `acc`.
#[verifier::opaque]
pub open spec fn arguments(t: Seq<Token>, s: PS, acc: Seq<ExprM>) -> (Seq<ExprM>, PS)
    decreases left(t, s), 35nat,
{
    if s.pos >= t.len() || s.panic || at_end(t, s) || checks(t, s, TokenType::RIGHTPAREN) {
        (acc, s)
    } else {
        let (e, s1) = expression(t, s);
        let s1 = fwd(s, s1);
        if !s1.panic && checks(t, s1, TokenType::COMMA) {
            arguments(t, adv(t, s1), acc.push(e))
        } else {
            (acc.push(e), s1)
        }
    }
}

/// Identifiers, literals, `new TYPE`, `delete expr`, blocks, groupings,
/// `if`, `while`, `case` and `let`; any other token is an error.
#[verifier::opaque]
pub open spec fn primary(t: Seq<Token>, s: PS) -> (ExprM, PS)
    decreases left(t, s), 1nat,
{
    if s.pos >= t.len() || s.panic {
        (ExprM::Error, s)
    } else if checks(t, s, TokenType::IDENTIFIER) {
        (ExprM::ID(t[s.pos]@), adv(t, s))
    } else if checks(t, s, TokenType::INTEGER) {
        (ExprM::IntegerLiteral(t[s.pos]@), adv(t, s))
    } else if checks(t, s, TokenType::STRING) {
        (ExprM::StringLiteral(t[s.pos]@), adv(t, s))
    } else if checks(t, s, TokenType::KEYTRUE) || checks(t, s, TokenType::KEYFALSE) {
        (ExprM::BoolLiteral(t[s.pos]@), adv(t, s))
    } else if checks(t, s, TokenType::KEYNEW) {
        let (ty, s1) = consume(t, adv(t, s), TokenType::IDENTIFIER);
        (ExprM::New(ty), s1)
    } else if checks(t, s, TokenType::KEYDELETE) {
        let (e, s1) = expression(t, adv(t, s));
        (ExprM::Delete(Box::new(e)), s1)
    } else if checks(t, s, TokenType::LEFTBRACE) {
        block(t, adv(t, s))
    } else if checks(t, s, TokenType::LEFTPAREN) {
        let (e, s1) = expression(t, adv(t, s));
        let s1 = fwd(adv(t, s), s1);
        let (_, s2) = consume(t, s1, TokenType::RIGHTPAREN);
        (ExprM::Grouping(Box::new(e)), s2)
    } else if checks(t, s, TokenType::KEYIF) {
        if_expr(t, adv(t, s))
    } else if checks(t, s, TokenType::KEYWHILE) {
        while_expr(t, adv(t, s))
    } else if checks(t, s, TokenType::KEYCASE) {
        case_expr(t, adv(t, s))
    } else if checks(t, s, TokenType::KEYLET) {
        let_expr(t, adv(t, s))
    } else {
        (ExprM::Error, fail(t, s, SyntaxError::ExpectedExpression))
    }
}

/// `{ (expr ;)+ }`, after the `{`; no expression at all is reported.
#[verifier::opaque]
pub open spec fn block(t: Seq<Token>, s: PS) -> (ExprM, PS)
    decreases left(t, s), 40nat,
{
    if s.pos >= t.len() || s.panic {
        (ExprM::Error, s)
    } else {
        let (items, s1) = block_items(t, s, Seq::empty());
        let s1 = fwd(s, s1);
        let s2 = if items.len() == 0 {
            report(s1, t[s1.pos].line, SyntaxError::EmptyBlock)
        } else {
            s1
        };
        let (_, s3) = consume(t, s2, TokenType::RIGHTBRACE);
        (ExprM::Block(items), s3)
    }
}

#[verifier::opaque]
pub open spec fn block_items(t: Seq<Token>, s: PS, acc: Seq<ExprM>) -> (Seq<ExprM>, PS)
    decreases left(t, s), 39nat,
{
    if s.pos >= t.len() || s.panic || at_end(t, s) || checks(t, s, TokenType::RIGHTBRACE) {
        (acc, s)
    } else {
        let (e, s1) = expression(t, s);
        let s1 = fwd(s, s1);
        let (_, s2) = consume(t, s1, TokenType::SEMICOLON);
        let s2 = fwd(s1, s2);
        if s2.pos <= s.pos {
            (acc.push(e), s2)
        } else {
            block_items(t, s2, acc.push(e))
        }
    }
}

/// `if expr then expr else expr fi`, after the `if`.
#[verifier::opaque]
pub open spec fn if_expr(t: Seq<Token>, s: PS) -> (ExprM, PS)
    decreases left(t, s), 40nat,
{
    if s.pos >= t.len() || s.panic {
        (ExprM::Error, s)
    } else {
        let (c, s1) = expression(t, s);
        let s1 = fwd(s, s1);
        let (_, s2) = consume(t, s1, TokenType::KEYTHEN);
        let s2 = fwd(s1, s2);
        let (a, s3) = expression(t, s2);
        let s3 = fwd(s2, s3);
        let (_, s4) = consume(t, s3, TokenType::KEYELSE);
        let s4 = fwd(s3, s4);
        let (b, s5) = expression(t, s4);
        let s5 = fwd(s4, s5);
        let (_, s6) = consume(t, s5, TokenType::KEYFI);
        (ExprM::If(Box::new(c), Box::new(a), Box::new(b)), s6)
    }
}

/// `while expr loop expr pool`, after the `while`.
#[verifier::opaque]
pub open spec fn while_expr(t: Seq<Token>, s: PS) -> (ExprM, PS)
    decreases left(t, s), 40nat,
{
    if s.pos >= t.len() || s.panic {
        (ExprM::Error, s)
    } else {
        let (c, s1) = expression(t, s);
        let s1 = fwd(s, s1);
        let (_, s2) = consume(t, s1, TokenType::KEYLOOP);
        let s2 = fwd(s1, s2);
        let (b, s3) = expression(t, s2);
        let s3 = fwd(s2, s3);
        let (_, s4) = consume(t, s3, TokenType::KEYPOOL);
        (ExprM::While(Box::new(c), Box::new(b)), s4)
    }
}

/// `let ID : TYPE [<- expr] (, ID : TYPE [<- expr])* in expr`, after the `let`.
#[verifier::opaque]
pub open spec fn let_expr(t: Seq<Token>, s: PS) -> (ExprM, PS)
    decreases left(t, s), 40nat,
{
    if s.pos >= t.len() || s.panic {
        (ExprM::Error, s)
    } else {
        let (decls, s1) = declarations(t, s, Seq::empty());
        let s1 = fwd(s, s1);
        let (_, s2) = consume(t, s1, TokenType::KEYIN);
        let s2 = fwd(s1, s2);
        let (body, s3) = expression(t, s2);
        (ExprM::Let(decls, Box::new(body)), s3)
    }
}

/// The declarations of a `let`, in order, appended to `acc`.
#[verifier::opaque]
pub open spec fn declarations(t: Seq<Token>, s: PS, acc: Seq<ExprM>) -> (Seq<ExprM>, PS)
    decreases left(t, s), 39nat,
{
    if s.pos >= t.len() || s.panic || checks(t, s, TokenType::KEYIN) {
        (acc, s)
    } else {
        let (id, s1) = consume(t, s, TokenType::IDENTIFIER);
        let s1 = fwd(s, s1);
        let (_, s2) = consume(t, s1, TokenType::COLON);
        let s2 = fwd(s1, s2);
        let (ty, s3) = consume(t, s2, TokenType::IDENTIFIER);
        let s3 = fwd(s2, s3);
        let (init, s4) = if !s3.panic && checks(t, s3, TokenType::ASSIGN) {
            let (e, s4) = expression(t, adv(t, s3));
            (Some(Box::new(e)), fwd(s3, s4))
        } else {
            (None, s3)
        };
        let acc = acc.push(ExprM::Declaration(id, ty, init));
        if !s4.panic && checks(t, s4, TokenType::COMMA) {
            declarations(t, adv(t, s4), acc)
        } else {
            (acc, s4)
        }
    }
}

/// `case expr of (ID : TYPE => expr ;)+ esac`, after the `case`; no branch
/// at all is reported.
#[verifier::opaque]
pub open spec fn case_expr(t: Seq<Token>, s: PS) -> (ExprM, PS)
    decreases left(t, s), 40nat,
{
    if s.pos >= t.len() || s.panic {
        (ExprM::Error, s)
    } else {
        let (e, s1) = expression(t, s);
        let s1 = fwd(s, s1);
        let (_, s2) = consume(t, s1, TokenType::KEYOF);
        let s2 = fwd(s1, s2);
        let (branches, s3) = case_branches(t, s2, Seq::empty());
        let s3 = fwd(s2, s3);
        let s4 = if branches.len() == 0 {
            report(s3, t[s3.pos].line, SyntaxError::EmptyCase)
        } else {
            s3
        };
        let (_, s5) = consume(t, s4, TokenType::KEYESAC);
        (ExprM::Case(Box::new(e), branches), s5)
    }
}

#[verifier::opaque]
pub open spec fn case_branches(t: Seq<Token>, s: PS, acc: Seq<ExprM>) -> (Seq<ExprM>, PS)
    decreases left(t, s), 39nat,
{
    if s.pos >= t.len() || s.panic || !checks(t, s, TokenType::IDENTIFIER) {
        (acc, s)
    } else {
        let id = t[s.pos]@;
        let s0 = adv(t, s);
        let (_, s1) = consume(t, s0, TokenType::COLON);
        let s1 = fwd(s0, s1);
        let (ty, s2) = consume(t, s1, TokenType::IDENTIFIER);
        let s2 = fwd(s1, s2);
        let (_, s3) = consume(t, s2, TokenType::RARROW);
        let s3 = fwd(s2, s3);
        let (body, s4) = expression(t, s3);
        let s4 = fwd(s3, s4);
        let (_, s5) = consume(t, s4, TokenType::SEMICOLON);
        let s5 = fwd(s4, s5);
        case_branches(t, s5, acc.push(ExprM::Branch(id, ty, Box::new(body))))
    }
}

/// Method parameters `ID : TYPE`, each optionally followed by a comma, up to a `)`.
pub open spec fn formals(t: Seq<Token>, s: PS, acc: Seq<(TokenModel, TokenModel)>) -> (
    Seq<(TokenModel, TokenModel)>,
    PS,
)
    decreases left(t, s),
{
    if s.pos >= t.len() || s.panic || at_end(t, s) || checks(t, s, TokenType::RIGHTPAREN) {
        (acc, s)
    } else {
        let (id, s1) = consume(t, s, TokenType::IDENTIFIER);
        let (_, s2) = consume(t, s1, TokenType::COLON);
        let (ty, s3) = consume(t, s2, TokenType::IDENTIFIER);
        let s4 = if !s3.panic && checks(t, s3, TokenType::COMMA) {
            adv(t, s3)
        } else {
            s3
        };
        if s4.pos <= s.pos {
            (acc.push((id, ty)), s4)
        } else {
            formals(t, s4, acc.push((id, ty)))
        }
    }
}

/// `ID ( formals ) : TYPE { expr }`, after the `(`.
pub open spec fn method(t: Seq<Token>, s: PS, id: TokenModel) -> (FeatureM, PS) {
    let (params, s1) = formals(t, s, Seq::empty());
    let (_, s2) = consume(t, s1, TokenType::RIGHTPAREN);
    let (_, s3) = consume(t, s2, TokenType::COLON);
    let (ty, s4) = consume(t, s3, TokenType::IDENTIFIER);
    let (_, s5) = consume(t, s4, TokenType::LEFTBRACE);
    let (body, s6) = expression(t, s5);
    let (_, s7) = consume(t, s6, TokenType::RIGHTBRACE);
    (FeatureM::Method(id, ty, params, body), s7)
}

/// `ID : TYPE [<- expr]`, after the `:`.
pub open spec fn attribute(t: Seq<Token>, s: PS, id: TokenModel) -> (FeatureM, PS) {
    let (ty, s1) = consume(t, s, TokenType::IDENTIFIER);
    if !s1.panic && checks(t, s1, TokenType::ASSIGN) {
        let (e, s2) = expression(t, adv(t, s1));
        (FeatureM::Attribute(id, ty, Some(e)), s2)
    } else {
        (FeatureM::Attribute(id, ty, None), s1)
    }
}

/// A method or an attribute; a name followed by neither `(` nor `:` is reported.
pub open spec fn feature(t: Seq<Token>, s: PS) -> (FeatureM, PS) {
    let (id, s1) = consume(t, s, TokenType::IDENTIFIER);
    if s1.panic {
        (FeatureM::Attribute(id, missing(), None), s1)
    } else if checks(t, s1, TokenType::LEFTPAREN) {
        method(t, adv(t, s1), id)
    } else if checks(t, s1, TokenType::COLON) {
        attribute(t, adv(t, s1), id)
    } else {
        (FeatureM::Attribute(id, missing(), None), fail(t, s1, SyntaxError::IllegalFeature))
    }
}

/// Features, each followed by `;`, up to a `}`, a `class` keyword or the end.
pub open spec fn features(t: Seq<Token>, s: PS, acc: Seq<FeatureM>) -> (Seq<FeatureM>, PS)
    decreases left(t, s),
{
    if s.pos >= t.len() || s.panic || at_end(t, s) || checks(t, s, TokenType::RIGHTBRACE) || checks(
        t,
        s,
        TokenType::KEYCLASS,
    ) {
        (acc, s)
    } else {
        let (f, s1) = feature(t, s);
        let s2 = if s1.panic {
            settle(t, s1)
        } else {
            settle(t, consume(t, s1, TokenType::SEMICOLON).1)
        };
        let acc = acc.push(f);
        if s2.panic || s2.pos <= s.pos {
            (acc, s2)
        } else {
            features(t, s2, acc)
        }
    }
}

/// `class TYPE [inherits TYPE] { (feature ;)* }`
pub open spec fn class(t: Seq<Token>, s: PS) -> (ClassM, PS) {
    let (_, s1) = consume(t, s, TokenType::KEYCLASS);
    let (name, s2) = consume(t, s1, TokenType::IDENTIFIER);
    let s2 = check_type_name(s2, name);
    let (inherits, s3) = if !s2.panic && checks(t, s2, TokenType::KEYINHERITS) {
        let (sup, s3) = consume(t, adv(t, s2), TokenType::IDENTIFIER);
        (Some(sup), check_type_name(s3, sup))
    } else {
        (None, s2)
    };
    let (_, s4) = consume(t, s3, TokenType::LEFTBRACE);
    let (feats, s5) = features(t, s4, Seq::empty());
    let (_, s6) = consume(t, s5, TokenType::RIGHTBRACE);
    (ClassM { name, inherits, features: feats }, s6)
}

/// Classes, each followed by `;`, up to the end of input; panic mode ends
/// at each class.
pub open spec fn classes(t: Seq<Token>, s: PS, acc: Seq<ClassM>) -> (Seq<ClassM>, PS)
    decreases left(t, s),
{
    if s.pos >= t.len() || at_end(t, s) {
        (acc, s)
    } else {
        let (c, s1) = class(t, calm(s));
        let s2 = if s1.panic {
            calm(s1)
        } else {
            calm(consume(t, s1, TokenType::SEMICOLON).1)
        };
        let acc = acc.push(c);
        if s2.pos <= s.pos {
            (acc, s2)
        } else {
            classes(t, s2, acc)
        }
    }
}

} // verus!
