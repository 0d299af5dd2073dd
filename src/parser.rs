use vstd::prelude::*;
use crate::ast::{
    formal_model, lemma_error_model, lemma_models_empty, lemma_models_push, models, opt_token, Class, ClassM, Expr,
    ExprM, Feature, FeatureM, Formal, Program,
};
use crate::grammar;
use crate::grammar::{ParseDiagnostic, SyntaxError, PS};
use crate::token::{Token, TokenModel, TokenType};

verus! {

/// The recursive-descent parser over one token sequence.
pub struct Parser {
    tokens: Vec<Token>,
    current: usize,
    panic_mode: bool,
    errors: Vec<ParseDiagnostic>,
}

/// A failed parse: the program as far as it was built (with `Error`
/// placeholders) and every error, in the order found.
#[derive(Debug)]
pub struct ParseFailure {
    pub program: Program,
    pub errors: Vec<ParseDiagnostic>,
}

/// The parser went from `a` to `b`: same tokens, cursor not moved back, and
/// the errors of `a` kept, in order, at the front of those of `b`.
pub open spec fn kept(a: Parser, b: Parser) -> bool {
    &&& b.wf()
    &&& b.toks() == a.toks()
    &&& b.ps().pos >= a.ps().pos
    &&& b.ps().errs.len() >= a.ps().errs.len()
    &&& forall|i: int| 0 <= i < a.ps().errs.len() ==> b.ps().errs[i] == #[trigger] a.ps().errs[i]
}

impl Parser {
    pub closed spec fn toks(&self) -> Seq<Token> {
        self.tokens@
    }

    pub closed spec fn ps(&self) -> PS {
        PS { pos: self.current as int, panic: self.panic_mode, errs: self.errors@ }
    }

    pub closed spec fn wf(&self) -> bool {
        &&& 0 <= self.current < self.tokens@.len()
        &&& self.panic_mode ==> self.errors@.len() > 0
    }

    /// A parser at the start of `tokens`, which must end with the
    /// end-of-input token that the scanner appends.
    pub fn new(tokens: Vec<Token>) -> (r: Parser)
        requires
            tokens@.len() > 0,
        ensures
            r.wf(),
            r.toks() == tokens@,
            r.ps() == grammar::start(),
    {
        Parser { tokens, current: 0, panic_mode: false, errors: Vec::new() }
    }

    fn at_end(&self) -> (r: bool)
        requires
            self.wf(),
        ensures
            r == grammar::at_end(self.toks(), self.ps()),
    {
        self.current >= self.tokens.len() - 1
    }

    fn check(&self, k: TokenType) -> (r: bool)
        requires
            self.wf(),
        ensures
            r == grammar::checks(self.toks(), self.ps(), k),
    {
        !self.at_end() && self.tokens[self.current].tokentype == k
    }

    fn line(&self) -> (r: usize)
        requires
            self.wf(),
        ensures
            r == self.toks()[self.ps().pos].line,
    {
        self.tokens[self.current].line
    }

    fn advance(&mut self)
        requires
            old(self).wf(),
        ensures
            kept(*old(self), *final(self)),
            final(self).ps() == grammar::adv(old(self).toks(), old(self).ps()),
    {
        if self.current < self.tokens.len() - 1 {
            self.current = self.current + 1;
        }
    }

    fn report(&mut self, line: usize, e: SyntaxError)
        requires
            old(self).wf(),
        ensures
            kept(*old(self), *final(self)),
            final(self).ps() == grammar::report(old(self).ps(), line, e),
    {
        if !self.panic_mode {
            self.errors.push(ParseDiagnostic { line, error: e });
        }
    }

    fn calm(&mut self)
        requires
            old(self).wf(),
        ensures
            kept(*old(self), *final(self)),
            final(self).ps() == grammar::calm(old(self).ps()),
    {
        self.panic_mode = false;
    }

    /// Moves the cursor just past the next `;`, or to the next `class`
    /// keyword or the end of input.
    pub fn synchronize(&mut self)
        requires
            old(self).wf(),
        ensures
            kept(*old(self), *final(self)),
            final(self).ps() == (PS { pos: grammar::sync_pos(old(self).toks(), old(self).ps().pos), ..old(self).ps() }),
    {
        let ghost t = self.toks();
        let ghost pos0 = self.current as int;
        let mut done = false;
        while !done && self.current < self.tokens.len() - 1
            invariant
                self.wf(),
                self.toks() == t,
                t == old(self).toks(),
                self.panic_mode == old(self).panic_mode,
                self.errors == old(self).errors,
                pos0 <= self.current,
                pos0 == old(self).ps().pos,
                done ==> self.current as int == grammar::sync_pos(t, pos0),
                !done ==> grammar::sync_pos(t, self.current as int) == grammar::sync_pos(t, pos0),
            decreases self.tokens@.len() - self.current, if done { 0int } else { 1int },
        {
            if self.tokens[self.current].tokentype == TokenType::SEMICOLON {
                self.current = self.current + 1;
                done = true;
            } else if self.tokens[self.current].tokentype == TokenType::KEYCLASS {
                done = true;
            } else {
                self.current = self.current + 1;
            }
        }
    }

    fn fail(&mut self, e: SyntaxError)
        requires
            old(self).wf(),
        ensures
            kept(*old(self), *final(self)),
            final(self).ps() == grammar::fail(old(self).toks(), old(self).ps(), e),
    {
        if !self.panic_mode {
            let line = self.line();
            self.errors.push(ParseDiagnostic { line, error: e });
            self.panic_mode = true;
            self.synchronize();
        }
    }

    fn consume(&mut self, k: TokenType) -> (r: Token)
        requires
            old(self).wf(),
        ensures
            kept(*old(self), *final(self)),
            (r@, final(self).ps()) == grammar::consume(old(self).toks(), old(self).ps(), k),
    {
        if self.panic_mode {
            Token::new(0, String::new(), TokenType::ERROR, None)
        } else if self.check(k) {
            let tok = self.tokens[self.current].duplicate();
            self.advance();
            tok
        } else {
            self.fail(SyntaxError::Expected(k));
            Token::new(0, String::new(), TokenType::ERROR, None)
        }
    }

    #[verifier::spinoff_prover]
    fn expression(&mut self) -> (r: Expr)
        requires
            old(self).wf(),
        ensures
            kept(*old(self), *final(self)),
            (r.model(), final(self).ps()) == grammar::expression(old(self).toks(), old(self).ps()),
        decreases grammar::left(old(self).toks(), old(self).ps()), 30nat,
    {
        proof {
            reveal(grammar::expression);
            lemma_error_model();
        }
        self.assignment()
    }

    #[verifier::spinoff_prover]
    fn assignment(&mut self) -> (r: Expr)
        requires
            old(self).wf(),
        ensures
            kept(*old(self), *final(self)),
            (r.model(), final(self).ps()) == grammar::assignment(old(self).toks(), old(self).ps()),
        decreases grammar::left(old(self).toks(), old(self).ps()), 29nat,
    {
        proof {
            reveal(grammar::assignment);
            lemma_error_model();
        }
        if self.panic_mode {
            return Expr::Error;
        }
        let l = self.not_expr();
        if self.panic_mode || !self.check(TokenType::ASSIGN) {
            return l;
        }
        let line = self.line();
        self.advance();
        let r = self.assignment();
        let ghost lm = l.model();
        let ghost rm = r.model();
        match l {
            Expr::ID { id } => {
                let node = Expr::Assign { left: Box::new(Expr::ID { id }), right: Box::new(r) };
                assert(node.model() == ExprM::Assign(Box::new(lm), Box::new(rm)) && lm is ID) by {
                    reveal(Expr::model);
                }
                node
            },
            _ => {
                assert(!(lm is ID)) by {
                    reveal(Expr::model);
                }
                self.report(line, SyntaxError::InvalidAssignmentTarget);
                Expr::Error
            },
        }
    }

    #[verifier::spinoff_prover]
    fn not_expr(&mut self) -> (r: Expr)
        requires
            old(self).wf(),
        ensures
            kept(*old(self), *final(self)),
            (r.model(), final(self).ps()) == grammar::not_expr(old(self).toks(), old(self).ps()),
        decreases grammar::left(old(self).toks(), old(self).ps()), 28nat,
    {
        proof {
            reveal(grammar::not_expr);
            lemma_error_model();
        }
        if self.panic_mode {
            return Expr::Error;
        }
        if self.check(TokenType::NOT) {
            self.advance();
            let e = self.not_expr();
        let ghost em = e.model();
        let node = Expr::Not { expr: Box::new(e) };
        assert(node.model() == ExprM::Not(Box::new(em))) by {
            reveal(Expr::model);
        }
            node
        } else {
            self.comparison()
        }
    }

    #[verifier::spinoff_prover]
    fn comparison(&mut self) -> (r: Expr)
        requires
            old(self).wf(),
        ensures
            kept(*old(self), *final(self)),
            (r.model(), final(self).ps()) == grammar::comparison(old(self).toks(), old(self).ps()),
        decreases grammar::left(old(self).toks(), old(self).ps()), 27nat,
    {
        proof {
            reveal(grammar::comparison);
            lemma_error_model();
        }
        if self.panic_mode {
            return Expr::Error;
        }
        let e = self.term();
        self.comparison_rest(e)
    }

    #[verifier::spinoff_prover]
    fn comparison_rest(&mut self, e: Expr) -> (r: Expr)
        requires
            old(self).wf(),
        ensures
            kept(*old(self), *final(self)),
            (r.model(), final(self).ps()) == grammar::comparison_rest(old(self).toks(), old(self).ps(), e.model()),
        decreases grammar::left(old(self).toks(), old(self).ps()), 26nat,
    {
        proof {
            reveal(grammar::comparison_rest);
            lemma_error_model();
            reveal(grammar::term);
        }
        if self.panic_mode || self.at_end() {
            return e;
        }
        let k = self.tokens[self.current].tokentype;
        if !(k == TokenType::LESSTHAN || k == TokenType::LESSEQUAL || k == TokenType::MORETHAN || k
            == TokenType::MOREEQUAL || k == TokenType::EQUALITY) {
            return e;
        }
        let op = self.tokens[self.current].duplicate();
        self.advance();
        let r = self.term();
        let ghost em = e.model();
        let ghost rm = r.model();
        let ghost om = op@;
        let node = Expr::Comparison { left: Box::new(e), operator: op, right: Box::new(r) };
        assert(node.model() == ExprM::Comparison(Box::new(em), om, Box::new(rm))) by {
            reveal(Expr::model);
        }
        self.comparison_rest(node)
    }

    #[verifier::spinoff_prover]
    fn term_rest(&mut self, e: Expr) -> (r: Expr)
        requires
            old(self).wf(),
        ensures
            kept(*old(self), *final(self)),
            (r.model(), final(self).ps()) == grammar::term_rest(old(self).toks(), old(self).ps(), e.model()),
        decreases grammar::left(old(self).toks(), old(self).ps()), 24nat,
    {
        proof {
            reveal(grammar::term_rest);
            lemma_error_model();
            reveal(grammar::factor);
        }
        if self.panic_mode || !(self.check(TokenType::PLUS) || self.check(TokenType::MINUS)) {
            return e;
        }
        let op = self.tokens[self.current].duplicate();
        self.advance();
        let r = self.factor();
        let ghost em = e.model();
        let ghost rm = r.model();
        let ghost om = op@;
        let node = Expr::Arithmetic { left: Box::new(e), operator: op, right: Box::new(r) };
        assert(node.model() == ExprM::Arithmetic(Box::new(em), om, Box::new(rm))) by {
            reveal(Expr::model);
        }
        self.term_rest(node)
    }

    #[verifier::spinoff_prover]
    fn factor_rest(&mut self, e: Expr) -> (r: Expr)
        requires
            old(self).wf(),
        ensures
            kept(*old(self), *final(self)),
            (r.model(), final(self).ps()) == grammar::factor_rest(old(self).toks(), old(self).ps(), e.model()),
        decreases grammar::left(old(self).toks(), old(self).ps()), 22nat,
    {
        proof {
            reveal(grammar::factor_rest);
            lemma_error_model();
            reveal(grammar::isvoid);
        }
        if self.panic_mode || !(self.check(TokenType::STAR) || self.check(TokenType::SLASH)) {
            return e;
        }
        let op = self.tokens[self.current].duplicate();
        self.advance();
        let r = self.isvoid();
        let ghost em = e.model();
        let ghost rm = r.model();
        let ghost om = op@;
        let node = Expr::Factor { left: Box::new(e), operator: op, right: Box::new(r) };
        assert(node.model() == ExprM::Factor(Box::new(em), om, Box::new(rm))) by {
            reveal(Expr::model);
        }
        self.factor_rest(node)
    }

    #[verifier::spinoff_prover]
    fn term(&mut self) -> (r: Expr)
        requires
            old(self).wf(),
        ensures
            kept(*old(self), *final(self)),
            (r.model(), final(self).ps()) == grammar::term(old(self).toks(), old(self).ps()),
        decreases grammar::left(old(self).toks(), old(self).ps()), 25nat,
    {
        proof {
            reveal(grammar::term);
            lemma_error_model();
        }
        if self.panic_mode {
            return Expr::Error;
        }
        let e = self.factor();
        self.term_rest(e)
    }

    #[verifier::spinoff_prover]
    fn factor(&mut self) -> (r: Expr)
        requires
            old(self).wf(),
        ensures
            kept(*old(self), *final(self)),
            (r.model(), final(self).ps()) == grammar::factor(old(self).toks(), old(self).ps()),
        decreases grammar::left(old(self).toks(), old(self).ps()), 23nat,
    {
        proof {
            reveal(grammar::factor);
            lemma_error_model();
        }
        if self.panic_mode {
            return Expr::Error;
        }
        let e = self.isvoid();
        self.factor_rest(e)
    }

    #[verifier::spinoff_prover]
    fn isvoid(&mut self) -> (r: Expr)
        requires
            old(self).wf(),
        ensures
            kept(*old(self), *final(self)),
            (r.model(), final(self).ps()) == grammar::isvoid(old(self).toks(), old(self).ps()),
        decreases grammar::left(old(self).toks(), old(self).ps()), 21nat,
    {
        proof {
            reveal(grammar::isvoid);
            lemma_error_model();
        }
        if self.panic_mode {
            return Expr::Error;
        }
        if self.check(TokenType::ISVOID) {
            self.advance();
            let e = self.isvoid();
        let ghost em = e.model();
        let node = Expr::IsVoid { expr: Box::new(e) };
        assert(node.model() == ExprM::IsVoid(Box::new(em))) by {
            reveal(Expr::model);
        }
            node
        } else {
            self.unary()
        }
    }

    #[verifier::spinoff_prover]
    fn unary(&mut self) -> (r: Expr)
        requires
            old(self).wf(),
        ensures
            kept(*old(self), *final(self)),
            (r.model(), final(self).ps()) == grammar::unary(old(self).toks(), old(self).ps()),
        decreases grammar::left(old(self).toks(), old(self).ps()), 20nat,
    {
        proof {
            reveal(grammar::unary);
            lemma_error_model();
        }
        if self.panic_mode {
            return Expr::Error;
        }
        if self.check(TokenType::TILDA) {
            self.advance();
            let e = self.unary();
        let ghost em = e.model();
        let node = Expr::BitWiseNot { expr: Box::new(e) };
        assert(node.model() == ExprM::BitWiseNot(Box::new(em))) by {
            reveal(Expr::model);
        }
            node
        } else {
            let e = self.primary();
            self.suffix(e)
        }
    }

    #[verifier::spinoff_prover]
    fn suffix(&mut self, e: Expr) -> (r: Expr)
        requires
            old(self).wf(),
        ensures
            kept(*old(self), *final(self)),
            (r.model(), final(self).ps()) == grammar::suffix(old(self).toks(), old(self).ps(), e.model()),
        decreases grammar::left(old(self).toks(), old(self).ps()), 19nat,
    {
        proof {
            reveal(grammar::suffix);
            lemma_error_model();
            reveal(grammar::dot_call);
            reveal(grammar::arguments);
        }
        if self.panic_mode {
            return e;
        }
        if self.check(TokenType::AT) {
            self.advance();
            let ty = self.consume(TokenType::IDENTIFIER);
            if self.check(TokenType::DOT) {
                self.advance();
                self.dot_call(e, Some(ty))
            } else {
                self.fail(SyntaxError::Expected(TokenType::DOT));
                e
            }
        } else if self.check(TokenType::DOT) {
            self.advance();
            self.dot_call(e, None)
        } else if self.check(TokenType::LEFTPAREN) {
            if !(self.current > 0 && self.tokens[self.current - 1].tokentype == TokenType::IDENTIFIER) {
                let line = self.line();
                self.report(line, SyntaxError::NotCallable);
            }
            self.advance();
            proof {
                lemma_models_empty();
            }
            let args = self.arguments(Vec::new());
            self.consume(TokenType::RIGHTPAREN);
            let ghost em = e.model();
            let ghost am = models(args@);
            let node = Expr::Dispatch { type_: None, expr: Box::new(e), id: None, arguments: args };
            assert(node.model() == ExprM::Dispatch(None, Box::new(em), None, am)) by {
                reveal(Expr::model);
                match node.model() {
                    ExprM::Dispatch(_, _, _, xs) => {
                        assert(xs =~= am);
                    },
                    _ => {},
                }
            }
            self.suffix(node)
        } else {
            e
        }
    }

    #[verifier::spinoff_prover]
    fn dot_call(&mut self, e: Expr, ty: Option<Token>) -> (r: Expr)
        requires
            old(self).wf(),
        ensures
            kept(*old(self), *final(self)),
            (r.model(), final(self).ps()) == grammar::dot_call(old(self).toks(), old(self).ps(), e.model(), opt_token(ty)),
        decreases grammar::left(old(self).toks(), old(self).ps()), 36nat,
    {
        proof {
            reveal(grammar::dot_call);
            lemma_error_model();
            reveal(grammar::arguments);
            reveal(grammar::suffix);
        }
        if self.panic_mode {
            return e;
        }
        let id = self.consume(TokenType::IDENTIFIER);
        self.consume(TokenType::LEFTPAREN);
        proof {
            lemma_models_empty();
        }
        let args = self.arguments(Vec::new());
        self.consume(TokenType::RIGHTPAREN);
        let ghost em = e.model();
        let ghost am = models(args@);
        let ghost tm = opt_token(ty);
        let ghost im = id@;
        let node = Expr::Dispatch { type_: ty, expr: Box::new(e), id: Some(id), arguments: args };
        assert(node.model() == ExprM::Dispatch(tm, Box::new(em), Some(im), am)) by {
            reveal(Expr::model);
            match node.model() {
                ExprM::Dispatch(_, _, _, xs) => {
                    assert(xs =~= am);
                },
                _ => {},
            }
        }
        self.suffix(node)
    }

    #[verifier::spinoff_prover]
    fn arguments(&mut self, acc: Vec<Expr>) -> (r: Vec<Expr>)
        requires
            old(self).wf(),
        ensures
            kept(*old(self), *final(self)),
            (models(r@), final(self).ps()) == grammar::arguments(old(self).toks(), old(self).ps(), models(acc@)),
        decreases grammar::left(old(self).toks(), old(self).ps()), 35nat,
    {
        proof {
            reveal(grammar::arguments);
            lemma_error_model();
            reveal(grammar::expression);
        }
        if self.panic_mode || self.at_end() || self.check(TokenType::RIGHTPAREN) {
            return acc;
        }
        let e = self.expression();
        let mut acc = acc;
        proof {
            lemma_models_push(acc@, e);
        }
        acc.push(e);
        if !self.panic_mode && self.check(TokenType::COMMA) {
            self.advance();
            self.arguments(acc)
        } else {
            acc
        }
    }

    #[verifier::spinoff_prover]
    fn primary(&mut self) -> (r: Expr)
        requires
            old(self).wf(),
        ensures
            kept(*old(self), *final(self)),
            (r.model(), final(self).ps()) == grammar::primary(old(self).toks(), old(self).ps()),
        decreases grammar::left(old(self).toks(), old(self).ps()), 1nat,
    {
        proof {
            reveal(grammar::primary);
            lemma_error_model();
        }
        if self.panic_mode {
            return Expr::Error;
        }
        if self.check(TokenType::IDENTIFIER) {
            let tok = self.tokens[self.current].duplicate();
            self.advance();
            let node = Expr::ID { id: tok };
            assert(node.model() == ExprM::ID(tok@)) by {
                reveal(Expr::model);
            }
            node
        } else if self.check(TokenType::INTEGER) {
            let tok = self.tokens[self.current].duplicate();
            self.advance();
            let node = Expr::IntegerLiteral { value: tok };
            assert(node.model() == ExprM::IntegerLiteral(tok@)) by {
                reveal(Expr::model);
            }
            node
        } else if self.check(TokenType::STRING) {
            let tok = self.tokens[self.current].duplicate();
            self.advance();
            let node = Expr::StringLiteral { value: tok };
            assert(node.model() == ExprM::StringLiteral(tok@)) by {
                reveal(Expr::model);
            }
            node
        } else if self.check(TokenType::KEYTRUE) || self.check(TokenType::KEYFALSE) {
            let tok = self.tokens[self.current].duplicate();
            self.advance();
            let node = Expr::BoolLiteral { value: tok };
            assert(node.model() == ExprM::BoolLiteral(tok@)) by {
                reveal(Expr::model);
            }
            node
        } else if self.check(TokenType::KEYNEW) {
            self.advance();
            let ty = self.consume(TokenType::IDENTIFIER);
            let node = Expr::New { type_: ty };
            assert(node.model() == ExprM::New(ty@)) by {
                reveal(Expr::model);
            }
            node
        } else if self.check(TokenType::KEYDELETE) {
            self.advance();
            let e = self.expression();
        let ghost em = e.model();
            let node = Expr::Delete { expr: Box::new(e) };
            assert(node.model() == ExprM::Delete(Box::new(em))) by {
                reveal(Expr::model);
            }
            node
        } else if self.check(TokenType::LEFTBRACE) {
            self.advance();
            self.block()
        } else if self.check(TokenType::LEFTPAREN) {
            self.advance();
            let e = self.expression();
            self.consume(TokenType::RIGHTPAREN);
            let ghost em = e.model();
            let node = Expr::Grouping { expr: Box::new(e) };
            assert(node.model() == ExprM::Grouping(Box::new(em))) by {
                reveal(Expr::model);
            }
            node
        } else if self.check(TokenType::KEYIF) {
            self.advance();
            self.if_expr()
        } else if self.check(TokenType::KEYWHILE) {
            self.advance();
            self.while_expr()
        } else if self.check(TokenType::KEYCASE) {
            self.advance();
            self.case_expr()
        } else if self.check(TokenType::KEYLET) {
            self.advance();
            self.let_expr()
        } else {
            self.fail(SyntaxError::ExpectedExpression);
            Expr::Error
        }
    }

    #[verifier::spinoff_prover]
    fn block(&mut self) -> (r: Expr)
        requires
            old(self).wf(),
        ensures
            kept(*old(self), *final(self)),
            (r.model(), final(self).ps()) == grammar::block(old(self).toks(), old(self).ps()),
        decreases grammar::left(old(self).toks(), old(self).ps()), 40nat,
    {
        proof {
            reveal(grammar::block);
            lemma_error_model();
        }
        if self.panic_mode {
            return Expr::Error;
        }
        proof {
            lemma_models_empty();
        }
        let items = self.block_items(Vec::new());
        if items.len() == 0 {
            let line = self.line();
            self.report(line, SyntaxError::EmptyBlock);
        }
        self.consume(TokenType::RIGHTBRACE);
        let ghost im = models(items@);
        let node = Expr::Block { exprs: items };
        assert(node.model() == ExprM::Block(im)) by {
            reveal(Expr::model);
            match node.model() {
                ExprM::Block(xs) => {
                    assert(xs =~= im);
                },
                _ => {},
            }
        }
        node
    }

    #[verifier::spinoff_prover]
    fn block_items(&mut self, acc: Vec<Expr>) -> (r: Vec<Expr>)
        requires
            old(self).wf(),
        ensures
            kept(*old(self), *final(self)),
            (models(r@), final(self).ps()) == grammar::block_items(old(self).toks(), old(self).ps(), models(acc@)),
        decreases grammar::left(old(self).toks(), old(self).ps()), 39nat,
    {
        proof {
            reveal(grammar::block_items);
            lemma_error_model();
            reveal(grammar::expression);
        }
        if self.panic_mode || self.at_end() || self.check(TokenType::RIGHTBRACE) {
            return acc;
        }
        let start = self.current;
        let e = self.expression();
        self.consume(TokenType::SEMICOLON);
        let mut acc = acc;
        proof {
            lemma_models_push(acc@, e);
        }
        acc.push(e);
        if self.current <= start {
            acc
        } else {
            self.block_items(acc)
        }
    }

    #[verifier::spinoff_prover]
    fn if_expr(&mut self) -> (r: Expr)
        requires
            old(self).wf(),
        ensures
            kept(*old(self), *final(self)),
            (r.model(), final(self).ps()) == grammar::if_expr(old(self).toks(), old(self).ps()),
        decreases grammar::left(old(self).toks(), old(self).ps()), 40nat,
    {
        proof {
            reveal(grammar::if_expr);
            lemma_error_model();
        }
        if self.panic_mode {
            return Expr::Error;
        }
        let c = self.expression();
        self.consume(TokenType::KEYTHEN);
        let a = self.expression();
        self.consume(TokenType::KEYELSE);
        let b = self.expression();
        self.consume(TokenType::KEYFI);
        let ghost cm = c.model();
        let ghost am = a.model();
        let ghost bm = b.model();
        let node = Expr::If { condition: Box::new(c), then_branch: Box::new(a), else_branch: Box::new(b) };
        assert(node.model() == ExprM::If(Box::new(cm), Box::new(am), Box::new(bm))) by {
            reveal(Expr::model);
        }
        node
    }

    #[verifier::spinoff_prover]
    fn while_expr(&mut self) -> (r: Expr)
        requires
            old(self).wf(),
        ensures
            kept(*old(self), *final(self)),
            (r.model(), final(self).ps()) == grammar::while_expr(old(self).toks(), old(self).ps()),
        decreases grammar::left(old(self).toks(), old(self).ps()), 40nat,
    {
        proof {
            reveal(grammar::while_expr);
            lemma_error_model();
        }
        if self.panic_mode {
            return Expr::Error;
        }
        let c = self.expression();
        self.consume(TokenType::KEYLOOP);
        let b = self.expression();
        self.consume(TokenType::KEYPOOL);
        let ghost cm = c.model();
        let ghost bm = b.model();
        let node = Expr::While { condition: Box::new(c), body: Box::new(b) };
        assert(node.model() == ExprM::While(Box::new(cm), Box::new(bm))) by {
            reveal(Expr::model);
        }
        node
    }

    #[verifier::spinoff_prover]
    fn let_expr(&mut self) -> (r: Expr)
        requires
            old(self).wf(),
        ensures
            kept(*old(self), *final(self)),
            (r.model(), final(self).ps()) == grammar::let_expr(old(self).toks(), old(self).ps()),
        decreases grammar::left(old(self).toks(), old(self).ps()), 40nat,
    {
        proof {
            reveal(grammar::let_expr);
            lemma_error_model();
        }
        if self.panic_mode {
            return Expr::Error;
        }
        proof {
            lemma_models_empty();
        }
        let decls = self.declarations(Vec::new());
        self.consume(TokenType::KEYIN);
        let body = self.expression();
        let ghost dm = models(decls@);
        let ghost bm = body.model();
        let node = Expr::Let { declarations: decls, body: Box::new(body) };
        assert(node.model() == ExprM::Let(dm, Box::new(bm))) by {
            reveal(Expr::model);
            match node.model() {
                ExprM::Let(xs, _) => {
                    assert(xs =~= dm);
                },
                _ => {},
            }
        }
        node
    }

    #[verifier::spinoff_prover]
    fn declarations(&mut self, acc: Vec<Expr>) -> (r: Vec<Expr>)
        requires
            old(self).wf(),
        ensures
            kept(*old(self), *final(self)),
            (models(r@), final(self).ps()) == grammar::declarations(old(self).toks(), old(self).ps(), models(acc@)),
        decreases grammar::left(old(self).toks(), old(self).ps()), 39nat,
    {
        proof {
            reveal(grammar::declarations);
            lemma_error_model();
            reveal(grammar::expression);
        }
        if self.panic_mode || self.check(TokenType::KEYIN) {
            return acc;
        }
        let id = self.consume(TokenType::IDENTIFIER);
        self.consume(TokenType::COLON);
        let ty = self.consume(TokenType::IDENTIFIER);
        let init = if !self.panic_mode && self.check(TokenType::ASSIGN) {
            self.advance();
            Some(self.expression())
        } else {
            None
        };
        let ghost inm = match &init {
            Some(e) => Some(Box::new(e.model())),
            None => None,
        };
        let ghost idm = id@;
        let ghost tym = ty@;
        let d = Expr::Declaration { id, type_: ty, expr: Box::new(init) };
        assert(d.model() == ExprM::Declaration(idm, tym, inm)) by {
            reveal(Expr::model);
        }
        let mut acc = acc;
        proof {
            lemma_models_push(acc@, d);
        }
        acc.push(d);
        if !self.panic_mode && self.check(TokenType::COMMA) {
            self.advance();
            self.declarations(acc)
        } else {
            acc
        }
    }

    #[verifier::spinoff_prover]
    fn case_expr(&mut self) -> (r: Expr)
        requires
            old(self).wf(),
        ensures
            kept(*old(self), *final(self)),
            (r.model(), final(self).ps()) == grammar::case_expr(old(self).toks(), old(self).ps()),
        decreases grammar::left(old(self).toks(), old(self).ps()), 40nat,
    {
        proof {
            reveal(grammar::case_expr);
            lemma_error_model();
        }
        if self.panic_mode {
            return Expr::Error;
        }
        let e = self.expression();
        self.consume(TokenType::KEYOF);
        proof {
            lemma_models_empty();
        }
        let branches = self.case_branches(Vec::new());
        if branches.len() == 0 {
            let line = self.line();
            self.report(line, SyntaxError::EmptyCase);
        }
        self.consume(TokenType::KEYESAC);
        let ghost em = e.model();
        let ghost bm = models(branches@);
        let node = Expr::Case { expr: Box::new(e), branches };
        assert(node.model() == ExprM::Case(Box::new(em), bm)) by {
            reveal(Expr::model);
            match node.model() {
                ExprM::Case(_, xs) => {
                    assert(xs =~= bm);
                },
                _ => {},
            }
        }
        node
    }

    #[verifier::spinoff_prover]
    fn case_branches(&mut self, acc: Vec<Expr>) -> (r: Vec<Expr>)
        requires
            old(self).wf(),
        ensures
            kept(*old(self), *final(self)),
            (models(r@), final(self).ps()) == grammar::case_branches(old(self).toks(), old(self).ps(), models(acc@)),
        decreases grammar::left(old(self).toks(), old(self).ps()), 39nat,
    {
        proof {
            reveal(grammar::case_branches);
            lemma_error_model();
            reveal(grammar::expression);
        }
        if self.panic_mode || !self.check(TokenType::IDENTIFIER) {
            return acc;
        }
        let id = self.tokens[self.current].duplicate();
        self.advance();
        self.consume(TokenType::COLON);
        let ty = self.consume(TokenType::IDENTIFIER);
        self.consume(TokenType::RARROW);
        let body = self.expression();
        self.consume(TokenType::SEMICOLON);
        let ghost idm = id@;
        let ghost tym = ty@;
        let ghost bm = body.model();
        let b = Expr::Branch { id, type_: ty, expr: Box::new(body) };
        assert(b.model() == ExprM::Branch(idm, tym, Box::new(bm))) by {
            reveal(Expr::model);
        }
        let mut acc = acc;
        proof {
            lemma_models_push(acc@, b);
        }
        acc.push(b);
        self.case_branches(acc)
    }

    /// Reports a class or superclass name that starts with a lowercase letter.
    fn check_type_name(&mut self, name: &Token)
        requires
            old(self).wf(),
        ensures
            kept(*old(self), *final(self)),
            final(self).ps() == grammar::check_type_name(old(self).ps(), name@),
    {
        let text = name.lexeme.as_str();
        if text.unicode_len() > 0 {
            let c = text.get_char(0);
            if 'a' <= c && c <= 'z' {
                self.report(name.line, SyntaxError::LowercaseTypeName);
            }
        }
    }

    fn parse_formals(&mut self, acc: Vec<Formal>) -> (r: Vec<Formal>)
        requires
            old(self).wf(),
        ensures
            kept(*old(self), *final(self)),
            (r@.map_values(|f: Formal| formal_model(f)), final(self).ps()) == grammar::formals(
                old(self).toks(),
                old(self).ps(),
                acc@.map_values(|f: Formal| formal_model(f)),
            ),
        decreases grammar::left(old(self).toks(), old(self).ps()),
    {
        if self.panic_mode || self.at_end() || self.check(TokenType::RIGHTPAREN) {
            return acc;
        }
        let start = self.current;
        let id = self.consume(TokenType::IDENTIFIER);
        self.consume(TokenType::COLON);
        let ty = self.consume(TokenType::IDENTIFIER);
        if !self.panic_mode && self.check(TokenType::COMMA) {
            self.advance();
        }
        let mut acc = acc;
        let ghost before = acc@;
        let f = Formal { id, type_: ty };
        acc.push(f);
        assert(acc@.map_values(|f: Formal| formal_model(f)) =~= before.map_values(|f: Formal| formal_model(f)).push(formal_model(f)));
        if self.current <= start {
            acc
        } else {
            self.parse_formals(acc)
        }
    }

    #[verifier::spinoff_prover]
    fn parse_method(&mut self, id: Token) -> (r: Feature)
        requires
            old(self).wf(),
        ensures
            kept(*old(self), *final(self)),
            (r.model(), final(self).ps()) == grammar::method(old(self).toks(), old(self).ps(), id@),
    {
        let ghost empty = Seq::<Formal>::empty();
        assert(empty.map_values(|f: Formal| formal_model(f)) =~= Seq::<(TokenModel, TokenModel)>::empty());
        let parameters = self.parse_formals(Vec::new());
        self.consume(TokenType::RIGHTPAREN);
        self.consume(TokenType::COLON);
        let ty = self.consume(TokenType::IDENTIFIER);
        self.consume(TokenType::LEFTBRACE);
        let body = self.expression();
        self.consume(TokenType::RIGHTBRACE);
        Feature::Method { id, type_: ty, parameters, body }
    }

    #[verifier::spinoff_prover]
    fn parse_attribute(&mut self, id: Token) -> (r: Feature)
        requires
            old(self).wf(),
        ensures
            kept(*old(self), *final(self)),
            (r.model(), final(self).ps()) == grammar::attribute(old(self).toks(), old(self).ps(), id@),
    {
        let ty = self.consume(TokenType::IDENTIFIER);
        if !self.panic_mode && self.check(TokenType::ASSIGN) {
            self.advance();
            let e = self.expression();
            Feature::Attribute { id, type_: ty, expr: Some(e) }
        } else {
            Feature::Attribute { id, type_: ty, expr: None }
        }
    }

    #[verifier::spinoff_prover]
    fn parse_feature(&mut self) -> (r: Feature)
        requires
            old(self).wf(),
        ensures
            kept(*old(self), *final(self)),
            (r.model(), final(self).ps()) == grammar::feature(old(self).toks(), old(self).ps()),
    {
        let id = self.consume(TokenType::IDENTIFIER);
        if self.panic_mode {
            Feature::Attribute { id, type_: Token::new(0, String::new(), TokenType::ERROR, None), expr: None }
        } else if self.check(TokenType::LEFTPAREN) {
            self.advance();
            self.parse_method(id)
        } else if self.check(TokenType::COLON) {
            self.advance();
            self.parse_attribute(id)
        } else {
            self.fail(SyntaxError::IllegalFeature);
            Feature::Attribute { id, type_: Token::new(0, String::new(), TokenType::ERROR, None), expr: None }
        }
    }

    /// After a feature and its `;`: where recovery stopped at a `class`
    /// keyword or the end of input, panic mode stays on; else it ends.
    fn settle(&mut self)
        requires
            old(self).wf(),
        ensures
            kept(*old(self), *final(self)),
            final(self).ps() == grammar::settle(old(self).toks(), old(self).ps()),
    {
        if self.panic_mode && !self.at_end() && !self.check(TokenType::KEYCLASS) {
            self.calm();
        }
    }

    fn parse_features(&mut self, acc: Vec<Feature>) -> (r: Vec<Feature>)
        requires
            old(self).wf(),
        ensures
            kept(*old(self), *final(self)),
            (r@.map_values(|f: Feature| f.model()), final(self).ps()) == grammar::features(
                old(self).toks(),
                old(self).ps(),
                acc@.map_values(|f: Feature| f.model()),
            ),
        decreases grammar::left(old(self).toks(), old(self).ps()),
    {
        if self.panic_mode || self.at_end() || self.check(TokenType::RIGHTBRACE) || self.check(
            TokenType::KEYCLASS,
        ) {
            return acc;
        }
        let start = self.current;
        let f = self.parse_feature();
        if !self.panic_mode {
            self.consume(TokenType::SEMICOLON);
        }
        self.settle();
        let mut acc = acc;
        let ghost before = acc@;
        let ghost fm = f.model();
        acc.push(f);
        assert(acc@.map_values(|f: Feature| f.model()) =~= before.map_values(|f: Feature| f.model()).push(fm));
        if self.panic_mode || self.current <= start {
            acc
        } else {
            self.parse_features(acc)
        }
    }

    #[verifier::spinoff_prover]
    fn parse_class(&mut self) -> (r: Class)
        requires
            old(self).wf(),
        ensures
            kept(*old(self), *final(self)),
            (r.model(), final(self).ps()) == grammar::class(old(self).toks(), old(self).ps()),
    {
        self.consume(TokenType::KEYCLASS);
        let name = self.consume(TokenType::IDENTIFIER);
        self.check_type_name(&name);
        let inherits = if !self.panic_mode && self.check(TokenType::KEYINHERITS) {
            self.advance();
            let sup = self.consume(TokenType::IDENTIFIER);
            self.check_type_name(&sup);
            Some(sup)
        } else {
            None
        };
        self.consume(TokenType::LEFTBRACE);
        let ghost empty = Seq::<Feature>::empty();
        assert(empty.map_values(|f: Feature| f.model()) =~= Seq::<FeatureM>::empty());
        let features = self.parse_features(Vec::new());
        self.consume(TokenType::RIGHTBRACE);
        Class { type_: name, inherits, features }
    }

    fn parse_classes(&mut self, acc: Vec<Class>) -> (r: Vec<Class>)
        requires
            old(self).wf(),
        ensures
            kept(*old(self), *final(self)),
            (r@.map_values(|c: Class| c.model()), final(self).ps()) == grammar::classes(
                old(self).toks(),
                old(self).ps(),
                acc@.map_values(|c: Class| c.model()),
            ),
        decreases grammar::left(old(self).toks(), old(self).ps()),
    {
        if self.at_end() {
            return acc;
        }
        let start = self.current;
        self.calm();
        let c = self.parse_class();
        if !self.panic_mode {
            self.consume(TokenType::SEMICOLON);
        }
        self.calm();
        let mut acc = acc;
        let ghost before = acc@;
        let ghost cm = c.model();
        acc.push(c);
        assert(acc@.map_values(|c: Class| c.model()) =~= before.map_values(|c: Class| c.model()).push(cm));
        if self.current <= start {
            acc
        } else {
            self.parse_classes(acc)
        }
    }

    /// Parses the whole token sequence as a program, as `grammar::classes`
    /// describes from the current state: every syntax error is recorded with
    /// its line, recovery resumes at the next `;` or `class`, and the result
    /// is `Ok` exactly when no error was found.
    pub fn parse_program(&mut self) -> (r: Result<Program, ParseFailure>)
        requires
            old(self).wf(),
        ensures
            kept(*old(self), *final(self)),
            ({
                let (cs, s) = grammar::classes(old(self).toks(), old(self).ps(), Seq::empty());
                &&& final(self).ps() == s
                &&& match r {
                    Ok(p) => s.errs.len() == 0 && p.model() == cs,
                    Err(f) => s.errs.len() > 0 && f.errors@ == s.errs && f.program.model() == cs,
                }
            }),
    {
        let ghost empty = Seq::<Class>::empty();
        assert(empty.map_values(|c: Class| c.model()) =~= Seq::<ClassM>::empty());
        let classes = self.parse_classes(Vec::new());
        let program = Program { classes };
        if self.errors.len() == 0 {
            Ok(program)
        } else {
            let errors = self.errors.clone();
            Err(ParseFailure { program, errors })
        }
    }

    /// Parses one expression from the cursor, as `grammar::expression`
    /// describes; the result is `Ok` exactly when no error was found.
    pub fn parse_expression(&mut self) -> (r: Result<Expr, Vec<ParseDiagnostic>>)
        requires
            old(self).wf(),
        ensures
            kept(*old(self), *final(self)),
            ({
                let (e, s) = grammar::expression(old(self).toks(), old(self).ps());
                &&& final(self).ps() == s
                &&& match r {
                    Ok(x) => s.errs.len() == 0 && x.model() == e,
                    Err(es) => s.errs.len() > 0 && es@ == s.errs,
                }
            }),
    {
        let e = self.expression();
        if self.errors.len() == 0 {
            Ok(e)
        } else {
            Err(self.errors.clone())
        }
    }
}

} // verus!
