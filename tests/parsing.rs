use cool_front::ast::{Expr, Feature, Program};
use cool_front::grammar::{ParseDiagnostic, SyntaxError};
use cool_front::parser::Parser;
use cool_front::scanner::Scanner;
use cool_front::token::{Token, TokenType};

fn tokens(src: &str) -> Vec<Token> {
    match Scanner::new(src.to_string()).scan_tokens() {
        Ok(t) => t,
        Err(_) => panic!("scan failed"),
    }
}

fn parse(src: &str) -> Result<Program, Vec<ParseDiagnostic>> {
    let mut p = Parser::new(tokens(src));
    match p.parse_program() {
        Ok(prog) => Ok(prog),
        Err(f) => Err(f.errors),
    }
}

fn expr(src: &str) -> Result<Expr, Vec<ParseDiagnostic>> {
    Parser::new(tokens(src)).parse_expression()
}

#[test]
fn simple_class_with_method() {
    let prog = match parse("class Main { main():Object {1+2}; };") {
        Ok(p) => p,
        Err(e) => panic!("errors: {:?}", e),
    };
    assert_eq!(prog.classes.len(), 1);
    let c = &prog.classes[0];
    assert_eq!(c.type_.lexeme, "Main");
    assert!(c.inherits.is_none());
    assert_eq!(c.features.len(), 1);
    match &c.features[0] {
        Feature::Method { id, type_, parameters, body } => {
            assert_eq!(id.lexeme, "main");
            assert_eq!(type_.lexeme, "Object");
            assert!(parameters.is_empty());
            match body {
                Expr::Arithmetic { left, operator, right } => {
                    assert_eq!(operator.tokentype, TokenType::PLUS);
                    assert!(matches!(&**left, Expr::IntegerLiteral { value } if value.lexeme == "1"));
                    assert!(matches!(&**right, Expr::IntegerLiteral { value } if value.lexeme == "2"));
                }
                other => panic!("unexpected body {:?}", other),
            }
        }
        other => panic!("unexpected feature {:?}", other),
    }
}

#[test]
fn chained_assignment_with_literal_target_fails() {
    let errs = match expr("x <- 5 <- 6") {
        Ok(e) => panic!("parsed {:?}", e),
        Err(e) => e,
    };
    assert_eq!(errs.len(), 1);
    assert_eq!(errs[0].error, SyntaxError::InvalidAssignmentTarget);
}

#[test]
fn chained_assignment_of_identifiers_is_right_associative() {
    match expr("x <- y <- 1") {
        Ok(Expr::Assign { left, right }) => {
            assert!(matches!(&*left, Expr::ID { id } if id.lexeme == "x"));
            assert!(matches!(&*right, Expr::Assign { .. }));
        }
        other => panic!("unexpected {:?}", other),
    }
}

#[test]
fn comparison_is_left_associative() {
    match expr("a < b < c") {
        Ok(Expr::Comparison { left, right, .. }) => {
            assert!(matches!(&*left, Expr::Comparison { .. }));
            assert!(matches!(&*right, Expr::ID { .. }));
        }
        other => panic!("unexpected {:?}", other),
    }
}

#[test]
fn multiplication_binds_tighter_than_addition() {
    match expr("1 + 2 * 3") {
        Ok(Expr::Arithmetic { left, right, .. }) => {
            assert!(matches!(&*left, Expr::IntegerLiteral { .. }));
            assert!(matches!(&*right, Expr::Factor { .. }));
        }
        other => panic!("unexpected {:?}", other),
    }
}

#[test]
fn static_dispatch_chain() {
    match expr("x@Foo.bar(1, 2).baz()") {
        Ok(Expr::Dispatch { type_, expr: inner, id, arguments }) => {
            assert!(type_.is_none());
            assert_eq!(id.map(|t| t.lexeme), Some("baz".to_string()));
            assert!(arguments.is_empty());
            match *inner {
                Expr::Dispatch { type_, id, arguments, .. } => {
                    assert_eq!(type_.map(|t| t.lexeme), Some("Foo".to_string()));
                    assert_eq!(id.map(|t| t.lexeme), Some("bar".to_string()));
                    assert_eq!(arguments.len(), 2);
                }
                other => panic!("unexpected {:?}", other),
            }
        }
        other => panic!("unexpected {:?}", other),
    }
}

#[test]
fn static_type_without_dot_is_an_error() {
    let errs = expr("x@Foo").err().unwrap();
    assert_eq!(errs[0].error, SyntaxError::Expected(TokenType::DOT));
}

#[test]
fn call_on_non_method_is_reported() {
    let errs = expr("(x)(1)").err().unwrap();
    assert_eq!(errs[0].error, SyntaxError::NotCallable);
}

#[test]
fn plain_call() {
    match expr("f(a)") {
        Ok(Expr::Dispatch { type_, expr: inner, id, arguments }) => {
            assert!(type_.is_none() && id.is_none());
            assert!(matches!(*inner, Expr::ID { .. }));
            assert_eq!(arguments.len(), 1);
        }
        other => panic!("unexpected {:?}", other),
    }
}

#[test]
fn empty_block_is_reported() {
    let errs = expr("{ }").err().unwrap();
    assert_eq!(errs.len(), 1);
    assert_eq!(errs[0].error, SyntaxError::EmptyBlock);
}

#[test]
fn empty_case_is_reported() {
    let errs = expr("case x of esac").err().unwrap();
    assert_eq!(errs[0].error, SyntaxError::EmptyCase);
}

#[test]
fn let_if_while_case() {
    let e = expr("let a : Int <- 1, b : Int in if a < b then while a loop a <- a + 1 pool else case b of x : Int => x; esac fi");
    match e {
        Ok(Expr::Let { declarations, body }) => {
            assert_eq!(declarations.len(), 2);
            assert!(matches!(*body, Expr::If { .. }));
        }
        other => panic!("unexpected {:?}", other),
    }
}

#[test]
fn lowercase_class_name_is_reported() {
    let errs = parse("class main { };").err().unwrap();
    assert_eq!(errs.len(), 1);
    assert_eq!(errs[0].error, SyntaxError::LowercaseTypeName);
}

#[test]
fn inherits_clause() {
    let prog = parse("class A inherits B { x : Int <- 3; };").ok().unwrap();
    assert_eq!(prog.classes[0].inherits.as_ref().map(|t| t.lexeme.clone()), Some("B".to_string()));
    assert!(matches!(&prog.classes[0].features[0], Feature::Attribute { expr: Some(_), .. }));
}

#[test]
fn illegal_feature_is_reported() {
    let errs = parse("class A { x Int; };").err().unwrap();
    assert_eq!(errs.len(), 1);
    assert_eq!(errs[0].error, SyntaxError::IllegalFeature);
}

#[test]
fn errors_accumulate_across_features_and_classes() {
    let src = "class A { x : ; y : Int; z : 5; };\nclass B { w Int; };\nclass C { };";
    let errs = parse(src).err().unwrap();
    assert_eq!(errs.len(), 3);
    assert_eq!(errs[0].error, SyntaxError::Expected(TokenType::IDENTIFIER));
    assert_eq!(errs[1].error, SyntaxError::Expected(TokenType::IDENTIFIER));
    assert_eq!(errs[2].error, SyntaxError::IllegalFeature);
    assert_eq!(errs[2].line, 2);
}

#[test]
fn method_with_formals() {
    let prog = parse("class A { f(a : Int, b : String) : Int { a }; };").ok().unwrap();
    match &prog.classes[0].features[0] {
        Feature::Method { parameters, .. } => {
            assert_eq!(parameters.len(), 2);
            assert_eq!(parameters[1].type_.lexeme, "String");
        }
        other => panic!("unexpected {:?}", other),
    }
}

#[test]
fn missing_expression_is_reported() {
    let errs = expr("1 + ;").err().unwrap();
    assert_eq!(errs.len(), 1);
    assert_eq!(errs[0].error, SyntaxError::ExpectedExpression);
}

#[test]
fn program_without_semicolon_after_class() {
    let errs = parse("class A { }").err().unwrap();
    assert_eq!(errs.len(), 1);
    assert_eq!(errs[0].error, SyntaxError::Expected(TokenType::SEMICOLON));
}

#[test]
fn error_lines_follow_tokens() {
    let errs = parse("class A {\n  x : Int;\n  y : ;\n};").err().unwrap();
    assert_eq!(errs.len(), 1);
    assert_eq!(errs[0].line, 3);
}

#[test]
fn errors_in_grouped_initializers_are_all_reported() {
    let errs = parse("class A { a : Int <- (~); b : Int <- (~); };").err().unwrap();
    assert_eq!(errs.len(), 2);
    assert_eq!(errs[0].error, SyntaxError::ExpectedExpression);
    assert_eq!(errs[1].error, SyntaxError::ExpectedExpression);
}

#[test]
fn errors_in_method_bodies_are_all_reported() {
    let errs = parse("class A {\n f() : Int { ~ };\n g() : Int { ~ };\n};").err().unwrap();
    assert_eq!(errs.len(), 2);
    assert_eq!(errs[0].line, 2);
    assert_eq!(errs[1].line, 3);
}
