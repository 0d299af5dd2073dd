use vstd::prelude::*;
use crate::token::{Token, TokenModel};

verus! {

/// A consumer of the syntax tree, with one handler per kind of node. A node's
/// `accept` calls exactly the handler for its own kind, passing its fields.
/// Each handler comes with a predicate that states what it guarantees of its
/// result and of the visitor's state; by default it guarantees nothing.
pub trait Visitor<T>: Sized {
    /// What `visit_program` guarantees of the visitor's state and its result.
    open spec fn program_done(before: Self, after: Self, classes: Vec<Class>, r: T) -> bool {
        true
    }

    fn visit_program(&mut self, classes: &Vec<Class>) -> (r: T)
        ensures
            Self::program_done(*old(self), *final(self), *classes, r),
    ;

    /// What `visit_class` guarantees of the visitor's state and its result.
    open spec fn class_done(before: Self, after: Self, type_: Token, inherits: Option<Token>, features: Vec<Feature>, r: T) -> bool {
        true
    }

    fn visit_class(&mut self, type_: &Token, inherits: &Option<Token>, features: &Vec<Feature>) -> (r: T)
        ensures
            Self::class_done(*old(self), *final(self), *type_, *inherits, *features, r),
    ;

    /// What `visit_method` guarantees of the visitor's state and its result.
    open spec fn method_done(before: Self, after: Self, id: Token, type_: Token, parameters: Vec<Formal>, body: Expr, r: T) -> bool {
        true
    }

    fn visit_method(&mut self, id: &Token, type_: &Token, parameters: &Vec<Formal>, body: &Expr) -> (r: T)
        ensures
            Self::method_done(*old(self), *final(self), *id, *type_, *parameters, *body, r),
    ;

    /// What `visit_attribute` guarantees of the visitor's state and its result.
    open spec fn attribute_done(before: Self, after: Self, id: Token, type_: Token, expr: Option<Expr>, r: T) -> bool {
        true
    }

    fn visit_attribute(&mut self, id: &Token, type_: &Token, expr: &Option<Expr>) -> (r: T)
        ensures
            Self::attribute_done(*old(self), *final(self), *id, *type_, *expr, r),
    ;

    /// What `visit_formal` guarantees of the visitor's state and its result.
    open spec fn formal_done(before: Self, after: Self, id: Token, type_: Token, r: T) -> bool {
        true
    }

    fn visit_formal(&mut self, id: &Token, type_: &Token) -> (r: T)
        ensures
            Self::formal_done(*old(self), *final(self), *id, *type_, r),
    ;

    /// What `visit_expr` guarantees of the visitor's state and its result.
    open spec fn expr_done(before: Self, after: Self, expr: Expr, r: T) -> bool {
        true
    }

    fn visit_expr(&mut self, expr: &Expr) -> (r: T)
        ensures
            Self::expr_done(*old(self), *final(self), *expr, r),
    ;

    /// What `visit_branch` guarantees of the visitor's state and its result.
    open spec fn branch_done(before: Self, after: Self, id: Token, type_: Token, expr: Expr, r: T) -> bool {
        true
    }

    fn visit_branch(&mut self, id: &Token, type_: &Token, expr: &Expr) -> (r: T)
        ensures
            Self::branch_done(*old(self), *final(self), *id, *type_, *expr, r),
    ;

    /// What `visit_declaration` guarantees of the visitor's state and its result.
    open spec fn declaration_done(before: Self, after: Self, id: Token, type_: Token, expr: Option<Expr>, r: T) -> bool {
        true
    }

    fn visit_declaration(&mut self, id: &Token, type_: &Token, expr: &Option<Expr>) -> (r: T)
        ensures
            Self::declaration_done(*old(self), *final(self), *id, *type_, *expr, r),
    ;

    /// What `visit_block` guarantees of the visitor's state and its result.
    open spec fn block_done(before: Self, after: Self, exprs: Vec<Expr>, r: T) -> bool {
        true
    }

    fn visit_block(&mut self, exprs: &Vec<Expr>) -> (r: T)
        ensures
            Self::block_done(*old(self), *final(self), *exprs, r),
    ;

    /// What `visit_let` guarantees of the visitor's state and its result.
    open spec fn let_done(before: Self, after: Self, declarations: Vec<Expr>, body: Expr, r: T) -> bool {
        true
    }

    fn visit_let(&mut self, declarations: &Vec<Expr>, body: &Expr) -> (r: T)
        ensures
            Self::let_done(*old(self), *final(self), *declarations, *body, r),
    ;

    /// What `visit_while` guarantees of the visitor's state and its result.
    open spec fn while_done(before: Self, after: Self, condition: Expr, body: Expr, r: T) -> bool {
        true
    }

    fn visit_while(&mut self, condition: &Expr, body: &Expr) -> (r: T)
        ensures
            Self::while_done(*old(self), *final(self), *condition, *body, r),
    ;

    /// What `visit_if` guarantees of the visitor's state and its result.
    open spec fn if_done(before: Self, after: Self, condition: Expr, then_branch: Expr, else_branch: Expr, r: T) -> bool {
        true
    }

    fn visit_if(&mut self, condition: &Expr, then_branch: &Expr, else_branch: &Expr) -> (r: T)
        ensures
            Self::if_done(*old(self), *final(self), *condition, *then_branch, *else_branch, r),
    ;

    /// What `visit_case` guarantees of the visitor's state and its result.
    open spec fn case_done(before: Self, after: Self, condition: Expr, branches: Vec<Expr>, r: T) -> bool {
        true
    }

    fn visit_case(&mut self, condition: &Expr, branches: &Vec<Expr>) -> (r: T)
        ensures
            Self::case_done(*old(self), *final(self), *condition, *branches, r),
    ;

    /// What `visit_arithmetic` guarantees of the visitor's state and its result.
    open spec fn arithmetic_done(before: Self, after: Self, left: Expr, operator: Token, right: Expr, r: T) -> bool {
        true
    }

    fn visit_arithmetic(&mut self, left: &Expr, operator: &Token, right: &Expr) -> (r: T)
        ensures
            Self::arithmetic_done(*old(self), *final(self), *left, *operator, *right, r),
    ;

    /// What `visit_comparison` guarantees of the visitor's state and its result.
    open spec fn comparison_done(before: Self, after: Self, left: Expr, operator: Token, right: Expr, r: T) -> bool {
        true
    }

    fn visit_comparison(&mut self, left: &Expr, operator: &Token, right: &Expr) -> (r: T)
        ensures
            Self::comparison_done(*old(self), *final(self), *left, *operator, *right, r),
    ;

    /// What `visit_factor` guarantees of the visitor's state and its result.
    open spec fn factor_done(before: Self, after: Self, left: Expr, operator: Token, right: Expr, r: T) -> bool {
        true
    }

    fn visit_factor(&mut self, left: &Expr, operator: &Token, right: &Expr) -> (r: T)
        ensures
            Self::factor_done(*old(self), *final(self), *left, *operator, *right, r),
    ;

    /// What `visit_assign` guarantees of the visitor's state and its result.
    open spec fn assign_done(before: Self, after: Self, left: Expr, right: Expr, r: T) -> bool {
        true
    }

    fn visit_assign(&mut self, left: &Expr, right: &Expr) -> (r: T)
        ensures
            Self::assign_done(*old(self), *final(self), *left, *right, r),
    ;

    /// What `visit_not` guarantees of the visitor's state and its result.
    open spec fn not_done(before: Self, after: Self, not_expr: Expr, r: T) -> bool {
        true
    }

    fn visit_not(&mut self, not_expr: &Expr) -> (r: T)
        ensures
            Self::not_done(*old(self), *final(self), *not_expr, r),
    ;

    /// What `visit_new` guarantees of the visitor's state and its result.
    open spec fn new_done(before: Self, after: Self, new_expr: Token, r: T) -> bool {
        true
    }

    fn visit_new(&mut self, new_expr: &Token) -> (r: T)
        ensures
            Self::new_done(*old(self), *final(self), *new_expr, r),
    ;

    /// What `visit_delete` guarantees of the visitor's state and its result.
    open spec fn delete_done(before: Self, after: Self, delete_expr: Expr, r: T) -> bool {
        true
    }

    fn visit_delete(&mut self, delete_expr: &Expr) -> (r: T)
        ensures
            Self::delete_done(*old(self), *final(self), *delete_expr, r),
    ;

    /// What `visit_isvoid` guarantees of the visitor's state and its result.
    open spec fn isvoid_done(before: Self, after: Self, isvoid_expr: Expr, r: T) -> bool {
        true
    }

    fn visit_isvoid(&mut self, isvoid_expr: &Expr) -> (r: T)
        ensures
            Self::isvoid_done(*old(self), *final(self), *isvoid_expr, r),
    ;

    /// What `visit_bitwise_not` guarantees of the visitor's state and its result.
    open spec fn bitwise_not_done(before: Self, after: Self, bitwise_not_expr: Expr, r: T) -> bool {
        true
    }

    fn visit_bitwise_not(&mut self, bitwise_not_expr: &Expr) -> (r: T)
        ensures
            Self::bitwise_not_done(*old(self), *final(self), *bitwise_not_expr, r),
    ;

    /// What `visit_grouping` guarantees of the visitor's state and its result.
    open spec fn grouping_done(before: Self, after: Self, grouping_expr: Expr, r: T) -> bool {
        true
    }

    fn visit_grouping(&mut self, grouping_expr: &Expr) -> (r: T)
        ensures
            Self::grouping_done(*old(self), *final(self), *grouping_expr, r),
    ;

    /// What `visit_dispatch` guarantees of the visitor's state and its result.
    open spec fn dispatch_done(before: Self, after: Self, type_: Option<Token>, expr: Expr, id: Option<Token>, arguments: Vec<Expr>, r: T) -> bool {
        true
    }

    fn visit_dispatch(&mut self, type_: &Option<Token>, expr: &Expr, id: &Option<Token>, arguments: &Vec<Expr>) -> (r: T)
        ensures
            Self::dispatch_done(*old(self), *final(self), *type_, *expr, *id, *arguments, r),
    ;

    /// What `not_implemented` guarantees of the visitor's state and its result.
    open spec fn not_implemented_done(before: Self, after: Self, r: T) -> bool {
        true
    }

    fn not_implemented(&mut self) -> (r: T)
        ensures
            Self::not_implemented_done(*old(self), *final(self), r),
    ;

    /// What `visit_stringliteral` guarantees of the visitor's state and its result.
    open spec fn stringliteral_done(before: Self, after: Self, stringliteral: Token, r: T) -> bool {
        true
    }

    fn visit_stringliteral(&mut self, stringliteral: &Token) -> (r: T)
        ensures
            Self::stringliteral_done(*old(self), *final(self), *stringliteral, r),
    ;

    /// What `visit_integerliteral` guarantees of the visitor's state and its result.
    open spec fn integerliteral_done(before: Self, after: Self, integerliteral: Token, r: T) -> bool {
        true
    }

    fn visit_integerliteral(&mut self, integerliteral: &Token) -> (r: T)
        ensures
            Self::integerliteral_done(*old(self), *final(self), *integerliteral, r),
    ;

    /// What `visit_boolliteral` guarantees of the visitor's state and its result.
    open spec fn boolliteral_done(before: Self, after: Self, boolliteral: Token, r: T) -> bool {
        true
    }

    fn visit_boolliteral(&mut self, boolliteral: &Token) -> (r: T)
        ensures
            Self::boolliteral_done(*old(self), *final(self), *boolliteral, r),
    ;

    /// What `visit_id` guarantees of the visitor's state and its result.
    open spec fn id_done(before: Self, after: Self, id: Token, r: T) -> bool {
        true
    }

    fn visit_id(&mut self, id: &Token) -> (r: T)
        ensures
            Self::id_done(*old(self), *final(self), *id, r),
    ;
}

/// A whole compilation unit: its classes, in order.
#[derive(Debug)]
pub struct Program {
    pub classes: Vec<Class>,
}

/// A class: its name, its superclass if one is named, and its features.
#[derive(Debug)]
pub struct Class {
    pub type_: Token,
    pub inherits: Option<Token>,
    pub features: Vec<Feature>,
}

/// A member of a class.
#[derive(Debug)]
pub enum Feature {
    Method { id: Token, type_: Token, parameters: Vec<Formal>, body: Expr },
    Attribute { id: Token, type_: Token, expr: Option<Expr> },
}

/// A method parameter.
#[derive(Debug)]
pub struct Formal {
    pub id: Token,
    pub type_: Token,
}

/// An expression. `Error` stands where parsing failed locally.
#[derive(Debug)]
pub enum Expr {
    Assign { left: Box<Expr>, right: Box<Expr> },
    Not { expr: Box<Expr> },
    Comparison { left: Box<Expr>, operator: Token, right: Box<Expr> },
    Arithmetic { left: Box<Expr>, operator: Token, right: Box<Expr> },
    Factor { left: Box<Expr>, operator: Token, right: Box<Expr> },
    New { type_: Token },
    Delete { expr: Box<Expr> },
    IsVoid { expr: Box<Expr> },
    BitWiseNot { expr: Box<Expr> },
    DispatchSelection { expr: Box<Expr>, type_: Token },
    Dot { expr: Box<Expr>, id: Token },
    Call { id: Token, arguments: Vec<Expr> },
    /// A method call: the static type after `@` if any, the receiver, the
    /// method name (absent where the receiver itself is called), and the arguments.
    Dispatch { type_: Option<Token>, expr: Box<Expr>, id: Option<Token>, arguments: Vec<Expr> },
    StringLiteral { value: Token },
    IntegerLiteral { value: Token },
    BoolLiteral { value: Token },
    ID { id: Token },
    Case { expr: Box<Expr>, branches: Vec<Expr> },
    Branch { id: Token, type_: Token, expr: Box<Expr> },
    If { condition: Box<Expr>, then_branch: Box<Expr>, else_branch: Box<Expr> },
    While { condition: Box<Expr>, body: Box<Expr> },
    Let { declarations: Vec<Expr>, body: Box<Expr> },
    Declaration { id: Token, type_: Token, expr: Box<Option<Expr>> },
    Block { exprs: Vec<Expr> },
    Grouping { expr: Box<Expr> },
    Error,
}

impl Program {
    pub fn new(classes: Vec<Class>) -> (r: Program)
        ensures
            r.classes == classes,
    {
        Program { classes }
    }

    pub fn accept<T, V: Visitor<T>>(&self, visitor: &mut V) -> (r: T)
        ensures
            V::program_done(*old(visitor), *final(visitor), self.classes, r),
    {
        visitor.visit_program(&self.classes)
    }
}

impl Class {
    pub fn new(type_: Token, inherits: Option<Token>, features: Vec<Feature>) -> (r: Class)
        ensures
            r.type_ == type_,
            r.inherits == inherits,
            r.features == features,
    {
        Class { type_, inherits, features }
    }

    pub fn accept<T, V: Visitor<T>>(&self, visitor: &mut V) -> (r: T)
        ensures
            V::class_done(*old(visitor), *final(visitor), self.type_, self.inherits, self.features, r),
    {
        visitor.visit_class(&self.type_, &self.inherits, &self.features)
    }
}

impl Feature {
    pub fn new_method(id: Token, type_: Token, parameters: Vec<Formal>, body: Expr) -> (r: Feature)
        ensures
            r == (Feature::Method { id, type_, parameters, body }),
    {
        Feature::Method { id, type_, parameters, body }
    }

    pub fn new_attribute(id: Token, type_: Token, expr: Option<Expr>) -> (r: Feature)
        ensures
            r == (Feature::Attribute { id, type_, expr }),
    {
        Feature::Attribute { id, type_, expr }
    }

    pub fn accept<T, V: Visitor<T>>(&self, visitor: &mut V) -> (r: T)
        ensures
            match *self {
                Feature::Method { id, type_, parameters, body } => V::method_done(
                    *old(visitor),
                    *final(visitor),
                    id,
                    type_,
                    parameters,
                    body,
                    r,
                ),
                Feature::Attribute { id, type_, expr } => V::attribute_done(
                    *old(visitor),
                    *final(visitor),
                    id,
                    type_,
                    expr,
                    r,
                ),
            },
    {
        match self {
            Feature::Method { id, type_, parameters, body } => visitor.visit_method(
                id,
                type_,
                parameters,
                body,
            ),
            Feature::Attribute { id, type_, expr } => visitor.visit_attribute(id, type_, expr),
        }
    }
}

impl Formal {
    pub fn new(id: Token, type_: Token) -> (r: Formal)
        ensures
            r.id == id,
            r.type_ == type_,
    {
        Formal { id, type_ }
    }

    pub fn accept<T, V: Visitor<T>>(&self, visitor: &mut V) -> (r: T)
        ensures
            V::formal_done(*old(visitor), *final(visitor), self.id, self.type_, r),
    {
        visitor.visit_formal(&self.id, &self.type_)
    }
}

impl Expr {
    /// Calls exactly the handler of `visit` for this expression's kind, with
    /// its fields, and returns what the handler returns.
    pub fn accept<T, V: Visitor<T>>(&self, visit: &mut V) -> (r: T)
        ensures
            ({
                let (b, a) = (*old(visit), *final(visit));
                match *self {
                    Expr::Assign { left, right } => V::assign_done(b, a, *left, *right, r),
                    Expr::Not { expr } => V::not_done(b, a, *expr, r),
                    Expr::Comparison { left, operator, right } => V::comparison_done(b, a, *left, operator, *right, r),
                    Expr::Arithmetic { left, operator, right } => V::arithmetic_done(b, a, *left, operator, *right, r),
                    Expr::Factor { left, operator, right } => V::factor_done(b, a, *left, operator, *right, r),
                    Expr::New { type_ } => V::new_done(b, a, type_, r),
                    Expr::Delete { expr } => V::delete_done(b, a, *expr, r),
                    Expr::IsVoid { expr } => V::isvoid_done(b, a, *expr, r),
                    Expr::BitWiseNot { expr } => V::bitwise_not_done(b, a, *expr, r),
                    Expr::Dispatch { type_, expr, id, arguments } => V::dispatch_done(b, a, type_, *expr, id, arguments, r),
                    Expr::StringLiteral { value } => V::stringliteral_done(b, a, value, r),
                    Expr::IntegerLiteral { value } => V::integerliteral_done(b, a, value, r),
                    Expr::BoolLiteral { value } => V::boolliteral_done(b, a, value, r),
                    Expr::ID { id } => V::id_done(b, a, id, r),
                    Expr::Case { expr, branches } => V::case_done(b, a, *expr, branches, r),
                    Expr::Branch { id, type_, expr } => V::branch_done(b, a, id, type_, *expr, r),
                    Expr::If { condition, then_branch, else_branch } => V::if_done(b, a, *condition, *then_branch, *else_branch, r),
                    Expr::While { condition, body } => V::while_done(b, a, *condition, *body, r),
                    Expr::Let { declarations, body } => V::let_done(b, a, declarations, *body, r),
                    Expr::Declaration { id, type_, expr } => V::declaration_done(b, a, id, type_, *expr, r),
                    Expr::Block { exprs } => V::block_done(b, a, exprs, r),
                    Expr::Grouping { expr } => V::grouping_done(b, a, *expr, r),
                    _ => V::not_implemented_done(b, a, r),
                }
            }),
    {
        match self {
            Expr::Assign { left, right } => visit.visit_assign(left, right),
            Expr::Not { expr } => visit.visit_not(expr),
            Expr::Comparison { left, operator, right } => visit.visit_comparison(left, operator, right),
            Expr::Arithmetic { left, operator, right } => visit.visit_arithmetic(left, operator, right),
            Expr::Factor { left, operator, right } => visit.visit_factor(left, operator, right),
            Expr::New { type_ } => visit.visit_new(type_),
            Expr::Delete { expr } => visit.visit_delete(expr),
            Expr::IsVoid { expr } => visit.visit_isvoid(expr),
            Expr::BitWiseNot { expr } => visit.visit_bitwise_not(expr),
            Expr::Dispatch { type_, expr, id, arguments } => visit.visit_dispatch(type_, expr, id, arguments),
            Expr::StringLiteral { value } => visit.visit_stringliteral(value),
            Expr::IntegerLiteral { value } => visit.visit_integerliteral(value),
            Expr::BoolLiteral { value } => visit.visit_boolliteral(value),
            Expr::ID { id } => visit.visit_id(id),
            Expr::Case { expr, branches } => visit.visit_case(expr, branches),
            Expr::Branch { id, type_, expr } => visit.visit_branch(id, type_, expr),
            Expr::If { condition, then_branch, else_branch } => visit.visit_if(condition, then_branch, else_branch),
            Expr::While { condition, body } => visit.visit_while(condition, body),
            Expr::Let { declarations, body } => visit.visit_let(declarations, body),
            Expr::Declaration { id, type_, expr } => visit.visit_declaration(id, type_, expr),
            Expr::Block { exprs } => visit.visit_block(exprs),
            Expr::Grouping { expr } => visit.visit_grouping(expr),
            _ => visit.not_implemented(),
        }
    }

    #[allow(non_snake_case)]
    pub fn IF_EXPR(condition: Expr, then_branch: Expr, else_branch: Expr) -> (r: Expr)
        ensures
            r == (Expr::If { condition: Box::new(condition), then_branch: Box::new(then_branch), else_branch: Box::new(else_branch) }),
    {
        Expr::If { condition: Box::new(condition), then_branch: Box::new(then_branch), else_branch: Box::new(else_branch) }
    }

    #[allow(non_snake_case)]
    pub fn BLOCK_EXPR(exprs: Vec<Expr>) -> (r: Expr)
        ensures
            r == (Expr::Block { exprs }),
    {
        Expr::Block { exprs }
    }

    #[allow(non_snake_case)]
    pub fn WHILE_EXPR(condition: Expr, body: Expr) -> (r: Expr)
        ensures
            r == (Expr::While { condition: Box::new(condition), body: Box::new(body) }),
    {
        Expr::While { condition: Box::new(condition), body: Box::new(body) }
    }

    #[allow(non_snake_case)]
    pub fn LET_EXPR(declarations: Vec<Expr>, body: Expr) -> (r: Expr)
        ensures
            r == (Expr::Let { declarations, body: Box::new(body) }),
    {
        Expr::Let { declarations, body: Box::new(body) }
    }

    #[allow(non_snake_case)]
    pub fn CASE_EXPR(expr: Expr, branches: Vec<Expr>) -> (r: Expr)
        ensures
            r == (Expr::Case { expr: Box::new(expr), branches }),
    {
        Expr::Case { expr: Box::new(expr), branches }
    }

    #[allow(non_snake_case)]
    pub fn Declaration(id: Token, type_: Token, expr: Option<Expr>) -> (r: Expr)
        ensures
            r == (Expr::Declaration { id, type_, expr: Box::new(expr) }),
    {
        Expr::Declaration { id, type_, expr: Box::new(expr) }
    }

    #[allow(non_snake_case)]
    pub fn ID(id: Token) -> (r: Expr)
        ensures
            r == (Expr::ID { id }),
    {
        Expr::ID { id }
    }

    #[allow(non_snake_case)]
    pub fn Not(expr: Expr) -> (r: Expr)
        ensures
            r == (Expr::Not { expr: Box::new(expr) }),
    {
        Expr::Not { expr: Box::new(expr) }
    }

    #[allow(non_snake_case)]
    pub fn Assign(left: Expr, right: Expr) -> (r: Expr)
        ensures
            r == (Expr::Assign { left: Box::new(left), right: Box::new(right) }),
    {
        Expr::Assign { left: Box::new(left), right: Box::new(right) }
    }

    #[allow(non_snake_case)]
    pub fn Comparison(left: Expr, operator: Token, right: Expr) -> (r: Expr)
        ensures
            r == (Expr::Comparison { left: Box::new(left), operator, right: Box::new(right) }),
    {
        Expr::Comparison { left: Box::new(left), operator, right: Box::new(right) }
    }

    #[allow(non_snake_case)]
    pub fn Arithmetic(left: Expr, operator: Token, right: Expr) -> (r: Expr)
        ensures
            r == (Expr::Arithmetic { left: Box::new(left), operator, right: Box::new(right) }),
    {
        Expr::Arithmetic { left: Box::new(left), operator, right: Box::new(right) }
    }

    #[allow(non_snake_case)]
    pub fn Factor(left: Expr, operator: Token, right: Expr) -> (r: Expr)
        ensures
            r == (Expr::Factor { left: Box::new(left), operator, right: Box::new(right) }),
    {
        Expr::Factor { left: Box::new(left), operator, right: Box::new(right) }
    }

    #[allow(non_snake_case)]
    pub fn New(type_: Token) -> (r: Expr)
        ensures
            r == (Expr::New { type_ }),
    {
        Expr::New { type_ }
    }

    #[allow(non_snake_case)]
    pub fn Delete(expr: Expr) -> (r: Expr)
        ensures
            r == (Expr::Delete { expr: Box::new(expr) }),
    {
        Expr::Delete { expr: Box::new(expr) }
    }

    #[allow(non_snake_case)]
    pub fn IsVoid(expr: Expr) -> (r: Expr)
        ensures
            r == (Expr::IsVoid { expr: Box::new(expr) }),
    {
        Expr::IsVoid { expr: Box::new(expr) }
    }

    #[allow(non_snake_case)]
    pub fn BitWiseNot(expr: Expr) -> (r: Expr)
        ensures
            r == (Expr::BitWiseNot { expr: Box::new(expr) }),
    {
        Expr::BitWiseNot { expr: Box::new(expr) }
    }

    #[allow(non_snake_case)]
    pub fn Grouping(expr: Expr) -> (r: Expr)
        ensures
            r == (Expr::Grouping { expr: Box::new(expr) }),
    {
        Expr::Grouping { expr: Box::new(expr) }
    }

    #[allow(non_snake_case)]
    pub fn DispatchSelection(expr: Expr, type_: Token) -> (r: Expr)
        ensures
            r == (Expr::DispatchSelection { expr: Box::new(expr), type_ }),
    {
        Expr::DispatchSelection { expr: Box::new(expr), type_ }
    }

    #[allow(non_snake_case)]
    pub fn Dot(expr: Expr, id: Token) -> (r: Expr)
        ensures
            r == (Expr::Dot { expr: Box::new(expr), id }),
    {
        Expr::Dot { expr: Box::new(expr), id }
    }

    #[allow(non_snake_case)]
    pub fn Call(id: Token, arguments: Vec<Expr>) -> (r: Expr)
        ensures
            r == (Expr::Call { id, arguments }),
    {
        Expr::Call { id, arguments }
    }

    #[allow(non_snake_case)]
    pub fn Dispatch(type_: Option<Token>, expr: Expr, id: Option<Token>, arguments: Vec<Expr>) -> (r: Expr)
        ensures
            r == (Expr::Dispatch { type_, expr: Box::new(expr), id, arguments }),
    {
        Expr::Dispatch { type_, expr: Box::new(expr), id, arguments }
    }

    #[allow(non_snake_case)]
    pub fn StringLiteral(value: Token) -> (r: Expr)
        ensures
            r == (Expr::StringLiteral { value }),
    {
        Expr::StringLiteral { value }
    }

    #[allow(non_snake_case)]
    pub fn IntegerLiteral(value: Token) -> (r: Expr)
        ensures
            r == (Expr::IntegerLiteral { value }),
    {
        Expr::IntegerLiteral { value }
    }

    #[allow(non_snake_case)]
    pub fn BoolLiteral(value: Token) -> (r: Expr)
        ensures
            r == (Expr::BoolLiteral { value }),
    {
        Expr::BoolLiteral { value }
    }
}

} // verus!

verus! {

/// An expression over mathematical values: tokens by their views, and
/// sequences in place of vectors.
pub enum ExprM {
    Assign(Box<ExprM>, Box<ExprM>),
    Not(Box<ExprM>),
    Comparison(Box<ExprM>, TokenModel, Box<ExprM>),
    Arithmetic(Box<ExprM>, TokenModel, Box<ExprM>),
    Factor(Box<ExprM>, TokenModel, Box<ExprM>),
    New(TokenModel),
    Delete(Box<ExprM>),
    IsVoid(Box<ExprM>),
    BitWiseNot(Box<ExprM>),
    DispatchSelection(Box<ExprM>, TokenModel),
    Dot(Box<ExprM>, TokenModel),
    Call(TokenModel, Seq<ExprM>),
    Dispatch(Option<TokenModel>, Box<ExprM>, Option<TokenModel>, Seq<ExprM>),
    StringLiteral(TokenModel),
    IntegerLiteral(TokenModel),
    BoolLiteral(TokenModel),
    ID(TokenModel),
    Case(Box<ExprM>, Seq<ExprM>),
    Branch(TokenModel, TokenModel, Box<ExprM>),
    If(Box<ExprM>, Box<ExprM>, Box<ExprM>),
    While(Box<ExprM>, Box<ExprM>),
    Let(Seq<ExprM>, Box<ExprM>),
    Declaration(TokenModel, TokenModel, Option<Box<ExprM>>),
    Block(Seq<ExprM>),
    Grouping(Box<ExprM>),
    Error,
}

/// A feature over mathematical values; a method's parameters are (name, type) pairs.
pub enum FeatureM {
    Method(TokenModel, TokenModel, Seq<(TokenModel, TokenModel)>, ExprM),
    Attribute(TokenModel, TokenModel, Option<ExprM>),
}

/// A class over mathematical values.
pub struct ClassM {
    pub name: TokenModel,
    pub inherits: Option<TokenModel>,
    pub features: Seq<FeatureM>,
}

pub open spec fn opt_token(o: Option<Token>) -> Option<TokenModel> {
    match o {
        Some(t) => Some(t@),
        None => None,
    }
}

impl Expr {
    /// This expression over mathematical values.
    #[verifier::opaque]
    pub open spec fn model(&self) -> ExprM
        decreases self,
    {
        match self {
            Expr::Assign { left, right } => ExprM::Assign(Box::new(left.model()), Box::new(right.model())),
            Expr::Not { expr } => ExprM::Not(Box::new(expr.model())),
            Expr::Comparison { left, operator, right } => ExprM::Comparison(
                Box::new(left.model()),
                operator@,
                Box::new(right.model()),
            ),
            Expr::Arithmetic { left, operator, right } => ExprM::Arithmetic(
                Box::new(left.model()),
                operator@,
                Box::new(right.model()),
            ),
            Expr::Factor { left, operator, right } => ExprM::Factor(
                Box::new(left.model()),
                operator@,
                Box::new(right.model()),
            ),
            Expr::New { type_ } => ExprM::New(type_@),
            Expr::Delete { expr } => ExprM::Delete(Box::new(expr.model())),
            Expr::IsVoid { expr } => ExprM::IsVoid(Box::new(expr.model())),
            Expr::BitWiseNot { expr } => ExprM::BitWiseNot(Box::new(expr.model())),
            Expr::DispatchSelection { expr, type_ } => ExprM::DispatchSelection(Box::new(expr.model()), type_@),
            Expr::Dot { expr, id } => ExprM::Dot(Box::new(expr.model()), id@),
            Expr::Call { id, arguments } => ExprM::Call(
                id@,
                Seq::new(arguments@.len(), |i: int| if 0 <= i < arguments@.len() { arguments@[i].model() } else { ExprM::Error }),
            ),
            Expr::Dispatch { type_, expr, id, arguments } => ExprM::Dispatch(
                opt_token(*type_),
                Box::new(expr.model()),
                opt_token(*id),
                Seq::new(arguments@.len(), |i: int| if 0 <= i < arguments@.len() { arguments@[i].model() } else { ExprM::Error }),
            ),
            Expr::StringLiteral { value } => ExprM::StringLiteral(value@),
            Expr::IntegerLiteral { value } => ExprM::IntegerLiteral(value@),
            Expr::BoolLiteral { value } => ExprM::BoolLiteral(value@),
            Expr::ID { id } => ExprM::ID(id@),
            Expr::Case { expr, branches } => ExprM::Case(
                Box::new(expr.model()),
                Seq::new(branches@.len(), |i: int| if 0 <= i < branches@.len() { branches@[i].model() } else { ExprM::Error }),
            ),
            Expr::Branch { id, type_, expr } => ExprM::Branch(id@, type_@, Box::new(expr.model())),
            Expr::If { condition, then_branch, else_branch } => ExprM::If(
                Box::new(condition.model()),
                Box::new(then_branch.model()),
                Box::new(else_branch.model()),
            ),
            Expr::While { condition, body } => ExprM::While(Box::new(condition.model()), Box::new(body.model())),
            Expr::Let { declarations, body } => ExprM::Let(
                Seq::new(declarations@.len(), |i: int| if 0 <= i < declarations@.len() { declarations@[i].model() } else { ExprM::Error }),
                Box::new(body.model()),
            ),
            Expr::Declaration { id, type_, expr } => ExprM::Declaration(
                id@,
                type_@,
                match &**expr {
                    Some(e) => Some(Box::new(e.model())),
                    None => None,
                },
            ),
            Expr::Block { exprs } => ExprM::Block(
                Seq::new(exprs@.len(), |i: int| if 0 <= i < exprs@.len() { exprs@[i].model() } else { ExprM::Error }),
            ),
            Expr::Grouping { expr } => ExprM::Grouping(Box::new(expr.model())),
            Expr::Error => ExprM::Error,
        }
    }
}

/// The models of a sequence of expressions.
pub open spec fn models(s: Seq<Expr>) -> Seq<ExprM> {
    Seq::new(s.len(), |i: int| if 0 <= i < s.len() { s[i].model() } else { ExprM::Error })
}

pub proof fn lemma_models_push(s: Seq<Expr>, e: Expr)
    ensures
        models(s.push(e)) == models(s).push(e.model()),
{
    assert(models(s.push(e)) =~= models(s).push(e.model()));
}

pub proof fn lemma_error_model()
    ensures
        Expr::Error.model() == ExprM::Error,
{
    reveal(Expr::model);
}

pub proof fn lemma_models_empty()
    ensures
        models(Seq::<Expr>::empty()) == Seq::<ExprM>::empty(),
{
    assert(models(Seq::<Expr>::empty()) =~= Seq::<ExprM>::empty());
}

pub open spec fn opt_model(o: Option<Expr>) -> Option<ExprM> {
    match o {
        Some(e) => Some(e.model()),
        None => None,
    }
}

pub open spec fn formal_model(f: Formal) -> (TokenModel, TokenModel) {
    (f.id@, f.type_@)
}

impl Feature {
    pub open spec fn model(&self) -> FeatureM {
        match self {
            Feature::Method { id, type_, parameters, body } => FeatureM::Method(
                id@,
                type_@,
                parameters@.map_values(|f: Formal| formal_model(f)),
                body.model(),
            ),
            Feature::Attribute { id, type_, expr } => FeatureM::Attribute(id@, type_@, opt_model(*expr)),
        }
    }
}

impl Class {
    pub open spec fn model(&self) -> ClassM {
        ClassM {
            name: self.type_@,
            inherits: opt_token(self.inherits),
            features: self.features@.map_values(|f: Feature| f.model()),
        }
    }
}

impl Program {
    pub open spec fn model(&self) -> Seq<ClassM> {
        self.classes@.map_values(|c: Class| c.model())
    }
}

} // verus!
