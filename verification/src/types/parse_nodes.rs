//! The nodes of the syntax tree. A node owns its children, so the tree has no
//! cycles, and every list of children keeps the order of the source.

use crate::types::built_in_types::BuiltInTypes;
use crate::types::others::Position;
use crate::types::tokens::TokenType;
use vstd::prelude::*;

verus! {

/// A statement. The root of a tree is a module, which holds the statements
/// of a program.
#[allow(inconsistent_fields)]
#[derive(Debug)]
pub enum Statement {
    Module { start: Position, body: Box<Vec<Statement>> },
    VariableDeclaration {
        start: Position,
        name: String,
        kind: VarDeclarationKind,
        declared_type: BuiltInTypes,
        value: Option<Expression>,
    },
    ConstantDeclaration {
        start: Position,
        name: Option<String>,
        declared_type: BuiltInTypes,
        value: Expression,
    },
    FunctionDeclaration {
        start: Position,
        name: String,
        return_type: BuiltInTypes,
        params: Vec<FuncParam>,
        body: Box<Vec<Statement>>,
    },
    If {
        start: Position,
        condition: Expression,
        body: Option<Box<Vec<Statement>>>,
        alternate: Option<Box<Vec<Statement>>>,
    },
    ElseIf {
        start: Position,
        condition: Expression,
        body: Option<Box<Vec<Statement>>>,
        alternate: Option<Box<Vec<Statement>>>,
    },
    Else { start: Position, body: Option<Box<Vec<Statement>>> },
    While { start: Position, condition: Expression, body: Option<Box<Vec<Statement>>> },
    For {
        start: Position,
        variable: Option<Box<Statement>>,
        condition: Option<Expression>,
        variable_update: Option<Box<Statement>>,
        body: Option<Box<Vec<Statement>>>,
        alternate: Option<Box<Vec<Statement>>>,
    },
    Break { start: Position },
    Continue { start: Position },
    Return { start: Position, expression: Expression },
    VariableAlteration { name: String, operator: TokenType, value: Expression },
    FunctionCall(Expression),
}

/// Whether a block is the body of a loop.
#[derive(Debug, Clone, Copy, PartialEq, Eq, Structural)]
pub enum Loop {
    Yes,
    No,
}

/// A parameter of a function: its name and its type, which is always written.
#[derive(Debug)]
pub struct FuncParam {
    pub name: String,
    pub param_type: BuiltInTypes,
}

/// Whether a variable can be assigned to after its declaration.
#[derive(Debug, Clone, Copy, PartialEq, Eq, Structural)]
pub enum VarDeclarationKind {
    Mutable,
    Immutable,
}

/// An access to an element of an array: of a named array, or of the array
/// that another access gives.
#[derive(Debug)]
pub enum ArrayAcess {
    Acess { name: String, index: Box<Expression> },
    NestedAcess { acess: Box<ArrayAcess>, index: Box<Expression> },
}

/// An expression.
#[derive(Debug)]
pub enum Expression {
    Identifier(String),
    Binary { operator: TokenType, left: Box<Expression>, right: Box<Expression> },
    Logical { operator: TokenType, left: Box<Expression>, right: Box<Expression> },
    Unary { operator: TokenType, operand: Box<Expression> },
    Literal { literal_type: TokenType, value: String },
    ArrayLiteral { elements: Option<Box<Vec<Expression>>> },
    ArrayAcess(ArrayAcess),
    Call { name: String, arguments: Option<Box<Vec<Expression>>> },
}

/// The kinds of literal.
#[derive(Debug, Clone, Copy, PartialEq, Eq, Structural)]
pub enum LiteralType {
    Numeric,
    String,
    Boolean,
}

/// A parameter, with its name as a sequence of characters.
pub struct FuncParamView {
    pub name: Seq<char>,
    pub param_type: BuiltInTypes,
}

impl View for FuncParam {
    type V = FuncParamView;

    open spec fn view(&self) -> FuncParamView {
        FuncParamView { name: self.name@, param_type: self.param_type }
    }
}

/// The views of a list of parameters, in the same order.
pub open spec fn param_views(params: Seq<FuncParam>) -> Seq<FuncParamView> {
    params.map_values(|param: FuncParam| param@)
}

/// An expression, with texts as sequences of characters and lists as
/// sequences.
pub enum ExpressionView {
    Identifier(Seq<char>),
    Binary { operator: TokenType, left: Box<ExpressionView>, right: Box<ExpressionView> },
    Logical { operator: TokenType, left: Box<ExpressionView>, right: Box<ExpressionView> },
    Unary { operator: TokenType, operand: Box<ExpressionView> },
    Literal { literal_type: TokenType, value: Seq<char> },
    ArrayLiteral { elements: Option<Seq<ExpressionView>> },
    ArrayAcess(ArrayAcessView),
    Call { name: Seq<char>, arguments: Option<Seq<ExpressionView>> },
}

/// An array access, with its parts as views.
pub enum ArrayAcessView {
    Acess { name: Seq<char>, index: Box<ExpressionView> },
    NestedAcess { acess: Box<ArrayAcessView>, index: Box<ExpressionView> },
}

/// The views of a list of expressions, in the same order.
pub open spec fn expression_views(expressions: Vec<Expression>) -> Seq<ExpressionView>
    decreases expressions,
{
    Seq::new(
        expressions.len() as nat,
        |i: int|
            if 0 <= i < expressions.len() {
                expression_view(expressions[i])
            } else {
                arbitrary()
            },
    )
}

/// The views of a list of expressions, where there is one.
pub open spec fn optional_expression_views(expressions: Option<Box<Vec<Expression>>>) -> Option<
    Seq<ExpressionView>,
>
    decreases expressions,
{
    match expressions {
        Some(list) => Some(expression_views(*list)),
        None => None,
    }
}

/// The view of an array access.
pub open spec fn array_acess_view(acess: ArrayAcess) -> ArrayAcessView
    decreases acess,
{
    match acess {
        ArrayAcess::Acess { name, index } => ArrayAcessView::Acess {
            name: name@,
            index: Box::new(expression_view(*index)),
        },
        ArrayAcess::NestedAcess { acess, index } => ArrayAcessView::NestedAcess {
            acess: Box::new(array_acess_view(*acess)),
            index: Box::new(expression_view(*index)),
        },
    }
}

/// The view of an expression.
pub open spec fn expression_view(expression: Expression) -> ExpressionView
    decreases expression,
{
    match expression {
        Expression::Identifier(name) => ExpressionView::Identifier(name@),
        Expression::Binary { operator, left, right } => ExpressionView::Binary {
            operator,
            left: Box::new(expression_view(*left)),
            right: Box::new(expression_view(*right)),
        },
        Expression::Logical { operator, left, right } => ExpressionView::Logical {
            operator,
            left: Box::new(expression_view(*left)),
            right: Box::new(expression_view(*right)),
        },
        Expression::Unary { operator, operand } => ExpressionView::Unary {
            operator,
            operand: Box::new(expression_view(*operand)),
        },
        Expression::Literal { literal_type, value } => ExpressionView::Literal {
            literal_type,
            value: value@,
        },
        Expression::ArrayLiteral { elements } => ExpressionView::ArrayLiteral {
            elements: optional_expression_views(elements),
        },
        Expression::ArrayAcess(acess) => ExpressionView::ArrayAcess(array_acess_view(acess)),
        Expression::Call { name, arguments } => ExpressionView::Call {
            name: name@,
            arguments: optional_expression_views(arguments),
        },
    }
}

impl View for ArrayAcess {
    type V = ArrayAcessView;

    open spec fn view(&self) -> ArrayAcessView {
        array_acess_view(*self)
    }
}

impl View for Expression {
    type V = ExpressionView;

    open spec fn view(&self) -> ExpressionView {
        expression_view(*self)
    }
}

/// A statement, with texts as sequences of characters and lists as
/// sequences.
#[allow(inconsistent_fields)]
pub enum StatementView {
    Module { start: Position, body: Seq<StatementView> },
    VariableDeclaration {
        start: Position,
        name: Seq<char>,
        kind: VarDeclarationKind,
        declared_type: BuiltInTypes,
        value: Option<ExpressionView>,
    },
    ConstantDeclaration {
        start: Position,
        name: Option<Seq<char>>,
        declared_type: BuiltInTypes,
        value: ExpressionView,
    },
    FunctionDeclaration {
        start: Position,
        name: Seq<char>,
        return_type: BuiltInTypes,
        params: Seq<FuncParamView>,
        body: Seq<StatementView>,
    },
    If {
        start: Position,
        condition: ExpressionView,
        body: Option<Seq<StatementView>>,
        alternate: Option<Seq<StatementView>>,
    },
    ElseIf {
        start: Position,
        condition: ExpressionView,
        body: Option<Seq<StatementView>>,
        alternate: Option<Seq<StatementView>>,
    },
    Else { start: Position, body: Option<Seq<StatementView>> },
    While { start: Position, condition: ExpressionView, body: Option<Seq<StatementView>> },
    For {
        start: Position,
        variable: Option<Box<StatementView>>,
        condition: Option<ExpressionView>,
        variable_update: Option<Box<StatementView>>,
        body: Option<Seq<StatementView>>,
        alternate: Option<Seq<StatementView>>,
    },
    Break { start: Position },
    Continue { start: Position },
    Return { start: Position, expression: ExpressionView },
    VariableAlteration { name: Seq<char>, operator: TokenType, value: ExpressionView },
    FunctionCall(ExpressionView),
}

/// The views of a list of statements, in the same order.
pub open spec fn statement_views(statements: Vec<Statement>) -> Seq<StatementView>
    decreases statements,
{
    Seq::new(
        statements.len() as nat,
        |i: int|
            if 0 <= i < statements.len() {
                statement_view(statements[i])
            } else {
                arbitrary()
            },
    )
}

/// The views of a list of statements, where there is one.
pub open spec fn optional_statement_views(statements: Option<Box<Vec<Statement>>>) -> Option<
    Seq<StatementView>,
>
    decreases statements,
{
    match statements {
        Some(list) => Some(statement_views(*list)),
        None => None,
    }
}

/// The view of a statement, where there is one.
pub open spec fn optional_statement_view(statement: Option<Box<Statement>>) -> Option<
    Box<StatementView>,
>
    decreases statement,
{
    match statement {
        Some(inner) => Some(Box::new(statement_view(*inner))),
        None => None,
    }
}

/// The view of an expression, where there is one.
pub open spec fn optional_expression_view(expression: Option<Expression>) -> Option<
    ExpressionView,
> {
    match expression {
        Some(inner) => Some(expression_view(inner)),
        None => None,
    }
}

/// The characters of a name, where there is one.
pub open spec fn optional_name_view(name: Option<String>) -> Option<Seq<char>> {
    match name {
        Some(inner) => Some(inner@),
        None => None,
    }
}

/// The view of a statement.
pub open spec fn statement_view(statement: Statement) -> StatementView
    decreases statement,
{
    match statement {
        Statement::Module { start, body } => StatementView::Module {
            start,
            body: statement_views(*body),
        },
        Statement::VariableDeclaration {
            start,
            name,
            kind,
            declared_type,
            value,
        } => StatementView::VariableDeclaration {
            start,
            name: name@,
            kind,
            declared_type,
            value: optional_expression_view(value),
        },
        Statement::ConstantDeclaration {
            start,
            name,
            declared_type,
            value,
        } => StatementView::ConstantDeclaration {
            start,
            name: optional_name_view(name),
            declared_type,
            value: expression_view(value),
        },
        Statement::FunctionDeclaration {
            start,
            name,
            return_type,
            params,
            body,
        } => StatementView::FunctionDeclaration {
            start,
            name: name@,
            return_type,
            params: param_views(params@),
            body: statement_views(*body),
        },
        Statement::If { start, condition, body, alternate } => StatementView::If {
            start,
            condition: expression_view(condition),
            body: optional_statement_views(body),
            alternate: optional_statement_views(alternate),
        },
        Statement::ElseIf { start, condition, body, alternate } => StatementView::ElseIf {
            start,
            condition: expression_view(condition),
            body: optional_statement_views(body),
            alternate: optional_statement_views(alternate),
        },
        Statement::Else { start, body } => StatementView::Else {
            start,
            body: optional_statement_views(body),
        },
        Statement::While { start, condition, body } => StatementView::While {
            start,
            condition: expression_view(condition),
            body: optional_statement_views(body),
        },
        Statement::For {
            start,
            variable,
            condition,
            variable_update,
            body,
            alternate,
        } => StatementView::For {
            start,
            variable: optional_statement_view(variable),
            condition: optional_expression_view(condition),
            variable_update: optional_statement_view(variable_update),
            body: optional_statement_views(body),
            alternate: optional_statement_views(alternate),
        },
        Statement::Break { start } => StatementView::Break { start },
        Statement::Continue { start } => StatementView::Continue { start },
        Statement::Return { start, expression } => StatementView::Return {
            start,
            expression: expression_view(expression),
        },
        Statement::VariableAlteration { name, operator, value } => StatementView::VariableAlteration {
            name: name@,
            operator,
            value: expression_view(value),
        },
        Statement::FunctionCall(expression) => StatementView::FunctionCall(
            expression_view(expression),
        ),
    }
}

impl View for Statement {
    type V = StatementView;

    open spec fn view(&self) -> StatementView {
        statement_view(*self)
    }
}

fn copy_expressions(list: &Vec<Expression>) -> (copy: Vec<Expression>)
    ensures
        expression_views(copy) == expression_views(*list),
    decreases list,
{
    let mut copy: Vec<Expression> = Vec::new();
    let mut i: usize = 0;
    while i < list.len()
        invariant
            i <= list.len(),
            copy.len() == i,
            forall|j: int| 0 <= j < i ==> (#[trigger] copy[j])@ == list[j]@,
        decreases list.len() - i,
    {
        proof {
            vstd::std_specs::vec::axiom_vec_index_decreases(*list, i as int);
        }
        copy.push(copy_expression(&list[i]));
        i = i + 1;
    }
    assert(expression_views(copy) =~= expression_views(*list));
    copy
}

fn copy_optional_expressions(list: &Option<Box<Vec<Expression>>>) -> (copy: Option<
    Box<Vec<Expression>>,
>)
    ensures
        optional_expression_views(copy) == optional_expression_views(*list),
    decreases list,
{
    match list {
        Some(inner) => Some(Box::new(copy_expressions(&**inner))),
        None => None,
    }
}

fn copy_array_acess(acess: &ArrayAcess) -> (copy: ArrayAcess)
    ensures
        copy@ == acess@,
    decreases acess,
{
    match acess {
        ArrayAcess::Acess { name, index } => ArrayAcess::Acess {
            name: name.clone(),
            index: Box::new(copy_expression(&**index)),
        },
        ArrayAcess::NestedAcess { acess, index } => ArrayAcess::NestedAcess {
            acess: Box::new(copy_array_acess(&**acess)),
            index: Box::new(copy_expression(&**index)),
        },
    }
}

fn copy_expression(expression: &Expression) -> (copy: Expression)
    ensures
        copy@ == expression@,
    decreases expression,
{
    match expression {
        Expression::Identifier(name) => Expression::Identifier(name.clone()),
        Expression::Binary { operator, left, right } => Expression::Binary {
            operator: *operator,
            left: Box::new(copy_expression(&**left)),
            right: Box::new(copy_expression(&**right)),
        },
        Expression::Logical { operator, left, right } => Expression::Logical {
            operator: *operator,
            left: Box::new(copy_expression(&**left)),
            right: Box::new(copy_expression(&**right)),
        },
        Expression::Unary { operator, operand } => Expression::Unary {
            operator: *operator,
            operand: Box::new(copy_expression(&**operand)),
        },
        Expression::Literal { literal_type, value } => Expression::Literal {
            literal_type: *literal_type,
            value: value.clone(),
        },
        Expression::ArrayLiteral { elements } => Expression::ArrayLiteral {
            elements: copy_optional_expressions(elements),
        },
        Expression::ArrayAcess(acess) => Expression::ArrayAcess(copy_array_acess(acess)),
        Expression::Call { name, arguments } => Expression::Call {
            name: name.clone(),
            arguments: copy_optional_expressions(arguments),
        },
    }
}

impl Clone for ArrayAcess {
    fn clone(&self) -> (copy: Self)
        ensures
            copy@ == self@,
    {
        copy_array_acess(self)
    }
}

impl Clone for Expression {
    fn clone(&self) -> (copy: Self)
        ensures
            copy@ == self@,
    {
        copy_expression(self)
    }
}

impl Clone for FuncParam {
    fn clone(&self) -> (copy: Self)
        ensures
            copy@ == self@,
    {
        FuncParam { name: self.name.clone(), param_type: self.param_type }
    }
}

fn copy_params(params: &Vec<FuncParam>) -> (copy: Vec<FuncParam>)
    ensures
        param_views(copy@) == param_views(params@),
{
    let mut copy: Vec<FuncParam> = Vec::new();
    let mut i: usize = 0;
    while i < params.len()
        invariant
            i <= params.len(),
            copy.len() == i,
            forall|j: int| 0 <= j < i ==> (#[trigger] copy[j])@ == params[j]@,
        decreases params.len() - i,
    {
        copy.push(params[i].clone());
        i = i + 1;
    }
    assert(param_views(copy@) =~= param_views(params@));
    copy
}

fn copy_optional_expression(expression: &Option<Expression>) -> (copy: Option<Expression>)
    ensures
        optional_expression_view(copy) == optional_expression_view(*expression),
{
    match expression {
        Some(inner) => Some(copy_expression(inner)),
        None => None,
    }
}

fn copy_optional_name(name: &Option<String>) -> (copy: Option<String>)
    ensures
        optional_name_view(copy) == optional_name_view(*name),
{
    match name {
        Some(inner) => Some(inner.clone()),
        None => None,
    }
}

fn copy_statements(list: &Vec<Statement>) -> (copy: Vec<Statement>)
    ensures
        statement_views(copy) == statement_views(*list),
    decreases list,
{
    let mut copy: Vec<Statement> = Vec::new();
    let mut i: usize = 0;
    while i < list.len()
        invariant
            i <= list.len(),
            copy.len() == i,
            forall|j: int| 0 <= j < i ==> (#[trigger] copy[j])@ == list[j]@,
        decreases list.len() - i,
    {
        proof {
            vstd::std_specs::vec::axiom_vec_index_decreases(*list, i as int);
        }
        copy.push(copy_statement(&list[i]));
        i = i + 1;
    }
    assert(statement_views(copy) =~= statement_views(*list));
    copy
}

fn copy_optional_statements(list: &Option<Box<Vec<Statement>>>) -> (copy: Option<
    Box<Vec<Statement>>,
>)
    ensures
        optional_statement_views(copy) == optional_statement_views(*list),
    decreases list,
{
    match list {
        Some(inner) => Some(Box::new(copy_statements(&**inner))),
        None => None,
    }
}

fn copy_optional_statement(statement: &Option<Box<Statement>>) -> (copy: Option<Box<Statement>>)
    ensures
        optional_statement_view(copy) == optional_statement_view(*statement),
    decreases statement,
{
    match statement {
        Some(inner) => Some(Box::new(copy_statement(&**inner))),
        None => None,
    }
}

fn copy_statement(statement: &Statement) -> (copy: Statement)
    ensures
        copy@ == statement@,
    decreases statement,
{
    match statement {
        Statement::Module { start, body } => Statement::Module {
            start: *start,
            body: Box::new(copy_statements(&**body)),
        },
        Statement::VariableDeclaration {
            start,
            name,
            kind,
            declared_type,
            value,
        } => Statement::VariableDeclaration {
            start: *start,
            name: name.clone(),
            kind: *kind,
            declared_type: *declared_type,
            value: copy_optional_expression(value),
        },
        Statement::ConstantDeclaration {
            start,
            name,
            declared_type,
            value,
        } => Statement::ConstantDeclaration {
            start: *start,
            name: copy_optional_name(name),
            declared_type: *declared_type,
            value: copy_expression(value),
        },
        Statement::FunctionDeclaration {
            start,
            name,
            return_type,
            params,
            body,
        } => Statement::FunctionDeclaration {
            start: *start,
            name: name.clone(),
            return_type: *return_type,
            params: copy_params(params),
            body: Box::new(copy_statements(&**body)),
        },
        Statement::If { start, condition, body, alternate } => Statement::If {
            start: *start,
            condition: copy_expression(condition),
            body: copy_optional_statements(body),
            alternate: copy_optional_statements(alternate),
        },
        Statement::ElseIf { start, condition, body, alternate } => Statement::ElseIf {
            start: *start,
            condition: copy_expression(condition),
            body: copy_optional_statements(body),
            alternate: copy_optional_statements(alternate),
        },
        Statement::Else { start, body } => Statement::Else {
            start: *start,
            body: copy_optional_statements(body),
        },
        Statement::While { start, condition, body } => Statement::While {
            start: *start,
            condition: copy_expression(condition),
            body: copy_optional_statements(body),
        },
        Statement::For {
            start,
            variable,
            condition,
            variable_update,
            body,
            alternate,
        } => Statement::For {
            start: *start,
            variable: copy_optional_statement(variable),
            condition: copy_optional_expression(condition),
            variable_update: copy_optional_statement(variable_update),
            body: copy_optional_statements(body),
            alternate: copy_optional_statements(alternate),
        },
        Statement::Break { start } => Statement::Break { start: *start },
        Statement::Continue { start } => Statement::Continue { start: *start },
        Statement::Return { start, expression } => Statement::Return {
            start: *start,
            expression: copy_expression(expression),
        },
        Statement::VariableAlteration { name, operator, value } => Statement::VariableAlteration {
            name: name.clone(),
            operator: *operator,
            value: copy_expression(value),
        },
        Statement::FunctionCall(expression) => Statement::FunctionCall(
            copy_expression(expression),
        ),
    }
}

impl Clone for Statement {
    fn clone(&self) -> (copy: Self)
        ensures
            copy@ == self@,
    {
        copy_statement(self)
    }
}

} // verus!
