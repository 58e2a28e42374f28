//! Parsing a source file with oxc, and reading the syntax tree as the
//! library's syntax values: the top-level function declarations, and the
//! events of oxc's depth-first walk.
//!
//! The tree lives in oxc's arena and is opaque here, so each function that
//! reads it is trusted: it tells the tree's variants apart and moves their
//! parts into the library's values, one for one, and does nothing else.
use vstd::prelude::*;
use oxc_ast::ast::{
    Argument, ArrayExpressionElement, BindingPattern, BlockStatement, CallExpression, Expression, FormalParameters,
    FunctionBody, JSXAttributeItem, JSXAttributeName, JSXAttributeValue, JSXElementName, JSXExpression,
    JSXOpeningElement, LogicalOperator, ObjectPropertyKind, Program, PropertyKey, Statement, TemplateLiteral,
    VariableDeclaration, VariableDeclarationKind, VariableDeclarator,
};
use oxc_ast_visit::{walk, Visit};
use crate::strings::strs;
use crate::syntax::{
    Arg, ArrayElement, CallSite, Declarator, Event, Expr, FunctionDecl, JsxAttr, JsxOpening, JsxValue, LogicalOp,
    ObjectItem, PropKey, Property, SourceFile, Stmt, Template, VarDecl,
};

verus! {

/// A parsed program.
#[verifier::external_type_specification]
#[verifier::external_body]
pub struct ExProgram<'a>(Program<'a>);

/// A statement.
#[verifier::external_type_specification]
#[verifier::external_body]
pub struct ExStatement<'a>(Statement<'a>);

/// An expression.
#[verifier::external_type_specification]
#[verifier::external_body]
pub struct ExExpression<'a>(Expression<'a>);

/// An argument of a call.
#[verifier::external_type_specification]
#[verifier::external_body]
pub struct ExArgument<'a>(Argument<'a>);

/// An element of an array literal.
#[verifier::external_type_specification]
#[verifier::external_body]
pub struct ExArrayExpressionElement<'a>(ArrayExpressionElement<'a>);

/// An item of an object literal.
#[verifier::external_type_specification]
#[verifier::external_body]
pub struct ExObjectPropertyKind<'a>(ObjectPropertyKind<'a>);

/// The key of an object property.
#[verifier::external_type_specification]
#[verifier::external_body]
pub struct ExPropertyKey<'a>(PropertyKey<'a>);

/// A template literal.
#[verifier::external_type_specification]
#[verifier::external_body]
pub struct ExTemplateLiteral<'a>(TemplateLiteral<'a>);

/// The parameters of a function.
#[verifier::external_type_specification]
#[verifier::external_body]
pub struct ExFormalParameters<'a>(FormalParameters<'a>);

/// The operator of a logical expression.
#[verifier::external_type_specification]
#[verifier::external_body]
pub struct ExLogicalOperator(LogicalOperator);

/// A JSX opening element.
#[verifier::external_type_specification]
#[verifier::external_body]
pub struct ExJSXOpeningElement<'a>(JSXOpeningElement<'a>);

/// An item of a JSX attribute list.
#[verifier::external_type_specification]
#[verifier::external_body]
pub struct ExJSXAttributeItem<'a>(JSXAttributeItem<'a>);

/// The value of a JSX attribute.
#[verifier::external_type_specification]
#[verifier::external_body]
pub struct ExJSXAttributeValue<'a>(JSXAttributeValue<'a>);

/// A variable declaration.
#[verifier::external_type_specification]
#[verifier::external_body]
pub struct ExVariableDeclaration<'a>(VariableDeclaration<'a>);

/// One declarator of a variable declaration.
#[verifier::external_type_specification]
#[verifier::external_body]
pub struct ExVariableDeclarator<'a>(VariableDeclarator<'a>);

/// A call expression.
#[verifier::external_type_specification]
#[verifier::external_body]
pub struct ExCallExpression<'a>(CallExpression<'a>);

/// A block statement.
#[verifier::external_type_specification]
#[verifier::external_body]
pub struct ExBlockStatement<'a>(BlockStatement<'a>);

/// The body of a function.
#[verifier::external_type_specification]
#[verifier::external_body]
pub struct ExFunctionBody<'a>(FunctionBody<'a>);

/// A template literal as the library's value: its first raw text part and
/// whether it embeds expressions.
///
/// Trusted: reads `TemplateLiteral::quasis` and `expressions`.
#[verifier::external_body]
fn template_of<'a>(tpl: &TemplateLiteral<'a>) -> Template {
    Template {
        head: tpl.quasis.first().map(|q| q.value.raw.to_string()),
        has_expressions: !tpl.expressions.is_empty(),
    }
}

/// The name of the first parameter, when it is a plain name.
///
/// Trusted: reads `FormalParameters::items` and the first one's pattern.
#[verifier::external_body]
fn first_param_name<'a>(params: &FormalParameters<'a>) -> Option<String> {
    match &params.items.first()?.pattern {
        BindingPattern::BindingIdentifier(binding) => Some(binding.name.to_string()),
        _ => None,
    }
}

/// An object property key as the library's value.
///
/// Trusted: tells the variants of `PropertyKey` apart.
#[verifier::external_body]
fn property_key_of<'a>(key: &PropertyKey<'a>) -> PropKey {
    match key {
        PropertyKey::StaticIdentifier(ident) => PropKey::Static(ident.name.to_string()),
        PropertyKey::PrivateIdentifier(_) => PropKey::Private,
        _ => match key.as_expression() {
            Some(e) => PropKey::Expr(Box::new(expr_of(e))),
            None => PropKey::Private,
        },
    }
}

/// An item of an object literal as the library's value.
///
/// Trusted: tells the variants of `ObjectPropertyKind` apart.
#[verifier::external_body]
fn object_item_of<'a>(item: &ObjectPropertyKind<'a>) -> ObjectItem {
    match item {
        ObjectPropertyKind::ObjectProperty(p) => ObjectItem::Property(Property {
            key: property_key_of(&p.key),
            value: expr_of(&p.value),
            computed: p.computed,
            method: p.method,
        }),
        ObjectPropertyKind::SpreadProperty(_) => ObjectItem::Spread,
    }
}

/// An element of an array literal as the library's value.
///
/// Trusted: tells the variants of `ArrayExpressionElement` apart.
#[verifier::external_body]
fn array_element_of<'a>(element: &ArrayExpressionElement<'a>) -> ArrayElement {
    match element {
        ArrayExpressionElement::StringLiteral(s) => ArrayElement::Str(s.value.to_string()),
        ArrayExpressionElement::TemplateLiteral(tpl) => ArrayElement::Template(template_of(tpl)),
        _ => ArrayElement::Other,
    }
}

/// The operator of a logical expression as the library's value.
///
/// Trusted: tells the variants of `LogicalOperator` apart.
#[verifier::external_body]
fn logical_op_of(op: LogicalOperator) -> LogicalOp {
    match op {
        LogicalOperator::Or => LogicalOp::Or,
        LogicalOperator::Coalesce => LogicalOp::Coalesce,
        LogicalOperator::And => LogicalOp::And,
    }
}

/// An expression as the library's value: literals, names and static
/// member accesses here, the rest in `compound_expr_of`.
///
/// Trusted: tells the variants of `Expression` apart.
#[verifier::external_body]
fn expr_of<'a>(e: &Expression<'a>) -> Expr {
    match e {
        Expression::StringLiteral(s) => Expr::Str(s.value.to_string()),
        Expression::TemplateLiteral(tpl) => Expr::Template(template_of(tpl)),
        Expression::ArrayExpression(a) => Expr::Array(a.elements.iter().map(|x| array_element_of(x)).collect()),
        Expression::Identifier(ident) => Expr::Ident(ident.name.to_string()),
        Expression::StaticMemberExpression(m) => Expr::Member(Box::new(expr_of(&m.object)), m.property.name.to_string()),
        _ => compound_expr_of(e),
    }
}

/// A computed member access, a call, or a conditional or logical
/// expression as the library's value; the rest in `wrapped_expr_of`.
///
/// Trusted: tells the variants of `Expression` apart.
#[verifier::external_body]
fn compound_expr_of<'a>(e: &Expression<'a>) -> Expr {
    match e {
        Expression::ComputedMemberExpression(m) => Expr::Computed(Box::new(expr_of(&m.object)), Box::new(expr_of(&m.expression))),
        Expression::CallExpression(c) => Expr::Call(Box::new(expr_of(&c.callee)), args_of(&c.arguments)),
        Expression::ConditionalExpression(c) => Expr::Conditional(Box::new(expr_of(&c.consequent)), Box::new(expr_of(&c.alternate))),
        Expression::LogicalExpression(l) => Expr::Logical(logical_op_of(l.operator), Box::new(expr_of(&l.left)), Box::new(expr_of(&l.right))),
        _ => wrapped_expr_of(e),
    }
}

/// A TypeScript wrapper as the library's value; the rest in
/// `other_expr_of`.
///
/// Trusted: tells the variants of `Expression` apart.
#[verifier::external_body]
fn wrapped_expr_of<'a>(e: &Expression<'a>) -> Expr {
    match e {
        Expression::TSAsExpression(ts) => Expr::TsWrapper(Box::new(expr_of(&ts.expression))),
        Expression::TSSatisfiesExpression(ts) => Expr::TsWrapper(Box::new(expr_of(&ts.expression))),
        Expression::TSTypeAssertion(ts) => Expr::TsWrapper(Box::new(expr_of(&ts.expression))),
        Expression::TSNonNullExpression(ts) => Expr::TsWrapper(Box::new(expr_of(&ts.expression))),
        _ => other_expr_of(e),
    }
}

/// An object literal, an `await`, a function, or any other expression, as
/// the library's value.
///
/// Trusted: tells the variants of `Expression` apart.
#[verifier::external_body]
fn other_expr_of<'a>(e: &Expression<'a>) -> Expr {
    match e {
        Expression::ObjectExpression(o) => Expr::Object(o.properties.iter().map(|p| object_item_of(p)).collect()),
        Expression::AwaitExpression(a) => Expr::Await(Box::new(expr_of(&a.argument))),
        Expression::ArrowFunctionExpression(f) => Expr::Function(first_param_name(&f.params)),
        Expression::FunctionExpression(f) => Expr::Function(first_param_name(&f.params)),
        _ => Expr::Other,
    }
}

/// The arguments of a call as the library's values.
///
/// Trusted: tells an expression argument from a spread.
#[verifier::external_body]
fn args_of<'a>(arguments: &[Argument<'a>]) -> Vec<Arg> {
    arguments
        .iter()
        .map(|a| match a.as_expression() {
            Some(e) => Arg::Expr(expr_of(e)),
            None => Arg::Spread,
        })
        .collect()
}

/// A statement as the library's value, as far as returned values go.
///
/// Trusted: tells the variants of `Statement` apart.
#[verifier::external_body]
fn stmt_of<'a>(statement: &Statement<'a>) -> Stmt {
    match statement {
        Statement::ReturnStatement(r) => Stmt::Return(r.argument.as_ref().map(|e| expr_of(e))),
        Statement::BlockStatement(b) => Stmt::Block(b.body.iter().map(|s| stmt_of(s)).collect()),
        Statement::IfStatement(i) => Stmt::If(Box::new(stmt_of(&i.consequent)), i.alternate.as_ref().map(|a| Box::new(stmt_of(a)))),
        _ => Stmt::Other,
    }
}

/// A top-level function declaration as the library's value; none for any
/// other statement.
///
/// Trusted: reads `Statement::FunctionDeclaration`.
#[verifier::external_body]
fn function_decl_of<'a>(statement: &Statement<'a>) -> Option<FunctionDecl> {
    match statement {
        Statement::FunctionDeclaration(f) => Some(FunctionDecl {
            name: f.id.as_ref().map(|id| id.name.to_string()),
            body: f.body.as_ref().map(|b| b.statements.iter().map(|s| stmt_of(s)).collect()),
        }),
        _ => None,
    }
}

/// The value of a JSX attribute as the library's value.
///
/// Trusted: tells the variants of `JSXAttributeValue` and `JSXExpression`
/// apart.
#[verifier::external_body]
fn jsx_value_of<'a>(value: &JSXAttributeValue<'a>) -> JsxValue {
    match value {
        JSXAttributeValue::StringLiteral(s) => JsxValue::Str(s.value.to_string()),
        JSXAttributeValue::ExpressionContainer(c) => match &c.expression {
            JSXExpression::EmptyExpression(_) => JsxValue::Other,
            other => match other.as_expression() {
                Some(e) => JsxValue::Expr(expr_of(e)),
                None => JsxValue::Other,
            },
        },
        _ => JsxValue::Other,
    }
}

/// An item of a JSX attribute list as the library's value.
///
/// Trusted: tells the variants of `JSXAttributeItem` and `JSXAttributeName`
/// apart.
#[verifier::external_body]
fn jsx_attr_of<'a>(item: &JSXAttributeItem<'a>) -> JsxAttr {
    match item {
        JSXAttributeItem::Attribute(a) => JsxAttr::Attribute(
            match &a.name {
                JSXAttributeName::Identifier(ident) => Some(ident.name.to_string()),
                JSXAttributeName::NamespacedName(_) => None,
            },
            a.value.as_ref().map(|v| jsx_value_of(v)),
        ),
        JSXAttributeItem::SpreadAttribute(_) => JsxAttr::Spread,
    }
}

/// A JSX opening element as the library's value.
///
/// Trusted: tells the variants of `JSXElementName` apart and reads the
/// attributes and the start offset.
#[verifier::external_body]
fn jsx_opening_of<'a>(element: &JSXOpeningElement<'a>) -> JsxOpening {
    JsxOpening {
        name: match &element.name {
            JSXElementName::Identifier(ident) => Some(ident.name.to_string()),
            JSXElementName::IdentifierReference(ident) => Some(ident.name.to_string()),
            _ => None,
        },
        attributes: element.attributes.iter().map(|i| jsx_attr_of(i)).collect(),
        start: element.span.start,
    }
}

/// One declarator as the library's value.
///
/// Trusted: tells a plain-name binding from a pattern and reads the
/// initializer.
#[verifier::external_body]
fn declarator_of<'a>(d: &VariableDeclarator<'a>) -> Declarator {
    Declarator {
        binding: match &d.id {
            BindingPattern::BindingIdentifier(b) => Some(b.name.to_string()),
            _ => None,
        },
        init: d.init.as_ref().map(|e| expr_of(e)),
    }
}

/// A variable declaration as the library's value.
///
/// Trusted: reads the kind and the declarators.
#[verifier::external_body]
fn var_decl_of<'a>(decl: &VariableDeclaration<'a>) -> VarDecl {
    VarDecl {
        is_const: decl.kind == VariableDeclarationKind::Const,
        declarators: decl.declarations.iter().map(|d| declarator_of(d)).collect(),
    }
}

/// A call expression as the library's value.
///
/// Trusted: reads the callee, the arguments and the start offset.
#[verifier::external_body]
fn call_site_of<'a>(call: &CallExpression<'a>) -> CallSite {
    CallSite { callee: expr_of(&call.callee), args: args_of(&call.arguments), start: call.span.start }
}

/// Records the events of a walk, in the order oxc's walk meets them.
pub struct EventRecorder {
    events: Vec<Event>,
}

impl<'a> Visit<'a> for EventRecorder {
    /// Trusted: records entering and leaving a block around oxc's walk of it.
    #[verifier::external_body]
    fn visit_block_statement(&mut self, block: &BlockStatement<'a>) {
        self.events.push(Event::EnterScope);
        walk::walk_block_statement(self, block);
        self.events.push(Event::ExitScope);
    }

    /// Trusted: records entering and leaving a function body around oxc's
    /// walk of it.
    #[verifier::external_body]
    fn visit_function_body(&mut self, body: &FunctionBody<'a>) {
        self.events.push(Event::EnterScope);
        walk::walk_function_body(self, body);
        self.events.push(Event::ExitScope);
    }

    /// Trusted: records a declaration before oxc's walk of it.
    #[verifier::external_body]
    fn visit_variable_declaration(&mut self, decl: &VariableDeclaration<'a>) {
        self.events.push(Event::Declaration(var_decl_of(decl)));
        walk::walk_variable_declaration(self, decl);
    }

    /// Trusted: records a call around oxc's walk of it.
    #[verifier::external_body]
    fn visit_call_expression(&mut self, call: &CallExpression<'a>) {
        self.events.push(Event::CallStart(call_site_of(call)));
        walk::walk_call_expression(self, call);
        self.events.push(Event::CallEnd);
    }

    /// Trusted: records a JSX opening element before oxc's walk of it.
    #[verifier::external_body]
    fn visit_jsx_opening_element(&mut self, element: &JSXOpeningElement<'a>) {
        self.events.push(Event::JsxOpen(jsx_opening_of(element)));
        walk::walk_jsx_opening_element(self, element);
    }
}

/// A parsed program as the library's value: its top-level function
/// declarations in order, and the events of oxc's walk over it.
///
/// Trusted: reads `Program::body` and runs oxc's walk with the recorder.
#[verifier::external_body]
fn source_file_of<'a>(program: &Program<'a>) -> SourceFile {
    let mut recorder = EventRecorder { events: Vec::new() };
    recorder.visit_program(program);
    SourceFile { functions: program.body.iter().filter_map(|s| function_decl_of(s)).collect(), events: recorder.events }
}

/// What oxc's source type is for a path: the one
/// `oxc_span::SourceType::from_path` gives for it.
pub uninterp spec fn spec_source_type(path: Seq<char>) -> oxc_span::SourceType;

/// What parsing `text` as the file `path` gives: the file read as the
/// library's syntax values, or the parser's messages when it reports any.
pub uninterp spec fn spec_parsed_source(path: Seq<char>, text: Seq<char>) -> Result<SourceFile, Seq<Seq<char>>>;

/// Parses `text`, the contents of the file `path`, whose source type is
/// `source_type`.
///
/// Trusted: calls `oxc_parser::Parser::parse`, whose result depends on the
/// text and the source type alone; the messages of its diagnostics, or the
/// parsed program read by the functions above, are named
/// `spec_parsed_source`.
#[verifier::external_body]
pub(crate) fn parse_source(path: &str, text: &str, source_type: oxc_span::SourceType) -> (r: Result<SourceFile, Vec<String>>)
    requires
        source_type == spec_source_type(path@),
    ensures
        match r {
            Ok(file) => spec_parsed_source(path@, text@) == Ok::<SourceFile, Seq<Seq<char>>>(file),
            Err(messages) => spec_parsed_source(path@, text@) == Err::<SourceFile, Seq<Seq<char>>>(strs(messages@)),
        },
{
    let allocator = oxc_allocator::Allocator::default();
    let ret = oxc_parser::Parser::new(&allocator, text, source_type).parse();
    if !ret.diagnostics.is_empty() {
        return Err(ret.diagnostics.iter().map(|d| d.to_string()).collect());
    }
    Ok(source_file_of(&ret.program))
}

} // verus!
