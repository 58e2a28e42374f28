//! The parts of a JavaScript or TypeScript program that the usage scan
//! reads, as plain values.
//!
//! A parsed file is a list of top-level function declarations (for the
//! values their calls return) and the sequence of traversal events the scan
//! reacts to, in the order a depth-first walk of the syntax tree meets them.
use vstd::prelude::*;

verus! {

/// A template literal: its first text part (as written) and whether it
/// embeds expressions.
pub struct Template {
    pub head: Option<String>,
    pub has_expressions: bool,
}

/// An element of an array literal.
pub enum ArrayElement {
    /// A string literal.
    Str(String),
    /// A template literal.
    Template(Template),
    /// Anything else (an expression, a spread, a hole).
    Other,
}

/// The operator of a logical expression.
pub enum LogicalOp {
    /// `a || b`
    Or,
    /// `a ?? b`
    Coalesce,
    /// `a && b`
    And,
}

/// The key of an object property.
pub enum PropKey {
    /// A plain name: `a` in `{ a: 1 }`.
    Static(String),
    /// A private name.
    Private,
    /// An expression: `"a"` in `{ "a": 1 }`, `k` in `{ [k]: 1 }`.
    Expr(Box<Expr>),
}

/// A `key: value` property of an object literal.
pub struct Property {
    pub key: PropKey,
    pub value: Expr,
    /// Whether the key is written in brackets.
    pub computed: bool,
    /// Whether the property is a method.
    pub method: bool,
}

/// An item of an object literal.
pub enum ObjectItem {
    Property(Property),
    Spread,
}

/// An expression.
pub enum Expr {
    /// A string literal, by its value.
    Str(String),
    /// A template literal.
    Template(Template),
    /// An array literal.
    Array(Vec<ArrayElement>),
    /// A reference to a name.
    Ident(String),
    /// `object[property]`.
    Computed(Box<Expr>, Box<Expr>),
    /// `object.name`.
    Member(Box<Expr>, String),
    /// A call: the callee and the arguments.
    Call(Box<Expr>, Vec<Arg>),
    /// `test ? consequent : alternate`, by its two branches.
    Conditional(Box<Expr>, Box<Expr>),
    /// A logical expression.
    Logical(LogicalOp, Box<Expr>, Box<Expr>),
    /// A TypeScript wrapper that leaves the value alone (`as`,
    /// `satisfies`, a type assertion, a non-null assertion).
    TsWrapper(Box<Expr>),
    /// An object literal.
    Object(Vec<ObjectItem>),
    /// `await argument`.
    Await(Box<Expr>),
    /// An arrow function or function expression, with the name of its
    /// first parameter when that parameter is a plain name.
    Function(Option<String>),
    /// Any other expression.
    Other,
}

/// An argument of a call.
pub enum Arg {
    Spread,
    Expr(Expr),
}

/// A call expression met by the walk.
pub struct CallSite {
    pub callee: Expr,
    pub args: Vec<Arg>,
    /// Byte offset where the call starts.
    pub start: u32,
}

/// One declarator of a variable declaration.
pub struct Declarator {
    /// The declared name, when the binding is a plain name.
    pub binding: Option<String>,
    pub init: Option<Expr>,
}

/// A variable declaration met by the walk.
pub struct VarDecl {
    /// Whether it is a `const` declaration.
    pub is_const: bool,
    pub declarators: Vec<Declarator>,
}

/// The value of a JSX attribute.
pub enum JsxValue {
    /// A string literal.
    Str(String),
    /// An expression container holding an expression.
    Expr(Expr),
    /// Anything else (an element, a fragment, an empty container).
    Other,
}

/// An item of a JSX opening element's attribute list.
pub enum JsxAttr {
    /// An attribute: its name when it is a plain identifier, and its value.
    Attribute(Option<String>, Option<JsxValue>),
    Spread,
}

/// A JSX opening element met by the walk.
pub struct JsxOpening {
    /// The element name, when it is a plain identifier.
    pub name: Option<String>,
    pub attributes: Vec<JsxAttr>,
    /// Byte offset where the element starts.
    pub start: u32,
}

/// What the walk meets, in order.
pub enum Event {
    /// The walk enters a block statement or a function body.
    EnterScope,
    /// The walk leaves the block statement or function body it entered last.
    ExitScope,
    /// A variable declaration, before its parts are walked.
    Declaration(VarDecl),
    /// A call expression, before its parts are walked.
    CallStart(CallSite),
    /// The walk leaves the call expression it entered last.
    CallEnd,
    /// A JSX opening element, before its parts are walked.
    JsxOpen(JsxOpening),
}

/// A statement, as far as the values a function returns go.
pub enum Stmt {
    Return(Option<Expr>),
    Block(Vec<Stmt>),
    If(Box<Stmt>, Option<Box<Stmt>>),
    Other,
}

/// A top-level function declaration.
pub struct FunctionDecl {
    pub name: Option<String>,
    /// The statements of its body, when it has one.
    pub body: Option<Vec<Stmt>>,
}

/// A parsed source file.
pub struct SourceFile {
    /// The top-level function declarations, in source order.
    pub functions: Vec<FunctionDecl>,
    /// The events of a depth-first walk of the file.
    pub events: Vec<Event>,
}

} // verus!
