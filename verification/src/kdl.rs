//! The part of a KDL document that a recipe is read from: the nodes at the
//! top and their children, as plain values, and the parser that finds them.

use vstd::prelude::*;
use knuffel::ast::Document;
use knuffel::span::Span;

verus! {

/// A KDL document as `knuffel` parses it.
#[verifier::external_type_specification]
#[verifier::external_body]
#[verifier::reject_recursive_types(S)]
pub struct ExDocument<S>(knuffel::ast::Document<S>);

/// The byte range of a piece of KDL source.
#[verifier::external_type_specification]
#[verifier::external_body]
pub struct ExSpan(knuffel::span::Span);

/// An argument of a node: a scalar. Of a number only the kind is kept, and
/// a type name in parentheses before the scalar is not.
#[derive(Debug, Clone, PartialEq, Eq)]
pub enum Value {
    Null,
    Bool(bool),
    Int,
    Decimal,
    Text(String),
}

/// What a node says of itself, its arguments and children apart.
struct Head {
    name: String,
    /// The byte offset at which the node begins.
    at: usize,
    /// How many arguments the node has.
    arguments: usize,
    /// How many properties the node has.
    properties: usize,
    /// How many children the node has.
    children: usize,
}

/// A node inside the braces of a node at the top of the document. Of its
/// own children only the number is kept.
#[derive(Debug, Clone, PartialEq, Eq)]
pub struct Child {
    pub name: String,
    /// The byte offset at which the node begins in the source.
    pub at: usize,
    /// The arguments, in the order of the source.
    pub arguments: Vec<Value>,
    /// How many properties the node has.
    pub properties: usize,
    /// How many children the node has.
    pub children: usize,
}

/// A node at the top of the document.
#[derive(Debug, Clone, PartialEq, Eq)]
pub struct Node {
    pub name: String,
    /// The byte offset at which the node begins in the source.
    pub at: usize,
    /// The arguments, in the order of the source.
    pub arguments: Vec<Value>,
    /// How many properties the node has.
    pub properties: usize,
    /// The nodes inside the braces of the node, in the order of the source.
    pub children: Vec<Child>,
}

/// What an argument is, as mathematics.
pub enum ValueView {
    Null,
    Bool(bool),
    Int,
    Decimal,
    Text(Seq<char>),
}

/// What a child node is, as mathematics.
pub struct ChildView {
    pub name: Seq<char>,
    pub at: nat,
    pub arguments: Seq<ValueView>,
    pub properties: nat,
    pub children: nat,
}

/// What a node is, as mathematics.
pub struct NodeView {
    pub name: Seq<char>,
    pub at: nat,
    pub arguments: Seq<ValueView>,
    pub properties: nat,
    pub children: Seq<ChildView>,
}

impl View for Value {
    type V = ValueView;

    open spec fn view(&self) -> ValueView {
        match *self {
            Value::Null => ValueView::Null,
            Value::Bool(b) => ValueView::Bool(b),
            Value::Int => ValueView::Int,
            Value::Decimal => ValueView::Decimal,
            Value::Text(text) => ValueView::Text(text@),
        }
    }
}

impl DeepView for Value {
    type V = ValueView;

    open spec fn deep_view(&self) -> ValueView {
        self@
    }
}

impl View for Child {
    type V = ChildView;

    open spec fn view(&self) -> ChildView {
        ChildView {
            name: self.name@,
            at: self.at as nat,
            arguments: self.arguments.deep_view(),
            properties: self.properties as nat,
            children: self.children as nat,
        }
    }
}

impl DeepView for Child {
    type V = ChildView;

    open spec fn deep_view(&self) -> ChildView {
        self@
    }
}

impl View for Node {
    type V = NodeView;

    open spec fn view(&self) -> NodeView {
        NodeView {
            name: self.name@,
            at: self.at as nat,
            arguments: self.arguments.deep_view(),
            properties: self.properties as nat,
            children: self.children.deep_view(),
        }
    }
}

impl DeepView for Node {
    type V = NodeView;

    open spec fn deep_view(&self) -> NodeView {
        self@
    }
}

/// The nodes at the top of a parsed document, in the order of the source.
pub uninterp spec fn document_nodes(document: Document<Span>) -> Seq<NodeView>;

/// The nodes that `knuffel::parse_ast` finds at the top of `text`, or
/// `None` where it finds that `text` is not KDL.
pub uninterp spec fn kdl_nodes(file_name: Seq<char>, text: Seq<char>) -> Option<Seq<NodeView>>;

/// Whether `head` describes a node with the given name, place and numbers.
spec fn describes(
    head: Head,
    name: Seq<char>,
    at: nat,
    arguments: nat,
    properties: nat,
    children: nat,
) -> bool {
    &&& head.name@ == name
    &&& head.at == at
    &&& head.arguments == arguments
    &&& head.properties == properties
    &&& head.children == children
}

/// Calls `knuffel::parse_ast`, which parses `text` as a KDL document and
/// uses `file_name` in its error alone.
///
/// The contract names the result, a function of the text: the nodes of the
/// document that comes back are the nodes of the text. An error comes back
/// as the report that `miette` renders of it, of which nothing is claimed.
#[verifier::external_body]
fn parse_document(file_name: &str, text: &str) -> (parsed: Result<Document<Span>, String>)
    ensures
        parsed matches Ok(document) ==> kdl_nodes(file_name@, text@) == Some(
            document_nodes(document),
        ),
        parsed is Err ==> kdl_nodes(file_name@, text@) is None,
{
    knuffel::parse_ast(file_name, text).map_err(|error| format!("{:?}", miette::Report::new(error)))
}

/// Reads the length of the field `nodes` of the document.
#[verifier::external_body]
fn node_count(document: &Document<Span>) -> (count: usize)
    ensures
        count == document_nodes(*document).len(),
{
    document.nodes.len()
}

/// Reads the node at index `i` of the field `nodes`: its name, where its
/// span begins, and the lengths of its arguments, its properties and its
/// children.
#[verifier::external_body]
fn node_head(document: &Document<Span>, i: usize) -> (head: Head)
    requires
        i < document_nodes(*document).len(),
    ensures
        describes(
            head,
            document_nodes(*document)[i as int].name,
            document_nodes(*document)[i as int].at,
            document_nodes(*document)[i as int].arguments.len(),
            document_nodes(*document)[i as int].properties,
            document_nodes(*document)[i as int].children.len(),
        ),
{
    let node = &document.nodes[i];
    Head {
        name: node.node_name.to_string(),
        at: node.span().0,
        arguments: node.arguments.len(),
        properties: node.properties.len(),
        children: node.children().len(),
    }
}

/// Reads the literal of the argument at index `a` of the node at index `i`,
/// variant for variant.
#[verifier::external_body]
fn node_argument(document: &Document<Span>, i: usize, a: usize) -> (value: Value)
    requires
        i < document_nodes(*document).len(),
        a < document_nodes(*document)[i as int].arguments.len(),
    ensures
        value@ == document_nodes(*document)[i as int].arguments[a as int],
{
    let argument = &document.nodes[i].arguments[a];
    match &*argument.literal {
        knuffel::ast::Literal::Null => Value::Null,
        knuffel::ast::Literal::Bool(b) => Value::Bool(*b),
        knuffel::ast::Literal::Int(_) => Value::Int,
        knuffel::ast::Literal::Decimal(_) => Value::Decimal,
        knuffel::ast::Literal::String(text) => Value::Text(text.to_string()),
    }
}

/// Reads the child at index `c` of the node at index `i`, as [`node_head`]
/// reads a node.
#[verifier::external_body]
fn child_head(document: &Document<Span>, i: usize, c: usize) -> (head: Head)
    requires
        i < document_nodes(*document).len(),
        c < document_nodes(*document)[i as int].children.len(),
    ensures
        describes(
            head,
            document_nodes(*document)[i as int].children[c as int].name,
            document_nodes(*document)[i as int].children[c as int].at,
            document_nodes(*document)[i as int].children[c as int].arguments.len(),
            document_nodes(*document)[i as int].children[c as int].properties,
            document_nodes(*document)[i as int].children[c as int].children,
        ),
{
    let child = &document.nodes[i].children.as_ref().unwrap()[c];
    Head {
        name: child.node_name.to_string(),
        at: child.span().0,
        arguments: child.arguments.len(),
        properties: child.properties.len(),
        children: child.children().len(),
    }
}

/// Reads the argument at index `a` of the child at index `c` of the node at
/// index `i`, as [`node_argument`] reads an argument.
#[verifier::external_body]
fn child_argument(document: &Document<Span>, i: usize, c: usize, a: usize) -> (value: Value)
    requires
        i < document_nodes(*document).len(),
        c < document_nodes(*document)[i as int].children.len(),
        a < document_nodes(*document)[i as int].children[c as int].arguments.len(),
    ensures
        value@ == document_nodes(*document)[i as int].children[c as int].arguments[a as int],
{
    let argument = &document.nodes[i].children.as_ref().unwrap()[c].arguments[a];
    match &*argument.literal {
        knuffel::ast::Literal::Null => Value::Null,
        knuffel::ast::Literal::Bool(b) => Value::Bool(*b),
        knuffel::ast::Literal::Int(_) => Value::Int,
        knuffel::ast::Literal::Decimal(_) => Value::Decimal,
        knuffel::ast::Literal::String(text) => Value::Text(text.to_string()),
    }
}


/// Collects the arguments of the node at index `i`.
fn read_arguments(document: &Document<Span>, i: usize, count: usize) -> (arguments: Vec<
    Value,
>)
    requires
        i < document_nodes(*document).len(),
        count == document_nodes(*document)[i as int].arguments.len(),
    ensures
        arguments.deep_view() == document_nodes(*document)[i as int].arguments,
{
    let mut arguments: Vec<Value> = Vec::new();
    let mut a: usize = 0;
    while a < count
        invariant
            i < document_nodes(*document).len(),
            count == document_nodes(*document)[i as int].arguments.len(),
            a <= count,
            arguments.len() == a,
            forall|k: int|
                0 <= k < a ==> arguments@[k]@ == document_nodes(*document)[i as int].arguments[k],
        decreases count - a,
    {
        arguments.push(node_argument(document, i, a));
        a = a + 1;
    }
    assert(arguments.deep_view() =~= document_nodes(*document)[i as int].arguments);
    arguments
}

/// Collects the child at index `c` of the node at index `i`.
fn read_child(document: &Document<Span>, i: usize, c: usize) -> (child: Child)
    requires
        i < document_nodes(*document).len(),
        c < document_nodes(*document)[i as int].children.len(),
    ensures
        child@ == document_nodes(*document)[i as int].children[c as int],
{
    let ghost wanted = document_nodes(*document)[i as int].children[c as int];
    let head = child_head(document, i, c);
    let mut arguments: Vec<Value> = Vec::new();
    let mut a: usize = 0;
    while a < head.arguments
        invariant
            i < document_nodes(*document).len(),
            c < document_nodes(*document)[i as int].children.len(),
            wanted == document_nodes(*document)[i as int].children[c as int],
            head.arguments == wanted.arguments.len(),
            a <= head.arguments,
            arguments.len() == a,
            forall|k: int| 0 <= k < a ==> arguments@[k]@ == wanted.arguments[k],
        decreases head.arguments - a,
    {
        arguments.push(child_argument(document, i, c, a));
        a = a + 1;
    }
    assert(arguments.deep_view() =~= wanted.arguments);
    Child {
        name: head.name,
        at: head.at,
        arguments,
        properties: head.properties,
        children: head.children,
    }
}

/// Collects the node at index `i`, with its arguments and children.
fn read_node(document: &Document<Span>, i: usize) -> (node: Node)
    requires
        i < document_nodes(*document).len(),
    ensures
        node@ == document_nodes(*document)[i as int],
{
    let ghost wanted = document_nodes(*document)[i as int];
    let head = node_head(document, i);
    let arguments = read_arguments(document, i, head.arguments);
    let mut children: Vec<Child> = Vec::new();
    let mut c: usize = 0;
    while c < head.children
        invariant
            i < document_nodes(*document).len(),
            wanted == document_nodes(*document)[i as int],
            head.children == wanted.children.len(),
            c <= head.children,
            children.len() == c,
            forall|k: int| 0 <= k < c ==> children@[k]@ == wanted.children[k],
        decreases head.children - c,
    {
        children.push(read_child(document, i, c));
        c = c + 1;
    }
    assert(children.deep_view() =~= wanted.children);
    Node { name: head.name, at: head.at, arguments, properties: head.properties, children }
}

/// Parses `text` as a KDL document and hands out the nodes at its top, in
/// the order of the source, each with its arguments and children.
///
/// ## Errors
/// Where `text` is not KDL, the error is the report of what is wrong in
/// it; `file_name` names the source in that report.
pub fn parse(file_name: &str, text: &str) -> (parsed: Result<Vec<Node>, String>)
    ensures
        match kdl_nodes(file_name@, text@) {
            Some(nodes) => parsed matches Ok(found) && found.deep_view() == nodes,
            None => parsed is Err,
        },
{
    match parse_document(file_name, text) {
        Err(report) => Err(report),
        Ok(document) => {
            let count = node_count(&document);
            let mut nodes: Vec<Node> = Vec::new();
            let mut i: usize = 0;
            while i < count
                invariant
                    count == document_nodes(document).len(),
                    i <= count,
                    nodes.len() == i,
                    forall|k: int| 0 <= k < i ==> nodes@[k]@ == document_nodes(document)[k],
                decreases count - i,
            {
                nodes.push(read_node(&document, i));
                i = i + 1;
            }
            assert(nodes.deep_view() =~= document_nodes(document));
            Ok(nodes)
        },
    }
}

} // verus!
