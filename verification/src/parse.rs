//! Reading a recipe from KDL text.
//!
//! A recipe is a list of nodes: `tap <name>`, `cask <name>` and
//! `brew <name> { .. }`. The children of a `brew` node are its postinstall
//! steps: `cp <src> <dst>`, `dl <url> <dst>`, `echo <text> <dst>` and
//! `fish <command>`. Every argument is a string; no node has a property,
//! and only `brew` has children.

use vstd::prelude::*;
use vstd::string::*;
use crate::kdl::{parse, kdl_nodes, Child, ChildView, Node, NodeView, Value, ValueView};
use crate::recipe::{
    begins_with_tilde, ExpandedPath, Formula, FormulaView, Postinstall, Recipe, RecipeView,
    StepView,
};
use crate::text::{decimal, to_decimal};

verus! {

/// The rule of the recipe format that a node breaks.
#[derive(Debug, Clone, Copy, PartialEq, Eq)]
pub enum Fault {
    /// The node has a name that the format does not know at its place.
    UnknownNode,
    /// The node lacks an argument.
    MissingArgument,
    /// An argument of the node is not a string.
    NotText,
    /// The node has more arguments than the format gives it.
    ExtraArgument,
    /// The node has a property.
    Property,
    /// The node has children, and is no `brew` node.
    Children,
}

/// Error type for when parsing a recipe fails.
#[derive(Debug, Clone, PartialEq, Eq)]
pub enum ParseError {
    /// The text is not KDL. The report says where and why.
    Syntax { report: String },
    /// The node named `node`, which begins at byte `at` of the text, breaks
    /// a rule of the recipe format.
    Malformed { fault: Fault, node: String, at: usize },
    /// The path begins with `~`, and the home directory is not known.
    NoHome { path: String },
}

/// What a parse error is, as mathematics.
pub enum ParseErrorView {
    Syntax { report: Seq<char> },
    Malformed { fault: Fault, node: Seq<char>, at: nat },
    NoHome { path: Seq<char> },
}

impl View for ParseError {
    type V = ParseErrorView;

    open spec fn view(&self) -> ParseErrorView {
        match *self {
            ParseError::Syntax { report } => ParseErrorView::Syntax { report: report@ },
            ParseError::Malformed { fault, node, at } => ParseErrorView::Malformed {
                fault,
                node: node@,
                at: at as nat,
            },
            ParseError::NoHome { path } => ParseErrorView::NoHome { path: path@ },
        }
    }
}

/// What a fault is called in a message.
pub open spec fn fault_caption(fault: Fault) -> Seq<char> {
    match fault {
        Fault::UnknownNode => "unexpected node"@,
        Fault::MissingArgument => "missing argument of node"@,
        Fault::NotText => "argument that is not a string in node"@,
        Fault::ExtraArgument => "unexpected argument of node"@,
        Fault::Property => "unexpected property of node"@,
        Fault::Children => "unexpected children of node"@,
    }
}

/// The message of a parse error, as its users read it.
pub open spec fn parse_error_message(error: ParseErrorView) -> Seq<char> {
    match error {
        ParseErrorView::Syntax { report } => report,
        ParseErrorView::Malformed { fault, node, at } => "failed to parse Recipe: "@
            + fault_caption(fault) + " `"@ + node + "` at byte "@ + decimal(at),
        ParseErrorView::NoHome { path } => "failed to parse Recipe: no home directory to expand `"@
            + path + "`"@,
    }
}

impl ParseError {
    /// The message of the error.
    pub fn to_string(&self) -> (text: String)
        ensures
            text@ == parse_error_message(self@),
    {
        match self {
            ParseError::Syntax { report } => report.clone(),
            ParseError::Malformed { fault, node, at } => {
                let caption = match fault {
                    Fault::UnknownNode => "unexpected node",
                    Fault::MissingArgument => "missing argument of node",
                    Fault::NotText => "argument that is not a string in node",
                    Fault::ExtraArgument => "unexpected argument of node",
                    Fault::Property => "unexpected property of node",
                    Fault::Children => "unexpected children of node",
                };
                let mut text = "failed to parse Recipe: ".to_owned();
                text.append(caption);
                text.append(" `");
                text.append(node.as_str());
                text.append("` at byte ");
                text.append(to_decimal(*at).as_str());
                text
            },
            ParseError::NoHome { path } => {
                let mut text = "failed to parse Recipe: no home directory to expand `".to_owned();
                text.append(path.as_str());
                text.append("`");
                text
            },
        }
    }
}

// ---------------------------------------------------------------------------
// The format
// ---------------------------------------------------------------------------

/// The text of a string argument.
pub open spec fn text_of(value: ValueView) -> Seq<char> {
    match value {
        ValueView::Text(text) => text,
        _ => Seq::empty(),
    }
}

/// What is wrong with the argument at index `k`, if anything: it must be
/// there and be a string.
pub open spec fn argument_fault(arguments: Seq<ValueView>, k: int) -> Option<Fault> {
    if k >= arguments.len() {
        Some(Fault::MissingArgument)
    } else if !(arguments[k] is Text) {
        Some(Fault::NotText)
    } else {
        None
    }
}

/// What is wrong with the arguments of a node that takes `wanted` strings,
/// one or two: the first fault of the first argument, else of the second
/// where two are wanted, else an argument too many.
pub open spec fn arguments_fault(arguments: Seq<ValueView>, wanted: nat) -> Option<Fault> {
    if argument_fault(arguments, 0) is Some {
        argument_fault(arguments, 0)
    } else if wanted >= 2 && argument_fault(arguments, 1) is Some {
        argument_fault(arguments, 1)
    } else if arguments.len() > wanted {
        Some(Fault::ExtraArgument)
    } else {
        None
    }
}

/// What is wrong with a node that takes `wanted` strings and nothing else:
/// its arguments first, then a property, then a child.
pub open spec fn leaf_fault(
    arguments: Seq<ValueView>,
    properties: nat,
    children: nat,
    wanted: nat,
) -> Option<Fault> {
    if arguments_fault(arguments, wanted) is Some {
        arguments_fault(arguments, wanted)
    } else if properties > 0 {
        Some(Fault::Property)
    } else if children > 0 {
        Some(Fault::Children)
    } else {
        None
    }
}

/// What is wrong with a child of a `brew` node, if anything.
pub open spec fn step_fault(child: ChildView) -> Option<Fault> {
    if child.name == "cp"@ || child.name == "dl"@ || child.name == "echo"@ {
        leaf_fault(child.arguments, child.properties, child.children, 2)
    } else if child.name == "fish"@ {
        leaf_fault(child.arguments, child.properties, child.children, 1)
    } else {
        Some(Fault::UnknownNode)
    }
}

/// The postinstall step that a faultless child of a `brew` node declares,
/// with its paths as they are written.
pub open spec fn step_of(child: ChildView) -> StepView {
    if child.name == "cp"@ {
        StepView::Cp(text_of(child.arguments[0]), text_of(child.arguments[1]))
    } else if child.name == "dl"@ {
        StepView::Dl(text_of(child.arguments[0]), text_of(child.arguments[1]))
    } else if child.name == "echo"@ {
        StepView::Echo(text_of(child.arguments[0]), text_of(child.arguments[1]))
    } else {
        StepView::Fish(text_of(child.arguments[0]))
    }
}

/// The error that reports a fault of a node.
pub open spec fn malformed(fault: Fault, name: Seq<char>, at: nat) -> ParseErrorView {
    ParseErrorView::Malformed { fault, node: name, at }
}

/// The first fault among the children of a `brew` node, in the order of
/// the source.
pub open spec fn steps_problem(children: Seq<ChildView>) -> Option<ParseErrorView>
    decreases children.len(),
{
    if children.len() == 0 {
        None
    } else if steps_problem(children.drop_last()) is Some {
        steps_problem(children.drop_last())
    } else {
        match step_fault(children.last()) {
            Some(fault) => Some(malformed(fault, children.last().name, children.last().at)),
            None => None,
        }
    }
}

/// What is wrong with a node at the top of the document, if anything.
pub open spec fn node_problem(node: NodeView) -> Option<ParseErrorView> {
    if node.name == "tap"@ || node.name == "cask"@ {
        match leaf_fault(node.arguments, node.properties, node.children.len(), 1) {
            Some(fault) => Some(malformed(fault, node.name, node.at)),
            None => None,
        }
    } else if node.name == "brew"@ {
        match leaf_fault(node.arguments, node.properties, 0, 1) {
            Some(fault) => Some(malformed(fault, node.name, node.at)),
            None => steps_problem(node.children),
        }
    } else {
        Some(malformed(Fault::UnknownNode, node.name, node.at))
    }
}

/// The first thing that is wrong with the nodes of a document, in the order
/// of the source, or `None` where the nodes are a recipe.
pub open spec fn problem(nodes: Seq<NodeView>) -> Option<ParseErrorView>
    decreases nodes.len(),
{
    if nodes.len() == 0 {
        None
    } else if problem(nodes.drop_last()) is Some {
        problem(nodes.drop_last())
    } else {
        node_problem(nodes.last())
    }
}

/// The formula that a faultless `brew` node declares.
pub open spec fn formula_of(node: NodeView) -> FormulaView {
    FormulaView {
        name: text_of(node.arguments[0]),
        postinstall_steps: node.children.map_values(|child: ChildView| step_of(child)),
    }
}

/// The recipe that faultless nodes declare, with its paths as they are
/// written: each `tap` node adds a tap, each `cask` node a cask and each
/// `brew` node a formula, in the order of the source.
pub open spec fn described(nodes: Seq<NodeView>) -> RecipeView
    decreases nodes.len(),
{
    if nodes.len() == 0 {
        RecipeView { taps: Seq::empty(), casks: Seq::empty(), formulas: Seq::empty() }
    } else {
        let before = described(nodes.drop_last());
        let node = nodes.last();
        if node.name == "tap"@ {
            RecipeView { taps: before.taps.push(text_of(node.arguments[0])), ..before }
        } else if node.name == "cask"@ {
            RecipeView { casks: before.casks.push(text_of(node.arguments[0])), ..before }
        } else if node.name == "brew"@ {
            RecipeView { formulas: before.formulas.push(formula_of(node)), ..before }
        } else {
            before
        }
    }
}

// ---------------------------------------------------------------------------
// The home directory
// ---------------------------------------------------------------------------

/// Whether `done` can be what the expansion makes of the path `raw`: a
/// path that does not begin with `~` stays as it is, and of the others
/// nothing is known here, for the home directory is the environment's.
pub open spec fn expansion(raw: Seq<char>, done: Seq<char>) -> bool {
    begins_with_tilde(raw) || done == raw
}

/// Whether `done` is the step `raw` with its paths expanded.
pub open spec fn expands_step(raw: StepView, done: StepView) -> bool {
    match raw {
        StepView::Cp(src, dst) => done matches StepView::Cp(s, d) && expansion(src, s)
            && expansion(dst, d),
        StepView::Dl(url, dst) => done matches StepView::Dl(u, d) && u == url && expansion(dst, d),
        StepView::Echo(text, dst) => done matches StepView::Echo(t, d) && t == text && expansion(
            dst,
            d,
        ),
        StepView::Fish(cmd) => done == raw,
    }
}

/// Whether `done` is the formula `raw` with its paths expanded.
pub open spec fn expands_formula(raw: FormulaView, done: FormulaView) -> bool {
    &&& done.name == raw.name
    &&& done.postinstall_steps.len() == raw.postinstall_steps.len()
    &&& forall|j: int|
        0 <= j < raw.postinstall_steps.len() ==> expands_step(
            #[trigger] raw.postinstall_steps[j],
            done.postinstall_steps[j],
        )
}

/// Whether `done` is the recipe `raw` with its paths expanded: the same
/// taps, casks, formulas and steps, in the same order.
pub open spec fn expands(raw: RecipeView, done: RecipeView) -> bool {
    &&& done.taps == raw.taps
    &&& done.casks == raw.casks
    &&& done.formulas.len() == raw.formulas.len()
    &&& forall|k: int|
        0 <= k < raw.formulas.len() ==> expands_formula(#[trigger] raw.formulas[k], done.formulas[k])
}

/// Whether `path` is one of the paths of the step.
pub open spec fn step_names_path(step: StepView, path: Seq<char>) -> bool {
    match step {
        StepView::Cp(src, dst) => path == src || path == dst,
        StepView::Dl(_, dst) => path == dst,
        StepView::Echo(_, dst) => path == dst,
        StepView::Fish(_) => false,
    }
}

/// Whether `path` is one of the paths of the formula's steps.
pub open spec fn formula_names_path(formula: FormulaView, path: Seq<char>) -> bool {
    exists|j: int|
        0 <= j < formula.postinstall_steps.len() && step_names_path(
            #[trigger] formula.postinstall_steps[j],
            path,
        )
}

/// Whether `path` is one of the paths of the recipe.
pub open spec fn names_path(recipe: RecipeView, path: Seq<char>) -> bool {
    exists|k: int|
        0 <= k < recipe.formulas.len() && formula_names_path(#[trigger] recipe.formulas[k], path)
}

/// Whether `error` says that the home directory was needed for a path of
/// the recipe and not found.
pub open spec fn no_home(recipe: RecipeView, error: ParseErrorView) -> bool {
    error matches ParseErrorView::NoHome { path } && begins_with_tilde(path) && names_path(
        recipe,
        path,
    )
}

/// Whether `result` is what decoding the nodes may give.
///
/// Nodes that break the format give the error of the first fault. Nodes
/// that are a recipe give that recipe with its paths expanded; only where a
/// path begins with `~` can the decoding fail instead, for want of a home
/// directory.
pub open spec fn decoded(nodes: Seq<NodeView>, result: Result<Recipe, ParseError>) -> bool {
    match problem(nodes) {
        Some(error) => result matches Err(e) && e@ == error,
        None => match result {
            Ok(recipe) => expands(described(nodes), recipe@),
            Err(e) => no_home(described(nodes), e@),
        },
    }
}


// ---------------------------------------------------------------------------
// Examining
// ---------------------------------------------------------------------------

/// Whether the name is the word.
fn is(name: &String, word: &str) -> (same: bool)
    ensures
        same == (name@ == word@),
{
    *name == word.to_owned()
}

/// Examines the argument at index `k`.
fn examine_argument(arguments: &Vec<Value>, k: usize) -> (fault: Option<Fault>)
    ensures
        fault == argument_fault(arguments.deep_view(), k as int),
{
    if k >= arguments.len() {
        Some(Fault::MissingArgument)
    } else {
        match &arguments[k] {
            Value::Text(_) => None,
            _ => Some(Fault::NotText),
        }
    }
}

/// Examines a node that takes `wanted` strings and nothing else.
fn examine_leaf(
    arguments: &Vec<Value>,
    properties: usize,
    children: usize,
    wanted: usize,
) -> (fault: Option<Fault>)
    ensures
        fault == leaf_fault(
            arguments.deep_view(),
            properties as nat,
            children as nat,
            wanted as nat,
        ),
{
    let first = examine_argument(arguments, 0);
    if first.is_some() {
        return first;
    }
    if wanted >= 2 {
        let second = examine_argument(arguments, 1);
        if second.is_some() {
            return second;
        }
    }
    if arguments.len() > wanted {
        Some(Fault::ExtraArgument)
    } else if properties > 0 {
        Some(Fault::Property)
    } else if children > 0 {
        Some(Fault::Children)
    } else {
        None
    }
}

/// Examines a child of a `brew` node.
fn examine_step(child: &Child) -> (fault: Option<Fault>)
    ensures
        fault == step_fault(child@),
{
    if is(&child.name, "cp") || is(&child.name, "dl") || is(&child.name, "echo") {
        examine_leaf(&child.arguments, child.properties, child.children, 2)
    } else if is(&child.name, "fish") {
        examine_leaf(&child.arguments, child.properties, child.children, 1)
    } else {
        Some(Fault::UnknownNode)
    }
}

/// Finds the first fault among the children of a `brew` node.
fn examine_steps(children: &Vec<Child>) -> (found: Option<ParseError>)
    ensures
        match steps_problem(children.deep_view()) {
            Some(error) => found matches Some(e) && e@ == error,
            None => found is None,
        },
{
    let ghost all = children.deep_view();
    let mut c: usize = 0;
    assert(all.take(0) =~= Seq::<ChildView>::empty());
    while c < children.len()
        invariant
            all == children.deep_view(),
            c <= children.len(),
            steps_problem(all.take(c as int)) is None,
        decreases children.len() - c,
    {
        let child = &children[c];
        assert(all.take(c + 1).drop_last() =~= all.take(c as int));
        assert(all.take(c + 1).last() == child@);
        match examine_step(child) {
            Some(fault) => {
                proof {
                    lemma_steps_problem_stays(all, c + 1);
                }
                return Some(
                    ParseError::Malformed { fault, node: child.name.clone(), at: child.at },
                );
            },
            None => {},
        }
        c = c + 1;
    }
    assert(all.take(c as int) =~= all);
    None
}

/// A fault among the first `k` children is the first fault among all.
proof fn lemma_steps_problem_stays(children: Seq<ChildView>, k: int)
    requires
        0 <= k <= children.len(),
        steps_problem(children.take(k)) is Some,
    ensures
        steps_problem(children) == steps_problem(children.take(k)),
    decreases children.len() - k,
{
    if k < children.len() {
        assert(children.take(k + 1).drop_last() =~= children.take(k));
        lemma_steps_problem_stays(children, k + 1);
    } else {
        assert(children.take(k) =~= children);
    }
}

/// A fault among the first `k` nodes is the first fault among all.
proof fn lemma_problem_stays(nodes: Seq<NodeView>, k: int)
    requires
        0 <= k <= nodes.len(),
        problem(nodes.take(k)) is Some,
    ensures
        problem(nodes) == problem(nodes.take(k)),
    decreases nodes.len() - k,
{
    if k < nodes.len() {
        assert(nodes.take(k + 1).drop_last() =~= nodes.take(k));
        lemma_problem_stays(nodes, k + 1);
    } else {
        assert(nodes.take(k) =~= nodes);
    }
}

/// Examines a node at the top of the document.
fn examine_node(node: &Node) -> (found: Option<ParseError>)
    ensures
        match node_problem(node@) {
            Some(error) => found matches Some(e) && e@ == error,
            None => found is None,
        },
{
    if is(&node.name, "tap") || is(&node.name, "cask") {
        match examine_leaf(&node.arguments, node.properties, node.children.len(), 1) {
            Some(fault) => Some(
                ParseError::Malformed { fault, node: node.name.clone(), at: node.at },
            ),
            None => None,
        }
    } else if is(&node.name, "brew") {
        match examine_leaf(&node.arguments, node.properties, 0, 1) {
            Some(fault) => Some(
                ParseError::Malformed { fault, node: node.name.clone(), at: node.at },
            ),
            None => examine_steps(&node.children),
        }
    } else {
        Some(
            ParseError::Malformed {
                fault: Fault::UnknownNode,
                node: node.name.clone(),
                at: node.at,
            },
        )
    }
}

/// Holds the nodes of a document against the recipe format and reports
/// the first fault, in the order of the source.
pub fn examine(nodes: &Vec<Node>) -> (found: Option<ParseError>)
    ensures
        match problem(nodes.deep_view()) {
            Some(error) => found matches Some(e) && e@ == error,
            None => found is None,
        },
{
    let ghost all = nodes.deep_view();
    let mut i: usize = 0;
    assert(all.take(0) =~= Seq::<NodeView>::empty());
    while i < nodes.len()
        invariant
            all == nodes.deep_view(),
            i <= nodes.len(),
            problem(all.take(i as int)) is None,
        decreases nodes.len() - i,
    {
        assert(all.take(i + 1).drop_last() =~= all.take(i as int));
        assert(all.take(i + 1).last() == nodes@[i as int]@);
        match examine_node(&nodes[i]) {
            Some(error) => {
                proof {
                    lemma_problem_stays(all, i + 1);
                }
                return Some(error);
            },
            None => {},
        }
        i = i + 1;
    }
    assert(all.take(i as int) =~= all);
    None
}


// ---------------------------------------------------------------------------
// Building
// ---------------------------------------------------------------------------

/// Among faultless children every child is faultless.
proof fn lemma_steps_faultless(children: Seq<ChildView>, j: int)
    requires
        steps_problem(children) is None,
        0 <= j < children.len(),
    ensures
        step_fault(children[j]) is None,
    decreases children.len(),
{
    if j < children.len() - 1 {
        lemma_steps_faultless(children.drop_last(), j);
    }
}

/// Among faultless nodes every node is faultless.
proof fn lemma_nodes_faultless(nodes: Seq<NodeView>, i: int)
    requires
        problem(nodes) is None,
        0 <= i < nodes.len(),
    ensures
        node_problem(nodes[i]) is None,
    decreases nodes.len(),
{
    if i < nodes.len() - 1 {
        lemma_nodes_faultless(nodes.drop_last(), i);
    }
}

/// The formulas that the first `k` nodes declare are the first formulas
/// that all the nodes declare.
proof fn lemma_described_grows(nodes: Seq<NodeView>, k: int)
    requires
        0 <= k <= nodes.len(),
    ensures
        described(nodes.take(k)).formulas.len() <= described(nodes).formulas.len(),
        forall|j: int|
            0 <= j < described(nodes.take(k)).formulas.len() ==> described(nodes).formulas[j]
                == #[trigger] described(nodes.take(k)).formulas[j],
    decreases nodes.len() - k,
{
    if k < nodes.len() {
        assert(nodes.take(k + 1).drop_last() =~= nodes.take(k));
        lemma_described_grows(nodes, k + 1);
        assert forall|j: int| 0 <= j < described(nodes.take(k)).formulas.len() implies described(
            nodes,
        ).formulas[j] == #[trigger] described(nodes.take(k)).formulas[j] by {
            assert(described(nodes.take(k + 1)).formulas[j] == described(nodes.take(k)).formulas[j]);
        }
    } else {
        assert(nodes.take(k) =~= nodes);
    }
}

/// The text of the string argument at index `k`.
fn text_at(arguments: &Vec<Value>, k: usize) -> (text: String)
    requires
        k < arguments.len(),
    ensures
        text@ == text_of(arguments.deep_view()[k as int]),
{
    match &arguments[k] {
        Value::Text(text) => text.clone(),
        _ => String::new(),
    }
}

/// Expands the path, or says that the home directory is missing.
fn expand(raw: String) -> (path: Result<ExpandedPath, ParseError>)
    ensures
        match path {
            Ok(done) => expansion(raw@, done@),
            Err(error) => error@ == (ParseErrorView::NoHome { path: raw@ }) && begins_with_tilde(
                raw@,
            ),
        },
{
    match ExpandedPath::new(raw.as_str()) {
        Some(done) => Ok(done),
        None => Err(ParseError::NoHome { path: raw }),
    }
}

/// Builds the postinstall step that a faultless child declares.
fn build_step(child: &Child) -> (built: Result<Postinstall, ParseError>)
    requires
        step_fault(child@) is None,
    ensures
        match built {
            Ok(step) => expands_step(step_of(child@), step@),
            Err(error) => error@ matches ParseErrorView::NoHome { path } && begins_with_tilde(path)
                && step_names_path(step_of(child@), path),
        },
{
    if is(&child.name, "cp") {
        let src = match expand(text_at(&child.arguments, 0)) {
            Ok(done) => done,
            Err(error) => {
                return Err(error);
            },
        };
        let dst = match expand(text_at(&child.arguments, 1)) {
            Ok(done) => done,
            Err(error) => {
                return Err(error);
            },
        };
        Ok(Postinstall::Cp(src, dst))
    } else if is(&child.name, "dl") {
        let url = text_at(&child.arguments, 0);
        match expand(text_at(&child.arguments, 1)) {
            Ok(dst) => Ok(Postinstall::Dl(url, dst)),
            Err(error) => Err(error),
        }
    } else if is(&child.name, "echo") {
        let text = text_at(&child.arguments, 0);
        match expand(text_at(&child.arguments, 1)) {
            Ok(dst) => Ok(Postinstall::Echo(text, dst)),
            Err(error) => Err(error),
        }
    } else {
        Ok(Postinstall::Fish(text_at(&child.arguments, 0)))
    }
}

/// Builds the formula that a faultless `brew` node declares.
fn build_formula(node: &Node) -> (built: Result<Formula, ParseError>)
    requires
        node@.name == "brew"@,
        node@.name != "tap"@,
        node@.name != "cask"@,
        node_problem(node@) is None,
    ensures
        match built {
            Ok(formula) => expands_formula(formula_of(node@), formula@),
            Err(error) => error@ matches ParseErrorView::NoHome { path } && begins_with_tilde(path)
                && formula_names_path(formula_of(node@), path),
        },
{
    let ghost children = node@.children;
    let ghost wanted = formula_of(node@);
    let name = text_at(&node.arguments, 0);
    let mut steps: Vec<Postinstall> = Vec::new();
    let mut c: usize = 0;
    while c < node.children.len()
        invariant
            children == node@.children,
            children == node.children.deep_view(),
            wanted == formula_of(node@),
            steps_problem(children) is None,
            c <= node.children.len(),
            steps.len() == c,
            forall|j: int| 0 <= j < c ==> expands_step(step_of(children[j]), #[trigger] steps@[j]@),
        decreases node.children.len() - c,
    {
        proof {
            lemma_steps_faultless(children, c as int);
        }
        match build_step(&node.children[c]) {
            Ok(step) => {
                steps.push(step);
            },
            Err(error) => {
                assert(wanted.postinstall_steps[c as int] == step_of(children[c as int]));
                return Err(error);
            },
        }
        c = c + 1;
    }
    let formula = Formula { name, postinstall_steps: steps };
    assert forall|j: int| 0 <= j < wanted.postinstall_steps.len() implies expands_step(
        #[trigger] wanted.postinstall_steps[j],
        formula@.postinstall_steps[j],
    ) by {
        assert(expands_step(step_of(children[j]), steps@[j]@));
    }
    Ok(formula)
}

/// Builds the recipe that faultless nodes declare, expanding its paths.
fn build(nodes: &Vec<Node>) -> (built: Result<Recipe, ParseError>)
    requires
        problem(nodes.deep_view()) is None,
    ensures
        match built {
            Ok(recipe) => expands(described(nodes.deep_view()), recipe@),
            Err(error) => no_home(described(nodes.deep_view()), error@),
        },
{
    let ghost all = nodes.deep_view();
    let mut taps: Vec<String> = Vec::new();
    let mut casks: Vec<String> = Vec::new();
    let mut formulas: Vec<Formula> = Vec::new();
    let mut i: usize = 0;
    assert(all.take(0) =~= Seq::<NodeView>::empty());
    assert(taps.deep_view() =~= described(all.take(0)).taps);
    assert(casks.deep_view() =~= described(all.take(0)).casks);
    while i < nodes.len()
        invariant
            all == nodes.deep_view(),
            problem(all) is None,
            i <= nodes.len(),
            taps.deep_view() == described(all.take(i as int)).taps,
            casks.deep_view() == described(all.take(i as int)).casks,
            formulas.len() == described(all.take(i as int)).formulas.len(),
            forall|k: int|
                0 <= k < formulas.len() ==> expands_formula(
                    #[trigger] described(all.take(i as int)).formulas[k],
                    formulas@[k]@,
                ),
        decreases nodes.len() - i,
    {
        let node = &nodes[i];
        let ghost before = described(all.take(i as int));
        let ghost after = described(all.take(i + 1));
        proof {
            lemma_nodes_faultless(all, i as int);
            assert(all.take(i + 1).drop_last() =~= all.take(i as int));
            assert(all.take(i + 1).last() == node@);
        }
        if is(&node.name, "tap") {
            let ghost old_taps = taps.deep_view();
            let tap = text_at(&node.arguments, 0);
            taps.push(tap);
            assert(taps.deep_view() =~= old_taps.push(tap@));
        } else if is(&node.name, "cask") {
            let ghost old_casks = casks.deep_view();
            let cask = text_at(&node.arguments, 0);
            casks.push(cask);
            assert(casks.deep_view() =~= old_casks.push(cask@));
        } else if is(&node.name, "brew") {
            match build_formula(node) {
                Ok(formula) => {
                    formulas.push(formula);
                    assert forall|k: int| 0 <= k < formulas.len() implies expands_formula(
                        #[trigger] after.formulas[k],
                        formulas@[k]@,
                    ) by {
                        if k < formulas.len() - 1 {
                            assert(after.formulas[k] == before.formulas[k]);
                        }
                    }
                },
                Err(error) => {
                    proof {
                        lemma_described_grows(all, i + 1);
                        let at = after.formulas.len() - 1;
                        assert(after.formulas[at] == formula_of(node@));
                        assert(described(all).formulas[at] == formula_of(node@));
                    }
                    return Err(error);
                },
            }
        }
        i = i + 1;
    }
    assert(all.take(i as int) =~= all);
    let recipe = Recipe { taps, casks, formulas };
    assert forall|k: int| 0 <= k < described(all).formulas.len() implies expands_formula(
        #[trigger] described(all).formulas[k],
        recipe@.formulas[k],
    ) by {
        assert(recipe@.formulas[k] == formulas@[k]@);
    }
    Ok(recipe)
}

/// Decodes the nodes of a KDL document as a recipe: holds them against
/// the format, then builds the recipe and expands the `~` of its paths.
///
/// ## Errors
/// Returns the error of the first node that breaks the format. Where the
/// nodes are a recipe, the only error left is that a path begins with `~`
/// and the home directory is not known.
pub fn decode_recipe(nodes: &Vec<Node>) -> (result: Result<Recipe, ParseError>)
    ensures
        decoded(nodes.deep_view(), result),
{
    match examine(nodes) {
        Some(error) => Err(error),
        None => build(nodes),
    }
}

/// Tries to parse a recipe from the given input string. `file_name` names
/// the input in the report of a syntax error.
///
/// ## Errors
/// Returns an error if the input isn't in valid recipe format: if it is
/// not KDL, or if its nodes are not those of a recipe; see
/// [`decode_recipe`].
pub fn parse_recipe(file_name: &str, input: &str) -> (result: Result<Recipe, ParseError>)
    ensures
        match kdl_nodes(file_name@, input@) {
            Some(nodes) => decoded(nodes, result),
            None => result matches Err(error) && error is Syntax,
        },
{
    match parse(file_name, input) {
        Ok(nodes) => decode_recipe(&nodes),
        Err(report) => Err(ParseError::Syntax { report }),
    }
}


// ---------------------------------------------------------------------------
// The shape of what is read
// ---------------------------------------------------------------------------

/// A child of a `brew` node becomes the step that its name calls for.
pub proof fn lemma_step_kinds(child: ChildView)
    ensures
        child.name == "cp"@ ==> step_of(child) is Cp,
        child.name == "dl"@ ==> step_of(child) is Dl,
        child.name == "echo"@ ==> step_of(child) is Echo,
        child.name == "fish"@ ==> step_of(child) is Fish,
{
    reveal_strlit("cp");
    reveal_strlit("dl");
    reveal_strlit("echo");
    reveal_strlit("fish");
    assert("cp"@[0] != "dl"@[0]);
    assert("cp"@.len() != "echo"@.len());
    assert("dl"@.len() != "echo"@.len());
    assert("cp"@.len() != "fish"@.len());
    assert("dl"@.len() != "fish"@.len());
    assert("echo"@[0] != "fish"@[0]);
}

/// Expanding the paths of a step leaves its kind as it is.
pub proof fn lemma_expansion_keeps_kinds(raw: StepView, done: StepView)
    requires
        expands_step(raw, done),
    ensures
        raw is Cp <==> done is Cp,
        raw is Dl <==> done is Dl,
        raw is Echo <==> done is Echo,
        raw is Fish <==> done is Fish,
{
}

/// Reading a recipe keeps its shape. Every node of a faultless document
/// becomes one tap, one cask or one formula, and nothing else is added: the
/// recipe has as many entries as the document has nodes, and each formula
/// has as many steps as its node has children.
pub proof fn lemma_decoding_keeps_shape(nodes: Seq<NodeView>, recipe: RecipeView)
    requires
        problem(nodes) is None,
        expands(described(nodes), recipe),
    ensures
        recipe.taps.len() + recipe.casks.len() + recipe.formulas.len() == nodes.len(),
        forall|k: int|
            0 <= k < recipe.formulas.len() ==> (#[trigger] recipe.formulas[k]).postinstall_steps.len()
                == described(nodes).formulas[k].postinstall_steps.len(),
    decreases nodes.len(),
{
    lemma_described_counts(nodes);
    assert forall|k: int| 0 <= k < recipe.formulas.len() implies (#[trigger] recipe.formulas[k]).postinstall_steps.len()
        == described(nodes).formulas[k].postinstall_steps.len() by {
        assert(expands_formula(described(nodes).formulas[k], recipe.formulas[k]));
    }
}

/// Faultless nodes declare as many entries as they are.
proof fn lemma_described_counts(nodes: Seq<NodeView>)
    requires
        problem(nodes) is None,
    ensures
        described(nodes).taps.len() + described(nodes).casks.len() + described(
            nodes,
        ).formulas.len() == nodes.len(),
    decreases nodes.len(),
{
    if nodes.len() > 0 {
        lemma_described_counts(nodes.drop_last());
    }
}

/// A recipe without `~` is read exactly. Where the nodes are a recipe and
/// none of its paths begins with `~`, the decoding succeeds, and its result
/// is the recipe that the nodes declare, letter for letter.
pub proof fn lemma_plain_recipe_is_exact(nodes: Seq<NodeView>, result: Result<Recipe, ParseError>)
    requires
        decoded(nodes, result),
        problem(nodes) is None,
        forall|path: Seq<char>|
            names_path(described(nodes), path) ==> !begins_with_tilde(path),
    ensures
        result matches Ok(recipe) && recipe@ == described(nodes),
{
    let raw = described(nodes);
    match result {
        Err(error) => {
            assert(no_home(raw, error@));
            assert(names_path(raw, error@->NoHome_path));
        },
        Ok(recipe) => {
            let done = recipe@;
            assert forall|k: int| 0 <= k < raw.formulas.len() implies raw.formulas[k]
                == done.formulas[k] by {
                let wanted = raw.formulas[k];
                let found = done.formulas[k];
                assert(expands_formula(wanted, found));
                assert forall|j: int| 0 <= j < wanted.postinstall_steps.len() implies wanted.postinstall_steps[j]
                    == found.postinstall_steps[j] by {
                    let step = wanted.postinstall_steps[j];
                    assert(expands_step(step, found.postinstall_steps[j]));
                    assert forall|path: Seq<char>| step_names_path(step, path) implies !begins_with_tilde(
                        path,
                    ) by {
                        assert(formula_names_path(wanted, path));
                        assert(names_path(raw, path));
                    }
                    match step {
                        StepView::Cp(src, dst) => {
                            assert(step_names_path(step, src));
                            assert(step_names_path(step, dst));
                        },
                        StepView::Dl(_, dst) => {
                            assert(step_names_path(step, dst));
                        },
                        StepView::Echo(_, dst) => {
                            assert(step_names_path(step, dst));
                        },
                        StepView::Fish(_) => {},
                    }
                }
                assert(wanted.postinstall_steps =~= found.postinstall_steps);
            }
            assert(raw.formulas =~= done.formulas);
        },
    }
}

/// A faultless `brew` node declares one step for each of its children, in
/// their order.
pub proof fn lemma_formula_steps(node: NodeView, j: int)
    requires
        0 <= j < node.children.len(),
    ensures
        formula_of(node).postinstall_steps.len() == node.children.len(),
        formula_of(node).postinstall_steps[j] == step_of(node.children[j]),
{
}

} // verus!
