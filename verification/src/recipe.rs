//! The recipe: taps, casks and formulas with their postinstall steps.

use vstd::prelude::*;

verus! {

/// A filesystem path whose leading `~` has been replaced by the user's home
/// directory.
///
/// Values are made by [`ExpandedPath::new`] alone, so a path that reaches the
/// installer has always gone through the expansion.
#[derive(Debug, Clone, PartialEq, Eq)]
pub struct ExpandedPath(String);

/// What a postinstall step is, as mathematics.
pub enum StepView {
    /// Copy the first path, taken relative to the recipe directory, to the second.
    Cp(Seq<char>, Seq<char>),
    /// Download the URL to the path.
    Dl(Seq<char>, Seq<char>),
    /// Append the text, as one line, to the file at the path.
    Echo(Seq<char>, Seq<char>),
    /// Run the command line with `fish`.
    Fish(Seq<char>),
}

/// What a formula is, as mathematics.
pub struct FormulaView {
    pub name: Seq<char>,
    pub postinstall_steps: Seq<StepView>,
}

/// What a recipe is, as mathematics.
pub struct RecipeView {
    pub taps: Seq<Seq<char>>,
    pub casks: Seq<Seq<char>>,
    pub formulas: Seq<FormulaView>,
}

/// Postinstall steps of a formula.
#[derive(Debug, Clone, PartialEq, Eq)]
#[non_exhaustive]
pub enum Postinstall {
    /// Copies `.0`, a path inside the recipe directory, to `.1`.
    Cp(ExpandedPath, ExpandedPath),
    /// Downloads `.0` to `.1`.
    Dl(String, ExpandedPath),
    /// Appends `.0` to the file at `.1`.
    Echo(String, ExpandedPath),
    /// Runs the `fish` command `.0`.
    Fish(String),
}

/// A formula: a name and, optionally, some postinstall steps.
#[derive(Debug, Clone, PartialEq, Eq)]
pub struct Formula {
    /// Name of the formula.
    pub name: String,
    /// Postinstall steps, run in this order once the formula is installed.
    pub postinstall_steps: Vec<Postinstall>,
}

/// The root recipe container.
#[derive(Debug, Clone, PartialEq, Eq)]
pub struct Recipe {
    /// Taps, in the order in which they are added.
    pub taps: Vec<String>,
    /// Cask names, in the order in which they are installed.
    pub casks: Vec<String>,
    /// Formulas, in the order in which they are installed.
    pub formulas: Vec<Formula>,
}

/// Whether the text begins with the home-directory marker `~`.
pub open spec fn begins_with_tilde(raw: Seq<char>) -> bool {
    raw.len() > 0 && raw[0] == '~'
}

/// Calls `simple_home_dir::expand_tilde`, which replaces a first path
/// component `~` by the home directory that the environment names and fails
/// where the environment names none.
///
/// The contract claims only what holds in every environment: a path that does
/// not begin with `~` has no such component and comes back as it went in.
/// A result that is not valid Unicode counts as a failure.
#[verifier::external_body]
fn expand_tilde(raw: &str) -> (expanded: Option<String>)
    ensures
        expanded is Some || begins_with_tilde(raw@),
        expanded matches Some(path) ==> path@ == raw@ || begins_with_tilde(raw@),
{
    match simple_home_dir::expand_tilde(raw) {
        Some(path) => path.into_os_string().into_string().ok(),
        None => None,
    }
}

impl View for ExpandedPath {
    type V = Seq<char>;

    closed spec fn view(&self) -> Seq<char> {
        self.0@
    }
}

impl DeepView for ExpandedPath {
    type V = Seq<char>;

    open spec fn deep_view(&self) -> Seq<char> {
        self@
    }
}

impl ExpandedPath {
    /// Expands the leading `~` of `raw`, if it has one.
    ///
    /// Returns `None` where the home directory is needed and cannot be
    /// found. A path that does not begin with `~` needs none and is kept
    /// letter for letter.
    pub fn new(raw: &str) -> (expanded: Option<ExpandedPath>)
        ensures
            expanded is Some || begins_with_tilde(raw@),
            expanded matches Some(path) ==> path@ == raw@ || begins_with_tilde(raw@),
    {
        match expand_tilde(raw) {
            Some(path) => Some(ExpandedPath(path)),
            None => None,
        }
    }

    /// The expanded path as text.
    pub fn as_str(&self) -> (path: &str)
        ensures
            path@ == self@,
    {
        self.0.as_str()
    }
}

impl View for Postinstall {
    type V = StepView;

    open spec fn view(&self) -> StepView {
        match *self {
            Postinstall::Cp(src, dst) => StepView::Cp(src@, dst@),
            Postinstall::Dl(url, dst) => StepView::Dl(url@, dst@),
            Postinstall::Echo(text, dst) => StepView::Echo(text@, dst@),
            Postinstall::Fish(cmd) => StepView::Fish(cmd@),
        }
    }
}

impl DeepView for Postinstall {
    type V = StepView;

    open spec fn deep_view(&self) -> StepView {
        self@
    }
}

impl View for Formula {
    type V = FormulaView;

    open spec fn view(&self) -> FormulaView {
        FormulaView {
            name: self.name@,
            postinstall_steps: self.postinstall_steps.deep_view(),
        }
    }
}

impl DeepView for Formula {
    type V = FormulaView;

    open spec fn deep_view(&self) -> FormulaView {
        self@
    }
}

impl View for Recipe {
    type V = RecipeView;

    open spec fn view(&self) -> RecipeView {
        RecipeView {
            taps: self.taps.deep_view(),
            casks: self.casks.deep_view(),
            formulas: self.formulas.deep_view(),
        }
    }
}

} // verus!
