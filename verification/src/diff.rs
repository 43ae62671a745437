//! Comparing a recipe with the formulas that are installed.

use vstd::prelude::*;
use vstd::string::*;
use vstd::utf8::{decode_utf8, valid_utf8};
use crate::host::{Command, CommandView, Outcome, OutcomeView};
use crate::recipe::{FormulaView, Recipe, RecipeView};
use crate::text::{contains, decimal, lines, lines_of, to_decimal};

verus! {

/// The query for the installed formulas could not be made or read.
#[derive(Debug, Clone, PartialEq, Eq)]
pub struct CommandError {
    /// The command that was attempted.
    pub cmd: &'static str,
    /// Why it failed.
    pub reason: String,
}

/// What a command error is, as mathematics.
pub struct CommandErrorView {
    pub cmd: Seq<char>,
    pub reason: Seq<char>,
}

/// The two differences between a recipe and what is installed. As
/// [`diff`] finds them, no name occurs twice in either list.
#[derive(Debug, Clone, PartialEq, Eq)]
pub struct Diff {
    /// Formulas that the recipe declares and that are not installed.
    pub missing: Vec<String>,
    /// Formulas that are installed and that the recipe does not declare.
    pub extra: Vec<String>,
}

/// What a diff is, as mathematics.
pub struct DiffView {
    pub missing: Seq<Seq<char>>,
    pub extra: Seq<Seq<char>>,
}

impl View for CommandError {
    type V = CommandErrorView;

    open spec fn view(&self) -> CommandErrorView {
        CommandErrorView { cmd: self.cmd@, reason: self.reason@ }
    }
}

impl View for Diff {
    type V = DiffView;

    open spec fn view(&self) -> DiffView {
        DiffView { missing: self.missing.deep_view(), extra: self.extra.deep_view() }
    }
}

/// The text that `{:?}` writes for a list of strings.
pub uninterp spec fn debug_text(names: Seq<Seq<char>>) -> Seq<char>;

/// Calls `format!` with `{:?}` on a list of strings, which writes the
/// strings between square brackets, each in double quotes with its special
/// characters escaped, separated by a comma and a space.
///
/// The contract names the result, a function of the strings alone.
#[verifier::external_body]
fn debug_list(names: &Vec<String>) -> (text: String)
    ensures
        text@ == debug_text(names.deep_view()),
{
    format!("{:?}", names)
}

/// The names in `names` that are not in `others`, each once, in the order
/// in which they first occur.
pub open spec fn without(names: Seq<Seq<char>>, others: Seq<Seq<char>>) -> Seq<Seq<char>>
    decreases names.len(),
{
    if names.len() == 0 {
        Seq::empty()
    } else {
        let before = without(names.drop_last(), others);
        let name = names.last();
        if others.contains(name) || before.contains(name) {
            before
        } else {
            before.push(name)
        }
    }
}

/// The names of the formulas that a recipe declares, in order.
pub open spec fn formula_names(recipe: RecipeView) -> Seq<Seq<char>> {
    recipe.formulas.map_values(|formula: FormulaView| formula.name)
}

/// The diff between the formulas declared and the formulas installed.
pub open spec fn diff_of(declared: Seq<Seq<char>>, installed: Seq<Seq<char>>) -> DiffView {
    DiffView { missing: without(declared, installed), extra: without(installed, declared) }
}

/// One part of the report: nothing for an empty list, otherwise the count
/// with its caption, the names on the next line, and an empty line.
pub open spec fn report_part(names: Seq<Seq<char>>, caption: Seq<char>) -> Seq<char> {
    if names.len() == 0 {
        Seq::empty()
    } else {
        decimal(names.len()) + caption + "\n"@ + debug_text(names) + "\n\n"@
    }
}

/// The report of a diff: the missing formulas, then the extra ones.
pub open spec fn report_text(diff: DiffView) -> Seq<char> {
    report_part(diff.missing, " formula(s) present in Recipe but not installed:"@) + report_part(
        diff.extra,
        " formula(s) installed locally but not recorded in Recipe:"@,
    )
}

/// `brew leaves -r`: the installed formulas that no other installed formula
/// requires, one name on each line.
pub open spec fn leaves_command_view() -> CommandView {
    CommandView { program: "brew"@, args: seq!["leaves"@, "-r"@] }
}

/// What the outcome of the query tells: the names on the lines of its
/// output, or nothing where the query could not be started or its output is
/// not valid UTF-8. How the process exited plays no part.
pub open spec fn installed_names(outcome: OutcomeView) -> Option<Seq<Seq<char>>> {
    match outcome {
        OutcomeView::Failed(_) => None,
        OutcomeView::Exited { success, stdout, stderr } => if valid_utf8(stdout) {
            Some(lines_of(decode_utf8(stdout)))
        } else {
            None
        },
        _ => Some(Seq::empty()),
    }
}

/// The error that a failed query is reported with: it names the query and
/// carries the reason that the system gave, or says that the output could
/// not be read.
pub open spec fn query_error(outcome: OutcomeView) -> CommandErrorView {
    CommandErrorView {
        cmd: "brew leaves"@,
        reason: match outcome {
            OutcomeView::Failed(reason) => reason,
            _ => "output is not valid UTF-8"@,
        },
    }
}

/// The command that lists the installed formulas.
pub fn leaves_command() -> (command: Command)
    ensures
        command@ == leaves_command_view(),
{
    let mut args: Vec<String> = Vec::new();
    args.push("leaves".to_owned());
    args.push("-r".to_owned());
    assert(args.deep_view() =~= seq!["leaves"@, "-r"@]);
    Command { program: "brew".to_owned(), args }
}

/// Gets the locally installed formula names from the outcome of
/// [`leaves_command`].
///
/// ## Errors
/// Returns an error if the command could not be started or if its output is
/// not valid UTF-8.
pub fn local_formulas(outcome: &Outcome) -> (names: Result<Vec<String>, CommandError>)
    ensures
        match installed_names(outcome@) {
            Some(list) => names matches Ok(found) && found.deep_view() == list,
            None => names matches Err(error) && error@ == query_error(outcome@),
        },
{
    match outcome {
        Outcome::Failed(reason) => Err(CommandError { cmd: "brew leaves", reason: reason.clone() }),
        Outcome::Exited { success: _, stdout, stderr: _ } => {
            match core::str::from_utf8(stdout.as_slice()) {
                Ok(text) => Ok(lines(text)),
                Err(_) => Err(
                    CommandError {
                        cmd: "brew leaves",
                        reason: "output is not valid UTF-8".to_owned(),
                    },
                ),
            }
        },
        _ => {
            let none: Vec<String> = Vec::new();
            assert(none.deep_view() =~= Seq::<Seq<char>>::empty());
            Ok(none)
        },
    }
}

/// The names in `names` that are not in `others`, each once.
pub fn difference(names: &Vec<String>, others: &Vec<String>) -> (left: Vec<String>)
    ensures
        left.deep_view() == without(names.deep_view(), others.deep_view()),
{
    let mut left: Vec<String> = Vec::new();
    let mut i: usize = 0;
    assert(names.deep_view().take(0) =~= Seq::<Seq<char>>::empty());
    assert(left.deep_view() =~= Seq::<Seq<char>>::empty());
    while i < names.len()
        invariant
            i <= names.len(),
            left.deep_view() == without(names.deep_view().take(i as int), others.deep_view()),
        decreases names.len() - i,
    {
        let name = &names[i];
        assert(names.deep_view().take(i + 1).drop_last() =~= names.deep_view().take(i as int));
        assert(names.deep_view().take(i + 1).last() == name@);
        if !contains(others, name) && !contains(&left, name) {
            let ghost before = left.deep_view();
            left.push(name.clone());
            assert(left.deep_view() =~= before.push(name@));
        }
        i = i + 1;
    }
    assert(names.deep_view().take(i as int) =~= names.deep_view());
    left
}

/// The names of the formulas of a recipe.
fn names_of(recipe: &Recipe) -> (names: Vec<String>)
    ensures
        names.deep_view() == formula_names(recipe@),
{
    let mut names: Vec<String> = Vec::new();
    let mut i: usize = 0;
    while i < recipe.formulas.len()
        invariant
            i <= recipe.formulas.len(),
            names.len() == i,
            forall|j: int| 0 <= j < i ==> names@[j]@ == recipe.formulas@[j].name@,
        decreases recipe.formulas.len() - i,
    {
        names.push(recipe.formulas[i].name.clone());
        i = i + 1;
    }
    assert(names.deep_view() =~= formula_names(recipe@));
    names
}

/// The diff between a recipe and the installed formulas `local`.
pub fn diff(recipe: &Recipe, local: &Vec<String>) -> (found: Diff)
    ensures
        found@ == diff_of(formula_names(recipe@), local.deep_view()),
        found@.missing.no_duplicates(),
        found@.extra.no_duplicates(),
        found@.missing.to_set() == formula_names(recipe@).to_set().difference(
            local.deep_view().to_set(),
        ),
        found@.extra.to_set() == local.deep_view().to_set().difference(
            formula_names(recipe@).to_set(),
        ),
{
    let declared = names_of(recipe);
    proof {
        lemma_without_is_difference(declared.deep_view(), local.deep_view());
        lemma_without_is_difference(local.deep_view(), declared.deep_view());
    }
    Diff { missing: difference(&declared, local), extra: difference(local, &declared) }
}

/// One part of the report.
fn part(names: &Vec<String>, caption: &str) -> (text: String)
    ensures
        text@ == report_part(names.deep_view(), caption@),
{
    if names.len() == 0 {
        String::new()
    } else {
        let mut text = to_decimal(names.len());
        text.append(caption);
        text.append("\n");
        text.append(debug_list(names).as_str());
        text.append("\n\n");
        text
    }
}

impl Diff {
    /// The report to print: for each list that is not empty, the count
    /// with its caption, then the names.
    pub fn report(&self) -> (text: String)
        ensures
            text@ == report_text(self@),
    {
        let mut text = part(&self.missing, " formula(s) present in Recipe but not installed:");
        text.append(
            part(&self.extra, " formula(s) installed locally but not recorded in Recipe:").as_str(),
        );
        text
    }
}

impl CommandError {
    /// The message of the error.
    pub fn to_string(&self) -> (text: String)
        ensures
            text@ == "command '"@ + self.cmd@ + "' failed: "@ + self.reason@,
    {
        let mut text = "command '".to_owned();
        text.append(self.cmd);
        text.append("' failed: ");
        text.append(self.reason.as_str());
        text
    }
}

/// The difference between the recipe and the locally installed formulas,
/// as the text to print, from the outcome of [`leaves_command`].
///
/// ## Errors
/// Returns an error if running `brew leaves` failed.
pub fn print_diff(recipe: &Recipe, outcome: &Outcome) -> (report: Result<String, CommandError>)
    ensures
        match installed_names(outcome@) {
            Some(local) => report matches Ok(text) && text@ == report_text(
                diff_of(formula_names(recipe@), local),
            ),
            None => report matches Err(error) && error@ == query_error(outcome@),
        },
{
    match local_formulas(outcome) {
        Ok(local) => Ok(diff(recipe, &local).report()),
        Err(error) => Err(error),
    }
}

/// The missing formulas are the declared ones that are not installed, and
/// the extra ones the installed ones that are not declared: as sets, the
/// two differences. No name is reported twice.
pub proof fn lemma_without_is_difference(names: Seq<Seq<char>>, others: Seq<Seq<char>>)
    ensures
        without(names, others).to_set() == names.to_set().difference(others.to_set()),
        without(names, others).no_duplicates(),
    decreases names.len(),
{
    let left = without(names, others);
    if names.len() == 0 {
        assert(left.to_set() =~= names.to_set().difference(others.to_set()));
    } else {
        let before = without(names.drop_last(), others);
        let name = names.last();
        lemma_without_is_difference(names.drop_last(), others);
        assert forall|x: Seq<char>| names.to_set().contains(x) <==> (names.drop_last().to_set().contains(x) || x == name) by {
            if names.contains(x) {
                let i = choose|i: int| 0 <= i < names.len() && names[i] == x;
                if i < names.len() - 1 {
                    assert(names.drop_last()[i] == x);
                }
            }
            if names.drop_last().contains(x) {
                let i = choose|i: int| 0 <= i < names.drop_last().len() && names.drop_last()[i] == x;
                assert(names[i] == x);
            }
            if x == name {
                assert(names[names.len() - 1] == x);
            }
        }
        if others.contains(name) || before.contains(name) {
            assert(left.to_set() =~= names.to_set().difference(others.to_set()));
        } else {
            assert forall|x: Seq<char>| left.to_set().contains(x) <==> (before.to_set().contains(x) || x == name) by {
                if left.contains(x) {
                    let i = choose|i: int| 0 <= i < left.len() && left[i] == x;
                    if i < before.len() {
                        assert(before[i] == x);
                    }
                }
                if before.contains(x) {
                    let i = choose|i: int| 0 <= i < before.len() && before[i] == x;
                    assert(left[i] == x);
                }
                if x == name {
                    assert(left[left.len() - 1] == x);
                }
            }
            assert(left.to_set() =~= names.to_set().difference(others.to_set()));
        }
    }
}

/// Where the recipe declares exactly the formulas that are installed,
/// whatever their order and however often each is named, nothing is
/// missing and nothing is extra, and the report is empty.
pub proof fn lemma_same_formulas_no_diff(declared: Seq<Seq<char>>, installed: Seq<Seq<char>>)
    requires
        declared.to_set() == installed.to_set(),
    ensures
        diff_of(declared, installed).missing.len() == 0,
        diff_of(declared, installed).extra.len() == 0,
        report_text(diff_of(declared, installed)).len() == 0,
{
    lemma_without_is_difference(declared, installed);
    lemma_without_is_difference(installed, declared);
    let missing = without(declared, installed);
    let extra = without(installed, declared);
    if missing.len() > 0 {
        assert(missing.to_set().contains(missing[0]));
    }
    if extra.len() > 0 {
        assert(extra.to_set().contains(extra[0]));
    }
}

} // verus!
