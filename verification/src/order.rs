//! What the installation procedure guarantees about the order of its
//! invocations and about the way it ends.

use vstd::prelude::*;
use crate::bundle::{
    appended_line, cask_command_view, casks_plan, download_command_view, fish_command_view,
    formula_command_view, formula_plan, formulas_plan, installation, invocation_progress, plan,
    run, step_progress, tap_command_view, taps_plan, InstallErrorView, Invocation, ProgressView,
};
use crate::host::{affirmed, failure, verdict, OperationView, OutcomeView, VerdictView};
use crate::recipe::{FormulaView, RecipeView, StepView};
use crate::text::resolved;

verus! {

/// An invocation that is complete has used at least one outcome and no more
/// than were reported.
pub proof fn lemma_invocation_uses_outcomes(
    invocation: Invocation,
    dir: Seq<char>,
    log: Seq<OutcomeView>,
)
    ensures
        invocation_progress(invocation, dir, log) matches ProgressView::Completed(n) ==> 1 <= n
            <= log.len(),
{
}

/// An invocation that has failed or is complete stays so, whatever is
/// reported afterwards.
pub proof fn lemma_invocation_settled(
    invocation: Invocation,
    dir: Seq<char>,
    log: Seq<OutcomeView>,
    more: Seq<OutcomeView>,
)
    requires
        !(invocation_progress(invocation, dir, log) is Pending),
    ensures
        invocation_progress(invocation, dir, log + more) == invocation_progress(
            invocation,
            dir,
            log,
        ),
{
    let longer = log + more;
    assert(log.len() > 0);
    assert(longer[0] == log[0]);
    if log.len() > 1 {
        assert(longer[1] == log[1]);
    }
    if log.len() > 2 {
        assert(longer[2] == log[2]);
    }
}

/// A run that is complete has used no more outcomes than were reported.
pub proof fn lemma_run_uses_outcomes(
    invocations: Seq<Invocation>,
    dir: Seq<char>,
    log: Seq<OutcomeView>,
    used: nat,
)
    requires
        used <= log.len(),
    ensures
        run(invocations, dir, log, used) matches ProgressView::Completed(n) ==> used <= n
            <= log.len(),
    decreases invocations.len(),
{
    if invocations.len() > 0 {
        lemma_invocation_uses_outcomes(invocations[0], dir, log.skip(used as int));
        if let ProgressView::Completed(n) = invocation_progress(
            invocations[0],
            dir,
            log.skip(used as int),
        ) {
            lemma_run_uses_outcomes(invocations.drop_first(), dir, log, used + n);
        }
    }
}

/// The order of the plan is the order of the work: what stands later in a
/// list of invocations is looked at only when everything before it is
/// complete, and then on the outcomes that the earlier invocations left.
/// While an earlier invocation is pending or has failed, the later ones
/// have no say.
pub proof fn lemma_run_in_order(
    first: Seq<Invocation>,
    then: Seq<Invocation>,
    dir: Seq<char>,
    log: Seq<OutcomeView>,
    used: nat,
)
    ensures
        run(first + then, dir, log, used) == match run(first, dir, log, used) {
            ProgressView::Completed(n) => run(then, dir, log, n),
            other => other,
        },
    decreases first.len(),
{
    if first.len() == 0 {
        assert(first + then =~= then);
    } else {
        let all = first + then;
        assert(all[0] == first[0]);
        assert(all.drop_first() =~= first.drop_first() + then);
        if let ProgressView::Completed(n) = invocation_progress(
            first[0],
            dir,
            log.skip(used as int),
        ) {
            lemma_run_in_order(first.drop_first(), then, dir, log, used + n);
        }
    }
}

/// Once a run has failed or is complete, its answer is final: outcomes
/// reported afterwards change nothing, and no operation is asked for again.
pub proof fn lemma_settled_is_final(
    invocations: Seq<Invocation>,
    dir: Seq<char>,
    log: Seq<OutcomeView>,
    more: Seq<OutcomeView>,
    used: nat,
)
    requires
        used <= log.len(),
        !(run(invocations, dir, log, used) is Pending),
    ensures
        run(invocations, dir, log + more, used) == run(invocations, dir, log, used),
    decreases invocations.len(),
{
    if invocations.len() > 0 {
        let own = log.skip(used as int);
        assert((log + more).skip(used as int) =~= own + more);
        lemma_invocation_settled(invocations[0], dir, own, more);
        lemma_invocation_uses_outcomes(invocations[0], dir, own);
        if let ProgressView::Completed(n) = invocation_progress(invocations[0], dir, own) {
            lemma_settled_is_final(invocations.drop_first(), dir, log, more, used + n);
        }
    }
}

/// A failure aborts the installation. If the invocations before position
/// `k` are complete and the one at `k` fails, the installation has failed
/// with that error; the invocations after `k` are never looked at, and
/// nothing that is reported later revives it.
pub proof fn lemma_failure_aborts(
    recipe: RecipeView,
    dir: Seq<char>,
    log: Seq<OutcomeView>,
    k: int,
    spent: nat,
    error: InstallErrorView,
    more: Seq<OutcomeView>,
)
    requires
        0 <= k < plan(recipe).len(),
        run(plan(recipe).take(k), dir, log, 0) == ProgressView::Completed(spent),
        invocation_progress(plan(recipe)[k], dir, log.skip(spent as int))
            == ProgressView::Failed(error),
    ensures
        installation(recipe, dir, log) == ProgressView::Failed(error),
        installation(recipe, dir, log) == run(plan(recipe).take(k + 1), dir, log, 0),
        installation(recipe, dir, log + more) == ProgressView::Failed(error),
{
    let all = plan(recipe);
    let before = all.take(k);
    let failing = seq![all[k]];
    let after = all.skip(k + 1);
    assert(all =~= before + (failing + after));
    assert(all.take(k + 1) =~= before + failing);
    assert(failing.drop_first() =~= Seq::<Invocation>::empty());
    assert(run(failing, dir, log, spent) == ProgressView::Failed(error));
    lemma_run_in_order(failing, after, dir, log, spent);
    lemma_run_in_order(before, failing + after, dir, log, 0);
    lemma_run_in_order(before, failing, dir, log, 0);
    lemma_settled_is_final(all, dir, log, more, 0);
}

/// An installation is complete exactly when every invocation of its plan
/// is: a plan cut short at any point is complete too, on no more outcomes.
pub proof fn lemma_completion_covers_plan(
    recipe: RecipeView,
    dir: Seq<char>,
    log: Seq<OutcomeView>,
    k: int,
)
    requires
        0 <= k <= plan(recipe).len(),
        installation(recipe, dir, log) is Completed,
    ensures
        run(plan(recipe).take(k), dir, log, 0) matches ProgressView::Completed(n) && n
            <= installation(recipe, dir, log)->Completed_0,
{
    let all = plan(recipe);
    assert(all =~= all.take(k) + all.skip(k));
    lemma_run_in_order(all.take(k), all.skip(k), dir, log, 0);
    if let ProgressView::Completed(n) = run(all.take(k), dir, log, 0) {
        lemma_run_uses_outcomes(all.take(k), dir, log, 0);
        lemma_run_uses_outcomes(all.skip(k), dir, log, n);
    }
}

/// A recipe without taps, formulas and casks is installed at once: whatever
/// the history, the installation is complete, has used no outcome and asks
/// for no operation.
pub proof fn lemma_empty_recipe_is_installed(
    recipe: RecipeView,
    dir: Seq<char>,
    log: Seq<OutcomeView>,
)
    requires
        recipe.taps.len() == 0,
        recipe.formulas.len() == 0,
        recipe.casks.len() == 0,
    ensures
        plan(recipe).len() == 0,
        installation(recipe, dir, log) == ProgressView::Completed(0),
{
}

/// The place of the formula at index `k` in the plan of the formulas.
pub open spec fn formula_start(formulas: Seq<FormulaView>, k: int) -> int
    decreases k,
{
    if k <= 0 {
        0
    } else {
        formula_start(formulas, k - 1) + 1 + formulas[k - 1].postinstall_steps.len()
    }
}

/// Where a formula and its steps stand among the invocations of the
/// formulas: formula `k` follows the formulas before it and their steps,
/// and its own steps follow it in the order declared.
pub proof fn lemma_formula_positions(formulas: Seq<FormulaView>, k: int)
    requires
        0 <= k < formulas.len(),
    ensures
        0 <= formula_start(formulas, k),
        formula_start(formulas, k) + formulas[k].postinstall_steps.len() < formulas_plan(
            formulas,
        ).len(),
        formulas_plan(formulas)[formula_start(formulas, k)] == Invocation::Formula(
            formulas[k].name,
        ),
        forall|j: int|
            0 <= j < formulas[k].postinstall_steps.len() ==> #[trigger] formulas_plan(
                formulas,
            )[formula_start(formulas, k) + 1 + j] == Invocation::Step(
                formulas[k].postinstall_steps[j],
            ),
    decreases formulas.len(),
{
    let head = formula_plan(formulas[0]);
    let tail = formulas.drop_first();
    if k == 0 {
        assert(formula_start(formulas, 0) == 0);
    } else {
        lemma_formula_positions(tail, k - 1);
        lemma_formula_start_shift(formulas, k);
        assert(tail[k - 1] == formulas[k]);
        let at = formula_start(tail, k - 1);
        assert(formulas_plan(formulas)[head.len() + at] == formulas_plan(tail)[at]);
        assert forall|j: int| 0 <= j < formulas[k].postinstall_steps.len() implies #[trigger]
            formulas_plan(formulas)[formula_start(formulas, k) + 1 + j] == Invocation::Step(
            formulas[k].postinstall_steps[j],
        ) by {
            assert(formulas_plan(formulas)[head.len() + (at + 1 + j)] == formulas_plan(tail)[at
                + 1 + j]);
        }
    }
}

/// The place of a formula, counted from the second formula on.
proof fn lemma_formula_start_shift(formulas: Seq<FormulaView>, k: int)
    requires
        1 <= k <= formulas.len(),
    ensures
        formula_start(formulas, k) == formula_plan(formulas[0]).len() + formula_start(
            formulas.drop_first(),
            k - 1,
        ),
    decreases k,
{
    if k == 1 {
        assert(formula_start(formulas, 0) == 0);
        assert(formula_start(formulas.drop_first(), 0) == 0);
    } else {
        lemma_formula_start_shift(formulas, k - 1);
        assert(formulas.drop_first()[k - 2] == formulas[k - 1]);
    }
}

/// The order of installation. The plan holds the taps first, in the order
/// declared; then the formulas, each followed at once by its postinstall
/// steps in the order declared; then the casks, in the order declared; and
/// nothing else.
pub proof fn lemma_plan_order(recipe: RecipeView)
    ensures
        plan(recipe).len() == recipe.taps.len() + formulas_plan(recipe.formulas).len()
            + recipe.casks.len(),
        forall|i: int|
            0 <= i < recipe.taps.len() ==> #[trigger] plan(recipe)[i] == Invocation::Tap(
                recipe.taps[i],
            ),
        forall|k: int|
            0 <= k < recipe.formulas.len() ==> #[trigger] plan(recipe)[recipe.taps.len()
                + formula_start(recipe.formulas, k)] == Invocation::Formula(
                recipe.formulas[k].name,
            ),
        forall|k: int, j: int|
            0 <= k < recipe.formulas.len() && 0 <= j
                < recipe.formulas[k].postinstall_steps.len() ==> #[trigger] plan(
                recipe,
            )[recipe.taps.len() + formula_start(recipe.formulas, k) + 1 + j]
                == Invocation::Step(recipe.formulas[k].postinstall_steps[j]),
        forall|i: int|
            0 <= i < recipe.casks.len() ==> #[trigger] plan(recipe)[recipe.taps.len()
                + formulas_plan(recipe.formulas).len() + i] == Invocation::Cask(recipe.casks[i]),
{
    let taps = taps_plan(recipe.taps);
    let middle = formulas_plan(recipe.formulas);
    let casks = casks_plan(recipe.casks);
    assert forall|k: int| 0 <= k < recipe.formulas.len() implies #[trigger] plan(
        recipe,
    )[recipe.taps.len() + formula_start(recipe.formulas, k)] == Invocation::Formula(
        recipe.formulas[k].name,
    ) by {
        lemma_formula_positions(recipe.formulas, k);
    }
    assert forall|k: int, j: int|
        0 <= k < recipe.formulas.len() && 0 <= j
            < recipe.formulas[k].postinstall_steps.len() implies #[trigger] plan(
        recipe,
    )[recipe.taps.len() + formula_start(recipe.formulas, k) + 1 + j] == Invocation::Step(
        recipe.formulas[k].postinstall_steps[j],
    ) by {
        lemma_formula_positions(recipe.formulas, k);
        assert(middle[formula_start(recipe.formulas, k) + 1 + j] == Invocation::Step(
            recipe.formulas[k].postinstall_steps[j],
        ));
    }
}

/// The plan of a recipe with two taps, two formulas and two casks: the
/// first tap, the second tap, the first formula and its steps, the second
/// formula and its steps, the first cask, the second cask.
pub proof fn lemma_plan_of_pairs(
    tap_a: Seq<char>,
    tap_b: Seq<char>,
    formula_a: FormulaView,
    formula_b: FormulaView,
    cask_a: Seq<char>,
    cask_b: Seq<char>,
)
    ensures
        plan(
            RecipeView {
                taps: seq![tap_a, tap_b],
                casks: seq![cask_a, cask_b],
                formulas: seq![formula_a, formula_b],
            },
        ) == seq![Invocation::Tap(tap_a), Invocation::Tap(tap_b)] + (seq![
            Invocation::Formula(formula_a.name),
        ] + formula_a.postinstall_steps.map_values(|step: StepView| Invocation::Step(step))) + (seq![
            Invocation::Formula(formula_b.name),
        ] + formula_b.postinstall_steps.map_values(|step: StepView| Invocation::Step(step)))
            + seq![Invocation::Cask(cask_a), Invocation::Cask(cask_b)],
{
    let formulas = seq![formula_a, formula_b];
    assert(formulas.drop_first() =~= seq![formula_b]);
    assert(formulas.drop_first().drop_first() =~= Seq::<FormulaView>::empty());
    let last = formulas.drop_first();
    assert(last[0] == formula_b);
    assert(formulas_plan(last.drop_first()) =~= Seq::<Invocation>::empty());
    assert(formulas_plan(last) =~= formula_plan(formula_b));
    assert(formulas_plan(formulas) =~= formula_plan(formula_a) + formula_plan(formula_b));
    assert(taps_plan(seq![tap_a, tap_b]) =~= seq![Invocation::Tap(tap_a), Invocation::Tap(tap_b)]);
    assert(casks_plan(seq![cask_a, cask_b]) =~= seq![
        Invocation::Cask(cask_a),
        Invocation::Cask(cask_b),
    ]);
}

/// What the invocations of `brew` ask for: a tap is added with
/// `brew tap <name>`, a formula installed with `brew install <name>` and a
/// cask with `brew install --cask <name>`, each as the one operation of its
/// invocation.
pub proof fn lemma_brew_invocations(name: Seq<char>, dir: Seq<char>)
    ensures
        invocation_progress(Invocation::Tap(name), dir, seq![]) == ProgressView::Pending(
            OperationView::Run(tap_command_view(name)),
        ),
        invocation_progress(Invocation::Formula(name), dir, seq![]) == ProgressView::Pending(
            OperationView::Run(formula_command_view(name)),
        ),
        invocation_progress(Invocation::Cask(name), dir, seq![]) == ProgressView::Pending(
            OperationView::Run(cask_command_view(name)),
        ),
        tap_command_view(name).args == seq!["tap"@, name],
        formula_command_view(name).args == seq!["install"@, name],
        cask_command_view(name).args == seq!["install"@, "--cask"@, name],
{
}

/// How an invocation of `brew` ends: a run that reports success completes
/// it on that one outcome, and a run that reports failure fails it with
/// the error stream as the reason.
pub proof fn lemma_brew_verdicts(name: Seq<char>, dir: Seq<char>, outcome: OutcomeView)
    ensures
        verdict(outcome) is Passed ==> invocation_progress(
            Invocation::Tap(name),
            dir,
            seq![outcome],
        ) == ProgressView::Completed(1) && invocation_progress(
            Invocation::Formula(name),
            dir,
            seq![outcome],
        ) == ProgressView::Completed(1) && invocation_progress(
            Invocation::Cask(name),
            dir,
            seq![outcome],
        ) == ProgressView::Completed(1),
        verdict(outcome) matches VerdictView::Refused(reason) ==> invocation_progress(
            Invocation::Tap(name),
            dir,
            seq![outcome],
        ) == ProgressView::Failed(InstallErrorView::Tap { name, reason }) && invocation_progress(
            Invocation::Formula(name),
            dir,
            seq![outcome],
        ) == ProgressView::Failed(InstallErrorView::Formula { name, reason })
            && invocation_progress(Invocation::Cask(name), dir, seq![outcome])
            == ProgressView::Failed(InstallErrorView::Cask { name, reason }),
{
}

/// The copy step. It first asks whether the destination is a directory.
/// If it is not, the destination is created, with its missing parents,
/// before anything is copied, and a failure to create it ends the step.
/// The copy then reads the source resolved against the recipe directory.
pub proof fn lemma_copy_step(
    src: Seq<char>,
    dst: Seq<char>,
    dir: Seq<char>,
    is_dir: OutcomeView,
    created: OutcomeView,
)
    ensures
        step_progress(StepView::Cp(src, dst), dir, seq![]) == ProgressView::Pending(
            OperationView::IsDir(dst),
        ),
        affirmed(is_dir) ==> step_progress(StepView::Cp(src, dst), dir, seq![is_dir])
            == ProgressView::Pending(OperationView::Copy { from: resolved(dir, src), to: dst }),
        !affirmed(is_dir) ==> step_progress(StepView::Cp(src, dst), dir, seq![is_dir])
            == ProgressView::Pending(OperationView::CreateDirAll(dst)),
        !affirmed(is_dir) && failure(created) is None ==> step_progress(
            StepView::Cp(src, dst),
            dir,
            seq![is_dir, created],
        ) == ProgressView::Pending(OperationView::Copy { from: resolved(dir, src), to: dst }),
        !affirmed(is_dir) && failure(created) is Some ==> step_progress(
            StepView::Cp(src, dst),
            dir,
            seq![is_dir, created],
        ) == ProgressView::Failed(
            InstallErrorView::CreateDir { dir: dst, reason: failure(created)->0 },
        ),
{
}


/// The download step. It runs `curl`, told to create the missing parent
/// directories of the destination, to fail on an HTTP error status and to
/// stay silent but for errors. Only a run that reports success completes
/// the step; a run that reports failure ends it with the error stream as
/// the reason.
pub proof fn lemma_download_step(
    url: Seq<char>,
    dst: Seq<char>,
    dir: Seq<char>,
    outcome: OutcomeView,
)
    ensures
        step_progress(StepView::Dl(url, dst), dir, seq![]) == ProgressView::Pending(
            OperationView::Run(download_command_view(url, dst)),
        ),
        download_command_view(url, dst).args == seq!["-fsSLo"@, dst, "--create-dirs"@, url],
        step_progress(StepView::Dl(url, dst), dir, seq![outcome]) is Completed <==> verdict(outcome)
            is Passed,
        verdict(outcome) matches VerdictView::Refused(reason) ==> step_progress(
            StepView::Dl(url, dst),
            dir,
            seq![outcome],
        ) == ProgressView::Failed(InstallErrorView::Download { url, dst, reason }),
{
}

/// The append step. It asks for one operation, which appends the text and
/// a newline to the destination and never creates it; no directory and no
/// file is made on its behalf. A failure to open or to write ends the step
/// with a read/write error.
pub proof fn lemma_append_step(
    text: Seq<char>,
    dst: Seq<char>,
    dir: Seq<char>,
    outcome: OutcomeView,
)
    ensures
        step_progress(StepView::Echo(text, dst), dir, seq![]) == ProgressView::Pending(
            OperationView::Append { path: dst, text: text + seq!['\n'] },
        ),
        failure(outcome) is None ==> step_progress(StepView::Echo(text, dst), dir, seq![outcome])
            == ProgressView::Completed(1),
        failure(outcome) matches Some(reason) ==> step_progress(
            StepView::Echo(text, dst),
            dir,
            seq![outcome],
        ) == ProgressView::Failed(InstallErrorView::ReadWrite { path: dst, reason }),
{
}


// ---------------------------------------------------------------------------
// The installation on a willing machine
// ---------------------------------------------------------------------------

/// The outcome of an operation on a machine where every command succeeds,
/// every filesystem operation is carried out and no directory exists yet.
pub open spec fn willing(operation: OperationView) -> OutcomeView {
    match operation {
        OperationView::Run(_) => OutcomeView::Exited {
            success: true,
            stdout: Seq::empty(),
            stderr: Seq::empty(),
        },
        OperationView::IsDir(_) => OutcomeView::Answer(false),
        _ => OutcomeView::Done,
    }
}

/// The operations of one invocation on a willing machine.
pub open spec fn operations_of(invocation: Invocation, dir: Seq<char>) -> Seq<OperationView> {
    match invocation {
        Invocation::Tap(tap) => seq![OperationView::Run(tap_command_view(tap))],
        Invocation::Formula(formula) => seq![OperationView::Run(formula_command_view(formula))],
        Invocation::Cask(cask) => seq![OperationView::Run(cask_command_view(cask))],
        Invocation::Step(StepView::Cp(src, dst)) => seq![
            OperationView::IsDir(dst),
            OperationView::CreateDirAll(dst),
            OperationView::Copy { from: resolved(dir, src), to: dst },
        ],
        Invocation::Step(StepView::Dl(url, dst)) => seq![
            OperationView::Run(download_command_view(url, dst)),
        ],
        Invocation::Step(StepView::Echo(text, dst)) => seq![
            OperationView::Append { path: dst, text: appended_line(text) },
        ],
        Invocation::Step(StepView::Fish(cmd)) => seq![OperationView::Run(fish_command_view(cmd))],
    }
}

/// The operations of a list of invocations on a willing machine: those of
/// the first invocation, then those of the second, and so on.
pub open spec fn operations(invocations: Seq<Invocation>, dir: Seq<char>) -> Seq<OperationView>
    decreases invocations.len(),
{
    if invocations.len() == 0 {
        Seq::empty()
    } else {
        operations_of(invocations[0], dir) + operations(invocations.drop_first(), dir)
    }
}

/// The outcomes that a willing machine reports for the operations.
pub open spec fn answers(asked: Seq<OperationView>) -> Seq<OutcomeView> {
    asked.map_values(|operation: OperationView| willing(operation))
}

/// On a willing machine an invocation asks for its operations one after
/// the other and is complete when the last one is answered.
proof fn lemma_willing_invocation(
    invocation: Invocation,
    dir: Seq<char>,
    i: int,
    more: Seq<OutcomeView>,
)
    requires
        0 <= i <= operations_of(invocation, dir).len(),
    ensures
        1 <= operations_of(invocation, dir).len(),
        i < operations_of(invocation, dir).len() ==> invocation_progress(
            invocation,
            dir,
            answers(operations_of(invocation, dir)).take(i),
        ) == ProgressView::Pending(operations_of(invocation, dir)[i]),
        invocation_progress(invocation, dir, answers(operations_of(invocation, dir)) + more)
            == ProgressView::Completed(operations_of(invocation, dir).len()),
{
    let asked = operations_of(invocation, dir);
    let told = answers(asked);
    let part = told.take(i);
    let whole = told + more;
    assert(whole[0] == told[0]);
    if asked.len() == 3 {
        assert(whole[1] == told[1]);
        assert(whole[2] == told[2]);
        if i >= 1 {
            assert(part[0] == told[0]);
        }
        if i >= 2 {
            assert(part[1] == told[1]);
        }
    }
}

/// On a willing machine a list of invocations asks for its operations in
/// order: with the answers to the first `i` of them reported, the next
/// operation is pending; with all reported, the list is complete.
proof fn lemma_willing_run(
    invocations: Seq<Invocation>,
    dir: Seq<char>,
    before: Seq<OutcomeView>,
    i: int,
)
    requires
        0 <= i <= operations(invocations, dir).len(),
    ensures
        run(
            invocations,
            dir,
            before + answers(operations(invocations, dir)).take(i),
            before.len(),
        ) == if i < operations(invocations, dir).len() {
            ProgressView::Pending(operations(invocations, dir)[i])
        } else {
            ProgressView::Completed(before.len() + operations(invocations, dir).len())
        },
    decreases invocations.len(),
{
    let all = operations(invocations, dir);
    let log = before + answers(all).take(i);
    if invocations.len() > 0 {
        let first = operations_of(invocations[0], dir);
        let later = operations(invocations.drop_first(), dir);
        let own = log.skip(before.len() as int);
        assert(own =~= answers(all).take(i));
        if i < first.len() {
            lemma_willing_invocation(invocations[0], dir, i, Seq::empty());
            assert(own =~= answers(first).take(i));
            assert(all[i] == first[i]);
        } else {
            let more = answers(later).take(i - first.len());
            lemma_willing_invocation(invocations[0], dir, 0, more);
            assert(own =~= answers(first) + more);
            let spent = before + answers(first);
            assert(log =~= spent + more);
            lemma_willing_run(invocations.drop_first(), dir, spent, i - first.len());
            if i < all.len() {
                assert(all[i] == later[i - first.len()]);
            }
        }
    } else {
        assert(log =~= before);
    }
}

/// The order of the invocations on a willing machine. Installing a recipe
/// asks for exactly the operations of its plan, one after the other:
/// with the answers to the first `i` operations reported, operation `i` is
/// pending, and with the answers to all of them the installation is
/// complete.
pub proof fn lemma_willing_installation(recipe: RecipeView, dir: Seq<char>, i: int)
    requires
        0 <= i <= operations(plan(recipe), dir).len(),
    ensures
        installation(recipe, dir, answers(operations(plan(recipe), dir)).take(i)) == if i
            < operations(plan(recipe), dir).len() {
            ProgressView::Pending(operations(plan(recipe), dir)[i])
        } else {
            ProgressView::Completed(operations(plan(recipe), dir).len())
        },
{
    let told = answers(operations(plan(recipe), dir)).take(i);
    lemma_willing_run(plan(recipe), dir, Seq::empty(), i);
    assert(Seq::<OutcomeView>::empty() + told =~= told);
}


/// Whether the outcome reports that the operation failed. A command fails
/// when it cannot be started or exits without success, a filesystem
/// operation when its outcome says so; the question whether a path is a
/// directory has no failing answer.
pub open spec fn breaks(operation: OperationView, outcome: OutcomeView) -> bool {
    match operation {
        OperationView::Run(_) => !(verdict(outcome) is Passed),
        OperationView::IsDir(_) => false,
        _ => failure(outcome) is Some,
    }
}

/// An invocation fails with the first of its operations that fails.
proof fn lemma_broken_invocation(
    invocation: Invocation,
    dir: Seq<char>,
    i: int,
    bad: OutcomeView,
    more: Seq<OutcomeView>,
)
    requires
        0 <= i < operations_of(invocation, dir).len(),
        breaks(operations_of(invocation, dir)[i], bad),
    ensures
        invocation_progress(
            invocation,
            dir,
            answers(operations_of(invocation, dir)).take(i).push(bad) + more,
        ) is Failed,
{
    let asked = operations_of(invocation, dir);
    let told = answers(asked);
    let log = told.take(i).push(bad) + more;
    if i == 0 {
        assert(log[0] == bad);
    } else {
        assert(asked.len() == 3);
        assert(log[0] == told[0]);
        if i == 1 {
            assert(log[1] == bad);
        } else {
            assert(log[1] == told[1]);
            assert(log[2] == bad);
        }
    }
}

/// A list of invocations fails with the first operation that fails.
proof fn lemma_broken_run(
    invocations: Seq<Invocation>,
    dir: Seq<char>,
    before: Seq<OutcomeView>,
    i: int,
    bad: OutcomeView,
    more: Seq<OutcomeView>,
)
    requires
        0 <= i < operations(invocations, dir).len(),
        breaks(operations(invocations, dir)[i], bad),
    ensures
        run(
            invocations,
            dir,
            before + answers(operations(invocations, dir)).take(i).push(bad) + more,
            before.len(),
        ) is Failed,
    decreases invocations.len(),
{
    let all = operations(invocations, dir);
    let log = before + answers(all).take(i).push(bad) + more;
    let first = operations_of(invocations[0], dir);
    let later = operations(invocations.drop_first(), dir);
    let own = log.skip(before.len() as int);
    assert(own =~= answers(all).take(i).push(bad) + more);
    if i < first.len() {
        assert(all[i] == first[i]);
        assert(answers(all).take(i) =~= answers(first).take(i));
        lemma_broken_invocation(invocations[0], dir, i, bad, more);
    } else {
        let j = i - first.len();
        assert(all[i] == later[j]);
        let tail = answers(later).take(j).push(bad) + more;
        lemma_willing_invocation(invocations[0], dir, 0, tail);
        assert(own =~= answers(first) + tail);
        let spent = before + answers(first);
        assert(log =~= spent + answers(later).take(j).push(bad) + more);
        lemma_broken_run(invocations.drop_first(), dir, spent, j, bad, more);
    }
}

/// The first failure ends the installation. Where every operation before
/// operation `i` of the plan is answered by a willing machine and the
/// outcome of operation `i` reports a failure, the installation has failed,
/// whatever is reported afterwards: no later operation is ever asked for.
pub proof fn lemma_first_failure_ends_installation(
    recipe: RecipeView,
    dir: Seq<char>,
    i: int,
    bad: OutcomeView,
    more: Seq<OutcomeView>,
)
    requires
        0 <= i < operations(plan(recipe), dir).len(),
        breaks(operations(plan(recipe), dir)[i], bad),
    ensures
        installation(
            recipe,
            dir,
            answers(operations(plan(recipe), dir)).take(i).push(bad) + more,
        ) is Failed,
        installation(recipe, dir, answers(operations(plan(recipe), dir)).take(i).push(bad) + more)
            == installation(recipe, dir, answers(operations(plan(recipe), dir)).take(i).push(bad)),
{
    let told = answers(operations(plan(recipe), dir)).take(i).push(bad);
    lemma_broken_run(plan(recipe), dir, Seq::empty(), i, bad, more);
    lemma_broken_run(plan(recipe), dir, Seq::empty(), i, bad, Seq::empty());
    assert(Seq::<OutcomeView>::empty() + told + more =~= told + more);
    assert(Seq::<OutcomeView>::empty() + told + Seq::<OutcomeView>::empty() =~= told);
    lemma_settled_is_final(plan(recipe), dir, told, more, 0);
}

} // verus!
