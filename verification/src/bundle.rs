//! Installing a recipe: the order of the invocations, the interpreter of the
//! postinstall steps and the errors that end an installation.
//!
//! An installation is replayed from its history. Each function takes the
//! outcomes that the machine has reported so far and says how far they
//! carry: an operation is pending, the work has failed, or it is complete.

use vstd::prelude::*;
use vstd::string::*;
use crate::host::{
    affirmed, failure, verdict, Command, CommandView, Operation, OperationView, Outcome,
    OutcomeView, Verdict, VerdictView,
};
use crate::recipe::{FormulaView, Postinstall, Recipe, RecipeView, StepView};
use crate::text::{resolve, resolved};

verus! {

/// Why an installation ended early.
#[derive(Debug, Clone, PartialEq, Eq)]
pub enum InstallError {
    /// `brew` refused to add a tap.
    Tap { name: String, reason: String },
    /// `brew` refused to install a formula.
    Formula { name: String, reason: String },
    /// `brew` refused to install a cask.
    Cask { name: String, reason: String },
    /// A program could not be started, or a `fish` command line failed.
    CommandFailed { cmd: String, reason: String },
    /// A directory could not be created.
    CreateDir { dir: String, reason: String },
    /// A file could not be copied.
    Copy { src: String, dst: String, reason: String },
    /// A download failed.
    Download { url: String, dst: String, reason: String },
    /// A file could not be opened or written.
    ReadWrite { path: String, reason: String },
}

/// What an installation error is, as mathematics.
pub enum InstallErrorView {
    Tap { name: Seq<char>, reason: Seq<char> },
    Formula { name: Seq<char>, reason: Seq<char> },
    Cask { name: Seq<char>, reason: Seq<char> },
    CommandFailed { cmd: Seq<char>, reason: Seq<char> },
    CreateDir { dir: Seq<char>, reason: Seq<char> },
    Copy { src: Seq<char>, dst: Seq<char>, reason: Seq<char> },
    Download { url: Seq<char>, dst: Seq<char>, reason: Seq<char> },
    ReadWrite { path: Seq<char>, reason: Seq<char> },
}

/// How far a piece of work has come on the outcomes reported so far.
#[derive(Debug, Clone, PartialEq, Eq)]
pub enum Progress {
    /// The operation is to be performed next, and its outcome appended to
    /// the history.
    Pending(Operation),
    /// The work has failed; nothing more is to be done.
    Failed(InstallError),
    /// The work is complete, and it took this many outcomes.
    Completed(usize),
}

/// What a progress report is, as mathematics.
pub enum ProgressView {
    Pending(OperationView),
    Failed(InstallErrorView),
    Completed(nat),
}

impl View for InstallError {
    type V = InstallErrorView;

    open spec fn view(&self) -> InstallErrorView {
        match *self {
            InstallError::Tap { name, reason } => InstallErrorView::Tap {
                name: name@,
                reason: reason@,
            },
            InstallError::Formula { name, reason } => InstallErrorView::Formula {
                name: name@,
                reason: reason@,
            },
            InstallError::Cask { name, reason } => InstallErrorView::Cask {
                name: name@,
                reason: reason@,
            },
            InstallError::CommandFailed { cmd, reason } => InstallErrorView::CommandFailed {
                cmd: cmd@,
                reason: reason@,
            },
            InstallError::CreateDir { dir, reason } => InstallErrorView::CreateDir {
                dir: dir@,
                reason: reason@,
            },
            InstallError::Copy { src, dst, reason } => InstallErrorView::Copy {
                src: src@,
                dst: dst@,
                reason: reason@,
            },
            InstallError::Download { url, dst, reason } => InstallErrorView::Download {
                url: url@,
                dst: dst@,
                reason: reason@,
            },
            InstallError::ReadWrite { path, reason } => InstallErrorView::ReadWrite {
                path: path@,
                reason: reason@,
            },
        }
    }
}

impl View for Progress {
    type V = ProgressView;

    open spec fn view(&self) -> ProgressView {
        match *self {
            Progress::Pending(operation) => ProgressView::Pending(operation@),
            Progress::Failed(error) => ProgressView::Failed(error@),
            Progress::Completed(used) => ProgressView::Completed(used as nat),
        }
    }
}

/// The message of an installation error, as its users read it.
pub open spec fn error_message(error: InstallErrorView) -> Seq<char> {
    match error {
        InstallErrorView::Tap { name, reason } => "cannot install tap '"@ + name + "': "@ + reason,
        InstallErrorView::Formula { name, reason } => "cannot install formula '"@ + name + "': "@
            + reason,
        InstallErrorView::Cask { name, reason } => "cannot install cask '"@ + name + "': "@
            + reason,
        InstallErrorView::CommandFailed { cmd, reason } => "command '"@ + cmd + "' failed: "@
            + reason,
        InstallErrorView::CreateDir { dir, reason } => "cannot create dir '"@ + dir + "': "@
            + reason,
        InstallErrorView::Copy { src, dst, reason } => "cannot copy '"@ + src + "' to '"@ + dst
            + "': "@ + reason,
        InstallErrorView::Download { url, dst, reason } => "cannot download '"@ + url + "' to '"@
            + dst + "': "@ + reason,
        InstallErrorView::ReadWrite { path, reason } => "cannot read from or write to '"@ + path
            + "': "@ + reason,
    }
}

/// `open`, then `first`, then `middle`, then `second`.
fn framed(open: &str, first: &str, middle: &str, second: &str) -> (text: String)
    ensures
        text@ == open@ + first@ + middle@ + second@,
{
    let mut text = open.to_owned();
    text.append(first);
    text.append(middle);
    text.append(second);
    text
}

impl InstallError {
    /// The message of the error: what could not be done, and the reason
    /// that the tool or the system gave.
    pub fn to_string(&self) -> (text: String)
        ensures
            text@ == error_message(self@),
    {
        match self {
            InstallError::Tap { name, reason } => framed(
                "cannot install tap '",
                name.as_str(),
                "': ",
                reason.as_str(),
            ),
            InstallError::Formula { name, reason } => framed(
                "cannot install formula '",
                name.as_str(),
                "': ",
                reason.as_str(),
            ),
            InstallError::Cask { name, reason } => framed(
                "cannot install cask '",
                name.as_str(),
                "': ",
                reason.as_str(),
            ),
            InstallError::CommandFailed { cmd, reason } => framed(
                "command '",
                cmd.as_str(),
                "' failed: ",
                reason.as_str(),
            ),
            InstallError::CreateDir { dir, reason } => framed(
                "cannot create dir '",
                dir.as_str(),
                "': ",
                reason.as_str(),
            ),
            InstallError::Copy { src, dst, reason } => {
                let mut text = framed("cannot copy '", src.as_str(), "' to '", dst.as_str());
                text.append("': ");
                text.append(reason.as_str());
                text
            },
            InstallError::Download { url, dst, reason } => {
                let mut text = framed("cannot download '", url.as_str(), "' to '", dst.as_str());
                text.append("': ");
                text.append(reason.as_str());
                text
            },
            InstallError::ReadWrite { path, reason } => framed(
                "cannot read from or write to '",
                path.as_str(),
                "': ",
                reason.as_str(),
            ),
        }
    }
}

impl Progress {
    /// The verdict of work that has ended: `None` while an operation is
    /// pending.
    pub fn result(self) -> (verdict: Option<Result<(), InstallError>>)
        ensures
            self is Pending <==> verdict is None,
            self matches Progress::Failed(error) ==> verdict == Some(
                Err::<(), InstallError>(error),
            ),
            self is Completed ==> verdict == Some(Ok::<(), InstallError>(())),
    {
        match self {
            Progress::Pending(_) => None,
            Progress::Failed(error) => Some(Err(error)),
            Progress::Completed(_) => Some(Ok(())),
        }
    }
}

// ---------------------------------------------------------------------------
// The commands
// ---------------------------------------------------------------------------

/// `brew tap <tap>`.
pub open spec fn tap_command_view(tap: Seq<char>) -> CommandView {
    CommandView { program: "brew"@, args: seq!["tap"@, tap] }
}

/// `brew install <formula>`.
pub open spec fn formula_command_view(formula: Seq<char>) -> CommandView {
    CommandView { program: "brew"@, args: seq!["install"@, formula] }
}

/// `brew install --cask <cask>`.
pub open spec fn cask_command_view(cask: Seq<char>) -> CommandView {
    CommandView { program: "brew"@, args: seq!["install"@, "--cask"@, cask] }
}

/// `curl -fsSLo <dst> --create-dirs <url>`: silent but for errors, failing
/// on an HTTP error status, following redirects, writing to `dst` and
/// creating its missing parent directories.
pub open spec fn download_command_view(url: Seq<char>, dst: Seq<char>) -> CommandView {
    CommandView { program: "curl"@, args: seq!["-fsSLo"@, dst, "--create-dirs"@, url] }
}

/// `fish -c <cmd>`.
pub open spec fn fish_command_view(cmd: Seq<char>) -> CommandView {
    CommandView { program: "fish"@, args: seq!["-c"@, cmd] }
}

/// The command that adds a tap.
pub fn tap_command(tap: &str) -> (command: Command)
    ensures
        command@ == tap_command_view(tap@),
{
    let mut args: Vec<String> = Vec::new();
    args.push("tap".to_owned());
    args.push(tap.to_owned());
    assert(args.deep_view() =~= seq!["tap"@, tap@]);
    Command { program: "brew".to_owned(), args }
}

/// The command that installs a formula.
pub fn formula_command(formula: &str) -> (command: Command)
    ensures
        command@ == formula_command_view(formula@),
{
    let mut args: Vec<String> = Vec::new();
    args.push("install".to_owned());
    args.push(formula.to_owned());
    assert(args.deep_view() =~= seq!["install"@, formula@]);
    Command { program: "brew".to_owned(), args }
}

/// The command that installs a cask.
pub fn cask_command(cask: &str) -> (command: Command)
    ensures
        command@ == cask_command_view(cask@),
{
    let mut args: Vec<String> = Vec::new();
    args.push("install".to_owned());
    args.push("--cask".to_owned());
    args.push(cask.to_owned());
    assert(args.deep_view() =~= seq!["install"@, "--cask"@, cask@]);
    Command { program: "brew".to_owned(), args }
}

/// The command that downloads `url` to `dst`.
pub fn download_command(url: &str, dst: &str) -> (command: Command)
    ensures
        command@ == download_command_view(url@, dst@),
{
    let mut args: Vec<String> = Vec::new();
    args.push("-fsSLo".to_owned());
    args.push(dst.to_owned());
    args.push("--create-dirs".to_owned());
    args.push(url.to_owned());
    assert(args.deep_view() =~= seq!["-fsSLo"@, dst@, "--create-dirs"@, url@]);
    Command { program: "curl".to_owned(), args }
}

/// The command that runs a command line with `fish`.
pub fn fish_command(cmd: &str) -> (command: Command)
    ensures
        command@ == fish_command_view(cmd@),
{
    let mut args: Vec<String> = Vec::new();
    args.push("-c".to_owned());
    args.push(cmd.to_owned());
    assert(args.deep_view() =~= seq!["-c"@, cmd@]);
    Command { program: "fish".to_owned(), args }
}

// ---------------------------------------------------------------------------
// One invocation
// ---------------------------------------------------------------------------

/// Progress of a piece of work that consists of running one command: the
/// command is pending until its outcome is reported; then `not_started` ends
/// the work if the process never ran, `refused` if it ran and failed.
pub open spec fn command_progress(
    command: CommandView,
    log: Seq<OutcomeView>,
    not_started: spec_fn(Seq<char>) -> InstallErrorView,
    refused: spec_fn(Seq<char>) -> InstallErrorView,
) -> ProgressView {
    if log.len() == 0 {
        ProgressView::Pending(OperationView::Run(command))
    } else {
        match verdict(log[0]) {
            VerdictView::Passed => ProgressView::Completed(1),
            VerdictView::NotStarted(reason) => ProgressView::Failed(not_started(reason)),
            VerdictView::Refused(reason) => ProgressView::Failed(refused(reason)),
        }
    }
}

/// Progress of adding a tap.
pub open spec fn tap_progress(tap: Seq<char>, log: Seq<OutcomeView>) -> ProgressView {
    command_progress(
        tap_command_view(tap),
        log,
        |reason: Seq<char>| InstallErrorView::CommandFailed { cmd: "brew tap"@, reason },
        |reason: Seq<char>| InstallErrorView::Tap { name: tap, reason },
    )
}

/// Progress of installing a formula, its postinstall steps apart.
pub open spec fn formula_progress(formula: Seq<char>, log: Seq<OutcomeView>) -> ProgressView {
    command_progress(
        formula_command_view(formula),
        log,
        |reason: Seq<char>| InstallErrorView::CommandFailed { cmd: "brew install"@, reason },
        |reason: Seq<char>| InstallErrorView::Formula { name: formula, reason },
    )
}

/// Progress of installing a cask.
pub open spec fn cask_progress(cask: Seq<char>, log: Seq<OutcomeView>) -> ProgressView {
    command_progress(
        cask_command_view(cask),
        log,
        |reason: Seq<char>| InstallErrorView::CommandFailed { cmd: "brew install --cask"@, reason },
        |reason: Seq<char>| InstallErrorView::Cask { name: cask, reason },
    )
}

/// Progress of a filesystem operation that is the last of its step: pending
/// until the outcome at `at` is reported, then failed or complete.
pub open spec fn last_operation_progress(
    operation: OperationView,
    log: Seq<OutcomeView>,
    at: nat,
    failed: spec_fn(Seq<char>) -> InstallErrorView,
) -> ProgressView {
    if log.len() <= at {
        ProgressView::Pending(operation)
    } else {
        match failure(log[at as int]) {
            Some(reason) => ProgressView::Failed(failed(reason)),
            None => ProgressView::Completed(at + 1),
        }
    }
}

/// Progress of a copy step. The destination is created, with its missing
/// parents, unless it is an existing directory; then the file at `src`,
/// resolved against `dir`, is copied to it.
pub open spec fn copy_progress(
    src: Seq<char>,
    dst: Seq<char>,
    dir: Seq<char>,
    log: Seq<OutcomeView>,
) -> ProgressView {
    let from = resolved(dir, src);
    let copy = OperationView::Copy { from, to: dst };
    let copy_failed = |reason: Seq<char>| InstallErrorView::Copy { src: from, dst, reason };
    if log.len() == 0 {
        ProgressView::Pending(OperationView::IsDir(dst))
    } else if affirmed(log[0]) {
        last_operation_progress(copy, log, 1, copy_failed)
    } else if log.len() == 1 {
        ProgressView::Pending(OperationView::CreateDirAll(dst))
    } else {
        match failure(log[1]) {
            Some(reason) => ProgressView::Failed(InstallErrorView::CreateDir { dir: dst, reason }),
            None => last_operation_progress(copy, log, 2, copy_failed),
        }
    }
}

/// The text that an append step writes: the line and its newline.
pub open spec fn appended_line(text: Seq<char>) -> Seq<char> {
    text + seq!['\n']
}

/// Progress of one postinstall step in the recipe directory `dir`.
pub open spec fn step_progress(
    step: StepView,
    dir: Seq<char>,
    log: Seq<OutcomeView>,
) -> ProgressView {
    match step {
        StepView::Cp(src, dst) => copy_progress(src, dst, dir, log),
        StepView::Dl(url, dst) => command_progress(
            download_command_view(url, dst),
            log,
            |reason: Seq<char>| InstallErrorView::CommandFailed { cmd: "curl"@, reason },
            |reason: Seq<char>| InstallErrorView::Download { url, dst, reason },
        ),
        StepView::Echo(text, dst) => last_operation_progress(
            OperationView::Append { path: dst, text: appended_line(text) },
            log,
            0,
            |reason: Seq<char>| InstallErrorView::ReadWrite { path: dst, reason },
        ),
        StepView::Fish(cmd) => command_progress(
            fish_command_view(cmd),
            log,
            |reason: Seq<char>| InstallErrorView::CommandFailed { cmd: "fish"@, reason },
            |reason: Seq<char>| InstallErrorView::CommandFailed { cmd, reason },
        ),
    }
}

/// Runs `brew tap`: asks for the command, then judges its outcome.
pub fn install_tap(tap: &str, outcomes: &[Outcome]) -> (progress: Progress)
    ensures
        progress@ == tap_progress(tap@, outcomes.deep_view()),
{
    if outcomes.len() == 0 {
        return Progress::Pending(Operation::Run(tap_command(tap)));
    }
    match outcomes[0].verdict() {
        Verdict::Passed => Progress::Completed(1),
        Verdict::NotStarted(reason) => Progress::Failed(
            InstallError::CommandFailed { cmd: "brew tap".to_owned(), reason },
        ),
        Verdict::Refused(reason) => Progress::Failed(
            InstallError::Tap { name: tap.to_owned(), reason },
        ),
    }
}

/// Runs `brew install`: asks for the command, then judges its outcome.
pub fn install_formula(formula: &str, outcomes: &[Outcome]) -> (progress: Progress)
    ensures
        progress@ == formula_progress(formula@, outcomes.deep_view()),
{
    if outcomes.len() == 0 {
        return Progress::Pending(Operation::Run(formula_command(formula)));
    }
    match outcomes[0].verdict() {
        Verdict::Passed => Progress::Completed(1),
        Verdict::NotStarted(reason) => Progress::Failed(
            InstallError::CommandFailed { cmd: "brew install".to_owned(), reason },
        ),
        Verdict::Refused(reason) => Progress::Failed(
            InstallError::Formula { name: formula.to_owned(), reason },
        ),
    }
}

/// Runs `brew install --cask`: asks for the command, then judges its outcome.
pub fn install_cask(cask: &str, outcomes: &[Outcome]) -> (progress: Progress)
    ensures
        progress@ == cask_progress(cask@, outcomes.deep_view()),
{
    if outcomes.len() == 0 {
        return Progress::Pending(Operation::Run(cask_command(cask)));
    }
    match outcomes[0].verdict() {
        Verdict::Passed => Progress::Completed(1),
        Verdict::NotStarted(reason) => Progress::Failed(
            InstallError::CommandFailed { cmd: "brew install --cask".to_owned(), reason },
        ),
        Verdict::Refused(reason) => Progress::Failed(
            InstallError::Cask { name: cask.to_owned(), reason },
        ),
    }
}

/// The line that an append step writes.
fn line_of(text: &str) -> (line: String)
    ensures
        line@ == appended_line(text@),
{
    let mut line = text.to_owned();
    proof {
        reveal_strlit("\n");
    }
    line.append("\n");
    assert("\n"@ =~= seq!['\n']);
    line
}

/// Carries out the copy step: see [`copy_progress`].
fn copy_step(src: &str, dst: &str, dir: &str, outcomes: &[Outcome]) -> (progress: Progress)
    ensures
        progress@ == copy_progress(src@, dst@, dir@, outcomes.deep_view()),
{
    let n = outcomes.len();
    if n == 0 {
        return Progress::Pending(Operation::IsDir(dst.to_owned()));
    }
    let at: usize = if outcomes[0].affirmed() {
        1
    } else {
        if n == 1 {
            return Progress::Pending(Operation::CreateDirAll(dst.to_owned()));
        }
        match outcomes[1].failure() {
            Some(reason) => {
                return Progress::Failed(InstallError::CreateDir { dir: dst.to_owned(), reason });
            },
            None => {},
        }
        2
    };
    let from = resolve(dir, src);
    if n <= at {
        return Progress::Pending(Operation::Copy { from, to: dst.to_owned() });
    }
    match outcomes[at].failure() {
        Some(reason) => Progress::Failed(InstallError::Copy { src: from, dst: dst.to_owned(), reason }),
        None => Progress::Completed(at + 1),
    }
}

/// Carries out the specified postinstall step in the recipe directory
/// `postinstall_dir`, as far as the outcomes reported so far allow.
///
/// - `Cp` asks whether the destination is a directory, creates it with its
///   missing parents if it is not, and copies the source, resolved against
///   `postinstall_dir`, to it.
/// - `Dl` runs `curl`, which creates the destination's missing parents.
/// - `Echo` appends the text and a newline to the destination, which must
///   exist.
/// - `Fish` runs the command line with `fish -c`.
pub fn run_postinstall_step(
    step: &Postinstall,
    postinstall_dir: &str,
    outcomes: &[Outcome],
) -> (progress: Progress)
    ensures
        progress@ == step_progress(step@, postinstall_dir@, outcomes.deep_view()),
{
    match step {
        Postinstall::Cp(src, dst) => copy_step(
            src.as_str(),
            dst.as_str(),
            postinstall_dir,
            outcomes,
        ),
        Postinstall::Dl(url, to) => {
            if outcomes.len() == 0 {
                return Progress::Pending(
                    Operation::Run(download_command(url.as_str(), to.as_str())),
                );
            }
            match outcomes[0].verdict() {
                Verdict::Passed => Progress::Completed(1),
                Verdict::NotStarted(reason) => Progress::Failed(
                    InstallError::CommandFailed { cmd: "curl".to_owned(), reason },
                ),
                Verdict::Refused(reason) => Progress::Failed(
                    InstallError::Download {
                        url: url.clone(),
                        dst: to.as_str().to_owned(),
                        reason,
                    },
                ),
            }
        },
        Postinstall::Echo(string, to) => {
            if outcomes.len() == 0 {
                return Progress::Pending(
                    Operation::Append {
                        path: to.as_str().to_owned(),
                        text: line_of(string.as_str()),
                    },
                );
            }
            match outcomes[0].failure() {
                Some(reason) => Progress::Failed(
                    InstallError::ReadWrite { path: to.as_str().to_owned(), reason },
                ),
                None => Progress::Completed(1),
            }
        },
        Postinstall::Fish(cmd) => {
            if outcomes.len() == 0 {
                return Progress::Pending(Operation::Run(fish_command(cmd.as_str())));
            }
            match outcomes[0].verdict() {
                Verdict::Passed => Progress::Completed(1),
                Verdict::NotStarted(reason) => Progress::Failed(
                    InstallError::CommandFailed { cmd: "fish".to_owned(), reason },
                ),
                Verdict::Refused(reason) => Progress::Failed(
                    InstallError::CommandFailed { cmd: cmd.clone(), reason },
                ),
            }
        },
    }
}

// ---------------------------------------------------------------------------
// The whole recipe
// ---------------------------------------------------------------------------

/// One entry of the installation plan.
pub enum Invocation {
    /// Add the tap.
    Tap(Seq<char>),
    /// Install the formula.
    Formula(Seq<char>),
    /// Carry out the postinstall step.
    Step(StepView),
    /// Install the cask.
    Cask(Seq<char>),
}

/// The invocations that one formula stands for: its installation, then its
/// postinstall steps in the order declared.
pub open spec fn formula_plan(formula: FormulaView) -> Seq<Invocation> {
    seq![Invocation::Formula(formula.name)] + formula.postinstall_steps.map_values(
        |step: StepView| Invocation::Step(step),
    )
}

/// The invocations that the formulas stand for, formula after formula.
pub open spec fn formulas_plan(formulas: Seq<FormulaView>) -> Seq<Invocation>
    decreases formulas.len(),
{
    if formulas.len() == 0 {
        Seq::empty()
    } else {
        formula_plan(formulas[0]) + formulas_plan(formulas.drop_first())
    }
}

/// The invocations that add the taps, in the order declared.
pub open spec fn taps_plan(taps: Seq<Seq<char>>) -> Seq<Invocation> {
    taps.map_values(|tap: Seq<char>| Invocation::Tap(tap))
}

/// The invocations that install the casks, in the order declared.
pub open spec fn casks_plan(casks: Seq<Seq<char>>) -> Seq<Invocation> {
    casks.map_values(|cask: Seq<char>| Invocation::Cask(cask))
}

/// The installation plan of a recipe: every tap, then every formula, each
/// followed by its postinstall steps, then every cask.
pub open spec fn plan(recipe: RecipeView) -> Seq<Invocation> {
    taps_plan(recipe.taps) + formulas_plan(recipe.formulas) + casks_plan(recipe.casks)
}

/// Progress of one invocation on the outcomes that belong to it.
pub open spec fn invocation_progress(
    invocation: Invocation,
    dir: Seq<char>,
    log: Seq<OutcomeView>,
) -> ProgressView {
    match invocation {
        Invocation::Tap(tap) => tap_progress(tap, log),
        Invocation::Formula(formula) => formula_progress(formula, log),
        Invocation::Step(step) => step_progress(step, dir, log),
        Invocation::Cask(cask) => cask_progress(cask, log),
    }
}

/// Progress of a list of invocations when the first `used` outcomes of `log`
/// are already spent: the invocations are taken strictly in order, each on
/// the outcomes that follow those of its predecessors, and the first one
/// that is pending or has failed decides.
pub open spec fn run(
    invocations: Seq<Invocation>,
    dir: Seq<char>,
    log: Seq<OutcomeView>,
    used: nat,
) -> ProgressView
    decreases invocations.len(),
{
    if invocations.len() == 0 {
        ProgressView::Completed(used)
    } else {
        match invocation_progress(invocations[0], dir, log.skip(used as int)) {
            ProgressView::Completed(n) => run(invocations.drop_first(), dir, log, used + n),
            other => other,
        }
    }
}

/// Progress of the installation of `recipe`, kept in the directory `dir`, on
/// the outcomes reported so far.
pub open spec fn installation(
    recipe: RecipeView,
    dir: Seq<char>,
    log: Seq<OutcomeView>,
) -> ProgressView {
    run(plan(recipe), dir, log, 0)
}

/// The outcomes from position `used` on.
fn rest(outcomes: &[Outcome], used: usize) -> (tail: &[Outcome])
    requires
        used <= outcomes@.len(),
    ensures
        tail.deep_view() == outcomes.deep_view().skip(used as int),
{
    let tail = &outcomes[used..outcomes.len()];
    assert(tail.deep_view() =~= outcomes.deep_view().skip(used as int));
    tail
}

/// Installs the recipe bundle kept in `recipe_dir`, as far as the outcomes
/// reported so far allow.
///
/// The caller starts with no outcomes. While the answer is
/// [`Progress::Pending`], it performs the operation, appends the outcome
/// and asks again. [`Progress::Failed`] carries the error of the first
/// invocation that failed; [`Progress::Completed`] says that every
/// invocation of the plan succeeded.
pub fn install(recipe_dir: &str, recipe: &Recipe, outcomes: &[Outcome]) -> (progress: Progress)
    ensures
        progress@ == installation(recipe@, recipe_dir@, outcomes.deep_view()),
{
    let ghost dir = recipe_dir@;
    let ghost log = outcomes.deep_view();
    let ghost taps = taps_plan(recipe@.taps);
    let ghost formulas = recipe@.formulas;
    let ghost casks = casks_plan(recipe@.casks);
    let ghost goal = installation(recipe@, dir, log);
    let mut used: usize = 0;

    let mut t: usize = 0;
    assert(taps.skip(0) =~= taps);
    while t < recipe.taps.len()
        invariant
            dir == recipe_dir@,
            log == outcomes.deep_view(),
            taps == taps_plan(recipe@.taps),
            formulas == recipe@.formulas,
            casks == casks_plan(recipe@.casks),
            t <= recipe.taps.len(),
            used <= outcomes.len(),
            goal == installation(recipe@, recipe_dir@, outcomes.deep_view()),
            goal == run(taps.skip(t as int) + formulas_plan(formulas) + casks, dir, log, used as nat),
        decreases recipe.taps.len() - t,
    {
        let ghost ahead = taps.skip(t as int) + formulas_plan(formulas) + casks;
        assert(ahead[0] == Invocation::Tap(recipe.taps@[t as int]@));
        assert(ahead.drop_first() =~= taps.skip(t + 1) + formulas_plan(formulas) + casks);
        match install_tap(recipe.taps[t].as_str(), rest(outcomes, used)) {
            Progress::Completed(n) => {
                used = used + n;
            },
            other => {
                return other;
            },
        }
        t = t + 1;
    }
    assert(taps.skip(t as int) + formulas_plan(formulas) + casks =~= formulas_plan(formulas) + casks);

    let mut f: usize = 0;
    assert(formulas.skip(0) =~= formulas);
    while f < recipe.formulas.len()
        invariant
            dir == recipe_dir@,
            log == outcomes.deep_view(),
            formulas == recipe@.formulas,
            casks == casks_plan(recipe@.casks),
            f <= recipe.formulas.len(),
            used <= outcomes.len(),
            goal == installation(recipe@, recipe_dir@, outcomes.deep_view()),
            goal == run(formulas_plan(formulas.skip(f as int)) + casks, dir, log, used as nat),
        decreases recipe.formulas.len() - f,
    {
        let formula = &recipe.formulas[f];
        let ghost steps = formula@.postinstall_steps.map_values(
            |step: StepView| Invocation::Step(step),
        );
        let ghost later = formulas_plan(formulas.skip(f + 1)) + casks;
        let ghost ahead = formulas_plan(formulas.skip(f as int)) + casks;
        assert(formulas.skip(f as int)[0] == formula@);
        assert(formulas.skip(f as int).drop_first() =~= formulas.skip(f + 1));
        assert(ahead[0] == Invocation::Formula(formula@.name));
        assert(ahead.drop_first() =~= steps + later);
        match install_formula(formula.name.as_str(), rest(outcomes, used)) {
            Progress::Completed(n) => {
                used = used + n;
            },
            other => {
                return other;
            },
        }

        let mut s: usize = 0;
        assert(steps.skip(0) =~= steps);
        while s < formula.postinstall_steps.len()
            invariant
                dir == recipe_dir@,
                log == outcomes.deep_view(),
                steps == formula@.postinstall_steps.map_values(
                    |step: StepView| Invocation::Step(step),
                ),
                s <= formula.postinstall_steps.len(),
                used <= outcomes.len(),
                goal == installation(recipe@, recipe_dir@, outcomes.deep_view()),
                goal == run(steps.skip(s as int) + later, dir, log, used as nat),
            decreases formula.postinstall_steps.len() - s,
        {
            let ghost ahead = steps.skip(s as int) + later;
            assert(ahead[0] == Invocation::Step(formula.postinstall_steps@[s as int]@));
            assert(ahead.drop_first() =~= steps.skip(s + 1) + later);
            match run_postinstall_step(
                &formula.postinstall_steps[s],
                recipe_dir,
                rest(outcomes, used),
            ) {
                Progress::Completed(n) => {
                    used = used + n;
                },
                other => {
                    return other;
                },
            }
            s = s + 1;
        }
        assert(steps.skip(s as int) + later =~= later);
        f = f + 1;
    }
    assert(formulas.skip(f as int) =~= Seq::<FormulaView>::empty());
    assert(formulas_plan(formulas.skip(f as int)) + casks =~= casks);

    let mut c: usize = 0;
    assert(casks.skip(0) =~= casks);
    while c < recipe.casks.len()
        invariant
            dir == recipe_dir@,
            log == outcomes.deep_view(),
            casks == casks_plan(recipe@.casks),
            c <= recipe.casks.len(),
            used <= outcomes.len(),
            goal == installation(recipe@, recipe_dir@, outcomes.deep_view()),
            goal == run(casks.skip(c as int), dir, log, used as nat),
        decreases recipe.casks.len() - c,
    {
        let ghost ahead = casks.skip(c as int);
        assert(ahead[0] == Invocation::Cask(recipe.casks@[c as int]@));
        assert(ahead.drop_first() =~= casks.skip(c + 1));
        match install_cask(recipe.casks[c].as_str(), rest(outcomes, used)) {
            Progress::Completed(n) => {
                used = used + n;
            },
            other => {
                return other;
            },
        }
        c = c + 1;
    }
    Progress::Completed(used)
}

} // verus!
