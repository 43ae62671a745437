use drip::bundle::{
    cask_command, download_command, fish_command, formula_command, install, install_cask,
    install_formula, install_tap, run_postinstall_step, tap_command, InstallError, Progress,
};
use drip::host::{Command, Operation, Outcome, Verdict};
use drip::{ExpandedPath, Formula, Postinstall, Recipe};

fn path(text: &str) -> ExpandedPath {
    ExpandedPath::new(text).unwrap()
}

fn command(program: &str, args: &[&str]) -> Command {
    Command {
        program: program.to_string(),
        args: args.iter().map(|arg| arg.to_string()).collect(),
    }
}

fn run(program: &str, args: &[&str]) -> Operation {
    Operation::Run(command(program, args))
}

fn exited(success: bool, stderr: &str) -> Outcome {
    Outcome::Exited { success, stdout: vec![], stderr: stderr.as_bytes().to_vec() }
}

fn ok() -> Outcome {
    exited(true, "")
}

/// Installs `recipe` against a machine that answers each operation with
/// `answer`, and returns the operations asked for and the final progress.
fn drive(
    dir: &str,
    recipe: &Recipe,
    mut answer: impl FnMut(usize, &Operation) -> Outcome,
) -> (Vec<Operation>, Progress) {
    let mut asked = Vec::new();
    let mut outcomes = Vec::new();
    loop {
        match install(dir, recipe, &outcomes) {
            Progress::Pending(operation) => {
                outcomes.push(answer(asked.len(), &operation));
                asked.push(operation);
            }
            done => return (asked, done),
        }
    }
}

/// A machine on which every command succeeds and no directory exists yet.
fn willing(_: usize, operation: &Operation) -> Outcome {
    match operation {
        Operation::Run(_) => ok(),
        Operation::IsDir(_) => Outcome::Answer(false),
        _ => Outcome::Done,
    }
}

fn sample() -> Recipe {
    Recipe {
        taps: vec!["A".to_string(), "B".to_string()],
        casks: vec!["C1".to_string(), "C2".to_string()],
        formulas: vec![
            Formula {
                name: "F1".to_string(),
                postinstall_steps: vec![
                    Postinstall::Dl("https://example.org/x".to_string(), path("/opt/x/y")),
                    Postinstall::Echo("hello".to_string(), path("/etc/motd")),
                ],
            },
            Formula {
                name: "F2".to_string(),
                postinstall_steps: vec![
                    Postinstall::Fish("set -U fish_greeting".to_string()),
                    Postinstall::Cp(path("conf/a.toml"), path("/home/u/.config/a")),
                ],
            },
        ],
    }
}

fn sample_operations() -> Vec<Operation> {
    vec![
        run("brew", &["tap", "A"]),
        run("brew", &["tap", "B"]),
        run("brew", &["install", "F1"]),
        run("curl", &["-fsSLo", "/opt/x/y", "--create-dirs", "https://example.org/x"]),
        Operation::Append { path: "/etc/motd".to_string(), text: "hello\n".to_string() },
        run("brew", &["install", "F2"]),
        run("fish", &["-c", "set -U fish_greeting"]),
        Operation::IsDir("/home/u/.config/a".to_string()),
        Operation::CreateDirAll("/home/u/.config/a".to_string()),
        Operation::Copy {
            from: "/recipes/conf/a.toml".to_string(),
            to: "/home/u/.config/a".to_string(),
        },
        run("brew", &["install", "--cask", "C1"]),
        run("brew", &["install", "--cask", "C2"]),
    ]
}

#[test]
fn empty_recipe_needs_no_operation() {
    let recipe = Recipe { taps: vec![], casks: vec![], formulas: vec![] };
    assert_eq!(install("/recipes", &recipe, &[]), Progress::Completed(0));
    let (asked, done) = drive("/recipes", &recipe, willing);
    assert!(asked.is_empty());
    assert_eq!(done.result(), Some(Ok(())));
}

#[test]
fn empty_recipe_ignores_outcomes() {
    let recipe = Recipe { taps: vec![], casks: vec![], formulas: vec![] };
    assert_eq!(install("/recipes", &recipe, &[exited(false, "x")]), Progress::Completed(0));
}

#[test]
fn invocations_follow_the_plan() {
    let (asked, done) = drive("/recipes", &sample(), willing);
    assert_eq!(asked, sample_operations());
    assert_eq!(done, Progress::Completed(12));
    assert_eq!(done.result(), Some(Ok(())));
}

#[test]
fn formula_without_steps_is_one_invocation() {
    let recipe = Recipe {
        taps: vec![],
        casks: vec!["c".to_string()],
        formulas: vec![
            Formula { name: "f".to_string(), postinstall_steps: vec![] },
            Formula { name: "g".to_string(), postinstall_steps: vec![] },
        ],
    };
    let (asked, done) = drive("/r", &recipe, willing);
    assert_eq!(
        asked,
        vec![
            run("brew", &["install", "f"]),
            run("brew", &["install", "g"]),
            run("brew", &["install", "--cask", "c"]),
        ]
    );
    assert_eq!(done, Progress::Completed(3));
}

#[test]
fn failure_aborts_at_every_position() {
    let all = sample_operations();
    for k in 0..all.len() {
        if matches!(all[k], Operation::IsDir(_)) {
            continue;
        }
        let (asked, done) = drive("/recipes", &sample(), |at, operation| {
            if at == k {
                match operation {
                    Operation::Run(_) => exited(false, "refused"),
                    _ => Outcome::Failed("denied".to_string()),
                }
            } else {
                willing(at, operation)
            }
        });
        assert_eq!(asked, all[..=k].to_vec());
        assert!(matches!(done, Progress::Failed(_)), "position {}: {:?}", k, done);
    }
}

#[test]
fn failure_is_final() {
    let outcomes = vec![ok(), exited(false, "no such tap")];
    let failed = install("/recipes", &sample(), &outcomes);
    assert_eq!(
        failed,
        Progress::Failed(InstallError::Tap {
            name: "B".to_string(),
            reason: "no such tap".to_string(),
        })
    );
    let mut longer = outcomes.clone();
    longer.push(ok());
    longer.push(Outcome::Done);
    assert_eq!(install("/recipes", &sample(), &longer), failed);
}

#[test]
fn completion_is_final() {
    let recipe = Recipe { taps: vec!["t".to_string()], casks: vec![], formulas: vec![] };
    assert_eq!(install("/r", &recipe, &[ok()]), Progress::Completed(1));
    assert_eq!(install("/r", &recipe, &[ok(), exited(false, "late")]), Progress::Completed(1));
}

#[test]
fn tap_errors() {
    assert_eq!(install_tap("a/b", &[]), Progress::Pending(run("brew", &["tap", "a/b"])));
    assert_eq!(install_tap("a/b", &[ok()]), Progress::Completed(1));
    assert_eq!(
        install_tap("a/b", &[exited(false, "Error: invalid tap\n")]),
        Progress::Failed(InstallError::Tap {
            name: "a/b".to_string(),
            reason: "Error: invalid tap\n".to_string(),
        })
    );
    assert_eq!(
        install_tap("a/b", &[Outcome::Failed("No such file or directory".to_string())]),
        Progress::Failed(InstallError::CommandFailed {
            cmd: "brew tap".to_string(),
            reason: "No such file or directory".to_string(),
        })
    );
}

#[test]
fn formula_errors() {
    assert_eq!(install_formula("jq", &[]), Progress::Pending(run("brew", &["install", "jq"])));
    assert_eq!(install_formula("jq", &[ok()]), Progress::Completed(1));
    assert_eq!(
        install_formula("jq", &[exited(false, "boom")]),
        Progress::Failed(InstallError::Formula {
            name: "jq".to_string(),
            reason: "boom".to_string(),
        })
    );
    assert_eq!(
        install_formula("jq", &[Outcome::Failed("not found".to_string())]),
        Progress::Failed(InstallError::CommandFailed {
            cmd: "brew install".to_string(),
            reason: "not found".to_string(),
        })
    );
}

#[test]
fn cask_errors() {
    assert_eq!(
        install_cask("firefox", &[]),
        Progress::Pending(run("brew", &["install", "--cask", "firefox"]))
    );
    assert_eq!(install_cask("firefox", &[ok()]), Progress::Completed(1));
    assert_eq!(
        install_cask("firefox", &[exited(false, "boom")]),
        Progress::Failed(InstallError::Cask {
            name: "firefox".to_string(),
            reason: "boom".to_string(),
        })
    );
    assert_eq!(
        install_cask("firefox", &[Outcome::Failed("not found".to_string())]),
        Progress::Failed(InstallError::CommandFailed {
            cmd: "brew install --cask".to_string(),
            reason: "not found".to_string(),
        })
    );
}

#[test]
fn commands_have_the_documented_arguments() {
    assert_eq!(tap_command("x"), command("brew", &["tap", "x"]));
    assert_eq!(formula_command("x"), command("brew", &["install", "x"]));
    assert_eq!(cask_command("x"), command("brew", &["install", "--cask", "x"]));
    assert_eq!(
        download_command("http://u", "/d"),
        command("curl", &["-fsSLo", "/d", "--create-dirs", "http://u"])
    );
    assert_eq!(fish_command("echo hi"), command("fish", &["-c", "echo hi"]));
}

#[test]
fn copy_creates_missing_destination_first() {
    let step = Postinstall::Cp(path("a/b.txt"), path("/dst/dir"));
    let copy = Operation::Copy { from: "/base/a/b.txt".to_string(), to: "/dst/dir".to_string() };
    assert_eq!(
        run_postinstall_step(&step, "/base", &[]),
        Progress::Pending(Operation::IsDir("/dst/dir".to_string()))
    );
    assert_eq!(
        run_postinstall_step(&step, "/base", &[Outcome::Answer(false)]),
        Progress::Pending(Operation::CreateDirAll("/dst/dir".to_string()))
    );
    assert_eq!(
        run_postinstall_step(&step, "/base", &[Outcome::Answer(false), Outcome::Done]),
        Progress::Pending(copy.clone())
    );
    assert_eq!(
        run_postinstall_step(
            &step,
            "/base",
            &[Outcome::Answer(false), Outcome::Done, Outcome::Done]
        ),
        Progress::Completed(3)
    );
}

#[test]
fn copy_into_existing_directory_skips_creation() {
    let step = Postinstall::Cp(path("a/b.txt"), path("/dst/dir"));
    assert_eq!(
        run_postinstall_step(&step, "/base/", &[Outcome::Answer(true)]),
        Progress::Pending(Operation::Copy {
            from: "/base/a/b.txt".to_string(),
            to: "/dst/dir".to_string(),
        })
    );
    assert_eq!(
        run_postinstall_step(&step, "/base/", &[Outcome::Answer(true), Outcome::Done]),
        Progress::Completed(2)
    );
}

#[test]
fn copy_errors() {
    let step = Postinstall::Cp(path("a.txt"), path("/dst"));
    assert_eq!(
        run_postinstall_step(
            &step,
            "/base",
            &[Outcome::Answer(false), Outcome::Failed("Permission denied".to_string())]
        ),
        Progress::Failed(InstallError::CreateDir {
            dir: "/dst".to_string(),
            reason: "Permission denied".to_string(),
        })
    );
    assert_eq!(
        run_postinstall_step(
            &step,
            "/base",
            &[Outcome::Answer(true), Outcome::Failed("No such file".to_string())]
        ),
        Progress::Failed(InstallError::Copy {
            src: "/base/a.txt".to_string(),
            dst: "/dst".to_string(),
            reason: "No such file".to_string(),
        })
    );
    assert_eq!(
        run_postinstall_step(
            &step,
            "/base",
            &[Outcome::Answer(false), Outcome::Done, Outcome::Failed("No such file".to_string())]
        ),
        Progress::Failed(InstallError::Copy {
            src: "/base/a.txt".to_string(),
            dst: "/dst".to_string(),
            reason: "No such file".to_string(),
        })
    );
}

#[test]
fn copy_of_absolute_source_ignores_the_base() {
    let step = Postinstall::Cp(path("/abs/a.txt"), path("/dst"));
    assert_eq!(
        run_postinstall_step(&step, "/base", &[Outcome::Answer(true)]),
        Progress::Pending(Operation::Copy {
            from: "/abs/a.txt".to_string(),
            to: "/dst".to_string(),
        })
    );
}

/// A file that is either absent or holds some text, and the append
/// operation as the machine performs it: it never creates the file.
fn append_to(file: &mut Option<String>, operation: &Operation) -> Outcome {
    match (operation, file) {
        (Operation::Append { text, .. }, Some(content)) => {
            content.push_str(text);
            Outcome::Done
        }
        _ => Outcome::Failed("No such file or directory (os error 2)".to_string()),
    }
}

#[test]
fn append_adds_one_line() {
    let step = Postinstall::Echo("hello".to_string(), path("/tmp/f"));
    let mut file = Some("a\n".to_string());
    let mut outcomes = Vec::new();
    match run_postinstall_step(&step, "/base", &outcomes) {
        Progress::Pending(operation) => {
            assert_eq!(
                operation,
                Operation::Append { path: "/tmp/f".to_string(), text: "hello\n".to_string() }
            );
            outcomes.push(append_to(&mut file, &operation));
        }
        other => panic!("unexpected {:?}", other),
    }
    assert_eq!(run_postinstall_step(&step, "/base", &outcomes), Progress::Completed(1));
    assert_eq!(file, Some("a\nhello\n".to_string()));
}

#[test]
fn append_to_missing_file_fails() {
    let step = Postinstall::Echo("hello".to_string(), path("/tmp/missing"));
    let mut file = None;
    let mut outcomes = Vec::new();
    match run_postinstall_step(&step, "/base", &outcomes) {
        Progress::Pending(operation) => outcomes.push(append_to(&mut file, &operation)),
        other => panic!("unexpected {:?}", other),
    }
    assert_eq!(
        run_postinstall_step(&step, "/base", &outcomes),
        Progress::Failed(InstallError::ReadWrite {
            path: "/tmp/missing".to_string(),
            reason: "No such file or directory (os error 2)".to_string(),
        })
    );
    assert_eq!(file, None);
}

#[test]
fn download_asks_curl_to_create_directories() {
    let step = Postinstall::Dl("https://example.org/f".to_string(), path("/new/dir/f"));
    assert_eq!(
        run_postinstall_step(&step, "/base", &[]),
        Progress::Pending(run(
            "curl",
            &["-fsSLo", "/new/dir/f", "--create-dirs", "https://example.org/f"]
        ))
    );
    assert_eq!(run_postinstall_step(&step, "/base", &[ok()]), Progress::Completed(1));
}

#[test]
fn download_errors() {
    let step = Postinstall::Dl("https://example.org/f".to_string(), path("/d/f"));
    assert_eq!(
        run_postinstall_step(
            &step,
            "/base",
            &[exited(false, "curl: (22) The requested URL returned error: 404\n")]
        ),
        Progress::Failed(InstallError::Download {
            url: "https://example.org/f".to_string(),
            dst: "/d/f".to_string(),
            reason: "curl: (22) The requested URL returned error: 404\n".to_string(),
        })
    );
    assert_eq!(
        run_postinstall_step(&step, "/base", &[Outcome::Failed("not found".to_string())]),
        Progress::Failed(InstallError::CommandFailed {
            cmd: "curl".to_string(),
            reason: "not found".to_string(),
        })
    );
}

#[test]
fn fish_errors() {
    let step = Postinstall::Fish("false".to_string());
    assert_eq!(
        run_postinstall_step(&step, "/base", &[]),
        Progress::Pending(run("fish", &["-c", "false"]))
    );
    assert_eq!(run_postinstall_step(&step, "/base", &[ok()]), Progress::Completed(1));
    assert_eq!(
        run_postinstall_step(&step, "/base", &[exited(false, "nope")]),
        Progress::Failed(InstallError::CommandFailed {
            cmd: "false".to_string(),
            reason: "nope".to_string(),
        })
    );
    assert_eq!(
        run_postinstall_step(&step, "/base", &[Outcome::Failed("no fish".to_string())]),
        Progress::Failed(InstallError::CommandFailed {
            cmd: "fish".to_string(),
            reason: "no fish".to_string(),
        })
    );
}

#[test]
fn failing_step_aborts_before_the_next_formula() {
    let (asked, done) = drive("/recipes", &sample(), |at, operation| {
        if at == 4 {
            Outcome::Failed("read-only".to_string())
        } else {
            willing(at, operation)
        }
    });
    assert_eq!(asked.len(), 5);
    assert_eq!(
        done,
        Progress::Failed(InstallError::ReadWrite {
            path: "/etc/motd".to_string(),
            reason: "read-only".to_string(),
        })
    );
}

#[test]
fn error_stream_is_read_leniently() {
    let outcome =
        Outcome::Exited { success: false, stdout: vec![], stderr: vec![0x66, 0xff, 0x6f] };
    assert_eq!(outcome.verdict(), Verdict::Refused("f\u{fffd}o".to_string()));
    assert_eq!(
        install_tap("t", &[outcome]),
        Progress::Failed(InstallError::Tap {
            name: "t".to_string(),
            reason: "f\u{fffd}o".to_string(),
        })
    );
}

#[test]
fn verdicts() {
    assert_eq!(ok().verdict(), Verdict::Passed);
    assert_eq!(exited(false, "e").verdict(), Verdict::Refused("e".to_string()));
    assert_eq!(
        Outcome::Failed("r".to_string()).verdict(),
        Verdict::NotStarted("r".to_string())
    );
    assert_eq!(Outcome::Done.verdict(), Verdict::Passed);
    assert_eq!(Outcome::Failed("r".to_string()).failure(), Some("r".to_string()));
    assert_eq!(Outcome::Done.failure(), None);
    assert_eq!(exited(false, "e").failure(), None);
    assert!(Outcome::Answer(true).affirmed());
    assert!(!Outcome::Answer(false).affirmed());
    assert!(!Outcome::Done.affirmed());
}

#[test]
fn progress_results() {
    assert_eq!(Progress::Pending(Operation::IsDir("/".to_string())).result(), None);
    assert_eq!(Progress::Completed(4).result(), Some(Ok(())));
    let error = InstallError::Cask { name: "c".to_string(), reason: "r".to_string() };
    assert_eq!(Progress::Failed(error.clone()).result(), Some(Err(error)));
}

#[test]
fn error_messages() {
    let name = "n".to_string();
    let reason = "why".to_string();
    assert_eq!(
        InstallError::Tap { name: name.clone(), reason: reason.clone() }.to_string(),
        "cannot install tap 'n': why"
    );
    assert_eq!(
        InstallError::Formula { name: name.clone(), reason: reason.clone() }.to_string(),
        "cannot install formula 'n': why"
    );
    assert_eq!(
        InstallError::Cask { name: name.clone(), reason: reason.clone() }.to_string(),
        "cannot install cask 'n': why"
    );
    assert_eq!(
        InstallError::CommandFailed { cmd: "fish".to_string(), reason: reason.clone() }
            .to_string(),
        "command 'fish' failed: why"
    );
    assert_eq!(
        InstallError::CreateDir { dir: "/d".to_string(), reason: reason.clone() }.to_string(),
        "cannot create dir '/d': why"
    );
    assert_eq!(
        InstallError::Copy {
            src: "/s".to_string(),
            dst: "/d".to_string(),
            reason: reason.clone()
        }
        .to_string(),
        "cannot copy '/s' to '/d': why"
    );
    assert_eq!(
        InstallError::Download {
            url: "http://u".to_string(),
            dst: "/d".to_string(),
            reason: reason.clone()
        }
        .to_string(),
        "cannot download 'http://u' to '/d': why"
    );
    assert_eq!(
        InstallError::ReadWrite { path: "/p".to_string(), reason }.to_string(),
        "cannot read from or write to '/p': why"
    );
}
