use drip::kdl::{parse, Child, Node, Value};
use drip::parse::{decode_recipe, examine, parse_recipe, Fault, ParseError};
use drip::{ExpandedPath, Formula, Postinstall, Recipe};

fn path(text: &str) -> ExpandedPath {
    ExpandedPath::new(text).unwrap()
}

fn text(value: &str) -> Value {
    Value::Text(value.to_string())
}

fn leaf(name: &str, arguments: &[&str]) -> Node {
    Node {
        name: name.to_string(),
        at: 0,
        arguments: arguments.iter().map(|argument| text(argument)).collect(),
        properties: 0,
        children: vec![],
    }
}

fn step(name: &str, arguments: &[&str]) -> Child {
    Child {
        name: name.to_string(),
        at: 0,
        arguments: arguments.iter().map(|argument| text(argument)).collect(),
        properties: 0,
        children: 0,
    }
}

fn malformed(fault: Fault, node: &str, at: usize) -> ParseError {
    ParseError::Malformed { fault, node: node.to_string(), at }
}

const SAMPLE: &str = r#"tap "homebrew/cask-fonts"
cask "firefox"
brew "fish" {
    cp "config.fish" "/tmp/drip/fish"
    dl "https://example.org/a.txt" "/tmp/drip/a.txt"
    echo "set -gx EDITOR hx" "/tmp/drip/config.fish"
    fish "fish_update_completions"
}
"#;

#[test]
fn recipe_round_trip() {
    let recipe = parse_recipe("recipe.kdl", SAMPLE).unwrap();
    assert_eq!(
        recipe,
        Recipe {
            taps: vec!["homebrew/cask-fonts".to_string()],
            casks: vec!["firefox".to_string()],
            formulas: vec![Formula {
                name: "fish".to_string(),
                postinstall_steps: vec![
                    Postinstall::Cp(path("config.fish"), path("/tmp/drip/fish")),
                    Postinstall::Dl(
                        "https://example.org/a.txt".to_string(),
                        path("/tmp/drip/a.txt")
                    ),
                    Postinstall::Echo(
                        "set -gx EDITOR hx".to_string(),
                        path("/tmp/drip/config.fish")
                    ),
                    Postinstall::Fish("fish_update_completions".to_string()),
                ],
            }],
        }
    );
    assert_eq!(recipe.taps.len(), 1);
    assert_eq!(recipe.casks.len(), 1);
    assert_eq!(recipe.formulas.len(), 1);
    let steps = &recipe.formulas[0].postinstall_steps;
    assert_eq!(steps.len(), 4);
    assert!(matches!(steps[0], Postinstall::Cp(..)));
    assert!(matches!(steps[1], Postinstall::Dl(..)));
    assert!(matches!(steps[2], Postinstall::Echo(..)));
    assert!(matches!(steps[3], Postinstall::Fish(..)));
}

#[test]
fn recipe_keeps_the_order_of_the_source() {
    let recipe = parse_recipe(
        "recipe.kdl",
        "brew \"b\"\ntap \"t1\"\ncask \"c1\"\nbrew \"a\"\ntap \"t2\"\ncask \"c2\"\n",
    )
    .unwrap();
    assert_eq!(recipe.taps, vec!["t1".to_string(), "t2".to_string()]);
    assert_eq!(recipe.casks, vec!["c1".to_string(), "c2".to_string()]);
    assert_eq!(
        recipe.formulas,
        vec![
            Formula { name: "b".to_string(), postinstall_steps: vec![] },
            Formula { name: "a".to_string(), postinstall_steps: vec![] },
        ]
    );
}

#[test]
fn empty_text_is_the_empty_recipe() {
    assert_eq!(
        parse_recipe("recipe.kdl", ""),
        Ok(Recipe { taps: vec![], casks: vec![], formulas: vec![] })
    );
}

#[test]
fn text_that_is_not_kdl_is_a_syntax_error() {
    match parse_recipe("recipe.kdl", "brew \"fish\" {") {
        Err(ParseError::Syntax { report }) => assert!(!report.is_empty()),
        other => panic!("unexpected {:?}", other),
    }
    assert!(parse("recipe.kdl", "tap \"unclosed").is_err());
}

#[test]
fn tilde_is_expanded_at_decode_time() {
    let parsed = parse_recipe("recipe.kdl", "brew \"x\" {\n  dl \"http://u\" \"~/.config/x\"\n}\n");
    match simple_home_dir::home_dir() {
        Some(home) => {
            let expected = home.join(".config/x");
            let recipe = parsed.unwrap();
            match &recipe.formulas[0].postinstall_steps[0] {
                Postinstall::Dl(url, dst) => {
                    assert_eq!(url, "http://u");
                    assert_eq!(dst.as_str(), expected.to_str().unwrap());
                    assert!(!dst.as_str().starts_with('~'));
                }
                other => panic!("unexpected {:?}", other),
            }
        }
        None => {
            assert_eq!(parsed, Err(ParseError::NoHome { path: "~/.config/x".to_string() }));
        }
    }
}

#[test]
fn path_without_tilde_is_kept() {
    assert_eq!(ExpandedPath::new("/etc/hosts").unwrap().as_str(), "/etc/hosts");
    assert_eq!(ExpandedPath::new("rel/a").unwrap().as_str(), "rel/a");
    assert_eq!(ExpandedPath::new("").unwrap().as_str(), "");
    assert_eq!(ExpandedPath::new("a/~/b").unwrap().as_str(), "a/~/b");
}

#[test]
fn tilde_inside_a_name_is_no_marker() {
    assert_eq!(ExpandedPath::new("~user/x").unwrap().as_str(), "~user/x");
}

#[test]
fn bare_tilde_is_the_home_directory() {
    if let Some(home) = simple_home_dir::home_dir() {
        assert_eq!(ExpandedPath::new("~").unwrap().as_str(), home.to_str().unwrap());
    } else {
        assert_eq!(ExpandedPath::new("~"), None);
    }
}

#[test]
fn kdl_nodes_are_read_in_order() {
    let nodes = parse("f.kdl", "a 1 \"two\" k=3 {\n  b true null 1.5 {\n    c\n    d\n  }\n}\ne\n")
        .unwrap();
    assert_eq!(
        nodes,
        vec![
            Node {
                name: "a".to_string(),
                at: 0,
                arguments: vec![Value::Int, text("two")],
                properties: 1,
                children: vec![Child {
                    name: "b".to_string(),
                    at: 18,
                    arguments: vec![Value::Bool(true), Value::Null, Value::Decimal],
                    properties: 0,
                    children: 2,
                }],
            },
            Node {
                name: "e".to_string(),
                at: 54,
                arguments: vec![],
                properties: 0,
                children: vec![],
            },
        ]
    );
}

#[test]
fn decode_reads_hand_made_nodes() {
    let mut brew = leaf("brew", &["jq"]);
    brew.children = vec![step("fish", &["echo hi"]), step("cp", &["a", "/b"])];
    let nodes = vec![leaf("tap", &["t"]), brew, leaf("cask", &["c"])];
    assert_eq!(examine(&nodes), None);
    assert_eq!(
        decode_recipe(&nodes),
        Ok(Recipe {
            taps: vec!["t".to_string()],
            casks: vec!["c".to_string()],
            formulas: vec![Formula {
                name: "jq".to_string(),
                postinstall_steps: vec![
                    Postinstall::Fish("echo hi".to_string()),
                    Postinstall::Cp(path("a"), path("/b")),
                ],
            }],
        })
    );
}

#[test]
fn unknown_node_is_refused() {
    assert_eq!(
        parse_recipe("recipe.kdl", "tap \"t\"\nbottle \"x\"\n"),
        Err(malformed(Fault::UnknownNode, "bottle", 8))
    );
    assert_eq!(
        parse_recipe("recipe.kdl", "brew \"x\" {\n  mv \"a\" \"b\"\n}\n"),
        Err(malformed(Fault::UnknownNode, "mv", 13))
    );
}

#[test]
fn missing_argument_is_refused() {
    assert_eq!(parse_recipe("r", "tap\n"), Err(malformed(Fault::MissingArgument, "tap", 0)));
    assert_eq!(parse_recipe("r", "brew\n"), Err(malformed(Fault::MissingArgument, "brew", 0)));
    assert_eq!(
        decode_recipe(&vec![{
            let mut brew = leaf("brew", &["x"]);
            brew.children = vec![step("cp", &["only"])];
            brew
        }]),
        Err(malformed(Fault::MissingArgument, "cp", 0))
    );
}

#[test]
fn argument_that_is_no_string_is_refused() {
    assert_eq!(parse_recipe("r", "cask 12\n"), Err(malformed(Fault::NotText, "cask", 0)));
    assert_eq!(
        parse_recipe("r", "brew \"x\" {\n  fish true\n}\n"),
        Err(malformed(Fault::NotText, "fish", 13))
    );
    assert_eq!(
        parse_recipe("r", "brew \"x\" {\n  echo \"t\" null\n}\n"),
        Err(malformed(Fault::NotText, "echo", 13))
    );
}

#[test]
fn extra_argument_is_refused() {
    assert_eq!(
        parse_recipe("r", "tap \"a\" \"b\"\n"),
        Err(malformed(Fault::ExtraArgument, "tap", 0))
    );
    assert_eq!(
        parse_recipe("r", "brew \"x\" {\n  fish \"a\" \"b\"\n}\n"),
        Err(malformed(Fault::ExtraArgument, "fish", 13))
    );
    assert_eq!(
        parse_recipe("r", "brew \"x\" {\n  dl \"a\" \"b\" \"c\"\n}\n"),
        Err(malformed(Fault::ExtraArgument, "dl", 13))
    );
}

#[test]
fn property_is_refused() {
    assert_eq!(
        parse_recipe("r", "tap \"a\" force=true\n"),
        Err(malformed(Fault::Property, "tap", 0))
    );
    assert_eq!(
        parse_recipe("r", "brew \"a\" head=true\n"),
        Err(malformed(Fault::Property, "brew", 0))
    );
}

#[test]
fn children_outside_brew_are_refused() {
    assert_eq!(
        parse_recipe("r", "cask \"a\" {\n  fish \"x\"\n}\n"),
        Err(malformed(Fault::Children, "cask", 0))
    );
    assert_eq!(
        parse_recipe("r", "brew \"a\" {\n  fish \"x\" {\n    fish \"y\"\n  }\n}\n"),
        Err(malformed(Fault::Children, "fish", 13))
    );
}

#[test]
fn first_fault_is_reported() {
    assert_eq!(
        parse_recipe("r", "tap\ncask 1\nwhat\n"),
        Err(malformed(Fault::MissingArgument, "tap", 0))
    );
    assert_eq!(
        parse_recipe("r", "tap \"t\"\ncask 1 2\nwhat\n"),
        Err(malformed(Fault::NotText, "cask", 8))
    );
}

#[test]
fn fault_comes_before_home_directory() {
    assert_eq!(
        parse_recipe("r", "brew \"a\" {\n  dl \"u\" \"~/x\"\n}\nwhat\n"),
        Err(malformed(Fault::UnknownNode, "what", 28))
    );
}

#[test]
fn parse_error_messages() {
    assert_eq!(
        malformed(Fault::UnknownNode, "bottle", 8).to_string(),
        "failed to parse Recipe: unexpected node `bottle` at byte 8"
    );
    assert_eq!(
        malformed(Fault::MissingArgument, "tap", 0).to_string(),
        "failed to parse Recipe: missing argument of node `tap` at byte 0"
    );
    assert_eq!(
        malformed(Fault::NotText, "cask", 120).to_string(),
        "failed to parse Recipe: argument that is not a string in node `cask` at byte 120"
    );
    assert_eq!(
        malformed(Fault::ExtraArgument, "dl", 3).to_string(),
        "failed to parse Recipe: unexpected argument of node `dl` at byte 3"
    );
    assert_eq!(
        malformed(Fault::Property, "brew", 3).to_string(),
        "failed to parse Recipe: unexpected property of node `brew` at byte 3"
    );
    assert_eq!(
        malformed(Fault::Children, "cp", 3).to_string(),
        "failed to parse Recipe: unexpected children of node `cp` at byte 3"
    );
    assert_eq!(
        ParseError::NoHome { path: "~/x".to_string() }.to_string(),
        "failed to parse Recipe: no home directory to expand `~/x`"
    );
    assert_eq!(ParseError::Syntax { report: "report".to_string() }.to_string(), "report");
}
