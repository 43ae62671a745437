use drip::text::{contains, lines, resolve, to_decimal};

fn names(list: &[&str]) -> Vec<String> {
    list.iter().map(|name| name.to_string()).collect()
}

#[test]
fn resolve_joins_with_one_slash() {
    assert_eq!(resolve("/base", "a/b"), "/base/a/b");
    assert_eq!(resolve("/base/", "a/b"), "/base/a/b");
    assert_eq!(resolve("base", "a"), "base/a");
    assert_eq!(resolve("/", "a"), "/a");
}

#[test]
fn resolve_keeps_an_absolute_path() {
    assert_eq!(resolve("/base", "/etc/hosts"), "/etc/hosts");
    assert_eq!(resolve("", "/etc/hosts"), "/etc/hosts");
}

#[test]
fn resolve_against_nothing() {
    assert_eq!(resolve("", "a/b"), "a/b");
    assert_eq!(resolve("/base", ""), "/base/");
    assert_eq!(resolve("", ""), "");
}

#[test]
fn resolve_agrees_with_std() {
    for (base, rel) in [("/base", "a/b"), ("/base/", "a"), ("", "a"), ("/b", "/a"), ("b", "")] {
        let joined = std::path::Path::new(base).join(rel);
        assert_eq!(resolve(base, rel), joined.to_str().unwrap());
    }
}

#[test]
fn lines_split_at_newlines() {
    assert_eq!(lines("a\nb\nc"), names(&["a", "b", "c"]));
    assert_eq!(lines("a\nb\n"), names(&["a", "b"]));
    assert_eq!(lines(""), names(&[]));
    assert_eq!(lines("\n"), names(&[""]));
    assert_eq!(lines("a\n\nb"), names(&["a", "", "b"]));
    assert_eq!(lines("one"), names(&["one"]));
}

#[test]
fn lines_drop_a_return_before_a_newline_only() {
    assert_eq!(lines("a\r\nb\r\n"), names(&["a", "b"]));
    assert_eq!(lines("a\r\nb\r"), names(&["a", "b\r"]));
    assert_eq!(lines("a\rb\n"), names(&["a\rb"]));
    assert_eq!(lines("\r\n"), names(&[""]));
    assert_eq!(lines("a\r\r\n"), names(&["a\r"]));
}

#[test]
fn lines_agree_with_std() {
    for text in ["", "a", "a\n", "a\nb", "\n\n", "a\r\nb\r", "\r", "x\ny\r\n\r\nz\n", "h\u{e9}\n"] {
        let expected: Vec<String> = text.lines().map(|line| line.to_string()).collect();
        assert_eq!(lines(text), expected, "{:?}", text);
    }
}

#[test]
fn contains_finds_names() {
    let list = names(&["a", "bb", "c"]);
    assert!(contains(&list, &"bb".to_string()));
    assert!(!contains(&list, &"b".to_string()));
    assert!(!contains(&names(&[]), &"a".to_string()));
}

#[test]
fn decimal_digits() {
    assert_eq!(to_decimal(0), "0");
    assert_eq!(to_decimal(7), "7");
    assert_eq!(to_decimal(10), "10");
    assert_eq!(to_decimal(1234567890), "1234567890");
    assert_eq!(to_decimal(usize::MAX), usize::MAX.to_string());
}
