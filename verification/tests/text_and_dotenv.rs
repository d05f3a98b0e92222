use nexus_ctl::dotenv::{is_white_space, parse_dotenv, to_set, wanted, Assignment, DOTENV_PATH};
use nexus_ctl::powershell::{ps, ps_single_quote};
use nexus_ctl::text::{decimal_text, join, replace_char, signed_decimal_text};
use std::collections::BTreeMap;

fn assignment(key: &str, value: &str) -> Assignment {
    Assignment { key: key.to_string(), value: value.to_string() }
}

#[test]
fn characters_are_replaced() {
    assert_eq!(replace_char("a.b..", '.', "<>"), "a<>b<><>");
    assert_eq!(replace_char("äöü", 'ö', ""), "äü");
    assert_eq!(replace_char("", 'x', "y"), "");
}

#[test]
fn strings_are_joined() {
    let parts: Vec<String> = ["a", "", "c"].iter().map(|s| s.to_string()).collect();
    assert_eq!(join(&parts, "; "), "a; ; c");
    assert_eq!(join(&vec!["a".to_string()], "; "), "a");
    assert_eq!(join(&Vec::new(), "; "), "");
}

#[test]
fn numbers_in_decimal() {
    for n in [0u32, 1, 9, 10, 11, 99, 100, 60, 205, 4294967295] {
        assert_eq!(decimal_text(n), n.to_string());
    }
    for n in [0i32, 7, -1, -10, 255, i32::MAX, i32::MIN] {
        assert_eq!(signed_decimal_text(n), n.to_string());
    }
}

#[test]
fn double_quotes_are_escaped() {
    assert_eq!(
        ps("say \"hi\""),
        "powershell -NoProfile -Command \"say `\"hi`\"\""
    );
    assert_eq!(ps(""), "powershell -NoProfile -Command \"\"");
}

#[test]
fn single_quotes_are_doubled() {
    assert_eq!(ps_single_quote("it's 'x'"), "it''s ''x''");
    assert_eq!(ps_single_quote("plain"), "plain");
}

#[test]
fn white_space_is_that_of_unicode() {
    for n in 0..=0x10ffffu32 {
        if let Some(c) = char::from_u32(n) {
            assert_eq!(is_white_space(c), c.is_whitespace());
        }
    }
}

#[test]
fn path_of_the_settings() {
    assert_eq!(DOTENV_PATH, ".config/nexus-ctl/.env");
}

#[test]
fn lines_of_a_file() {
    let contents = "# host\nNEXUS_CTL_HOST=me@box\n\n  \t\n  NEXUS_CTL_TASK_PREFIX =  x y  \nno sign\n#A=b\nK=a=b\nE=";
    assert_eq!(
        parse_dotenv(contents),
        vec![
            assignment("NEXUS_CTL_HOST", "me@box"),
            assignment("NEXUS_CTL_TASK_PREFIX", "x y"),
            assignment("K", "a=b"),
            assignment("E", ""),
        ]
    );
    assert_eq!(parse_dotenv(""), vec![]);
    assert_eq!(parse_dotenv("=v"), vec![assignment("", "v")]);
}

#[test]
fn quotes_around_a_value() {
    assert_eq!(parse_dotenv("A=\" x \""), vec![assignment("A", " x ")]);
    assert_eq!(parse_dotenv("A=' x '"), vec![assignment("A", " x ")]);
    assert_eq!(parse_dotenv("A=\"x'"), vec![assignment("A", "\"x'")]);
    assert_eq!(parse_dotenv("A=\""), vec![assignment("A", "\"")]);
    assert_eq!(parse_dotenv("A=\"\""), vec![assignment("A", "")]);
    assert_eq!(parse_dotenv("A=\"\"x\"\""), vec![assignment("A", "\"x\"")]);
    assert_eq!(parse_dotenv("A=x\"y\""), vec![assignment("A", "x\"y\"")]);
}

#[test]
fn ends_of_lines() {
    let expected = vec![assignment("A", "1"), assignment("B", "2")];
    assert_eq!(parse_dotenv("A=1\nB=2"), expected);
    assert_eq!(parse_dotenv("A=1\nB=2\n"), expected);
    assert_eq!(parse_dotenv("A=1\r\nB=2\r\n"), expected);
    assert_eq!(parse_dotenv("\u{a0}A=1\u{3000}\nB=2"), expected);
    assert_eq!(parse_dotenv("A=1\rB=2"), vec![assignment("A", "1\rB=2")]);
}

#[test]
fn lines_are_those_of_the_standard_library() {
    let contents = "A=1\r\n\r\nB = 2 \n#x\nC\n\u{2003}D='3'\r";
    let mut expected = Vec::new();
    for line in contents.lines() {
        let line = line.trim();
        if line.is_empty() || line.starts_with('#') {
            continue;
        }
        if let Some((key, value)) = line.split_once('=') {
            expected.push(assignment(key.trim(), value.trim().trim_matches('\'')));
        }
    }
    assert_eq!(parse_dotenv(contents), expected);
}

#[test]
fn set_variables_are_left_alone() {
    assert_eq!(wanted(assignment("A", "1"), true), None);
    assert_eq!(wanted(assignment("A", "1"), false), Some(assignment("A", "1")));
}

fn load(environment: &mut BTreeMap<String, String>, contents: &str) {
    let assignments = parse_dotenv(contents);
    let present: Vec<bool> = assignments.iter().map(|a| environment.contains_key(&a.key)).collect();
    for a in to_set(assignments, &present) {
        environment.insert(a.key, a.value);
    }
}

#[test]
fn environment_first_then_the_first_line() {
    let mut environment: BTreeMap<String, String> = BTreeMap::new();
    environment.insert("SET".to_string(), "old".to_string());
    let contents = "SET=new\nA=1\nA=2\nB=3\nA=4";
    load(&mut environment, contents);
    assert_eq!(environment.get("SET").map(|s| s.as_str()), Some("old"));
    assert_eq!(environment.get("A").map(|s| s.as_str()), Some("1"));
    assert_eq!(environment.get("B").map(|s| s.as_str()), Some("3"));
    assert_eq!(environment.len(), 3);
    let once = environment.clone();
    load(&mut environment, contents);
    load(&mut environment, "A=5\nB=6");
    assert_eq!(environment, once);
}

#[test]
fn what_is_to_be_set() {
    let list = || vec![assignment("A", "1"), assignment("B", "2"), assignment("A", "3")];
    assert_eq!(
        to_set(list(), &vec![false, false, false]),
        vec![assignment("A", "1"), assignment("B", "2")]
    );
    assert_eq!(to_set(list(), &vec![true, false, true]), vec![assignment("B", "2")]);
    assert_eq!(to_set(list(), &vec![true, true, true]), vec![]);
    assert_eq!(to_set(Vec::new(), &Vec::new()), vec![]);
}
