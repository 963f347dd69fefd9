use gh_envoy::command::{
    arguments, display_command, text_from_utf8_output, CommandSpec, RunnerError,
};
use gh_envoy::document::{error_document, release_document};
use gh_envoy::id::{parse_issue_number, short_id};
use gh_envoy::json::{find_member, parse_json, print_line, print_lines, same_json, Json};
use gh_envoy::model::ReleaseReport;
use gh_envoy::path::{
    file_name, find_known_place, find_place, is_absolute, is_same_path, join_path, parent,
};
use gh_envoy::record::{read_id, read_issue, read_text, write_id, write_instant};
use gh_envoy::redaction::{redact_message, shortened_path, shortened_worktree};
use gh_envoy::text::{
    contains, decimal_text, insert_text, is_before, is_blank, join, lines, replace,
    signed_decimal_text, sorted_distinct, split_once, split_text, strip_char, strip_prefix,
    strip_suffix, text_after_first, text_after_last, trim,
};
use gh_envoy::time::Timestamp;

#[test]
fn texts_are_taken_apart_and_put_together() {
    assert_eq!(trim(" \t a b \n"), "a b");
    assert_eq!(trim(" \u{3000}\u{85}"), "");
    assert!(is_blank("\n"));
    assert!(!is_blank(" x "));
    assert_eq!(strip_prefix("refs/heads/a", "refs/heads/").as_deref(), Some("a"));
    assert_eq!(strip_prefix("a", "refs/heads/"), None);
    assert_eq!(strip_suffix("a.json", ".json").as_deref(), Some("a"));
    assert_eq!(split_text("a,,b", ','), ["a", "", "b"]);
    assert_eq!(join(&vec!["a".to_owned(), "b".to_owned()], "; "), "a; b");
    assert_eq!(lines("a\r\nb\n\nc"), ["a", "b", "", "c"]);
    assert_eq!(replace("aaa", "aa", "b"), "ba");
    assert!(contains("abc", "bc"));
    assert_eq!(
        split_once("a: b: c", ": "),
        Some(("a".to_owned(), "b: c".to_owned()))
    );
    assert_eq!(text_after_first("a@b@c", "@").as_deref(), Some("b@c"));
    assert_eq!(text_after_last("o/r", '/').as_deref(), Some("r"));
    assert_eq!(text_after_last("r", '/'), None);
    assert_eq!(strip_char("//a//", '/'), "a");
    assert_eq!(decimal_text(0), "0");
    assert_eq!(decimal_text(u64::MAX), "18446744073709551615");
    assert_eq!(signed_decimal_text(-17), "-17");
    assert_eq!(signed_decimal_text(i32::MIN), "-2147483648");
}

#[test]
fn texts_are_ordered_by_their_characters() {
    assert!(is_before("a", "b"));
    assert!(is_before("", "a"));
    assert!(is_before("Z", "a"));
    assert!(is_before("a", "ä"));
    assert!(!is_before("a", "a"));
    let texts: Vec<String> = ["b", "a", "b"].iter().map(|text| text.to_string()).collect();
    let mut sorted = sorted_distinct(&texts);
    assert_eq!(sorted, ["a", "b"]);
    insert_text(&mut sorted, "aa".to_owned());
    insert_text(&mut sorted, "aa".to_owned());
    assert_eq!(sorted, ["a", "aa", "b"]);
}

#[test]
fn paths_follow_their_segments() {
    assert!(is_absolute("/a"));
    assert!(!is_absolute("a"));
    assert_eq!(join_path("/a", "b"), "/a/b");
    assert_eq!(join_path("/a/", "b"), "/a/b");
    assert_eq!(join_path("/a", "/b"), "/b");
    assert_eq!(file_name("/a/b/").as_deref(), Some("b"));
    assert_eq!(file_name("/a/b/.").as_deref(), Some("b"));
    assert_eq!(file_name("/"), None);
    assert_eq!(file_name("a/.."), None);
    assert_eq!(parent("/a/b").as_deref(), Some("/a"));
    assert_eq!(parent("/a").as_deref(), Some("/"));
    assert_eq!(parent("/"), None);
    assert_eq!(parent("a").as_deref(), Some(""));
    for path in ["/a/b/", "/a//b", "/", "", "a", "a/b/./", "/.", "../a", "a/.."] {
        let std = std::path::Path::new(path);
        assert_eq!(
            file_name(path).as_deref(),
            std.file_name().and_then(|name| name.to_str()),
            "{path}"
        );
        assert_eq!(
            parent(path).as_deref(),
            std.parent().and_then(|up| up.to_str()),
            "{path}"
        );
        assert_eq!(is_absolute(path), std.is_absolute());
    }
    let places = vec![("/a".to_owned(), "/real/a".to_owned())];
    assert_eq!(find_known_place(&places, "/a").as_deref(), Some("/real/a"));
    assert_eq!(find_known_place(&places, "/b"), None);
    assert_eq!(find_place(&places, "/b"), "/b");
}

#[test]
fn identifiers_are_written_and_read() {
    let id = 0x12345678_9abc_4def_8111_22223333aaaa;
    assert_eq!(short_id(id), "12345678");
    let written = write_id(id);
    match &written {
        Json::Text(text) => assert_eq!(text, "12345678-9abc-4def-8111-22223333aaaa"),
        other => panic!("{other:?}"),
    }
    assert_eq!(read_id(Some(&written)), Some(id));
    assert_eq!(read_id(Some(&Json::Text("not an id".to_owned()))), None);
    assert_eq!(read_id(None), None);
    assert_eq!(parse_issue_number("12"), Some(12));
    assert_eq!(parse_issue_number("0"), None);
    assert_eq!(read_issue(Some(&Json::Unsigned(0))), None);
    assert_eq!(read_issue(Some(&Json::Unsigned(5))), Some(5));
    assert_eq!(read_text(Some(&Json::Null)), None);
}

#[test]
fn instants_are_written_with_the_digits_they_need() {
    let text = |at| match write_instant(at).expect("instant") {
        Json::Text(text) => text,
        other => panic!("{other:?}"),
    };
    assert_eq!(text(Timestamp { secs: 0, nanos: 0 }), "1970-01-01T00:00:00Z");
    assert_eq!(
        text(Timestamp { secs: 1783706400, nanos: 5_000_000 }),
        "2026-07-10T18:00:00.005Z"
    );
    assert!(write_instant(Timestamp { secs: i64::MAX, nanos: 0 }).is_none());
    let early = Timestamp { secs: 1, nanos: 0 };
    let late = Timestamp { secs: 1, nanos: 1 };
    assert!(early.is_earlier(late));
    assert!(!late.is_earlier(early));
}

#[test]
fn json_is_read_with_its_numbers() {
    let value = parse_json(&br#"{"b":[1,-2,2.5],"a":null,"c":"x\n"}"#.to_vec()).expect("JSON");
    let members = match &value {
        Json::Object(members) => members,
        other => panic!("{other:?}"),
    };
    match find_member(members, "b").expect("b") {
        Json::List(items) => {
            assert!(matches!(items[0], Json::Unsigned(1)));
            assert!(matches!(items[1], Json::Negative(-2)));
            assert!(matches!(&items[2], Json::Other(text) if text == "2.5"));
        }
        other => panic!("{other:?}"),
    }
    assert!(matches!(find_member(members, "c").expect("c"), Json::Text(text) if text == "x\n"));
    assert!(find_member(members, "d").is_none());
    assert!(same_json(&value, &value.clone()));
    assert!(!same_json(&value, &Json::Null));
    assert!(parse_json(&b"{} {}".to_vec()).is_err());
}

#[test]
fn json_is_printed_in_the_order_of_its_members() {
    let value = Json::Object(vec![
        ("b".to_owned(), Json::List(vec![Json::Unsigned(1), Json::Negative(-2)])),
        ("a".to_owned(), Json::Text("x\n\"…".to_owned())),
    ]);
    let line = print_line(&value).expect("line");
    assert_eq!(
        String::from_utf8(line.clone()).unwrap(),
        "{\"b\":[1,-2],\"a\":\"x\\n\\\"…\"}\n"
    );
    assert!(same_json(&parse_json(&line).expect("read back"), &value));
    let lines = print_lines(&value).expect("lines");
    assert_eq!(
        String::from_utf8(lines.clone()).unwrap(),
        "{\n  \"b\": [\n    1,\n    -2\n  ],\n  \"a\": \"x\\n\\\"…\"\n}\n"
    );
    assert!(same_json(&parse_json(&lines).expect("read back"), &value));
}

#[test]
fn json_that_would_not_read_back_is_not_printed() {
    let twice = Json::Object(vec![
        ("a".to_owned(), Json::Null),
        ("a".to_owned(), Json::Bool(true)),
    ]);
    assert!(print_line(&twice).is_none());
    assert!(print_line(&Json::Other("1.0".to_owned())).is_none());
    assert!(print_lines(&Json::Negative(1)).is_none());
    let mut nested = Json::Null;
    for _ in 0..127 {
        nested = Json::List(vec![nested]);
    }
    let line = print_line(&nested).expect("deep");
    assert!(same_json(&parse_json(&line).expect("read back"), &nested));
    let deeper = Json::List(vec![nested]);
    assert!(print_line(&deeper).is_none());
}

#[test]
fn a_path_is_shortened_to_its_name() {
    assert_eq!(shortened_path("/work/tree"), "…/tree");
    assert_eq!(shortened_path("/"), "…");
    assert_eq!(shortened_worktree("…/tree"), "…/tree");
    assert_eq!(shortened_worktree(&shortened_worktree("/work/tree")), "…/tree");
    let replacements = vec![
        ("/work/tree/sub".to_owned(), "…/sub".to_owned()),
        ("/work/tree".to_owned(), "…/tree".to_owned()),
    ];
    assert_eq!(
        redact_message("in /work/tree/sub and /work/tree", &replacements),
        "in …/sub and …/tree"
    );
}

#[test]
fn commands_are_described() {
    let args = arguments(&vec!["status", "--short"]);
    assert_eq!(display_command("git", &args), "git status --short");
    let spec = CommandSpec::new("git").with_args(args).in_directory("/work");
    assert_eq!(spec.program, "git");
    assert_eq!(spec.args, ["status", "--short"]);
    assert_eq!(spec.cwd.as_deref(), Some("/work"));
    assert_eq!(
        text_from_utf8_output(&b" out \n".to_vec(), "git").expect("text"),
        "out"
    );
    assert!(text_from_utf8_output(&b"\xff".to_vec(), "git")
        .expect_err("no UTF-8")
        .contains("git"));
    let error = RunnerError::Spawn { program: "git".to_owned(), message: "gone".to_owned() };
    assert!(error.message().contains("git"));
    assert!(error.message().contains("gone"));
}

#[test]
fn documents_are_printed_in_one_line_and_read_back() {
    let refused = error_document("claim", "issue_claimed", "issue #7 is claimed", true);
    let line = print_line(&refused).expect("line");
    let read = parse_json(&line).expect("notation");
    assert!(same_json(&read, &refused));
    assert_eq!(line.iter().filter(|byte| **byte == b'\n').count(), 1);

    let report = ReleaseReport {
        issue: 7,
        claim_id: 5,
        already_released: false,
        worktree_deleted: false,
        branch_deleted: false,
        cleanup_pending: false,
    };
    let line = print_line(&release_document(&report)).expect("line");
    let text = String::from_utf8(line).expect("text");
    assert!(text.starts_with(
        "{\"schema_version\":\"0.1\",\"command\":\"release\",\"status\":\"success\",\"release\":{"
    ));
}

#[test]
fn paths_are_the_same_by_their_segments() {
    let paths = [
        "", ".", "./", "..", "/", "//", "/.", "/a", "/a/", "//a", "/a/.", "/./a", "/a//", "a", "./a",
        "a/.", "a/./b", "a/b", "a//b/", "a/../b", "/a/b", "/a/b/..", "../a", "./.", "././a",
    ];
    for a in paths {
        for b in paths {
            let same = std::path::Path::new(a) == std::path::Path::new(b);
            assert_eq!(is_same_path(a, b), same, "{a:?} and {b:?}");
        }
    }
}
