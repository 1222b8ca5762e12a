//! The text helpers, held against the standard library on the same inputs.

use std::path::Path;

use sync_common::git::GitOps;
use sync_common::tasks::{help_text, select_task, TaskChoice};
use sync_common::text::{
    chars_of, is_whitespace_char, join_path, split_lines, string_of, strip_prefix, trim,
};

const SAMPLES: [&str; 24] = [
    "",
    " ",
    "\n",
    "\r\n",
    "\r",
    "abc",
    "abc\n",
    "abc\r\n",
    "abc\r",
    "  abc  ",
    "\t\n abc def \r\n",
    "a\nb",
    "a\n\nb\n",
    "a\r\nb\r\n",
    "a\rb\n",
    "a\r\r\nb",
    "\n\n\n",
    "\na",
    "common/file1.txt\ncommon/file2.txt",
    "common/file1.txt\ncommon/file2.txt\n",
    "\u{a0}x\u{3000}",
    "\u{2003}caf\u{e9} \u{1f600}\u{2028}",
    "\u{85}\u{1680}z\u{200a}\u{202f}\u{205f}",
    "\u{200b}zero width is no space\u{feff}",
];

#[test]
fn whitespace_is_what_std_calls_whitespace() {
    for code in 0..=0x10FFFFu32 {
        if let Some(c) = char::from_u32(code) {
            assert_eq!(is_whitespace_char(c), c.is_whitespace(), "U+{:04X}", code);
        }
    }
}

#[test]
fn trim_agrees_with_std() {
    for sample in SAMPLES {
        assert_eq!(trim(sample), sample.trim(), "{:?}", sample);
    }
    assert_eq!(trim("  abc123 \n"), "abc123");
    assert_eq!(trim(" a b "), "a b");
    assert_eq!(trim(" \t\r\n"), "");
}

#[test]
fn split_lines_agrees_with_std() {
    for sample in SAMPLES {
        let expected: Vec<String> = sample.lines().map(|line| line.to_string()).collect();
        assert_eq!(split_lines(sample), expected, "{:?}", sample);
    }
    assert_eq!(split_lines("a\r\nb\n\nc"), vec!["a", "b", "", "c"]);
    assert_eq!(split_lines("a\n"), vec!["a"]);
    assert_eq!(split_lines("a\r"), vec!["a\r"]);
    assert_eq!(split_lines("\n"), vec![""]);
    assert!(split_lines("").is_empty());
}

#[test]
fn strip_prefix_agrees_with_std() {
    let prefixes = ["", "a", "abc", "common/", "\n", " ", "\u{a0}", "a\n"];
    for sample in SAMPLES {
        for prefix in prefixes {
            let expected = sample.strip_prefix(prefix).map(|rest| rest.to_string());
            assert_eq!(strip_prefix(sample, prefix), expected, "{:?} {:?}", sample, prefix);
        }
    }
    assert_eq!(strip_prefix("common/a/b.txt", "common/"), Some("a/b.txt".to_string()));
    assert_eq!(strip_prefix("common", "common/"), None);
    assert_eq!(strip_prefix("uncommon/a", "common/"), None);
    assert_eq!(strip_prefix("common/", "common/"), Some(String::new()));
}

#[test]
fn join_path_agrees_with_std() {
    let bases = ["", "/", "a", "a/", "/a/b", "/a/b/", "rel/dir", ".", "caf\u{e9}"];
    let names = ["", "common", "x/y.txt", "/abs", "/", ".hidden", "n\u{e9}"];
    for base in bases {
        for name in names {
            let expected = Path::new(base).join(name);
            assert_eq!(
                join_path(base, name),
                expected.to_str().unwrap(),
                "{:?} {:?}",
                base,
                name
            );
        }
    }
    assert_eq!(join_path("/work/infra", "common"), "/work/infra/common");
    assert_eq!(join_path("/work/infra/", "common"), "/work/infra/common");
    assert_eq!(join_path("", "common"), "common");
    assert_eq!(join_path("/work", "/etc/passwd"), "/etc/passwd");
}

#[test]
fn chars_and_strings_convert_both_ways() {
    for sample in SAMPLES {
        let chars = chars_of(sample);
        let expected: Vec<char> = sample.chars().collect();
        assert_eq!(chars, expected);
        assert_eq!(string_of(&chars, 0, chars.len()), sample);
    }
    let chars = chars_of("h\u{e9}llo");
    assert_eq!(string_of(&chars, 1, 3), "\u{e9}l");
    assert_eq!(string_of(&chars, 2, 2), "");
}

#[test]
fn deleted_files_are_the_non_empty_lines() {
    assert_eq!(
        GitOps::get_deleted_files("common/file2.txt\ncommon/dir/old.sh"),
        vec!["common/file2.txt", "common/dir/old.sh"]
    );
    assert_eq!(GitOps::get_deleted_files("common/file2.txt\n"), vec!["common/file2.txt"]);
    assert_eq!(GitOps::get_deleted_files("\n\na\r\n\nb\n\n"), vec!["a", "b"]);
    assert_eq!(GitOps::get_deleted_files(" \n"), vec![" "]);
    assert!(GitOps::get_deleted_files("").is_empty());
    assert!(GitOps::get_deleted_files("\n").is_empty());
    for sample in SAMPLES {
        let expected: Vec<String> =
            sample.lines().map(|s| s.to_string()).filter(|s| !s.is_empty()).collect();
        assert_eq!(GitOps::get_deleted_files(sample), expected, "{:?}", sample);
    }
}

#[test]
fn exit_code_of_quiet_diff() {
    assert_eq!(GitOps::has_changes(0), Some(false));
    assert_eq!(GitOps::has_changes(1), Some(true));
    assert_eq!(GitOps::has_changes(2), None);
    assert_eq!(GitOps::has_changes(128), None);
    assert_eq!(GitOps::has_changes(-1), None);
}

#[test]
fn task_is_chosen_by_name() {
    let names = vec!["build".to_string(), "test".to_string(), "build".to_string()];
    assert_eq!(select_task(&names, Some("build")), TaskChoice::Run(0));
    assert_eq!(select_task(&names, Some("test")), TaskChoice::Run(1));
    assert_eq!(select_task(&names, Some("deploy")), TaskChoice::Help);
    assert_eq!(select_task(&names, Some("")), TaskChoice::Help);
    assert_eq!(select_task(&names, None), TaskChoice::Help);
}

#[test]
fn empty_registry_always_helps() {
    let names: Vec<String> = Vec::new();
    assert_eq!(select_task(&names, Some("anything")), TaskChoice::Help);
    assert_eq!(select_task(&names, None), TaskChoice::Help);
    assert_eq!(help_text(&names), "Available tasks:\n");
}

#[test]
fn help_lists_each_task() {
    let names = vec!["build".to_string(), "test".to_string()];
    assert_eq!(help_text(&names), "Available tasks:\n  build\n  test\n");
}
