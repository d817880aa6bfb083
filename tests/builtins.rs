use codecrafters_shell::builtin_bodies::{builtin_type, echo, TYPE_MISSING_ARGUMENT, TYPE_NOT_FOUND};
use codecrafters_shell::builtin_commands::BuiltinCommand;
use codecrafters_shell::command::parse_user_input;
use codecrafters_shell::errors::{CustomError, ErrorExitCode};
use codecrafters_shell::history::{History, HistoryRequest};
use codecrafters_shell::utilities::{
    all_matching_commands_lcp_the_same, are_all_items_same_length,
    calculate_longest_common_prefix, common_prefix_count, find_matching_builtin,
    first_executable,
};

fn strings(words: &[&str]) -> Vec<String> {
    words.iter().map(|w| w.to_string()).collect()
}

#[test]
fn echo_joins_with_spaces() {
    assert_eq!(echo(&strings(&["a", "b  c"])), "a b  c\n");
    assert_eq!(echo(&[]), "\n");
}

#[test]
fn type_reports_builtins_executables_and_unknowns() {
    let r = builtin_type(&strings(&["echo"]), None);
    assert_eq!((r.stdout.as_str(), r.stderr.as_str(), r.exit_code), ("echo is a shell builtin\n", "", 0));
    let r = builtin_type(&strings(&["ls"]), Some("/bin/ls"));
    assert_eq!((r.stdout.as_str(), r.exit_code), ("ls is /bin/ls\n", 0));
    let r = builtin_type(&strings(&["nope"]), None);
    assert_eq!((r.stderr.as_str(), r.exit_code), ("nope: not found\n", TYPE_NOT_FOUND));
    let r = builtin_type(&[], None);
    assert_eq!(r.exit_code, TYPE_MISSING_ARGUMENT);
}

#[test]
fn matches_finds_substrings_in_registry_order() {
    assert_eq!(BuiltinCommand::matches("e"), strings(&["echo", "exit", "type"]));
    assert_eq!(BuiltinCommand::matches("x"), strings(&["exit"]));
    assert_eq!(BuiltinCommand::matches(""), strings(&["cd", "echo", "exit", "pwd", "type"]));
    assert!(BuiltinCommand::matches("zz").is_empty());
}

#[test]
fn resolve_and_is_builtin() {
    assert!(BuiltinCommand::resolve("cd".to_string(), vec![]).is_builtin());
    assert!(matches!(BuiltinCommand::resolve("pwd".to_string(), vec![]), BuiltinCommand::PWD));
    let r = BuiltinCommand::resolve("git".to_string(), strings(&["log"]));
    assert!(!r.is_builtin());
    assert!(matches!(r, BuiltinCommand::NotFound(n, a) if n == "git" && a == strings(&["log"])));
    let c = parse_user_input("exit 0".to_string(), "/h").unwrap().pop_front().unwrap();
    assert!(matches!(c.builtin_command(), BuiltinCommand::Exit));
    let c = parse_user_input("cd /tmp".to_string(), "/h").unwrap().pop_front().unwrap();
    assert!(matches!(c.builtin_command(), BuiltinCommand::ChangeDirectory(a) if a == strings(&["/tmp"])));
}

#[test]
fn find_matching_builtin_needs_exactly_one() {
    assert_eq!(find_matching_builtin("ec"), Some("echo".to_string()));
    assert_eq!(find_matching_builtin("e"), None);
    assert_eq!(find_matching_builtin("q"), None);
}

#[test]
fn common_prefix_count_counts_bytes_after_prefix() {
    assert_eq!(common_prefix_count("ec", "echo"), 2);
    assert_eq!(common_prefix_count("echoes", "echo"), 0);
    assert_eq!(common_prefix_count("a", "é"), 0);
}

#[test]
fn lcp_same_compares_first_and_last() {
    let v = vec![("a".to_string(), 2usize), ("b".to_string(), 5), ("c".to_string(), 2)];
    assert!(all_matching_commands_lcp_the_same(&v));
    assert!(!all_matching_commands_lcp_the_same(&v[..2]));
    assert!(!all_matching_commands_lcp_the_same(&v[..1]));
}

#[test]
fn same_length_check() {
    assert_eq!(are_all_items_same_length(&strings(&["ab", "cd"])).unwrap(), true);
    assert_eq!(are_all_items_same_length(&strings(&["ab", "c"])).unwrap(), false);
    assert!(matches!(are_all_items_same_length(&[]), Err(CustomError::EmptyList)));
}

#[test]
fn longest_common_prefix_pairs() {
    let r = calculate_longest_common_prefix("ab", &strings(&["abc", "a", "abde"]));
    assert_eq!(r, vec![(1, "abc".to_string()), (2, "abde".to_string())]);
}

#[test]
fn first_executable_takes_search_order() {
    assert_eq!(first_executable(&[0o644, 0o755, 0o700]), Some(1));
    assert_eq!(first_executable(&[0o640, 0o001]), Some(1));
    assert_eq!(first_executable(&[0o644]), None);
}

#[test]
fn error_messages_and_codes() {
    assert_eq!(CustomError::FilenameMissing.message(), "Error: missing filename");
    assert_eq!(CustomError::CommandNotFound("zz".to_string()).message(), "zz: Command not found");
    assert_eq!(CustomError::EmptyStage.message(), "Error: empty pipeline stage");
    assert_eq!(ErrorExitCode::new(3).code(), 3);
    assert_eq!(ErrorExitCode::new_const::<9>().code(), 9);
}

#[test]
fn history_browsing() {
    let mut h = History::new();
    h.add_line("one".to_string());
    h.add_line("two".to_string());
    assert_eq!(h.get_next_prompt(), None);
    assert_eq!(h.get_previous_prompt(), Some("two"));
    assert_eq!(h.get_previous_prompt(), Some("one"));
    assert_eq!(h.get_previous_prompt(), None);
    assert_eq!(h.get_next_prompt(), Some("one"));
    assert_eq!(h.get_next_prompt(), Some("two"));
    assert_eq!(h.get_next_prompt(), None);
    h.get_previous_prompt();
    h.reset_lookback();
    assert_eq!(h.get_next_prompt(), None);
}

#[test]
fn history_add_records_command_text() {
    let mut h = History::new();
    let c = parse_user_input("echo  a   b > f".to_string(), "/h").unwrap().pop_front().unwrap();
    h.add(&c);
    assert_eq!(h.commands, strings(&["echo a b"]));
}

#[test]
fn history_listing_and_options() {
    let mut h = History::new();
    for w in ["a", "b", "c"] {
        h.add_line(w.to_string());
    }
    assert_eq!(h.print(), "\t1  a\n\t2  b\n\t3  c\n");
    assert_eq!(h.print_n(2), "\t2  b\n\t3  c\n");
    assert_eq!(h.print_n(10), h.print());
    assert!(matches!(h.controller(&strings(&["+1"])), HistoryRequest::Show(t) if t == "\t3  c\n"));
    assert!(matches!(h.controller(&[]), HistoryRequest::Show(t) if t == h.print()));
    assert!(matches!(h.controller(&strings(&["-r", "f"])), HistoryRequest::Load(f) if f == "f"));
    assert!(matches!(h.controller(&strings(&["-w", "g"])), HistoryRequest::Save(f) if f == "g"));
    assert!(matches!(h.controller(&strings(&["-r"])), HistoryRequest::Fail(_, c) if c.code() == 1));
    assert!(matches!(h.controller(&strings(&["-w"])), HistoryRequest::Fail(_, c) if c.code() == 9));
    assert!(matches!(h.controller(&strings(&["-x"])), HistoryRequest::Fail(t, c)
        if c.code() == 5 && t.starts_with("Error: Unknown option -x\n")));
    assert!(matches!(h.controller(&strings(&["99999999999999999999999"])), HistoryRequest::Fail(_, _)));
}

#[test]
fn history_numbers_past_nine() {
    let mut h = History::new();
    for i in 0..12 {
        h.add_line(format!("c{i}"));
    }
    assert_eq!(h.print_n(1), "\t12  c11\n");
}
