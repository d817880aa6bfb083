use codecrafters_shell::editor::{EditAction, LineEditor};
use codecrafters_shell::text::{contains_text, decimal_text, parse_count_text};

fn strings(words: &[&str]) -> Vec<String> {
    words.iter().map(|w| w.to_string()).collect()
}

fn type_text(editor: &mut LineEditor, text: &str) {
    for c in text.chars() {
        assert!(matches!(editor.on_char(c), EditAction::Echo(e) if e == c));
    }
}

#[test]
fn typing_and_erasing() {
    let mut e = LineEditor::new();
    type_text(&mut e, "ab");
    assert!(matches!(e.on_backspace(), EditAction::Erase));
    assert_eq!(e.line(), "a");
    assert!(matches!(e.on_backspace(), EditAction::Erase));
    assert!(matches!(e.on_backspace(), EditAction::Nothing));
    type_text(&mut e, "ls");
    assert!(matches!(e.on_enter(), EditAction::Submit(s) if s == "ls"));
}

#[test]
fn tab_completes_a_single_builtin() {
    let mut e = LineEditor::new();
    type_text(&mut e, "ec");
    assert!(matches!(e.on_tab(vec![]), EditAction::Rewrite(s) if s == "echo "));
    assert_eq!(e.line(), "echo ");
    assert!(matches!(e.on_tab(strings(&["echo2"])), EditAction::Nothing));
}

#[test]
fn tab_after_a_space_does_nothing() {
    let mut e = LineEditor::new();
    type_text(&mut e, "zz ");
    assert!(matches!(e.on_tab(strings(&["zzz"])), EditAction::Nothing));
    assert_eq!(e.line(), "zz ");
}

#[test]
fn tab_without_candidates_rings() {
    let mut e = LineEditor::new();
    type_text(&mut e, "qq");
    assert!(matches!(e.on_tab(strings(&["ls"])), EditAction::Bell));
}

#[test]
fn tab_completes_a_single_executable() {
    let mut e = LineEditor::new();
    type_text(&mut e, "gi");
    assert!(matches!(e.on_tab(strings(&["ls", "git"])), EditAction::Rewrite(s) if s == "git "));
}

#[test]
fn tab_on_equal_lengths_rings_then_lists_sorted() {
    let mut e = LineEditor::new();
    type_text(&mut e, "xy");
    let names = strings(&["xyb", "xya", "q"]);
    assert!(matches!(e.on_tab(names.clone()), EditAction::Bell));
    match e.on_tab(names) {
        EditAction::ShowCandidates(list, line) => {
            assert_eq!(list, strings(&["xya", "xyb"]));
            assert_eq!(line, "xy");
        }
        _ => panic!("expected the candidates"),
    }
}

#[test]
fn tab_cycles_shortest_first() {
    let mut e = LineEditor::new();
    type_text(&mut e, "ab");
    let names = strings(&["abcde", "abc", "abcd"]);
    assert!(matches!(e.on_tab(names.clone()), EditAction::Nothing));
    assert!(matches!(e.on_tab(names.clone()), EditAction::Rewrite(s) if s == "abc"));
    assert!(matches!(e.on_tab(names.clone()), EditAction::Rewrite(s) if s == "abcd"));
    assert!(matches!(e.on_tab(names.clone()), EditAction::Rewrite(s) if s == "abcde"));
    assert!(matches!(e.on_tab(names), EditAction::Rewrite(s) if s == "abc"));
}

#[test]
fn text_helpers() {
    assert!(contains_text("echo", "ch"));
    assert!(!contains_text("echo", "oe"));
    assert!(contains_text("", ""));
    assert_eq!(decimal_text(0), "0");
    assert_eq!(decimal_text(1907), "1907");
    assert_eq!(parse_count_text("+42"), Some(42));
    assert_eq!(parse_count_text("007"), Some(7));
    assert_eq!(parse_count_text(""), None);
    assert_eq!(parse_count_text("+"), None);
    assert_eq!(parse_count_text("4a"), None);
    assert_eq!(parse_count_text("-1"), None);
    assert_eq!(parse_count_text("18446744073709551616"), None);
}
