use codecrafters_shell::command::{parse_user_input, Command, Output};
use codecrafters_shell::errors::CustomError;
use codecrafters_shell::input_parser::{input_for_one_command, parse_input};
use std::collections::VecDeque;

fn tokens(line: &str) -> Vec<String> {
    parse_input(line.to_string(), "/home/me").into_iter().collect()
}

fn strings(words: &[&str]) -> Vec<String> {
    words.iter().map(|w| w.to_string()).collect()
}

#[test]
fn single_quoted_word_is_one_token() {
    assert_eq!(tokens("'a \\\"b~ c'"), strings(&["a \\\"b~ c"]));
    assert_eq!(tokens("'x'"), strings(&["x"]));
}

#[test]
fn single_quotes_keep_inner_whitespace() {
    assert_eq!(tokens("echo 'a   b'"), strings(&["echo", "a   b"]));
}

#[test]
fn escaped_double_quote_inside_double_quotes() {
    assert_eq!(tokens("echo \"a\\\"b\""), strings(&["echo", "a\"b"]));
}

#[test]
fn backslash_in_double_quotes_kept_before_other_characters() {
    assert_eq!(tokens("\"a\\nb\\\\c\""), strings(&["a\\nb\\c"]));
}

#[test]
fn backslash_outside_quotes_escapes_blank() {
    assert_eq!(tokens("a\\ b c"), strings(&["a b", "c"]));
}

#[test]
fn tilde_expands_outside_single_quotes() {
    assert_eq!(tokens("cd ~/x '~' \"~\""), strings(&["cd", "/home/me/x", "~", "/home/me"]));
}

#[test]
fn runs_of_blanks_give_no_empty_tokens() {
    assert_eq!(tokens("   a \t  b   "), strings(&["a", "b"]));
    assert_eq!(tokens(""), Vec::<String>::new());
    assert_eq!(tokens("''"), Vec::<String>::new());
}

#[test]
fn adjacent_quoted_parts_join() {
    assert_eq!(tokens("a'b c'\"d\""), strings(&["ab cd"]));
}

#[test]
fn one_command_taken_off_the_front() {
    let mut q: VecDeque<String> = strings(&["a", "b", "|", "c"]).into_iter().collect();
    let first = input_for_one_command(&mut q);
    assert_eq!(first.into_iter().collect::<Vec<_>>(), strings(&["a", "b"]));
    assert_eq!(q.into_iter().collect::<Vec<_>>(), strings(&["c"]));
}

fn parse(line: &str) -> Result<Vec<Command>, CustomError> {
    parse_user_input(line.to_string(), "/home/me").map(|q| q.into_iter().collect())
}

#[test]
fn three_stage_pipeline_in_order() {
    let cs = parse("cmd1 a | cmd2 | cmd3 b c").unwrap();
    assert_eq!(cs.len(), 3);
    assert_eq!(cs[0].name, "cmd1");
    assert_eq!(cs[1].name, "cmd2");
    assert_eq!(cs[2].name, "cmd3");
    assert_eq!(cs[0].arguments, strings(&["a"]));
    assert!(cs[1].arguments.is_empty());
    assert_eq!(cs[2].arguments, strings(&["b", "c"]));
    for c in &cs {
        assert!(c.arguments.iter().all(|a| a != "|"));
    }
}

#[test]
fn redirections_are_taken_out() {
    let cs = parse("ls -l > out.txt 2>> err.log").unwrap();
    assert_eq!(cs.len(), 1);
    assert_eq!(cs[0].name, "ls");
    assert_eq!(cs[0].arguments, strings(&["-l"]));
    assert!(matches!(&cs[0].standard_out, Output::CreateFile(f) if f == "out.txt"));
    assert!(matches!(&cs[0].standard_error, Output::AppendFile(f) if f == "err.log"));
}

#[test]
fn every_redirect_operator() {
    let cs = parse("a 1> f1 | b >> f2 | c 1>> f3 2> f4").unwrap();
    assert!(matches!(&cs[0].standard_out, Output::CreateFile(f) if f == "f1"));
    assert!(matches!(&cs[1].standard_out, Output::AppendFile(f) if f == "f2"));
    assert!(matches!(&cs[2].standard_out, Output::AppendFile(f) if f == "f3"));
    assert!(matches!(&cs[2].standard_error, Output::CreateFile(f) if f == "f4"));
    assert!(cs[0].standard_error.is_standard());
}

#[test]
fn last_redirect_for_a_stream_wins() {
    let cs = parse("echo hi > a > b").unwrap();
    assert!(matches!(&cs[0].standard_out, Output::CreateFile(f) if f == "b"));
    assert_eq!(cs[0].arguments, strings(&["hi"]));
}

#[test]
fn redirect_before_the_name() {
    let cs = parse("> out echo hi").unwrap();
    assert_eq!(cs[0].name, "echo");
    assert_eq!(cs[0].arguments, strings(&["hi"]));
    assert!(matches!(&cs[0].standard_out, Output::CreateFile(f) if f == "out"));
}

#[test]
fn missing_filename_is_an_error() {
    assert!(matches!(parse("echo hi >"), Err(CustomError::FilenameMissing)));
    assert!(matches!(parse("echo hi 2>> | cat"), Err(CustomError::FilenameMissing)));
}

#[test]
fn empty_stage_is_an_error() {
    assert!(matches!(parse("| cat"), Err(CustomError::EmptyStage)));
    assert!(matches!(parse("a | | b"), Err(CustomError::EmptyStage)));
    assert!(matches!(parse("a |"), Err(CustomError::EmptyStage)));
    assert!(matches!(parse("> out"), Err(CustomError::EmptyStage)));
}

#[test]
fn blank_line_gives_no_stages() {
    assert!(parse("   ").unwrap().is_empty());
}

#[test]
fn parsing_twice_gives_the_same_pipeline() {
    let line = "echo 'a  b' | grep \"x\\\"y\" > out 2>> err";
    let a = parse(line).unwrap();
    let b = parse(line).unwrap();
    assert_eq!(a.len(), b.len());
    for (x, y) in a.iter().zip(b.iter()) {
        assert_eq!(x.name, y.name);
        assert_eq!(x.arguments, y.arguments);
        assert_eq!(format!("{:?}", x.standard_out), format!("{:?}", y.standard_out));
        assert_eq!(format!("{:?}", x.standard_error), format!("{:?}", y.standard_error));
    }
}

#[test]
fn extract_redirect_keeps_words_in_order() {
    let q: VecDeque<String> = strings(&["a", "2>", "e", "b"]).into_iter().collect();
    let (args, out, err) = Command::extract_redirect(q).unwrap();
    assert_eq!(args, strings(&["a", "b"]));
    assert!(out.is_standard());
    assert!(matches!(err, Output::CreateFile(f) if f == "e"));
}

#[test]
fn command_new_on_empty_group_is_none() {
    assert!(matches!(Command::new(VecDeque::new()), Ok(None)));
}
