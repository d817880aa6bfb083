//! The command model and the pipeline parser: words are split into stages on
//! `|`, and each stage's redirections are taken out of its words.
use vstd::prelude::*;
use vstd::string::*;
use std::collections::VecDeque;
use crate::builtin_commands::{resolve, BuiltinCommand};
use crate::errors::CustomError;
use crate::input_parser::{
    after_first_stage, first_stage, input_for_one_command, parse_input, tokenize, words,
};

verus! {

/// Where a stream of a command goes.
#[derive(Debug, Clone)]
pub enum Output {
    Standard,
    CreateFile(String),
    AppendFile(String),
}

/// The destination of a stream: the enclosing stream, or a file that is
/// truncated or appended to.
pub enum RedirectTarget {
    Inherit,
    CreateFile(Seq<char>),
    AppendFile(Seq<char>),
}

impl View for Output {
    type V = RedirectTarget;

    open spec fn view(&self) -> RedirectTarget {
        match self {
            Output::Standard => RedirectTarget::Inherit,
            Output::CreateFile(f) => RedirectTarget::CreateFile(f@),
            Output::AppendFile(f) => RedirectTarget::AppendFile(f@),
        }
    }
}

impl Output {
    pub fn is_standard(&self) -> (r: bool)
        ensures
            r == (self@ is Inherit),
    {
        matches!(self, Output::Standard)
    }
}

/// One pipeline stage: a command name, its arguments and where its standard
/// output and standard error go.
pub struct CommandModel {
    pub name: Seq<char>,
    pub arguments: Seq<Seq<char>>,
    pub stdout: RedirectTarget,
    pub stderr: RedirectTarget,
}

/// One stage of a pipeline, as parsed.
#[derive(Debug, Clone)]
pub struct Command {
    pub name: String,
    pub arguments: Vec<String>,
    pub standard_out: Output,
    pub standard_error: Output,
}

impl View for Command {
    type V = CommandModel;

    open spec fn view(&self) -> CommandModel {
        CommandModel {
            name: self.name@,
            arguments: self.arguments@.map_values(|a: String| a@),
            stdout: self.standard_out@,
            stderr: self.standard_error@,
        }
    }
}

/// The redirection operators.
#[derive(Debug, Clone, Copy, PartialEq, Eq, Structural)]
pub enum Redirect {
    StdoutCreate,
    StdoutAppend,
    StderrCreate,
    StderrAppend,
}

/// The operator that the word `t` stands for, if any.
pub open spec fn redirect_operator(t: Seq<char>) -> Option<Redirect> {
    if t == ">"@ || t == "1>"@ {
        Some(Redirect::StdoutCreate)
    } else if t == ">>"@ || t == "1>>"@ {
        Some(Redirect::StdoutAppend)
    } else if t == "2>"@ {
        Some(Redirect::StderrCreate)
    } else if t == "2>>"@ {
        Some(Redirect::StderrAppend)
    } else {
        None
    }
}

/// The standard output and standard error targets after `op` names `file`.
pub open spec fn apply_redirect(
    op: Redirect,
    file: Seq<char>,
    out: RedirectTarget,
    err: RedirectTarget,
) -> (RedirectTarget, RedirectTarget) {
    match op {
        Redirect::StdoutCreate => (RedirectTarget::CreateFile(file), err),
        Redirect::StdoutAppend => (RedirectTarget::AppendFile(file), err),
        Redirect::StderrCreate => (out, RedirectTarget::CreateFile(file)),
        Redirect::StderrAppend => (out, RedirectTarget::AppendFile(file)),
    }
}

/// Reads a stage's words left to right from the targets `out` and `err`: each
/// operator takes the word after it as its file, and the last one for a stream
/// wins; the other words are kept in order.
pub open spec fn extract(
    group: Seq<Seq<char>>,
    out: RedirectTarget,
    err: RedirectTarget,
) -> Result<(Seq<Seq<char>>, RedirectTarget, RedirectTarget), CustomError>
    decreases group.len(),
{
    if group.len() == 0 {
        Ok((Seq::empty(), out, err))
    } else {
        match redirect_operator(group[0]) {
            Some(op) => if group.len() < 2 {
                Err(CustomError::FilenameMissing)
            } else {
                let (o, e) = apply_redirect(op, group[1], out, err);
                extract(group.subrange(2, group.len() as int), o, e)
            },
            None => prepend_words(seq![group[0]], extract(group.drop_first(), out, err)),
        }
    }
}

/// `r` with `ws` put in front of its words.
pub open spec fn prepend_words(
    ws: Seq<Seq<char>>,
    r: Result<(Seq<Seq<char>>, RedirectTarget, RedirectTarget), CustomError>,
) -> Result<(Seq<Seq<char>>, RedirectTarget, RedirectTarget), CustomError> {
    match r {
        Ok((w, o, e)) => Ok((ws + w, o, e)),
        Err(x) => Err(x),
    }
}

/// The command of one stage: its first word that is not a redirection is the
/// name, the rest are the arguments.
pub open spec fn stage_model(group: Seq<Seq<char>>) -> Result<CommandModel, CustomError> {
    match extract(group, RedirectTarget::Inherit, RedirectTarget::Inherit) {
        Err(x) => Err(x),
        Ok((ws, o, e)) => if ws.len() == 0 {
            Err(CustomError::EmptyStage)
        } else {
            Ok(CommandModel { name: ws[0], arguments: ws.drop_first(), stdout: o, stderr: e })
        },
    }
}

/// The words split on `|` into stages, in order; `n` pipes give `n + 1` stages.
pub open spec fn split_stages(tokens: Seq<Seq<char>>) -> Seq<Seq<Seq<char>>>
    decreases tokens.len(),
{
    if tokens.len() == 0 {
        seq![Seq::empty()]
    } else {
        let rest = split_stages(tokens.drop_first());
        if tokens[0] == "|"@ {
            seq![Seq::empty()] + rest
        } else {
            rest.update(0, seq![tokens[0]] + rest[0])
        }
    }
}

/// The commands of the stages, or the first stage's error.
pub open spec fn parse_stages(groups: Seq<Seq<Seq<char>>>) -> Result<Seq<CommandModel>, CustomError>
    decreases groups.len(),
{
    if groups.len() == 0 {
        Ok(Seq::empty())
    } else {
        match stage_model(groups[0]) {
            Err(x) => Err(x),
            Ok(c) => prepend_commands(seq![c], parse_stages(groups.drop_first())),
        }
    }
}

/// `r` with `cs` put in front of its commands.
pub open spec fn prepend_commands(
    cs: Seq<CommandModel>,
    r: Result<Seq<CommandModel>, CustomError>,
) -> Result<Seq<CommandModel>, CustomError> {
    match r {
        Ok(rest) => Ok(cs + rest),
        Err(x) => Err(x),
    }
}

/// The pipeline of a line of input: no stages for a line without words.
pub open spec fn parse_line(line: Seq<char>, home: Seq<char>) -> Result<
    Seq<CommandModel>,
    CustomError,
> {
    let tokens = tokenize(line, home);
    if tokens.len() == 0 {
        Ok(Seq::empty())
    } else {
        parse_stages(split_stages(tokens))
    }
}

/// The commands of a parsed pipeline, as models.
pub open spec fn pipeline_view(r: Result<VecDeque<Command>, CustomError>) -> Result<
    Seq<CommandModel>,
    CustomError,
> {
    match r {
        Ok(q) => Ok(q@.map_values(|c: Command| c@)),
        Err(x) => Err(x),
    }
}

/// The operator that `t` stands for, if any.
pub fn redirect_operator_of(t: &String) -> (r: Option<Redirect>)
    ensures
        r == redirect_operator(t@),
{
    if *t == String::from_str(">") || *t == String::from_str("1>") {
        Some(Redirect::StdoutCreate)
    } else if *t == String::from_str(">>") || *t == String::from_str("1>>") {
        Some(Redirect::StdoutAppend)
    } else if *t == String::from_str("2>") {
        Some(Redirect::StderrCreate)
    } else if *t == String::from_str("2>>") {
        Some(Redirect::StderrAppend)
    } else {
        None
    }
}

proof fn lemma_prepend_words_twice(
    a: Seq<Seq<char>>,
    b: Seq<Seq<char>>,
    r: Result<(Seq<Seq<char>>, RedirectTarget, RedirectTarget), CustomError>,
)
    ensures
        prepend_words(a, prepend_words(b, r)) == prepend_words(a + b, r),
{
    match r {
        Ok((w, o, e)) => {
            assert(a + (b + w) =~= (a + b) + w);
        },
        Err(x) => {},
    }
}

impl Command {
    /// The builtin that this command resolves to, with its arguments.
    pub fn builtin_command(self) -> (r: BuiltinCommand)
        ensures
            r == resolve(self.name, self.arguments),
    {
        BuiltinCommand::resolve(self.name, self.arguments)
    }

    /// Parses one stage: `Ok(None)` when it holds no words at all.
    pub fn new(user_input: VecDeque<String>) -> (r: Result<Option<Self>, CustomError>)
        ensures
            words(user_input).len() == 0 ==> r matches Ok(None),
            words(user_input).len() > 0 ==> match stage_model(words(user_input)) {
                Ok(m) => r matches Ok(Some(c)) && c@ == m,
                Err(x) => r == Err::<Option<Self>, CustomError>(x),
            },
    {
        if user_input.len() == 0 {
            return Ok(None);
        }
        let (mut arguments, command_stdout, command_stderr) = match Self::extract_redirect(
            user_input,
        ) {
            Ok(t) => t,
            Err(x) => return Err(x),
        };
        if arguments.len() == 0 {
            return Err(CustomError::EmptyStage);
        }
        let ghost ws = arguments@;
        let command_name = arguments.remove(0);
        assert(arguments@.map_values(|a: String| a@) =~= ws.map_values(|a: String| a@).drop_first());
        Ok(
            Some(
                Self {
                    name: command_name,
                    arguments,
                    standard_out: command_stdout,
                    standard_error: command_stderr,
                },
            ),
        )
    }

    /// Takes the redirections out of a stage's words.
    pub fn extract_redirect(input: VecDeque<String>) -> (r: Result<
        (Vec<String>, Output, Output),
        CustomError,
    >)
        ensures
            match extract(words(input), RedirectTarget::Inherit, RedirectTarget::Inherit) {
                Ok((ws, o, e)) => r matches Ok((a, so, se)) && a@.map_values(|s: String| s@) == ws
                    && so@ == o && se@ == e,
                Err(x) => r is Err && r->Err_0 == x,
            },
    {
        let ghost start = words(input);
        let mut remaining = input;
        let mut arguments: Vec<String> = Vec::new();
        let mut standard_out_output = Output::Standard;
        let mut standard_error_output = Output::Standard;
        assert(arguments@.map_values(|s: String| s@) =~= Seq::<Seq<char>>::empty());
        assert(prepend_words(Seq::empty(), extract(start, RedirectTarget::Inherit, RedirectTarget::Inherit)) == extract(start, RedirectTarget::Inherit, RedirectTarget::Inherit)) by {
            match extract(start, RedirectTarget::Inherit, RedirectTarget::Inherit) {
                Ok((w, o, e)) => {
                    assert(Seq::<Seq<char>>::empty() + w =~= w);
                },
                Err(x) => {},
            }
        }
        loop
            invariant
                start == words(input),
                extract(start, RedirectTarget::Inherit, RedirectTarget::Inherit) == prepend_words(
                    arguments@.map_values(|s: String| s@),
                    extract(words(remaining), standard_out_output@, standard_error_output@),
                ),
            decreases remaining@.len(),
        {
            let ghost rest = words(remaining);
            let ghost done = arguments@.map_values(|s: String| s@);
            let argument = match remaining.pop_front() {
                None => {
                    assert(rest.len() == 0);
                    assert(done + Seq::empty() =~= done);
                    return Ok((arguments, standard_out_output, standard_error_output));
                },
                Some(a) => a,
            };
            assert(rest[0] == argument@);
            assert(rest.drop_first() =~= words(remaining));
            match redirect_operator_of(&argument) {
                Some(op) => {
                    let next_argument = match remaining.pop_front() {
                        None => {
                            return Err(CustomError::FilenameMissing);
                        },
                        Some(a) => a,
                    };
                    assert(rest[1] == next_argument@);
                    assert(rest.subrange(2, rest.len() as int) =~= words(remaining));
                    match op {
                        Redirect::StdoutCreate => {
                            standard_out_output = Output::CreateFile(next_argument);
                        },
                        Redirect::StdoutAppend => {
                            standard_out_output = Output::AppendFile(next_argument);
                        },
                        Redirect::StderrCreate => {
                            standard_error_output = Output::CreateFile(next_argument);
                        },
                        Redirect::StderrAppend => {
                            standard_error_output = Output::AppendFile(next_argument);
                        },
                    }
                },
                None => {
                    proof {
                        lemma_prepend_words_twice(
                            done,
                            seq![argument@],
                            extract(words(remaining), standard_out_output@, standard_error_output@),
                        );
                    }
                    arguments.push(argument);
                    assert(arguments@.map_values(|s: String| s@) =~= done + seq![argument@]);
                },
            }
        }
    }
}

/// Splitting on `|` takes the first stage off the front, and the rest of the
/// stages come from what follows its `|`.
pub proof fn lemma_split_front(t: Seq<Seq<char>>)
    ensures
        split_stages(t).len() >= 1,
        split_stages(t)[0] == first_stage(t),
        t.contains("|"@) ==> split_stages(t).drop_first() == split_stages(after_first_stage(t))
            && first_stage(t).len() + after_first_stage(t).len() + 1 == t.len(),
        !t.contains("|"@) ==> split_stages(t).len() == 1 && first_stage(t) == t
            && after_first_stage(t).len() == 0,
    decreases t.len(),
{
    if t.len() == 0 {
        assert(!t.contains("|"@));
    } else {
        let rest = t.drop_first();
        lemma_split_front(rest);
        if t[0] == "|"@ {
            assert(t.contains("|"@));
            assert((seq![Seq::<Seq<char>>::empty()] + split_stages(rest)).drop_first() =~= split_stages(rest));
        } else {
            assert(t.contains("|"@) <==> rest.contains("|"@)) by {
                if rest.contains("|"@) {
                    let i = choose|i: int| 0 <= i < rest.len() && rest[i] == "|"@;
                    assert(t[i + 1] == "|"@);
                }
                if t.contains("|"@) {
                    let i = choose|i: int| 0 <= i < t.len() && t[i] == "|"@;
                    assert(rest[i - 1] == "|"@);
                }
            }
            let sr = split_stages(rest);
            assert(sr.update(0, seq![t[0]] + sr[0]).drop_first() =~= sr.drop_first());
            if !t.contains("|"@) {
                assert(seq![t[0]] + rest =~= t);
            }
        }
    }
}

/// The commands of a queue, as models.
pub open spec fn models(q: VecDeque<Command>) -> Seq<CommandModel> {
    q@.map_values(|c: Command| c@)
}

/// Parses a line of input into the stages of a pipeline. A stage with no
/// command name, and a redirection with no file name, are errors; a line
/// without words gives no stages.
pub fn parse_user_input(user_input: String, home_directory: &str) -> (r: Result<
    VecDeque<Command>,
    CustomError,
>)
    ensures
        pipeline_view(r) == parse_line(user_input@, home_directory@),
{
    let ghost line = user_input@;
    let mut parsed_input = parse_input(user_input, home_directory);
    let mut commands: VecDeque<Command> = VecDeque::new();
    if parsed_input.len() == 0 {
        assert(models(commands) =~= Seq::<CommandModel>::empty());
        return Ok(commands);
    }
    let ghost tokens = words(parsed_input);
    let ghost target = parse_stages(split_stages(tokens));
    assert(prepend_commands(Seq::empty(), target) == target) by {
        match target {
            Ok(cs) => {
                assert(Seq::<CommandModel>::empty() + cs =~= cs);
            },
            Err(x) => {},
        }
    }
    assert(models(commands) =~= Seq::<CommandModel>::empty());
    loop
        invariant
            line == user_input@,
            target == parse_line(line, home_directory@),
            target == parse_stages(split_stages(tokens)),
            target == prepend_commands(models(commands), parse_stages(split_stages(words(parsed_input)))),
            pipeline_view(Ok(commands)) == Ok::<Seq<CommandModel>, CustomError>(models(commands)),
        decreases parsed_input@.len(),
    {
        let before_len = parsed_input.len();
        let ghost rest = words(parsed_input);
        let ghost done = models(commands);
        let command_input = input_for_one_command(&mut parsed_input);
        proof {
            lemma_split_front(rest);
        }
        let more = parsed_input.len() < before_len - command_input.len();
        assert(more <==> rest.contains("|"@));
        let ghost groups = split_stages(rest);
        assert(groups[0] == words(command_input));
        assert(parse_stages(groups) == match stage_model(groups[0]) {
            Err(x) => Err(x),
            Ok(c) => prepend_commands(seq![c], parse_stages(groups.drop_first())),
        });
        match Command::new(command_input) {
            Err(x) => {
                return Err(x);
            },
            Ok(None) => {
                assert(extract(words(command_input), RedirectTarget::Inherit, RedirectTarget::Inherit)
                    == Ok::<(Seq<Seq<char>>, RedirectTarget, RedirectTarget), CustomError>((Seq::empty(), RedirectTarget::Inherit, RedirectTarget::Inherit)));
                return Err(CustomError::EmptyStage);
            },
            Ok(Some(c)) => {
                let ghost cm = c@;
                commands.push_back(c);
                assert(models(commands) =~= done.push(cm));
                if !more {
                    assert(groups.drop_first().len() == 0);
                    assert(done + seq![cm] =~= done.push(cm));
                    assert(pipeline_view(Ok(commands)) == Ok::<Seq<CommandModel>, CustomError>(models(commands)));
                    return Ok(commands);
                }
                assert(target == prepend_commands(models(commands), parse_stages(split_stages(words(parsed_input))))) by {
                    match parse_stages(split_stages(words(parsed_input))) {
                        Ok(cs) => {
                            assert(done + (seq![cm] + cs) =~= done.push(cm) + cs);
                        },
                        Err(x) => {},
                    }
                }
            },
        }
    }
}

/// How many words of `t` are `|`.
pub open spec fn count_pipes(t: Seq<Seq<char>>) -> nat
    decreases t.len(),
{
    if t.len() == 0 {
        0
    } else {
        (if t[0] == "|"@ {
            1nat
        } else {
            0nat
        }) + count_pipes(t.drop_first())
    }
}

proof fn lemma_split_shape(t: Seq<Seq<char>>)
    ensures
        split_stages(t).len() == count_pipes(t) + 1,
        forall|i: int, j: int|
            0 <= i < split_stages(t).len() && 0 <= j < split_stages(t)[i].len() ==> split_stages(
                t,
            )[i][j] != "|"@,
    decreases t.len(),
{
    if t.len() > 0 {
        let rest = t.drop_first();
        lemma_split_shape(rest);
        let sr = split_stages(rest);
        if t[0] == "|"@ {
            let s = seq![Seq::<Seq<char>>::empty()] + sr;
            assert forall|i: int, j: int| 0 <= i < s.len() && 0 <= j < s[i].len() implies s[i][j]
                != "|"@ by {
                assert(s[i] == sr[i - 1]);
            }
        } else {
            let s = sr.update(0, seq![t[0]] + sr[0]);
            assert forall|i: int, j: int| 0 <= i < s.len() && 0 <= j < s[i].len() implies s[i][j]
                != "|"@ by {
                if i == 0 && j > 0 {
                    assert(s[0][j] == sr[0][j - 1]);
                }
            }
        }
    }
}

proof fn lemma_parse_stages_pointwise(groups: Seq<Seq<Seq<char>>>)
    requires
        parse_stages(groups) is Ok,
    ensures
        parse_stages(groups)->Ok_0.len() == groups.len(),
        forall|i: int|
            0 <= i < groups.len() ==> stage_model(groups[i]) == Ok::<CommandModel, CustomError>(
                parse_stages(groups)->Ok_0[i],
            ),
    decreases groups.len(),
{
    if groups.len() > 0 {
        let rest = groups.drop_first();
        lemma_parse_stages_pointwise(rest);
        let c = stage_model(groups[0])->Ok_0;
        let cs = parse_stages(rest)->Ok_0;
        assert forall|i: int| 0 <= i < groups.len() implies stage_model(groups[i]) == Ok::<
            CommandModel,
            CustomError,
        >(parse_stages(groups)->Ok_0[i]) by {
            if i > 0 {
                assert(groups[i] == rest[i - 1]);
                assert((seq![c] + cs)[i] == cs[i - 1]);
            }
        }
    }
}

proof fn lemma_extract_keeps_words(
    group: Seq<Seq<char>>,
    out: RedirectTarget,
    err: RedirectTarget,
)
    requires
        extract(group, out, err) is Ok,
    ensures
        forall|k: int|
            0 <= k < extract(group, out, err)->Ok_0.0.len() ==> group.contains(
                extract(group, out, err)->Ok_0.0[k],
            ),
    decreases group.len(),
{
    if group.len() > 0 {
        match redirect_operator(group[0]) {
            Some(op) => {
                let (o, e) = apply_redirect(op, group[1], out, err);
                let rest = group.subrange(2, group.len() as int);
                lemma_extract_keeps_words(rest, o, e);
                let ws = extract(group, out, err)->Ok_0.0;
                assert forall|k: int| 0 <= k < ws.len() implies group.contains(ws[k]) by {
                    let m = choose|m: int| 0 <= m < rest.len() && rest[m] == ws[k];
                    assert(group[m + 2] == ws[k]);
                }
            },
            None => {
                let rest = group.drop_first();
                lemma_extract_keeps_words(rest, out, err);
                let ws = extract(group, out, err)->Ok_0.0;
                let wr = extract(rest, out, err)->Ok_0.0;
                assert(ws == seq![group[0]] + wr);
                assert forall|k: int| 0 <= k < ws.len() implies group.contains(ws[k]) by {
                    if k == 0 {
                        assert(group[0] == ws[0]);
                    } else {
                        assert(ws[k] == wr[k - 1]);
                        let m = choose|m: int| 0 <= m < rest.len() && rest[m] == wr[k - 1];
                        assert(group[m + 1] == ws[k]);
                    }
                }
            },
        }
    }
}

/// A line of words with `n` pipes that parses gives `n + 1` commands, the
/// `i`-th built from the words between the `i`-th and the next pipe, and no
/// `|` is left as a command name or an argument.
pub proof fn lemma_pipeline_stages(line: Seq<char>, home: Seq<char>)
    requires
        tokenize(line, home).len() > 0,
        parse_line(line, home) is Ok,
    ensures
        ({
            let tokens = tokenize(line, home);
            let cs = parse_line(line, home)->Ok_0;
            &&& cs.len() == count_pipes(tokens) + 1
            &&& forall|i: int|
                0 <= i < cs.len() ==> stage_model(split_stages(tokens)[i]) == Ok::<
                    CommandModel,
                    CustomError,
                >(cs[i])
            &&& forall|i: int| 0 <= i < cs.len() ==> cs[i].name != "|"@
            &&& forall|i: int, j: int|
                0 <= i < cs.len() && 0 <= j < cs[i].arguments.len() ==> cs[i].arguments[j] != "|"@
        }),
{
    let tokens = tokenize(line, home);
    let groups = split_stages(tokens);
    let cs = parse_line(line, home)->Ok_0;
    lemma_split_shape(tokens);
    lemma_parse_stages_pointwise(groups);
    assert forall|i: int| 0 <= i < cs.len() implies cs[i].name != "|"@ && forall|j: int|
        0 <= j < cs[i].arguments.len() ==> cs[i].arguments[j] != "|"@ by {
        let g = groups[i];
        lemma_extract_keeps_words(g, RedirectTarget::Inherit, RedirectTarget::Inherit);
        let ws = extract(g, RedirectTarget::Inherit, RedirectTarget::Inherit)->Ok_0.0;
        assert(cs[i].name == ws[0]);
        let m = choose|m: int| 0 <= m < g.len() && g[m] == ws[0];
        assert forall|j: int| 0 <= j < cs[i].arguments.len() implies cs[i].arguments[j] != "|"@ by {
            assert(cs[i].arguments[j] == ws[j + 1]);
            let m2 = choose|m2: int| 0 <= m2 < g.len() && g[m2] == ws[j + 1];
        }
    }
}

/// Parsing is repeatable: two parses of the same line, with the same home
/// directory, give the same pipeline or the same error.
pub proof fn lemma_parse_repeatable(
    line: Seq<char>,
    home: Seq<char>,
    first: Result<VecDeque<Command>, CustomError>,
    second: Result<VecDeque<Command>, CustomError>,
)
    requires
        pipeline_view(first) == parse_line(line, home),
        pipeline_view(second) == parse_line(line, home),
    ensures
        pipeline_view(first) == pipeline_view(second),
{
}

} // verus!
