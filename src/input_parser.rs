//! The tokenizer: turns a raw input line into words, honouring quotes,
//! backslash escapes and tilde expansion.
use vstd::prelude::*;
use vstd::string::*;
use std::collections::VecDeque;
use crate::text::{chars_of, push_char};

verus! {

/// Where the tokenizer stands between two characters.
#[derive(Debug, Clone, Copy, PartialEq, Eq, Structural)]
pub enum ProcessInputState {
    Escaping,
    InsideSingleQuotes,
    InsideDoubleQuotes,
    InsideDoubleQuotesEscaping,
    Normal,
}

impl ProcessInputState {
    pub fn inside_quotes(&self) -> (r: bool)
        ensures
            r == (*self == ProcessInputState::InsideSingleQuotes || *self
                == ProcessInputState::InsideDoubleQuotes),
    {
        matches!(self, Self::InsideSingleQuotes) || matches!(self, Self::InsideDoubleQuotes)
    }

    pub fn to_normal(&mut self)
        ensures
            *final(self) == ProcessInputState::Normal,
    {
        *self = Self::Normal;
    }

    pub fn to_double_quoting(&mut self)
        ensures
            *final(self) == ProcessInputState::InsideDoubleQuotes,
    {
        *self = Self::InsideDoubleQuotes;
    }

    pub fn to_double_quote_escaping(&mut self)
        ensures
            *final(self) == ProcessInputState::InsideDoubleQuotesEscaping,
    {
        *self = Self::InsideDoubleQuotesEscaping;
    }

    pub fn to_single_quoting(&mut self)
        ensures
            *final(self) == ProcessInputState::InsideSingleQuotes,
    {
        *self = Self::InsideSingleQuotes;
    }

    pub fn to_escaping(&mut self)
        ensures
            *final(self) == ProcessInputState::Escaping,
    {
        *self = Self::Escaping;
    }
}

/// The tokenizer's state after a prefix of the line: the quoting state, the
/// word being built and the words already finished.
pub struct Scan {
    pub state: ProcessInputState,
    pub current: Seq<char>,
    pub tokens: Seq<Seq<char>>,
}

/// Characters that separate words outside quotes.
pub open spec fn is_blank(c: char) -> bool {
    c == ' ' || c == '\t' || c == '\n' || c == '\r' || c == '\x0C'
}

/// The finished words once `current` is closed; an empty word is dropped.
pub open spec fn flush(current: Seq<char>, tokens: Seq<Seq<char>>) -> Seq<Seq<char>> {
    if current.len() > 0 {
        tokens.push(current)
    } else {
        tokens
    }
}

/// One transition of the tokenizer on the character `c`; `home` replaces a tilde.
pub open spec fn step(m: Scan, c: char, home: Seq<char>) -> Scan {
    let cur = m.current;
    let toks = m.tokens;
    match m.state {
        ProcessInputState::Escaping => Scan {
            state: ProcessInputState::Normal,
            current: cur.push(c),
            tokens: toks,
        },
        ProcessInputState::InsideSingleQuotes => if c == '\'' {
            Scan { state: ProcessInputState::Normal, current: cur, tokens: toks }
        } else {
            Scan { state: ProcessInputState::InsideSingleQuotes, current: cur.push(c), tokens: toks }
        },
        ProcessInputState::InsideDoubleQuotes => if c == '"' {
            Scan { state: ProcessInputState::Normal, current: cur, tokens: toks }
        } else if c == '\\' {
            Scan { state: ProcessInputState::InsideDoubleQuotesEscaping, current: cur, tokens: toks }
        } else if c == '~' {
            Scan { state: ProcessInputState::InsideDoubleQuotes, current: cur + home, tokens: toks }
        } else {
            Scan { state: ProcessInputState::InsideDoubleQuotes, current: cur.push(c), tokens: toks }
        },
        ProcessInputState::InsideDoubleQuotesEscaping => if c == '"' || c == '\\' {
            Scan { state: ProcessInputState::InsideDoubleQuotes, current: cur.push(c), tokens: toks }
        } else {
            Scan {
                state: ProcessInputState::InsideDoubleQuotes,
                current: cur.push('\\').push(c),
                tokens: toks,
            }
        },
        ProcessInputState::Normal => if c == '\\' {
            Scan { state: ProcessInputState::Escaping, current: cur, tokens: toks }
        } else if c == '\'' {
            Scan { state: ProcessInputState::InsideSingleQuotes, current: cur, tokens: toks }
        } else if c == '"' {
            Scan { state: ProcessInputState::InsideDoubleQuotes, current: cur, tokens: toks }
        } else if c == '~' {
            Scan { state: ProcessInputState::Normal, current: cur + home, tokens: toks }
        } else if is_blank(c) {
            Scan { state: ProcessInputState::Normal, current: Seq::empty(), tokens: flush(cur, toks) }
        } else {
            Scan { state: ProcessInputState::Normal, current: cur.push(c), tokens: toks }
        },
    }
}

/// The tokenizer's state after reading all of `line`.
pub open spec fn scan(line: Seq<char>, home: Seq<char>) -> Scan
    decreases line.len(),
{
    if line.len() == 0 {
        Scan { state: ProcessInputState::Normal, current: Seq::empty(), tokens: Seq::empty() }
    } else {
        step(scan(line.drop_last(), home), line.last(), home)
    }
}

/// The words of `line`, with `home` as the expansion of a tilde.
pub open spec fn tokenize(line: Seq<char>, home: Seq<char>) -> Seq<Seq<char>> {
    let m = scan(line, home);
    flush(m.current, m.tokens)
}

/// What a queue of strings holds, as character sequences.
pub open spec fn words(q: VecDeque<String>) -> Seq<Seq<char>> {
    q@.map_values(|w: String| w@)
}

/// Splits `input` into words. Outside quotes, blanks separate words and a
/// backslash takes the next character literally; single quotes keep every
/// character; inside double quotes a backslash escapes only `"` and `\`. A tilde
/// outside single quotes becomes `home_directory`.
pub fn parse_input(input: String, home_directory: &str) -> (r: VecDeque<String>)
    ensures
        words(r) == tokenize(input@, home_directory@),
{
    let chars = chars_of(input.as_str());
    let ghost line = input@;
    let ghost home = home_directory@;
    let mut result: VecDeque<String> = VecDeque::new();
    let mut current_argument = String::new();
    let mut state = ProcessInputState::Normal;
    for i in 0..chars.len()
        invariant
            chars@ == line,
            home == home_directory@,
            state == scan(line.subrange(0, i as int), home).state,
            current_argument@ == scan(line.subrange(0, i as int), home).current,
            words(result) == scan(line.subrange(0, i as int), home).tokens,
    {
        let argument_char = chars[i];
        proof {
            let p = line.subrange(0, i + 1);
            assert(p.drop_last() =~= line.subrange(0, i as int));
            assert(p.last() == argument_char);
        }
        match state {
            ProcessInputState::Escaping => {
                push_char(&mut current_argument, argument_char);
                state.to_normal();
            },
            ProcessInputState::InsideSingleQuotes => {
                if argument_char == '\'' {
                    state.to_normal();
                } else {
                    push_char(&mut current_argument, argument_char);
                }
            },
            ProcessInputState::InsideDoubleQuotes => {
                if argument_char == '"' {
                    state.to_normal();
                } else if argument_char == '\\' {
                    state.to_double_quote_escaping();
                } else if argument_char == '~' {
                    current_argument.append(home_directory);
                } else {
                    push_char(&mut current_argument, argument_char);
                }
            },
            ProcessInputState::InsideDoubleQuotesEscaping => {
                if argument_char != '"' && argument_char != '\\' {
                    push_char(&mut current_argument, '\\');
                }
                push_char(&mut current_argument, argument_char);
                state.to_double_quoting();
            },
            ProcessInputState::Normal => {
                if argument_char == '\\' {
                    state.to_escaping();
                } else if argument_char == '\'' {
                    state.to_single_quoting();
                } else if argument_char == '"' {
                    state.to_double_quoting();
                } else if argument_char == '~' {
                    current_argument.append(home_directory);
                } else if argument_char == ' ' || argument_char == '\t' || argument_char == '\n'
                    || argument_char == '\r' || argument_char == '\x0C' {
                    if current_argument.unicode_len() > 0 {
                        let ghost before = result;
                        result.push_back(current_argument);
                        proof {
                            assert(words(result) =~= words(before).push(current_argument@));
                        }
                    }
                    current_argument = String::new();
                } else {
                    push_char(&mut current_argument, argument_char);
                }
            },
        }
    }
    assert(line.subrange(0, chars.len() as int) =~= line);
    if current_argument.unicode_len() > 0 {
        let ghost before = result;
        result.push_back(current_argument);
        proof {
            assert(words(result) =~= words(before).push(current_argument@));
        }
    }
    result
}

/// Inside single quotes every character but the closing quote is kept as it is.
proof fn lemma_scan_inside_single_quotes(word: Seq<char>, k: int, home: Seq<char>)
    requires
        0 <= k <= word.len(),
        !word.contains('\''),
    ensures
        scan(seq!['\''] + word.subrange(0, k), home) == (Scan {
            state: ProcessInputState::InsideSingleQuotes,
            current: word.subrange(0, k),
            tokens: Seq::empty(),
        }),
    decreases k,
{
    let line = seq!['\''] + word.subrange(0, k);
    if k == 0 {
        assert(word.subrange(0, 0) =~= Seq::<char>::empty());
        assert(line.drop_last() =~= Seq::<char>::empty());
        assert(line.last() == '\'');
        assert(scan(line.drop_last(), home) == scan(Seq::<char>::empty(), home));
        assert(scan(line, home) == step(scan(line.drop_last(), home), line.last(), home));
    } else {
        lemma_scan_inside_single_quotes(word, k - 1, home);
        assert(line.drop_last() =~= seq!['\''] + word.subrange(0, k - 1));
        assert(line.last() == word[k - 1]);
        if word[k - 1] == '\'' {
            assert(word.contains('\''));
        }
        assert(word.subrange(0, k - 1).push(word[k - 1]) =~= word.subrange(0, k));
        assert(scan(line, home) == step(scan(line.drop_last(), home), line.last(), home));
    }
}

/// A non-empty word without single quotes, wrapped in single quotes, is read
/// back as exactly that one word, whatever it holds (no escapes, no expansion,
/// blanks kept).
pub proof fn lemma_single_quoted_word(word: Seq<char>, home: Seq<char>)
    requires
        word.len() > 0,
        !word.contains('\''),
    ensures
        tokenize(seq!['\''] + word + seq!['\''], home) == seq![word],
{
    let line = seq!['\''] + word + seq!['\''];
    lemma_scan_inside_single_quotes(word, word.len() as int, home);
    assert(word.subrange(0, word.len() as int) =~= word);
    assert(line.drop_last() =~= seq!['\''] + word.subrange(0, word.len() as int));
    assert(Seq::<Seq<char>>::empty().push(word) =~= seq![word]);
}

/// The words of one pipeline stage: those before the first `|`, or all of them.
pub open spec fn first_stage(tokens: Seq<Seq<char>>) -> Seq<Seq<char>>
    decreases tokens.len(),
{
    if tokens.len() == 0 || tokens[0] == "|"@ {
        Seq::empty()
    } else {
        seq![tokens[0]] + first_stage(tokens.drop_first())
    }
}

/// The words left after the first stage and its `|` have been taken.
pub open spec fn after_first_stage(tokens: Seq<Seq<char>>) -> Seq<Seq<char>>
    decreases tokens.len(),
{
    if tokens.len() == 0 {
        Seq::empty()
    } else if tokens[0] == "|"@ {
        tokens.drop_first()
    } else {
        after_first_stage(tokens.drop_first())
    }
}

/// Takes the words of the first stage off the front of `user_input`, and the
/// `|` that ends it.
pub fn input_for_one_command(user_input: &mut VecDeque<String>) -> (r: VecDeque<String>)
    ensures
        words(r) == first_stage(words(*old(user_input))),
        words(*final(user_input)) == after_first_stage(words(*old(user_input))),
{
    let ghost start = words(*user_input);
    let mut single_command_input: VecDeque<String> = VecDeque::new();
    let pipe = String::from_str("|");
    loop
        invariant_except_break
            first_stage(start) == words(single_command_input) + first_stage(words(*user_input)),
            after_first_stage(start) == after_first_stage(words(*user_input)),
        invariant
            pipe@ == "|"@,
        ensures
            words(single_command_input) == first_stage(start),
            words(*user_input) == after_first_stage(start),
        decreases user_input@.len(),
    {
        let ghost rest = words(*user_input);
        match user_input.pop_front() {
            None => {
                assert(rest.len() == 0);
                assert(words(single_command_input) + Seq::empty() =~= words(single_command_input));
                break;
            },
            Some(input_fragment) => {
                assert(rest[0] == input_fragment@);
                assert(rest.drop_first() =~= words(*user_input));
                if input_fragment == pipe {
                    assert(words(single_command_input) + Seq::empty() =~= words(single_command_input));
                    break;
                }
                let ghost before = words(single_command_input);
                single_command_input.push_back(input_fragment);
                assert(words(single_command_input) =~= before.push(input_fragment@));
                assert(before + first_stage(rest) =~= words(single_command_input)
                    + first_stage(words(*user_input)));
            },
        }
    }
    single_command_input
}

} // verus!
