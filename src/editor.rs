//! The decisions of the line editor: what each key does to the line being
//! typed, and how tab completion proceeds. The caller reads the keys, finds the
//! completion candidates and draws on the terminal.
use vstd::prelude::*;
use vstd::string::*;
use crate::builtin_commands::{matching_builtins, BuiltinCommand};
use crate::text::{begins_with, push_char, starts_with_text};
use crate::utilities::{
    are_all_items_same_length, calculate_longest_common_prefix, completion_entries, same_lengths,
};

verus! {

/// What the caller does on the terminal after a key.
pub enum EditAction {
    /// Nothing to draw.
    Nothing,
    /// Show this character after the cursor.
    Echo(char),
    /// Erase the character before the cursor.
    Erase,
    /// Redraw the prompt followed by this line.
    Rewrite(String),
    /// Ring the terminal bell.
    Bell,
    /// List these candidates on a line of their own, then redraw the prompt
    /// and this line.
    ShowCandidates(Vec<String>, String),
    /// The line is complete.
    Submit(String),
}

/// The editor as seen by the proofs.
pub struct EditorModel {
    pub input: Seq<char>,
    pub in_command: bool,
    pub bell_armed: bool,
    pub cycle: Seq<Seq<char>>,
    pub cycle_index: nat,
}

/// The line being typed and the state of tab completion.
pub struct LineEditor {
    input: String,
    in_command: bool,
    bell_armed: bool,
    cycle: Vec<String>,
    cycle_index: usize,
}

/// `word` followed by a space.
pub open spec fn completed(word: Seq<char>) -> Seq<char> {
    word.push(' ')
}

impl View for LineEditor {
    type V = EditorModel;

    closed spec fn view(&self) -> EditorModel {
        EditorModel {
            input: self.input@,
            in_command: self.in_command,
            bell_armed: self.bell_armed,
            cycle: self.cycle@.map_values(|s: String| s@),
            cycle_index: self.cycle_index as nat,
        }
    }
}

impl LineEditor {
    /// An empty line, with the cursor in the command name.
    pub fn new() -> (r: Self)
        ensures
            r@.input == Seq::<char>::empty(),
            r@.in_command,
            !r@.bell_armed,
            r@.cycle == Seq::<Seq<char>>::empty(),
            r@.cycle_index == 0,
    {
        let r = LineEditor {
            input: String::new(),
            in_command: true,
            bell_armed: false,
            cycle: Vec::new(),
            cycle_index: 0,
        };
        assert(r@.cycle =~= Seq::<Seq<char>>::empty());
        r
    }

    /// The line typed so far.
    pub fn line(&self) -> (r: &str)
        ensures
            r@ == self@.input,
    {
        self.input.as_str()
    }

    /// A typed character is added to the line; a space ends the command name.
    pub fn on_char(&mut self, c: char) -> (r: EditAction)
        ensures
            final(self)@ == (EditorModel {
                input: old(self)@.input.push(c),
                in_command: old(self)@.in_command && c != ' ',
                ..old(self)@
            }),
            r matches EditAction::Echo(e) && e == c,
    {
        push_char(&mut self.input, c);
        if c == ' ' {
            self.in_command = false;
        }
        EditAction::Echo(c)
    }

    /// Backspace removes the last character of the line, if any.
    pub fn on_backspace(&mut self) -> (r: EditAction)
        ensures
            old(self)@.input.len() > 0 ==> final(self)@ == (EditorModel {
                input: old(self)@.input.drop_last(),
                ..old(self)@
            }) && r is Erase,
            old(self)@.input.len() == 0 ==> final(self)@ == old(self)@ && r is Nothing,
    {
        let chars = crate::text::chars_of(self.input.as_str());
        if chars.len() == 0 {
            return EditAction::Nothing;
        }
        let mut shorter = String::new();
        for i in 0..chars.len() - 1
            invariant
                chars@ == self.input@,
                chars@.len() > 0,
                shorter@ == chars@.subrange(0, i as int),
        {
            push_char(&mut shorter, chars[i]);
            assert(shorter@ =~= chars@.subrange(0, i + 1));
        }
        assert(shorter@ =~= old(self)@.input.drop_last());
        self.input = shorter;
        EditAction::Erase
    }

    /// Enter hands the line over.
    pub fn on_enter(&self) -> (r: EditAction)
        ensures
            r matches EditAction::Submit(s) && s@ == self@.input,
    {
        EditAction::Submit(self.input.clone())
    }
}

/// `s`, ordered by count, with `e` put after every item whose count is not
/// larger than its own.
pub open spec fn insert_by_count(s: Seq<(usize, Seq<char>)>, e: (usize, Seq<char>)) -> Seq<
    (usize, Seq<char>),
>
    decreases s.len(),
{
    if s.len() == 0 {
        seq![e]
    } else if s.last().0 <= e.0 {
        s.push(e)
    } else {
        insert_by_count(s.drop_last(), e).push(s.last())
    }
}

/// The entries ordered by count; entries with equal counts keep their order.
pub open spec fn sort_by_count(es: Seq<(usize, Seq<char>)>) -> Seq<(usize, Seq<char>)>
    decreases es.len(),
{
    if es.len() == 0 {
        Seq::empty()
    } else {
        insert_by_count(sort_by_count(es.drop_last()), es.last())
    }
}

/// The candidates that tab offers in turn: those that extend the typed text,
/// the shortest first.
pub open spec fn completion_cycle(input: Seq<char>, possible: Seq<Seq<char>>) -> Seq<Seq<char>> {
    sort_by_count(completion_entries(input, possible)).map_values(|e: (usize, Seq<char>)| e.1)
}

/// The view of the entries that the exec code holds.
pub open spec fn entry_views(v: Seq<(usize, String)>) -> Seq<(usize, Seq<char>)> {
    v.map_values(|p: (usize, String)| (p.0, p.1@))
}

fn insert_entry(v: &mut Vec<(usize, String)>, e: (usize, String))
    ensures
        entry_views(final(v)@) == insert_by_count(entry_views(old(v)@), (e.0, e.1@)),
{
    let ghost s = entry_views(v@);
    let ghost ev = (e.0, e.1@);
    let mut p = v.len();
    assert(s.subrange(0, p as int) =~= s);
    assert(insert_by_count(s, ev) + s.subrange(p as int, s.len() as int) =~= insert_by_count(s, ev));
    while p > 0 && v[p - 1].0 > e.0
        invariant
            p <= v@.len(),
            s == entry_views(v@),
            ev == (e.0, e.1@),
            insert_by_count(s, ev) == insert_by_count(s.subrange(0, p as int), ev) + s.subrange(
                p as int,
                s.len() as int,
            ),
        decreases p,
    {
        let ghost q = s.subrange(0, p as int);
        assert(q.drop_last() =~= s.subrange(0, p - 1));
        assert(insert_by_count(q, ev) == insert_by_count(s.subrange(0, p - 1), ev).push(q.last()));
        assert(insert_by_count(s.subrange(0, p - 1), ev).push(q.last()) + s.subrange(
            p as int,
            s.len() as int,
        ) =~= insert_by_count(s.subrange(0, p - 1), ev) + s.subrange(p - 1, s.len() as int));
        p = p - 1;
    }
    proof {
        let q = s.subrange(0, p as int);
        if p == 0 {
            assert(q =~= Seq::<(usize, Seq<char>)>::empty());
        } else {
            assert(q.last() == s[p - 1]);
        }
        assert(insert_by_count(q, ev) =~= q.push(ev));
    }
    v.insert(p, e);
    assert(entry_views(v@) =~= s.subrange(0, p as int).push(ev) + s.subrange(p as int, s.len() as int));
}

fn sort_entries(es: &Vec<(usize, String)>) -> (r: Vec<(usize, String)>)
    ensures
        entry_views(r@) == sort_by_count(entry_views(es@)),
{
    let ghost all = entry_views(es@);
    let mut r: Vec<(usize, String)> = Vec::new();
    assert(entry_views(r@) =~= Seq::<(usize, Seq<char>)>::empty());
    assert(all.subrange(0, 0) =~= Seq::<(usize, Seq<char>)>::empty());
    for i in 0..es.len()
        invariant
            all == entry_views(es@),
            entry_views(r@) == sort_by_count(all.subrange(0, i as int)),
    {
        let e = (es[i].0, es[i].1.clone());
        proof {
            let p = all.subrange(0, i + 1);
            assert(p.drop_last() =~= all.subrange(0, i as int));
            assert(p.last() == all[i as int]);
        }
        insert_entry(&mut r, e);
    }
    assert(all.subrange(0, es@.len() as int) =~= all);
    r
}

/// Relies on `slice::sort`: the strings are put in order.
#[verifier::external_body]
fn sort_names(v: &mut Vec<String>)
    ensures
        final(v)@.to_multiset() == old(v)@.to_multiset(),
{
    v.sort()
}

/// The names among `names` that begin with `prefix`, in order.
pub open spec fn names_beginning_with(names: Seq<Seq<char>>, prefix: Seq<char>) -> Seq<Seq<char>>
    decreases names.len(),
{
    if names.len() == 0 {
        Seq::empty()
    } else {
        let rest = names_beginning_with(names.drop_last(), prefix);
        if begins_with(names.last(), prefix) {
            rest.push(names.last())
        } else {
            rest
        }
    }
}

/// What tab may complete `input` to: the builtins that hold it, or else the
/// executables whose names begin with it.
pub open spec fn tab_candidates(input: Seq<char>, executables: Seq<Seq<char>>) -> Seq<Seq<char>> {
    if matching_builtins(input).len() > 0 {
        matching_builtins(input)
    } else {
        names_beginning_with(executables, input)
    }
}

/// The views of a vector of strings.
pub open spec fn views(v: Seq<String>) -> Seq<Seq<char>> {
    v.map_values(|s: String| s@)
}

fn candidates_for(input: &str, executables: Vec<String>) -> (r: Vec<String>)
    ensures
        views(r@) == tab_candidates(input@, views(executables@)),
{
    let builtins = BuiltinCommand::matches(input);
    if builtins.len() > 0 {
        return builtins;
    }
    let ghost all = views(executables@);
    let mut r: Vec<String> = Vec::new();
    assert(views(r@) =~= Seq::<Seq<char>>::empty());
    for i in 0..executables.len()
        invariant
            all == views(executables@),
            views(r@) == names_beginning_with(all.subrange(0, i as int), input@),
    {
        proof {
            let p = all.subrange(0, i + 1);
            assert(p.drop_last() =~= all.subrange(0, i as int));
            assert(p.last() == executables@[i as int]@);
        }
        if starts_with_text(executables[i].as_str(), input) {
            let ghost before = r@;
            r.push(executables[i].clone());
            assert(views(r@) =~= views(before).push(executables@[i as int]@));
        }
    }
    assert(all.subrange(0, executables@.len() as int) =~= all);
    r
}

fn completed_line(word: &String) -> (r: String)
    ensures
        r@ == completed(word@),
{
    let mut line = word.clone();
    push_char(&mut line, ' ');
    line
}

impl LineEditor {
    /// Tab, in the command name: cycle through the candidates found before; or
    /// complete a single builtin or a single candidate; or, when all candidates
    /// are as long, ring the bell and list them on the second tab; or else
    /// gather the candidates that extend the line, shortest first, for the
    /// next tabs. `executables` are the names of the executable files on the
    /// search path.
    pub fn on_tab(&mut self, executables: Vec<String>) -> (r: EditAction)
        ensures
            ({
                let m = old(self)@;
                let f = final(self)@;
                let cands = tab_candidates(m.input, views(executables@));
                if !m.in_command {
                    f == m && r is Nothing
                } else if m.cycle.len() > 0 && m.cycle_index < m.cycle.len() {
                    &&& f == EditorModel {
                        input: m.cycle[m.cycle_index as int],
                        cycle_index: if m.cycle_index + 1 == m.cycle.len() {
                            0
                        } else {
                            m.cycle_index + 1
                        },
                        ..m
                    }
                    &&& r matches EditAction::Rewrite(s) && s@ == f.input
                } else if matching_builtins(m.input).len() == 1 {
                    &&& f == EditorModel {
                        input: completed(matching_builtins(m.input)[0]),
                        in_command: false,
                        ..m
                    }
                    &&& r matches EditAction::Rewrite(s) && s@ == f.input
                } else if cands.len() == 0 {
                    f == m && r is Bell
                } else if cands.len() == 1 {
                    &&& f == EditorModel { input: completed(cands[0]), in_command: false, ..m }
                    &&& r matches EditAction::Rewrite(s) && s@ == f.input
                } else if same_lengths(cands) {
                    if m.bell_armed {
                        &&& f == EditorModel { bell_armed: false, ..m }
                        &&& r matches EditAction::ShowCandidates(names, line) && line@ == m.input
                            && views(names@).to_multiset() == cands.to_multiset()
                    } else {
                        f == EditorModel { bell_armed: true, ..m } && r is Bell
                    }
                } else if m.cycle.len() == 0 {
                    f == EditorModel {
                        cycle: completion_cycle(m.input, cands),
                        cycle_index: 0,
                        ..m
                    } && r is Nothing
                } else {
                    f == m && r is Nothing
                }
            }),
    {
        if !self.in_command {
            return EditAction::Nothing;
        }
        if self.cycle.len() > 0 && self.cycle_index < self.cycle.len() {
            let next = self.cycle[self.cycle_index].clone();
            self.cycle_index = if self.cycle_index == self.cycle.len() - 1 {
                0
            } else {
                self.cycle_index + 1
            };
            self.input = next.clone();
            return EditAction::Rewrite(next);
        }
        let builtins = BuiltinCommand::matches(self.input.as_str());
        if builtins.len() == 1 {
            let line = completed_line(&builtins[0]);
            self.input = line.clone();
            self.in_command = false;
            return EditAction::Rewrite(line);
        }
        let candidates = candidates_for(self.input.as_str(), executables);
        if candidates.len() == 0 {
            return EditAction::Bell;
        }
        if candidates.len() == 1 {
            let line = completed_line(&candidates[0]);
            self.input = line.clone();
            self.in_command = false;
            return EditAction::Rewrite(line);
        }
        if let Ok(true) = are_all_items_same_length(candidates.as_slice()) {
            if self.bell_armed {
                self.bell_armed = false;
                let mut names = candidates;
                let ghost before = names@;
                sort_names(&mut names);
                proof {
                    lemma_views_multiset(before, names@);
                }
                return EditAction::ShowCandidates(names, self.input.clone());
            } else {
                self.bell_armed = true;
                return EditAction::Bell;
            }
        }
        if self.cycle.len() == 0 {
            let entries = calculate_longest_common_prefix(self.input.as_str(), candidates.as_slice());
            let sorted = sort_entries(&entries);
            let ghost sv = entry_views(sorted@);
            let mut words: Vec<String> = Vec::new();
            assert(views(words@) =~= Seq::<Seq<char>>::empty());
            for i in 0..sorted.len()
                invariant
                    sv == entry_views(sorted@),
                    views(words@) == sv.subrange(0, i as int).map_values(
                        |e: (usize, Seq<char>)| e.1,
                    ),
            {
                let ghost before = words@;
                let w = sorted[i].1.clone();
                words.push(w);
                assert(words@ =~= before.push(sorted@[i as int].1));
                assert(sv[i as int].1 == sorted@[i as int].1@);
                assert(views(words@) =~= views(before).push(sv[i as int].1));
                assert(views(words@) =~= sv.subrange(0, i + 1).map_values(
                    |e: (usize, Seq<char>)| e.1,
                ));
            }
            assert(sv.subrange(0, sorted@.len() as int) =~= sv);
            assert(entry_views(entries@) == completion_entries(self.input@, views(candidates@)));
            self.cycle = words;
            self.cycle_index = 0;
        }
        EditAction::Nothing
    }
}

/// Two sequences of strings that are permutations of each other have views
/// that are permutations of each other.
proof fn lemma_views_multiset(a: Seq<String>, b: Seq<String>)
    requires
        a.to_multiset() == b.to_multiset(),
    ensures
        views(a).to_multiset() == views(b).to_multiset(),
    decreases a.len(),
{
    broadcast use vstd::seq_lib::group_to_multiset_ensures;

    if a.len() == 0 {
        assert(b.to_multiset().len() == 0);
        assert(b.len() == 0);
        assert(views(a) =~= views(b));
    } else {
        let x = a.last();
        assert(a.to_multiset().count(x) > 0);
        assert(b.contains(x));
        let j = choose|j: int| 0 <= j < b.len() && b[j] == x;
        let a2 = a.drop_last();
        let b2 = b.remove(j);
        assert(a2.push(x) =~= a);
        assert(a2.to_multiset() =~= a.to_multiset().remove(x));
        assert(b2.to_multiset() =~= b.to_multiset().remove(x));
        lemma_views_multiset(a2, b2);
        assert(views(a) =~= views(a2).push(x@));
        assert(views(b2) =~= views(b).remove(j));
        assert(views(b).to_multiset() =~= views(b2).to_multiset().insert(x@)) by {
            assert(views(b)[j] == x@);
            assert(views(b).remove(j).to_multiset() =~= views(b).to_multiset().remove(x@));
            assert(views(b).to_multiset().count(x@) > 0) by {
                assert(views(b).contains(x@));
            }
        }
    }
}

} // verus!
