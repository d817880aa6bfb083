//! Helpers for command resolution and tab completion.
use vstd::prelude::*;
use vstd::string::*;
use vstd::utf8::{encode_utf8, is_char_boundary};
use crate::builtin_commands::{matching_builtins, BuiltinCommand};
use crate::errors::CustomError;

verus! {

/// The builtin that `partial` completes to, when exactly one builtin name
/// holds it.
pub fn find_matching_builtin(partial: &str) -> (r: Option<String>)
    ensures
        matching_builtins(partial@).len() == 1 ==> (r matches Some(s) && s@ == matching_builtins(
            partial@,
        )[0]),
        matching_builtins(partial@).len() != 1 ==> r is None,
{
    let matching_builtins = BuiltinCommand::matches(partial);
    if matching_builtins.len() == 1 {
        Some(matching_builtins[0].clone())
    } else {
        None
    }
}

/// How many bytes of `word` follow its first `k` bytes, when `k` falls on a
/// character boundary within it.
pub open spec fn remaining_after(k: nat, word: Seq<char>) -> Option<nat> {
    let b = encode_utf8(word);
    if k <= b.len() && is_char_boundary(b, k as int) {
        Some((b.len() - k) as nat)
    } else {
        None
    }
}

/// The number of bytes of `word` after the length of `prefix`, or zero when
/// that length does not fall on a character boundary of `word`.
pub fn common_prefix_count(prefix: &str, word: &str) -> (r: usize)
    ensures
        r == match remaining_after(prefix.spec_bytes().len(), word@) {
            Some(n) => n,
            None => 0,
        },
{
    let k = prefix.as_bytes().len();
    let n = word.as_bytes().len();
    if k <= n && word.is_char_boundary(k) {
        n - k
    } else {
        0
    }
}

/// Whether the first and the last of several candidates have the same count.
pub fn all_matching_commands_lcp_the_same(matching_commands: &[(String, usize)]) -> (r: bool)
    ensures
        r == (matching_commands@.len() > 1 && matching_commands@[0].1
            == matching_commands@.last().1),
{
    let n = matching_commands.len();
    if n <= 1 {
        return false;
    }
    matching_commands[0].1 == matching_commands[n - 1].1
}

/// Whether all the strings have as many bytes as the first.
pub open spec fn same_lengths(list: Seq<Seq<char>>) -> bool {
    forall|i: int|
        0 <= i < list.len() ==> encode_utf8(#[trigger] list[i]).len() == encode_utf8(list[0]).len()
}

/// Whether all the strings are as long, in bytes; an empty list is an error.
pub fn are_all_items_same_length(list: &[String]) -> (r: Result<bool, CustomError>)
    ensures
        list@.len() == 0 ==> r matches Err(CustomError::EmptyList),
        list@.len() > 0 ==> r == Ok::<bool, CustomError>(
            same_lengths(list@.map_values(|s: String| s@)),
        ),
{
    if list.len() == 0 {
        return Err(CustomError::EmptyList);
    }
    let ghost views = list@.map_values(|s: String| s@);
    let length = list[0].as_str().as_bytes().len();
    for i in 0..list.len()
        invariant
            views == list@.map_values(|s: String| s@),
            list@.len() > 0,
            length == encode_utf8(views[0]).len(),
            forall|j: int| 0 <= j < i ==> encode_utf8(#[trigger] views[j]).len() == length,
    {
        if list[i].as_str().as_bytes().len() != length {
            assert(encode_utf8(views[i as int]).len() != length);
            return Ok(false);
        }
    }
    Ok(true)
}

/// For each candidate that extends past `word`'s length on a character
/// boundary, the number of bytes left and the candidate, in order.
pub open spec fn completion_entries(word: Seq<char>, list: Seq<Seq<char>>) -> Seq<(usize, Seq<char>)>
    decreases list.len(),
{
    if list.len() == 0 {
        Seq::empty()
    } else {
        let rest = completion_entries(word, list.drop_last());
        match remaining_after(encode_utf8(word).len(), list.last()) {
            Some(n) => rest.push((n as usize, list.last())),
            None => rest,
        }
    }
}

/// Pairs each candidate that `word` can be a prefix of, by length, with how
/// many bytes it has beyond `word`.
pub fn calculate_longest_common_prefix(word: &str, list: &[String]) -> (r: Vec<(usize, String)>)
    ensures
        r@.map_values(|p: (usize, String)| (p.0, p.1@)) == completion_entries(
            word@,
            list@.map_values(|s: String| s@),
        ),
{
    let ghost views = list@.map_values(|s: String| s@);
    let word_length = word.as_bytes().len();
    let mut r: Vec<(usize, String)> = Vec::new();
    for i in 0..list.len()
        invariant
            views == list@.map_values(|s: String| s@),
            word_length == encode_utf8(word@).len(),
            r@.map_values(|p: (usize, String)| (p.0, p.1@)) == completion_entries(
                word@,
                views.subrange(0, i as int),
            ),
    {
        let ghost before = r@;
        let list_word = list[i].as_str();
        let n = list_word.as_bytes().len();
        proof {
            let p = views.subrange(0, i + 1);
            assert(p.drop_last() =~= views.subrange(0, i as int));
            assert(p.last() == list_word@);
        }
        if word_length <= n && list_word.is_char_boundary(word_length) {
            r.push((n - word_length, list[i].clone()));
            assert(r@.map_values(|p: (usize, String)| (p.0, p.1@)) =~= before.map_values(
                |p: (usize, String)| (p.0, p.1@),
            ).push(((n - word_length) as usize, list@[i as int]@)));
        }
    }
    assert(views.subrange(0, list@.len() as int) =~= views);
    r
}

/// The permission bits that let the owner, the group or others execute a file.
pub const EXECUTE_BITS: u32 = 0o111;

/// Whether a file with permission bits `mode` may be executed by someone.
pub open spec fn is_executable_mode(mode: u32) -> bool {
    mode & EXECUTE_BITS != 0
}

/// The first of the candidates, taken in search-path order, that may be
/// executed.
pub fn first_executable(modes: &[u32]) -> (r: Option<usize>)
    ensures
        r matches Some(i) ==> i < modes@.len() && is_executable_mode(modes@[i as int]) && forall|
            j: int,
        | 0 <= j < i ==> !is_executable_mode(#[trigger] modes@[j]),
        r is None ==> forall|j: int| 0 <= j < modes@.len() ==> !is_executable_mode(#[trigger] modes@[j]),
{
    for i in 0..modes.len()
        invariant
            forall|j: int| 0 <= j < i ==> !is_executable_mode(#[trigger] modes@[j]),
    {
        if modes[i] & EXECUTE_BITS != 0 {
            return Some(i);
        }
    }
    None
}

} // verus!
