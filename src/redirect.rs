//! The redirect resolver: what is written to a file that receives a stream.
use vstd::prelude::*;

verus! {

/// The line feed byte.
pub const NEWLINE: u8 = 10;

/// The last byte of `s`, if any.
pub open spec fn last_byte(s: Seq<u8>) -> Option<u8> {
    if s.len() == 0 {
        None
    } else {
        Some(s.last())
    }
}

/// The bytes appended to a file whose last byte is `tail` (`None`: the file is
/// empty or missing) when it receives `output`: a line feed goes first when the
/// file holds something that does not already end in one, and nothing at all is
/// written for empty output.
pub open spec fn append_payload(tail: Option<u8>, output: Seq<u8>) -> Seq<u8> {
    if output.len() == 0 {
        Seq::empty()
    } else if tail matches Some(b) && b != NEWLINE {
        seq![NEWLINE] + output
    } else {
        output
    }
}

/// The contents of a file after a truncating redirection of `output`.
pub open spec fn file_after_create(output: Seq<u8>) -> Seq<u8> {
    output
}

/// The contents of a file that held `existing` after an appending redirection
/// of `output`.
pub open spec fn file_after_append(existing: Seq<u8>, output: Seq<u8>) -> Seq<u8> {
    existing + append_payload(last_byte(existing), output)
}

/// `s` without one line feed at its end, if it has one.
pub open spec fn without_final_newline(s: Seq<u8>) -> Seq<u8> {
    if s.len() > 0 && s.last() == NEWLINE {
        s.drop_last()
    } else {
        s
    }
}

/// The bytes to append to a file whose last byte is `tail` so that it receives
/// `output`.
pub fn append_payload_of(tail: Option<u8>, output: &Vec<u8>) -> (r: Vec<u8>)
    ensures
        r@ == append_payload(tail, output@),
{
    let mut r: Vec<u8> = Vec::new();
    if output.len() == 0 {
        assert(r@ =~= Seq::<u8>::empty());
        return r;
    }
    if let Some(b) = tail {
        if b != NEWLINE {
            r.push(NEWLINE);
        }
    }
    let ghost start = r@;
    for i in 0..output.len()
        invariant
            r@ == start + output@.subrange(0, i as int),
    {
        r.push(output[i]);
        assert(r@ =~= start + output@.subrange(0, i + 1));
    }
    assert(output@.subrange(0, output@.len() as int) =~= output@);
    proof {
        if tail matches Some(b) && b != NEWLINE {
            assert(start =~= seq![NEWLINE]);
        } else {
            assert(start =~= Seq::<u8>::empty());
            assert(start + output@ =~= output@);
        }
    }
    r
}

/// A truncating redirection of non-empty `first` followed by an appending
/// redirection of non-empty `second` to the same file leaves `first`, one line
/// feed, then `second`: exactly one line feed separates them, whether or not
/// `first` ended in one.
pub proof fn lemma_create_then_append(first: Seq<u8>, second: Seq<u8>)
    requires
        first.len() > 0,
        second.len() > 0,
    ensures
        file_after_append(file_after_create(first), second) == without_final_newline(first)
            + seq![NEWLINE] + second,
{
    if first.last() == NEWLINE {
        assert(first.drop_last() + seq![NEWLINE] =~= first);
        assert(first + second =~= first.drop_last() + seq![NEWLINE] + second);
    } else {
        assert(first + (seq![NEWLINE] + second) =~= first + seq![NEWLINE] + second);
    }
}

} // verus!
