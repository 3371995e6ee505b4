//! Decoding: from raw program text to the ordered operation sequence.
//!
//! Decoding is a pure function of the source text: each character maps
//! to at most one operation through a fixed table, every character
//! outside the table is skipped with no effect, and the recognized
//! characters keep their original relative order.

use vstd::prelude::*;
use vstd::string::StrSliceExecFns;

use crate::Operation;

verus! {

/// The operation a single character stands for, or `None` for every
/// character outside the instruction set.
pub open spec fn spec_operation(token: char) -> Option<Operation> {
    match token {
        '<' => Some(Operation::Left),
        '>' => Some(Operation::Right),
        '+' => Some(Operation::Increment),
        '-' => Some(Operation::Decrement),
        '.' => Some(Operation::Output),
        ',' => Some(Operation::Accept),
        '[' => Some(Operation::Forward),
        ']' => Some(Operation::Backward),
        _ => None,
    }
}

/// The operation sequence a source text decodes to: exactly the
/// operations of the recognized characters, in their original order,
/// with every other character contributing nothing.
pub open spec fn spec_operations(source: Seq<char>) -> Seq<Operation>
    decreases source.len(),
{
    if source.len() == 0 {
        Seq::empty()
    } else {
        let rest = spec_operations(source.drop_last());
        match spec_operation(source.last()) {
            Some(op) => rest.push(op),
            None => rest,
        }
    }
}

/// Map one character to its operation; `None` for a character that is
/// not an instruction.
pub fn operation(token: char) -> (r: Option<Operation>)
    ensures
        r == spec_operation(token),
{
    match token {
        '<' => Some(Operation::Left),
        '>' => Some(Operation::Right),
        '+' => Some(Operation::Increment),
        '-' => Some(Operation::Decrement),
        '.' => Some(Operation::Output),
        ',' => Some(Operation::Accept),
        '[' => Some(Operation::Forward),
        ']' => Some(Operation::Backward),
        _ => None,
    }
}

/// Extract all operations from the program text, in order, skipping
/// every unrecognized character. Never fails and has no side effect.
pub fn operations(input: String) -> (ops: Vec<Operation>)
    ensures
        ops@ == spec_operations(input@),
{
    let n: usize = input.as_str().unicode_len();
    let mut ops: Vec<Operation> = Vec::new();
    let mut i: usize = 0;
    while i < n
        invariant
            i <= n,
            n == input@.len(),
            ops@ == spec_operations(input@.take(i as int)),
        decreases n - i,
    {
        let token = input.as_str().get_char(i);
        match operation(token) {
            Some(op) => ops.push(op),
            None => {},
        }
        i = i + 1;
        proof {
            assert(input@.take(i as int).drop_last() =~= input@.take(i - 1));
            assert(input@.take(i as int).last() == input@[i - 1]);
        }
    }
    proof {
        assert(input@.take(n as int) =~= input@);
    }
    ops
}

/// Decoding is deterministic: two decodings of the same source text
/// yield structurally identical operation sequences.
pub proof fn lemma_decode_deterministic(s1: Seq<char>, s2: Seq<char>)
    requires
        s1 == s2,
    ensures
        spec_operations(s1) == spec_operations(s2),
{
}

} // verus!
