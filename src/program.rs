//! What a whole run writes, and the laws it obeys.
use vstd::prelude::*;

use crate::decimal::{count_of, decimal, lemma_decimal_injective, lemma_decimal_round_trip};
use crate::invocation::requested_count;
use crate::runner::{line_text, output_lines};

verus! {

/// The lines a run writes for the arguments `args`: first those on the
/// standard output, then those on the error stream. A run either loops and
/// writes no error, or writes one error line and nothing else.
pub open spec fn transcript(args: Seq<Seq<char>>) -> (Seq<Seq<char>>, Seq<Seq<char>>) {
    match requested_count(args) {
        Ok(n) => (output_lines(n), Seq::empty()),
        Err(e) => (Seq::empty(), seq![e.text()]),
    }
}

/// The `i`-th line of a run with count `n` carries the index `i` itself,
/// written in decimal between the fixed words, and is the line of no other
/// index: the numbering starts at 1 and never slips by one.
pub proof fn lemma_line_carries_its_index(n: nat, i: nat)
    requires
        1 <= i <= n,
    ensures
        output_lines(n)[i - 1] == line_text(i),
        output_lines(n)[i - 1] == "Iteration "@ + decimal(i) + ": Hello, world!"@,
        i <= usize::MAX ==> count_of(
            output_lines(n)[i - 1].subrange(10, output_lines(n)[i - 1].len() - 15),
        ) == Some(i),
        forall|j: nat| j != i ==> output_lines(n)[i - 1] != #[trigger] line_text(j),
{
    reveal_strlit("Iteration ");
    reveal_strlit(": Hello, world!");
    let line = output_lines(n)[i - 1];
    assert(line.subrange(10, line.len() - 15) =~= decimal(i));
    lemma_decimal_round_trip(i);
    assert forall|j: nat| j != i implies line != #[trigger] line_text(j) by {
        if line == line_text(j) {
            assert(line_text(j).subrange(10, line_text(j).len() - 15) =~= decimal(j));
            lemma_decimal_injective(i, j);
        }
    }
}

/// A run holds no state of its own: two runs on the same arguments write
/// the same lines to the same streams.
pub proof fn lemma_same_arguments_same_transcript(a: Seq<Seq<char>>, b: Seq<Seq<char>>)
    requires
        a == b,
    ensures
        transcript(a) == transcript(b),
{
}

} // verus!
