//! The counted greeting loop, one output line at a time.
use vstd::prelude::*;

use crate::decimal::{decimal, decimal_string};

verus! {

/// The text of the line printed on the `i`-th pass of the loop, counting from 1.
pub open spec fn line_text(i: nat) -> Seq<char> {
    "Iteration "@ + decimal(i) + ": Hello, world!"@
}

/// Every line printed for an iteration count of `n`, in order.
pub open spec fn output_lines(n: nat) -> Seq<Seq<char>> {
    Seq::new(n, |k: int| line_text((k + 1) as nat))
}

/// Builds the line printed on the `i`-th pass of the loop.
pub fn iteration_line(i: usize) -> (r: String)
    ensures
        r@ == line_text(i as nat),
{
    let mut s = String::from_str("Iteration ");
    let digits = decimal_string(i);
    s.append(digits.as_str());
    s.append(": Hello, world!");
    s
}

/// The loop of the program: it hands out, one at a time, the lines for an
/// iteration count fixed when it is made.
pub struct Runner {
    total: usize,
    emitted: usize,
}

impl Runner {
    /// The iteration count.
    pub closed spec fn total(&self) -> nat {
        self.total as nat
    }

    /// How many lines have been handed out.
    pub closed spec fn emitted(&self) -> nat {
        self.emitted as nat
    }

    /// No more lines are handed out than the count asks for.
    pub open spec fn wf(&self) -> bool {
        self.emitted() <= self.total()
    }

    /// The lines still to come, in order.
    pub open spec fn pending(&self) -> Seq<Seq<char>> {
        output_lines(self.total()).subrange(self.emitted() as int, self.total() as int)
    }

    /// A loop over `iterations` passes that has not started.
    pub fn new(iterations: usize) -> (r: Runner)
        ensures
            r.wf(),
            r.total() == iterations,
            r.emitted() == 0,
            r.pending() == output_lines(iterations as nat),
    {
        let r = Runner { total: iterations, emitted: 0 };
        assert(r.pending() =~= output_lines(iterations as nat));
        r
    }

    /// Hands out the next line, or `None` once all of them have been.
    pub fn next_line(&mut self) -> (r: Option<String>)
        requires
            old(self).wf(),
        ensures
            final(self).wf(),
            final(self).total() == old(self).total(),
            old(self).emitted() < old(self).total() ==> {
                &&& final(self).emitted() == old(self).emitted() + 1
                &&& r is Some
                &&& r->0@ == output_lines(old(self).total())[old(self).emitted() as int]
            },
            old(self).emitted() == old(self).total() ==> {
                &&& final(self).emitted() == old(self).emitted()
                &&& r is None
            },
            r matches Some(line) ==> {
                &&& old(self).pending().len() > 0
                &&& line@ == old(self).pending()[0]
                &&& final(self).pending() == old(self).pending().drop_first()
            },
            r is None ==> old(self).pending().len() == 0,
    {
        if self.emitted == self.total {
            return None;
        }
        self.emitted = self.emitted + 1;
        let line = iteration_line(self.emitted);
        assert(self.pending() =~= old(self).pending().drop_first());
        Some(line)
    }
}

} // verus!
