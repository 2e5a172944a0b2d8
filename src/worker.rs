use vstd::prelude::*;
use vstd::string::*;
use crate::text::{decimal, push_decimal};

verus! {

/// One member of a pool, known by the index it was given when the pool was
/// built.
pub struct Worker {
    id: usize,
}

/// How a worker is shown: `(id: N)`.
pub open spec fn worker_text(id: nat) -> Seq<char> {
    seq!['(', 'i', 'd', ':', ' '] + decimal(id) + seq![')']
}

impl Worker {
    /// The worker's index.
    pub closed spec fn spec_id(&self) -> nat {
        self.id as nat
    }

    /// Makes the worker with index `id`.
    pub fn new(id: usize) -> (w: Worker)
        ensures
            w.spec_id() == id,
    {
        Worker { id }
    }

    /// The worker's index.
    pub fn id(&self) -> (r: usize)
        ensures
            r == self.spec_id(),
    {
        self.id
    }

    /// Appends how the worker is shown to `s`.
    pub fn write_to(&self, s: &mut String)
        ensures
            final(s)@ == old(s)@ + worker_text(self.spec_id()),
    {
        proof {
            reveal_strlit("(id: ");
            reveal_strlit(")");
        }
        s.append("(id: ");
        push_decimal(s, self.id);
        s.append(")");
        assert(final(s)@ =~= old(s)@ + worker_text(self.spec_id()));
    }

    /// How the worker is shown: `(id: N)`.
    pub fn render(&self) -> (r: String)
        ensures
            r@ == worker_text(self.spec_id()),
    {
        let mut s = String::new();
        self.write_to(&mut s);
        assert(s@ =~= worker_text(self.spec_id()));
        s
    }
}

} // verus!
