use vstd::prelude::*;

verus! {

/// The text to render: its lines, top to bottom. Reading a poem from
/// disk is the caller's business; the layout only ever sees the lines.
#[derive(Debug)]
pub struct Poem(Vec<String>);

impl Poem {
    /// The lines as a mathematical sequence.
    pub closed spec fn spec_lines(self) -> Seq<String> {
        self.0@
    }

    pub fn new(lines: Vec<String>) -> (p: Poem)
        ensures
            p.spec_lines() == lines@,
    {
        Poem(lines)
    }

    pub fn lines(&self) -> (r: &Vec<String>)
        ensures
            r@ == self.spec_lines(),
    {
        &self.0
    }
}

} // verus!
