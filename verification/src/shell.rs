//! The output side of a persistent shell session: each line the shell
//! prints is kept, as printed, in a buffer, and forwarded without its line
//! ending.
use vstd::prelude::*;
use crate::text::{chars_of, string_of_sub};

verus! {

broadcast use vstd::string::group_string_axioms;

/// `t` is `s` with every newline at its end removed (`trim_end_matches('\n')`).
pub open spec fn without_trailing_newlines(s: Seq<char>, t: Seq<char>) -> bool {
    &&& t.len() <= s.len()
    &&& t == s.take(t.len() as int)
    &&& forall|i: int| t.len() <= i < s.len() ==> s[i] == '\n'
    &&& (t.len() == 0 || t.last() != '\n')
}

/// `line` without the newlines at its end.
pub fn strip_line_end(line: &str) -> (r: String)
    ensures
        without_trailing_newlines(line@, r@),
{
    let cs = chars_of(line);
    let mut end: usize = cs.len();
    while end > 0 && cs[end - 1] == '\n'
        invariant
            end <= cs@.len(),
            cs@ == line@,
            forall|i: int| end <= i < cs@.len() ==> cs@[i] == '\n',
        decreases end,
    {
        end = end - 1;
    }
    let r = string_of_sub(cs.as_slice(), 0, end);
    proof {
        assert(r@ =~= line@.take(end as int));
    }
    r
}

/// Everything the shell has printed since the buffer was last taken.
pub struct OutputBuffer {
    text: String,
}

impl OutputBuffer {
    /// The characters in the buffer.
    pub closed spec fn contents(&self) -> Seq<char> {
        self.text@
    }

    /// An empty buffer.
    pub fn new() -> (r: OutputBuffer)
        ensures
            r.contents() == Seq::<char>::empty(),
    {
        OutputBuffer { text: String::new() }
    }

    /// Keeps a line as the shell printed it and returns it without its line
    /// ending, to be forwarded.
    pub fn record_line(&mut self, line: &str) -> (r: String)
        ensures
            final(self).contents() == old(self).contents() + line@,
            without_trailing_newlines(line@, r@),
    {
        self.text.append(line);
        strip_line_end(line)
    }

    /// A copy of everything in the buffer.
    pub fn text(&self) -> (r: String)
        ensures
            r@ == self.contents(),
    {
        self.text.clone()
    }

    /// Returns everything in the buffer and empties it.
    pub fn take(&mut self) -> (r: String)
        ensures
            r@ == old(self).contents(),
            final(self).contents() == Seq::<char>::empty(),
    {
        let mut out = String::new();
        std::mem::swap(&mut out, &mut self.text);
        out
    }
}

} // verus!
