use vstd::prelude::*;

verus! {

/// Lines of diagnostic text shown in the debug window.
pub struct DebugWindow {
    lines: Vec<String>,
}

impl View for DebugWindow {
    type V = Seq<Seq<char>>;

    /// The lines, oldest first.
    closed spec fn view(&self) -> Seq<Seq<char>> {
        self.lines@.map_values(|l: String| l@)
    }
}

impl DebugWindow {
    /// A window with no lines.
    pub fn new() -> (w: Self)
        ensures
            w@ == Seq::<Seq<char>>::empty(),
    {
        let w = DebugWindow { lines: Vec::new() };
        assert(w@ =~= Seq::<Seq<char>>::empty());
        w
    }

    /// Append a line.
    pub fn add_line(&mut self, line: &str)
        ensures
            final(self)@ == old(self)@.push(line@),
    {
        let ghost before = self.lines@;
        self.lines.push(line.to_owned());
        assert(self.lines@.map_values(|l: String| l@) =~= before.map_values(|l: String| l@).push(
            line@,
        ));
    }

    /// Remove every line.
    pub fn clear(&mut self)
        ensures
            final(self)@ == Seq::<Seq<char>>::empty(),
    {
        self.lines.clear();
        assert(self.lines@.map_values(|l: String| l@) =~= Seq::<Seq<char>>::empty());
    }

    /// The number of lines.
    pub fn num_lines(&self) -> (n: usize)
        ensures
            n == self@.len(),
    {
        self.lines.len()
    }

    /// Line `i`.
    pub fn line(&self, i: usize) -> (l: &str)
        requires
            i < self@.len(),
        ensures
            l@ == self@[i as int],
    {
        self.lines[i].as_str()
    }
}

} // verus!
