//! Context tracker: an append-only path descriptor attached to values
//! extracted from a configuration tree, used for diagnostics.

use vstd::prelude::*;

verus! {

/// A joined path of string segments (e.g. `file.toml -> groups -> escape`).
/// Branching is non-destructive: a parent context stays usable for
/// sibling branches.
#[derive(Debug)]
pub struct Context {
    segments: Vec<String>,
}

/// The rendered form of a segment path: segments joined by `" -> "`.
pub open spec fn spec_render(segs: Seq<String>) -> Seq<char>
    decreases segs.len(),
{
    if segs.len() == 0 {
        Seq::empty()
    } else if segs.len() == 1 {
        segs[0]@
    } else {
        spec_render(segs.drop_last()) + " -> "@ + segs.last()@
    }
}

impl View for Context {
    type V = Seq<String>;

    closed spec fn view(&self) -> Seq<String> {
        self.segments@
    }
}

impl Context {
    /// A fresh context holding just the root label.
    pub fn root(label: String) -> (c: Context)
        ensures
            c@ == seq![label],
    {
        let segments = vec![label];
        assert(segments@ =~= seq![segments@[0]]);
        Context { segments }
    }

    /// Branches off a child context extended by one segment; `self` is
    /// untouched and stays usable for sibling branches.
    pub fn child(&self, segment: String) -> (c: Context)
        ensures
            c@ == self@.push(segment),
    {
        let mut segments: Vec<String> = Vec::new();
        let mut i: usize = 0;
        while i < self.segments.len()
            invariant
                i <= self.segments.len(),
                segments@ =~= self.segments@.subrange(0, i as int),
            decreases self.segments.len() - i,
        {
            segments.push(self.segments[i].clone());
            i = i + 1;
        }
        segments.push(segment);
        assert(segments@ =~= self.segments@.push(segment));
        Context { segments }
    }

    /// A copy with the same segments.
    pub fn duplicate(&self) -> (c: Context)
        ensures
            c@ == self@,
    {
        let mut segments: Vec<String> = Vec::new();
        let mut i: usize = 0;
        while i < self.segments.len()
            invariant
                i <= self.segments.len(),
                segments@ =~= self.segments@.subrange(0, i as int),
            decreases self.segments.len() - i,
        {
            segments.push(self.segments[i].clone());
            i = i + 1;
        }
        assert(segments@ =~= self.segments@);
        Context { segments }
    }

    /// Renders the path for a diagnostic message.
    pub fn render(&self) -> (s: String)
        ensures
            s@ == spec_render(self@),
    {
        let mut s = String::new();
        let mut i: usize = 0;
        while i < self.segments.len()
            invariant
                i <= self.segments.len(),
                s@ == spec_render(self@.subrange(0, i as int)),
                self@ == self.segments@,
            decreases self.segments.len() - i,
        {
            if i > 0 {
                s.append(" -> ");
            }
            s.append(self.segments[i].as_str());
            assert(self@.subrange(0, i + 1 as int).drop_last() =~= self@.subrange(0, i as int));
            assert(self@.subrange(0, i + 1 as int).last() == self@[i as int]);
            i = i + 1;
        }
        assert(self@.subrange(0, self.segments.len() as int) =~= self@);
        s
    }
}

} // verus!
