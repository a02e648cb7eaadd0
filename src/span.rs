use vstd::prelude::*;

verus! {

/// The hygiene context of a location: which expansion produced it, and the
/// location of that expansion's own invocation (none for source text).
#[derive(Debug, PartialEq, Eq)]
pub struct SyntaxContext {
    pub mark: u32,
    pub parent: Option<Box<Span>>,
}

/// A location: the region `lo..hi` that diagnostics display ("authored at"),
/// and the context that names in it resolve under ("resolved at").
#[derive(Debug, PartialEq, Eq)]
pub struct Span {
    pub lo: u32,
    pub hi: u32,
    pub ctx: SyntaxContext,
}

/// The location of the expansion site that `s` was generated by, if any.
pub open spec fn spec_parent(s: Span) -> Option<Span> {
    match s.ctx.parent {
        Some(p) => Some(*p),
        None => None,
    }
}

/// `s` displayed at `other`'s region, keeping `s`'s resolution context.
pub open spec fn spec_located_at(s: Span, other: Span) -> Span {
    Span { lo: other.lo, hi: other.hi, ctx: s.ctx }
}

/// `s` displayed at its own region, resolving under `other`'s context.
pub open spec fn spec_resolved_at(s: Span, other: Span) -> Span {
    Span { lo: s.lo, hi: s.hi, ctx: other.ctx }
}

/// Where a wrap invoked at `invocation` blames errors: two expansion levels
/// up, past the wrap's own expansion and past the macro that called it.
pub open spec fn spec_call_site(invocation: Span) -> Option<Span> {
    match spec_parent(invocation) {
        Some(p) => spec_parent(p),
        None => None,
    }
}

/// The location that scrubbing gives a token located at `s`: a generated
/// token is displayed at the call site and still resolves as before; a token
/// of source text keeps its location.
pub open spec fn scrub_span(s: Span, call_site: Span) -> Span {
    match spec_parent(s) {
        Some(p) => spec_resolved_at(spec_located_at(p, call_site), s),
        None => s,
    }
}

impl SyntaxContext {
    /// A deep copy.
    pub fn copy(&self) -> (r: SyntaxContext)
        ensures
            r == *self,
        decreases self,
    {
        let parent = match &self.parent {
            Some(p) => Some(Box::new(p.copy())),
            None => None,
        };
        SyntaxContext { mark: self.mark, parent }
    }
}

impl Span {
    /// A deep copy.
    pub fn copy(&self) -> (r: Span)
        ensures
            r == *self,
        decreases self,
    {
        Span { lo: self.lo, hi: self.hi, ctx: self.ctx.copy() }
    }

    /// The location of the expansion site that this location was generated
    /// by; `None` for source text.
    pub fn parent(&self) -> (r: Option<Span>)
        ensures
            r == spec_parent(*self),
    {
        match &self.ctx.parent {
            Some(p) => Some(p.copy()),
            None => None,
        }
    }

    /// This location displayed at `other`'s region, with its own context.
    pub fn located_at(self, other: &Span) -> (r: Span)
        ensures
            r == spec_located_at(self, *other),
    {
        Span { lo: other.lo, hi: other.hi, ctx: self.ctx }
    }

    /// This location's region, resolving under `other`'s context.
    pub fn resolved_at(self, other: &Span) -> (r: Span)
        ensures
            r == spec_resolved_at(self, *other),
    {
        Span { lo: self.lo, hi: self.hi, ctx: other.ctx.copy() }
    }
}

} // verus!
