use vstd::prelude::*;
use crate::span::{Span, scrub_span, spec_call_site, spec_parent};
use crate::token::{Group, Ident, Literal, Punct, TokenTree, lemma_mapped_all, mapped, mapped_seq, span_of};

verus! {

/// Why a wrap cannot be carried out.
#[derive(Clone, Copy, Debug, PartialEq, Eq, Structural)]
pub enum ScrubError {
    /// The wrap was invoked where no enclosing macro expansion exists, so
    /// there is no caller to blame.
    OutsideMacro,
    /// The auto-wrap annotation was given an argument; it takes none.
    AttributeArgument,
}

/// Rewrites the location of `t` and of every token nested in it with `f`,
/// keeping kinds, values, delimiters and order.
fn map_tree<F: Fn(Span) -> Span>(t: TokenTree, f: &F, g: Ghost<spec_fn(Span) -> Span>) -> (r:
    TokenTree)
    requires
        forall|s: Span| f.requires((s,)),
        forall|s: Span, o: Span| f.ensures((s,), o) ==> o == g@(s),
    ensures
        mapped(t, r, g@),
    decreases t,
{
    match t {
        TokenTree::Group(gr) => {
            let span = f(gr.span);
            let stream = map_stream(gr.stream, f, g);
            proof {
                lemma_mapped_all(t->Group_0.stream@, stream@, g@);
            }
            TokenTree::Group(Group { delimiter: gr.delimiter, stream, span })
        },
        TokenTree::Ident(i) => TokenTree::Ident(Ident { name: i.name, span: f(i.span) }),
        TokenTree::Punct(p) => TokenTree::Punct(
            Punct { ch: p.ch, spacing: p.spacing, span: f(p.span) },
        ),
        TokenTree::Literal(l) => TokenTree::Literal(Literal { text: l.text, span: f(l.span) }),
    }
}

/// Applies `map_tree` to each token of `stream`, in order.
fn map_stream<F: Fn(Span) -> Span>(stream: Vec<TokenTree>, f: &F, g: Ghost<
    spec_fn(Span) -> Span,
>) -> (r: Vec<TokenTree>)
    requires
        forall|s: Span| f.requires((s,)),
        forall|s: Span, o: Span| f.ensures((s,), o) ==> o == g@(s),
    ensures
        mapped_seq(stream@, r@, g@),
    decreases stream,
{
    let ghost orig = stream;
    let mut rest = stream;
    let mut out: Vec<TokenTree> = Vec::new();
    while rest.len() > 0
        invariant
            forall|s: Span| f.requires((s,)),
            forall|s: Span, o: Span| f.ensures((s,), o) ==> o == g@(s),
            orig == stream,
            out.len() + rest.len() == orig.len(),
            rest@ == orig@.subrange(out.len() as int, orig.len() as int),
            forall|i: int| 0 <= i < out.len() ==> #[trigger] mapped(orig@[i], out@[i], g@),
        decreases rest.len(),
    {
        let t = rest.remove(0);
        proof {
            assert(t == orig[out.len() as int]);
            vstd::std_specs::vec::axiom_vec_index_decreases(orig, out.len() as int);
        }
        let m = map_tree(t, f, g);
        out.push(m);
    }
    out
}

/// The location that scrubbing gives one token, as the host's combinators
/// compose it.
fn scrub_one(s: Span, call_site: &Span) -> (r: Span)
    ensures
        r == scrub_span(s, *call_site),
{
    match s.parent() {
        Some(p) => p.located_at(call_site).resolved_at(&s),
        None => s,
    }
}

/// Redirects the provenance of every macro-generated token in `body`, at
/// every depth, to `call_site`; tokens of source text keep their location.
pub fn scrub_with(body: Vec<TokenTree>, call_site: &Span) -> (r: Vec<TokenTree>)
    ensures
        mapped_seq(body@, r@, |s: Span| scrub_span(s, *call_site)),
{
    let f = |s: Span| -> (o: Span)
        ensures
            o == scrub_span(s, *call_site),
        { scrub_one(s, call_site) };
    map_stream(body, &f, Ghost(|s: Span| scrub_span(s, *call_site)))
}

/// The wrap operation: hides `body` from diagnostics by blaming the caller
/// of the macro that `invocation` stands in. Fails with `OutsideMacro` when
/// `invocation` has no such caller.
pub fn scrub(body: Vec<TokenTree>, invocation: &Span) -> (r: Result<Vec<TokenTree>, ScrubError>)
    ensures
        spec_call_site(*invocation) is None <==> r == Err::<Vec<TokenTree>, ScrubError>(
            ScrubError::OutsideMacro,
        ),
        spec_call_site(*invocation) matches Some(cs) ==> r is Ok && mapped_seq(
            body@,
            r->Ok_0@,
            |s: Span| scrub_span(s, cs),
        ),
{
    match invocation.parent() {
        None => Err(ScrubError::OutsideMacro),
        Some(p) => match p.parent() {
            None => Err(ScrubError::OutsideMacro),
            Some(cs) => Ok(scrub_with(body, &cs)),
        },
    }
}

/// The token reached from `ts` by following `path`: its first index picks a
/// token of `ts`, and each further index a child of the group reached so
/// far. `None` where the path leaves the tree.
pub open spec fn subtree_at(ts: Seq<TokenTree>, path: Seq<int>) -> Option<TokenTree>
    decreases path.len(),
{
    if path.len() == 0 || !(0 <= path[0] < ts.len()) {
        None
    } else if path.len() == 1 {
        Some(ts[path[0]])
    } else if ts[path[0]] is Group {
        subtree_at(ts[path[0]]->Group_0.stream@, path.drop_first())
    } else {
        None
    }
}

/// Depth invariance: in a scrubbed stream, the token at any path, however
/// deep, is the original token at that path with its location rewritten
/// exactly as a top-level token's would be.
pub proof fn lemma_scrub_depth_invariant(
    ts: Seq<TokenTree>,
    rs: Seq<TokenTree>,
    call_site: Span,
    path: Seq<int>,
)
    requires
        mapped_seq(ts, rs, |s: Span| scrub_span(s, call_site)),
        subtree_at(ts, path) is Some,
    ensures
        subtree_at(rs, path) is Some,
        mapped(subtree_at(ts, path)->0, subtree_at(rs, path)->0, |s: Span| scrub_span(s, call_site)),
        span_of(subtree_at(rs, path)->0) == scrub_span(span_of(subtree_at(ts, path)->0), call_site),
    decreases path.len(),
{
    let f = |s: Span| scrub_span(s, call_site);
    let k = path[0];
    assert(mapped(ts[k], rs[k], f));
    if path.len() > 1 {
        let g = ts[k]->Group_0;
        let h = rs[k]->Group_0;
        lemma_mapped_all(g.stream@, h.stream@, f);
        lemma_scrub_depth_invariant(g.stream@, h.stream@, call_site, path.drop_first());
    }
}

/// Tokens of source text are untouched: a location with no expansion site
/// keeps its value under scrubbing.
pub proof fn lemma_source_span_untouched(s: Span, call_site: Span)
    requires
        spec_parent(s) is None,
    ensures
        scrub_span(s, call_site) == s,
{
}

/// Scrubbing again with the same call site changes nothing: re-pointing a
/// location to the place it already points to is a no-op.
pub proof fn lemma_scrub_twice(s: Span, call_site: Span)
    ensures
        scrub_span(scrub_span(s, call_site), call_site) == scrub_span(s, call_site),
{
}

/// A wrap keeps each location's resolution context and its expansion site:
/// only what diagnostics display moves.
pub proof fn lemma_scrub_keeps_context(s: Span, call_site: Span)
    ensures
        scrub_span(s, call_site).ctx == s.ctx,
        spec_parent(scrub_span(s, call_site)) == spec_parent(s),
{
}

} // verus!
