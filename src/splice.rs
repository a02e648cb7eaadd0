use vstd::prelude::*;
use crate::arms::{ArmState, is_arm_body, spec_step, state_after, step};
use crate::span::{Span, scrub_span};
use crate::token::{
    Delimiter, Group, Ident, Punct, Spacing, TokenTree, lemma_walk_keeps_structure, mapped_seq,
    same_shape_seq,
};
use crate::walk::ScrubError;

verus! {

/// `t` is the punctuation `ch` with spacing `sp`, located at `span`.
pub open spec fn is_punct(t: TokenTree, ch: char, sp: Spacing, span: Span) -> bool {
    t is Punct && t->Punct_0.ch == ch && t->Punct_0.spacing == sp && t->Punct_0.span == span
}

/// `t` is the identifier `name`, located at `span`.
pub open spec fn is_ident(t: TokenTree, name: Seq<char>, span: Span) -> bool {
    t is Ident && t->Ident_0.name@ == name && t->Ident_0.span == span
}

/// `r` is the invocation `::scrub::scrub! { body }`, every token of it
/// located at `span`.
pub open spec fn is_wrap_call(r: Seq<TokenTree>, body: Seq<TokenTree>, span: Span) -> bool {
    &&& r.len() == 8
    &&& is_punct(r[0], ':', Spacing::Joint, span)
    &&& is_punct(r[1], ':', Spacing::Alone, span)
    &&& is_ident(r[2], "scrub"@, span)
    &&& is_punct(r[3], ':', Spacing::Joint, span)
    &&& is_punct(r[4], ':', Spacing::Alone, span)
    &&& is_ident(r[5], "scrub"@, span)
    &&& is_punct(r[6], '!', Spacing::Alone, span)
    &&& r[7] is Group
    &&& r[7]->Group_0.delimiter == Delimiter::Brace
    &&& r[7]->Group_0.stream@ == body
    &&& r[7]->Group_0.span == span
}

/// `r` is the group `t` with its contents wrapped in a call of the wrap
/// operation; delimiter and location are kept.
pub open spec fn spliced(t: TokenTree, r: TokenTree) -> bool {
    &&& t is Group
    &&& r is Group
    &&& r->Group_0.delimiter == t->Group_0.delimiter
    &&& r->Group_0.span == t->Group_0.span
    &&& is_wrap_call(r->Group_0.stream@, t->Group_0.stream@, t->Group_0.span)
}

/// `r` is `t` with every arm's output block spliced and all else unchanged.
pub open spec fn instrumented(t: Seq<TokenTree>, r: Seq<TokenTree>) -> bool {
    &&& r.len() == t.len()
    &&& forall|i: int|
        0 <= i < t.len() ==> if is_arm_body(t, i) {
            spliced(t[i], #[trigger] r[i])
        } else {
            r[i] == t[i]
        }
}

/// Some token of `ts` before position `i` is a parenthesized group.
pub open spec fn after_paren(ts: Seq<TokenTree>, i: int) -> bool {
    exists|j: int|
        0 <= j < i && #[trigger] ts[j] is Group && ts[j]->Group_0.delimiter
            == Delimiter::Parenthesis
}

/// `t` is a brace-delimited group.
pub open spec fn is_brace(t: TokenTree) -> bool {
    t is Group && t->Group_0.delimiter == Delimiter::Brace
}

/// The annotation's rewrite of a definition: a brace body that follows a
/// parenthesized group is one implicit arm and is spliced whole; one that
/// comes before any is a list of arms, each of whose output blocks is
/// spliced; all other tokens are unchanged.
pub open spec fn dispatched(t: Seq<TokenTree>, r: Seq<TokenTree>) -> bool {
    &&& r.len() == t.len()
    &&& forall|i: int|
        0 <= i < t.len() ==> if !is_brace(t[i]) {
            #[trigger] r[i] == t[i]
        } else if after_paren(t, i) {
            spliced(t[i], r[i])
        } else {
            &&& r[i] is Group
            &&& r[i]->Group_0.delimiter == Delimiter::Brace
            &&& r[i]->Group_0.span == t[i]->Group_0.span
            &&& instrumented(t[i]->Group_0.stream@, r[i]->Group_0.stream@)
        }
}

fn punct(ch: char, spacing: Spacing, span: &Span) -> (r: TokenTree)
    ensures
        is_punct(r, ch, spacing, *span),
{
    TokenTree::Punct(Punct { ch, spacing, span: span.copy() })
}

fn ident_scrub(span: &Span) -> (r: TokenTree)
    ensures
        is_ident(r, "scrub"@, *span),
{
    TokenTree::Ident(Ident { name: "scrub".to_owned(), span: span.copy() })
}

/// Builds `::scrub::scrub! { body }`, every token located at `span`.
pub fn add_scrub(body: Vec<TokenTree>, span: &Span) -> (r: Vec<TokenTree>)
    ensures
        is_wrap_call(r@, body@, *span),
{
    let mut r: Vec<TokenTree> = Vec::new();
    r.push(punct(':', Spacing::Joint, span));
    r.push(punct(':', Spacing::Alone, span));
    r.push(ident_scrub(span));
    r.push(punct(':', Spacing::Joint, span));
    r.push(punct(':', Spacing::Alone, span));
    r.push(ident_scrub(span));
    r.push(punct('!', Spacing::Alone, span));
    r.push(TokenTree::Group(Group { delimiter: Delimiter::Brace, stream: body, span: span.copy() }));
    r
}

/// Wraps the contents of the group `t` in a call of the wrap operation.
pub fn splice(t: TokenTree) -> (r: TokenTree)
    requires
        t is Group,
    ensures
        spliced(t, r),
{
    match t {
        TokenTree::Group(g) => {
            let stream = add_scrub(g.stream, &g.span);
            TokenTree::Group(Group { delimiter: g.delimiter, stream, span: g.span })
        },
        _ => t,
    }
}

/// Splices the output block of every arm in `body`, found by the detector.
pub fn scrub_macro_body(body: Vec<TokenTree>) -> (r: Vec<TokenTree>)
    ensures
        instrumented(body@, r@),
{
    let ghost orig = body;
    let mut rest = body;
    let mut out: Vec<TokenTree> = Vec::new();
    let mut state = ArmState::Idle;
    while rest.len() > 0
        invariant
            out.len() + rest.len() == orig.len(),
            rest@ == orig@.subrange(out.len() as int, orig.len() as int),
            state == state_after(orig@.take(out.len() as int)),
            forall|i: int|
                0 <= i < out.len() ==> if is_arm_body(orig@, i) {
                    spliced(orig@[i], #[trigger] out@[i])
                } else {
                    out@[i] == orig@[i]
                },
        decreases rest.len(),
    {
        let t = rest.remove(0);
        let ghost k = out.len() as int;
        proof {
            assert(t == orig@[k]);
            assert(orig@.take(k + 1).drop_last() =~= orig@.take(k));
        }
        let (next, found) = step(state, &t);
        if found {
            out.push(splice(t));
        } else {
            out.push(t);
        }
        state = next;
    }
    out
}

/// The annotation: rewrites a macro definition so that each arm's output is
/// wrapped in a call of the wrap operation. It takes no argument, and fails
/// with `AttributeArgument` when `attr` is not empty.
pub fn scrubbed(attr: Vec<TokenTree>, body: Vec<TokenTree>) -> (r: Result<
    Vec<TokenTree>,
    ScrubError,
>)
    ensures
        attr.len() > 0 <==> r == Err::<Vec<TokenTree>, ScrubError>(ScrubError::AttributeArgument),
        attr.len() == 0 ==> r is Ok && dispatched(body@, r->Ok_0@),
{
    if attr.len() > 0 {
        return Err(ScrubError::AttributeArgument);
    }
    let ghost orig = body;
    let mut rest = body;
    let mut out: Vec<TokenTree> = Vec::new();
    let mut seen_paren = false;
    while rest.len() > 0
        invariant
            out.len() + rest.len() == orig.len(),
            rest@ == orig@.subrange(out.len() as int, orig.len() as int),
            seen_paren == after_paren(orig@, out.len() as int),
            forall|i: int|
                0 <= i < out.len() ==> if !is_brace(orig@[i]) {
                    #[trigger] out@[i] == orig@[i]
                } else if after_paren(orig@, i) {
                    spliced(orig@[i], out@[i])
                } else {
                    &&& out@[i] is Group
                    &&& out@[i]->Group_0.delimiter == Delimiter::Brace
                    &&& out@[i]->Group_0.span == orig@[i]->Group_0.span
                    &&& instrumented(orig@[i]->Group_0.stream@, out@[i]->Group_0.stream@)
                },
        decreases rest.len(),
    {
        let t = rest.remove(0);
        let ghost k = out.len() as int;
        proof {
            assert(t == orig@[k]);
        }
        let is_paren = match &t {
            TokenTree::Group(g) => g.delimiter == Delimiter::Parenthesis,
            _ => false,
        };
        let is_brace_group = match &t {
            TokenTree::Group(g) => g.delimiter == Delimiter::Brace,
            _ => false,
        };
        if is_brace_group {
            if seen_paren {
                out.push(splice(t));
            } else {
                match t {
                    TokenTree::Group(g) => {
                        let stream = scrub_macro_body(g.stream);
                        out.push(TokenTree::Group(Group { delimiter: g.delimiter, stream, span: g.span }));
                    },
                    _ => {},
                }
            }
        } else {
            out.push(t);
        }
        proof {
            if is_paren {
                assert(orig@[k] is Group && orig@[k]->Group_0.delimiter == Delimiter::Parenthesis);
            }
            if after_paren(orig@, k + 1) && !is_paren {
                let j = choose|j: int|
                    0 <= j < k + 1 && #[trigger] orig@[j] is Group && orig@[j]->Group_0.delimiter
                        == Delimiter::Parenthesis;
                assert(j < k);
            }
        }
        seen_paren = seen_paren || is_paren;
    }
    Ok(out)
}

/// Splicing is transparent: the wrap call put into a spliced block holds the
/// block's own tokens, and expanding that call (scrubbing them for any call
/// site) gives back the block's tokens with the same kinds, values and
/// nesting; only locations may differ.
pub proof fn lemma_splice_transparent(t: TokenTree, r: TokenTree, call_site: Span, expanded: Seq<
    TokenTree,
>)
    requires
        spliced(t, r),
        mapped_seq(
            r->Group_0.stream@[7]->Group_0.stream@,
            expanded,
            |s: Span| scrub_span(s, call_site),
        ),
    ensures
        r->Group_0.stream@[7]->Group_0.stream@ == t->Group_0.stream@,
        same_shape_seq(t->Group_0.stream@, expanded),
{
    lemma_walk_keeps_structure(
        r->Group_0.stream@[7]->Group_0.stream@,
        expanded,
        |s: Span| scrub_span(s, call_site),
    );
}

} // verus!
