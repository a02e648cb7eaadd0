use vstd::prelude::*;
use crate::span::Span;

verus! {

/// How a group's tokens are delimited.
#[derive(Clone, Copy, Debug, PartialEq, Eq, Structural)]
pub enum Delimiter {
    Parenthesis,
    Brace,
    Bracket,
    Invisible,
}

/// Whether a punctuation character is followed directly by more punctuation.
#[derive(Clone, Copy, Debug, PartialEq, Eq, Structural)]
pub enum Spacing {
    Alone,
    Joint,
}

/// A delimited sequence of token trees.
#[derive(Debug, PartialEq, Eq)]
pub struct Group {
    pub delimiter: Delimiter,
    pub stream: Vec<TokenTree>,
    pub span: Span,
}

/// An identifier or keyword.
#[derive(Debug, PartialEq, Eq)]
pub struct Ident {
    pub name: String,
    pub span: Span,
}

/// A single punctuation character.
#[derive(Debug, PartialEq, Eq)]
pub struct Punct {
    pub ch: char,
    pub spacing: Spacing,
    pub span: Span,
}

/// A literal, held as its source text.
#[derive(Debug, PartialEq, Eq)]
pub struct Literal {
    pub text: String,
    pub span: Span,
}

/// One token, or a group of them.
#[derive(Debug, PartialEq, Eq)]
pub enum TokenTree {
    Group(Group),
    Ident(Ident),
    Punct(Punct),
    Literal(Literal),
}

/// The location attached to a token.
pub open spec fn span_of(t: TokenTree) -> Span {
    match t {
        TokenTree::Group(g) => g.span,
        TokenTree::Ident(i) => i.span,
        TokenTree::Punct(p) => p.span,
        TokenTree::Literal(l) => l.span,
    }
}

/// `r` is `t` with the same kind and value, and with its location replaced
/// by `f` of it; a group's delimiter is kept and its children are related
/// by `mapped_all`, at every depth.
pub open spec fn mapped(t: TokenTree, r: TokenTree, f: spec_fn(Span) -> Span) -> bool
    decreases t, 1nat,
{
    span_of(r) == f(span_of(t)) && match t {
        TokenTree::Group(g) => match r {
            TokenTree::Group(h) => h.delimiter == g.delimiter && mapped_all(
                g.stream@,
                h.stream@,
                f,
            ),
            _ => false,
        },
        TokenTree::Ident(i) => r is Ident && r->Ident_0.name@ == i.name@,
        TokenTree::Punct(p) => r is Punct && r->Punct_0.ch == p.ch && r->Punct_0.spacing
            == p.spacing,
        TokenTree::Literal(l) => r is Literal && r->Literal_0.text@ == l.text@,
    }
}

/// The two sequences have one length and each token of `r` is `mapped`
/// from the token of `t` at the same position.
pub open spec fn mapped_all(t: Seq<TokenTree>, r: Seq<TokenTree>, f: spec_fn(Span) -> Span) -> bool
    decreases t, 0nat,
{
    if t.len() == 0 {
        r.len() == 0
    } else {
        &&& r.len() > 0
        &&& mapped(t[0], r[0], f)
        &&& mapped_all(t.drop_first(), r.drop_first(), f)
    }
}

/// `mapped_all`, stated position by position.
pub open spec fn mapped_seq(t: Seq<TokenTree>, r: Seq<TokenTree>, f: spec_fn(Span) -> Span) -> bool {
    &&& r.len() == t.len()
    &&& forall|i: int|
        #![trigger mapped(t[i], r[i], f)]
        #![trigger r[i]]
        0 <= i < t.len() ==> mapped(t[i], r[i], f)
}

/// `mapped_all` and `mapped_seq` agree.
pub proof fn lemma_mapped_all(t: Seq<TokenTree>, r: Seq<TokenTree>, f: spec_fn(Span) -> Span)
    ensures
        mapped_all(t, r, f) <==> mapped_seq(t, r, f),
    decreases t.len(),
{
    if t.len() > 0 && r.len() > 0 {
        lemma_mapped_all(t.drop_first(), r.drop_first(), f);
        if mapped_seq(t, r, f) {
            assert(mapped_seq(t.drop_first(), r.drop_first(), f)) by {
                assert forall|i: int| 0 <= i < t.len() - 1 implies #[trigger] mapped(
                    t.drop_first()[i],
                    r.drop_first()[i],
                    f,
                ) by {
                    assert(mapped(t[i + 1], r[i + 1], f));
                }
            }
            assert(mapped(t[0], r[0], f));
            assert(mapped_all(t, r, f));
        }
        if mapped_all(t, r, f) {
            assert forall|i: int| 0 <= i < t.len() implies #[trigger] mapped(t[i], r[i], f) by {
                if i > 0 {
                    assert(mapped(t.drop_first()[i - 1], r.drop_first()[i - 1], f));
                }
            }
            assert(mapped_seq(t, r, f));
        }
    }
}

/// `a` and `b` are the same tree up to locations: the same kinds, values
/// and delimiters, with children alike at every depth.
pub open spec fn same_shape(a: TokenTree, b: TokenTree) -> bool
    decreases a, 1nat,
{
    match a {
        TokenTree::Group(g) => match b {
            TokenTree::Group(h) => h.delimiter == g.delimiter && same_shape_all(
                g.stream@,
                h.stream@,
            ),
            _ => false,
        },
        TokenTree::Ident(i) => b is Ident && b->Ident_0.name@ == i.name@,
        TokenTree::Punct(p) => b is Punct && b->Punct_0.ch == p.ch && b->Punct_0.spacing
            == p.spacing,
        TokenTree::Literal(l) => b is Literal && b->Literal_0.text@ == l.text@,
    }
}

/// `same_shape` at each position of two sequences of one length.
pub open spec fn same_shape_all(a: Seq<TokenTree>, b: Seq<TokenTree>) -> bool
    decreases a, 0nat,
{
    if a.len() == 0 {
        b.len() == 0
    } else {
        &&& b.len() > 0
        &&& same_shape(a[0], b[0])
        &&& same_shape_all(a.drop_first(), b.drop_first())
    }
}

/// `same_shape_all`, stated position by position.
pub open spec fn same_shape_seq(a: Seq<TokenTree>, b: Seq<TokenTree>) -> bool {
    &&& b.len() == a.len()
    &&& forall|i: int| 0 <= i < a.len() ==> #[trigger] same_shape(a[i], b[i])
}

/// `same_shape_all` and `same_shape_seq` agree.
pub proof fn lemma_same_shape_all(a: Seq<TokenTree>, b: Seq<TokenTree>)
    ensures
        same_shape_all(a, b) <==> same_shape_seq(a, b),
    decreases a.len(),
{
    if a.len() > 0 && b.len() > 0 {
        lemma_same_shape_all(a.drop_first(), b.drop_first());
        if same_shape_seq(a, b) {
            assert(same_shape_seq(a.drop_first(), b.drop_first())) by {
                assert forall|i: int| 0 <= i < a.len() - 1 implies #[trigger] same_shape(
                    a.drop_first()[i],
                    b.drop_first()[i],
                ) by {
                    assert(same_shape(a[i + 1], b[i + 1]));
                }
            }
            assert(same_shape(a[0], b[0]));
        }
        if same_shape_all(a, b) {
            assert forall|i: int| 0 <= i < a.len() implies #[trigger] same_shape(a[i], b[i]) by {
                if i > 0 {
                    assert(same_shape(a.drop_first()[i - 1], b.drop_first()[i - 1]));
                }
            }
        }
    }
}

/// Structure preservation: rewriting locations, with any transformation
/// (the identity among them), keeps every token's kind and value and every
/// group's delimiter and children, at every depth.
pub proof fn lemma_mapped_same_shape(t: TokenTree, r: TokenTree, f: spec_fn(Span) -> Span)
    requires
        mapped(t, r, f),
    ensures
        same_shape(t, r),
    decreases t, 1nat,
{
    if let TokenTree::Group(g) = t {
        lemma_mapped_all_same_shape(g.stream@, r->Group_0.stream@, f);
    }
}

/// Structure preservation for sequences, as `lemma_mapped_same_shape`.
pub proof fn lemma_mapped_all_same_shape(
    t: Seq<TokenTree>,
    r: Seq<TokenTree>,
    f: spec_fn(Span) -> Span,
)
    requires
        mapped_all(t, r, f),
    ensures
        same_shape_all(t, r),
    decreases t, 0nat,
{
    if t.len() > 0 {
        lemma_mapped_same_shape(t[0], r[0], f);
        lemma_mapped_all_same_shape(t.drop_first(), r.drop_first(), f);
    }
}

/// Structure preservation, position by position: a stream whose
/// locations were rewritten has the shape of the original.
pub proof fn lemma_walk_keeps_structure(t: Seq<TokenTree>, r: Seq<TokenTree>, f: spec_fn(Span) -> Span)
    requires
        mapped_seq(t, r, f),
    ensures
        same_shape_seq(t, r),
{
    lemma_mapped_all(t, r, f);
    lemma_mapped_all_same_shape(t, r, f);
    lemma_same_shape_all(t, r);
}

} // verus!
