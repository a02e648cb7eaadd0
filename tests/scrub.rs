use scrub::{
    add_scrub, scrub, scrub_macro_body, scrub_with, scrubbed, splice, step, ArmState, Delimiter,
    Group, Ident, Literal, Punct, ScrubError, Spacing, Span, SyntaxContext, TokenTree,
};

fn source(lo: u32, hi: u32) -> Span {
    Span { lo, hi, ctx: SyntaxContext { mark: 0, parent: None } }
}

fn generated(lo: u32, hi: u32, mark: u32, site: Span) -> Span {
    Span { lo, hi, ctx: SyntaxContext { mark, parent: Some(Box::new(site)) } }
}

/// `b!(A)` written at 100..106 in source text.
fn caller() -> Span {
    source(100, 106)
}

/// A `scrub!` invocation inside the expansion of `b!(A)`, itself expanded.
fn invocation() -> Span {
    let wrap_site = generated(20, 40, 1, caller());
    generated(20, 40, 2, wrap_site)
}

fn ident(name: &str, span: Span) -> TokenTree {
    TokenTree::Ident(Ident { name: name.to_string(), span })
}

fn punct(ch: char, spacing: Spacing, span: Span) -> TokenTree {
    TokenTree::Punct(Punct { ch, spacing, span })
}

fn group(delimiter: Delimiter, stream: Vec<TokenTree>, span: Span) -> TokenTree {
    TokenTree::Group(Group { delimiter, stream, span })
}

fn span_of(t: &TokenTree) -> &Span {
    match t {
        TokenTree::Group(g) => &g.span,
        TokenTree::Ident(i) => &i.span,
        TokenTree::Punct(p) => &p.span,
        TokenTree::Literal(l) => &l.span,
    }
}

fn stream_of(t: &TokenTree) -> &Vec<TokenTree> {
    match t {
        TokenTree::Group(g) => &g.stream,
        _ => panic!("not a group"),
    }
}

#[test]
fn span_combinators() {
    let a = generated(1, 2, 5, caller());
    let b = source(7, 9);
    let located = a.copy().located_at(&b);
    assert_eq!((located.lo, located.hi), (7, 9));
    assert_eq!(located.ctx, a.ctx);
    let resolved = a.copy().resolved_at(&b);
    assert_eq!((resolved.lo, resolved.hi), (1, 2));
    assert_eq!(resolved.ctx, b.ctx);
    assert_eq!(a.parent(), Some(caller()));
    assert_eq!(b.parent(), None);
}

#[test]
fn scrub_outside_any_macro_fails() {
    let body = vec![ident("x", source(0, 1))];
    assert_eq!(scrub(body, &source(0, 10)), Err(ScrubError::OutsideMacro));
}

#[test]
fn scrub_directly_in_one_macro_fails() {
    let body = vec![ident("x", source(0, 1))];
    let inv = generated(0, 10, 1, source(50, 60));
    assert_eq!(scrub(body, &inv), Err(ScrubError::OutsideMacro));
}

#[test]
fn scrub_blames_the_caller() {
    let body = vec![ident("y", generated(3, 4, 1, caller()))];
    let out = scrub(body, &invocation()).unwrap();
    assert_eq!(out.len(), 1);
    let s = span_of(&out[0]);
    assert_eq!((s.lo, s.hi), (100, 106));
    assert_eq!(s.ctx, generated(3, 4, 1, caller()).ctx);
    match &out[0] {
        TokenTree::Ident(i) => assert_eq!(i.name, "y"),
        _ => panic!("kind changed"),
    }
}

#[test]
fn scrub_leaves_source_tokens() {
    let body = vec![
        TokenTree::Literal(Literal { text: "1".to_string(), span: source(8, 9) }),
        punct(';', Spacing::Alone, source(9, 10)),
    ];
    let out = scrub(body, &invocation()).unwrap();
    assert_eq!(
        out,
        vec![
            TokenTree::Literal(Literal { text: "1".to_string(), span: source(8, 9) }),
            punct(';', Spacing::Alone, source(9, 10)),
        ]
    );
}

fn nest(depth: u32, leaf: TokenTree) -> TokenTree {
    let mut t = leaf;
    for d in 0..depth {
        t = group(Delimiter::Parenthesis, vec![t], source(d, d + 1));
    }
    t
}

#[test]
fn scrub_is_the_same_at_depth_five() {
    let cs = caller();
    let deep = nest(5, ident("z", generated(3, 4, 1, caller())));
    let flat = ident("z", generated(3, 4, 1, caller()));
    let out = scrub_with(vec![deep, flat], &cs);
    let mut t = &out[0];
    for _ in 0..5 {
        match t {
            TokenTree::Group(g) => {
                assert_eq!(g.delimiter, Delimiter::Parenthesis);
                assert_eq!(g.stream.len(), 1);
                assert!(g.span.ctx.parent.is_none());
                t = &g.stream[0];
            }
            _ => panic!("structure changed"),
        }
    }
    assert_eq!(t, &out[1]);
    assert_eq!((span_of(t).lo, span_of(t).hi), (100, 106));
}

#[test]
fn scrub_twice_changes_nothing() {
    let cs = caller();
    let make = || {
        vec![
            ident("let", generated(3, 6, 1, caller())),
            group(
                Delimiter::Brace,
                vec![punct('=', Spacing::Alone, generated(7, 8, 1, caller()))],
                generated(6, 9, 1, caller()),
            ),
        ]
    };
    let once = scrub_with(make(), &cs);
    let twice = scrub_with(scrub_with(make(), &cs), &cs);
    assert_eq!(once, twice);
}

#[test]
fn step_follows_the_arrow() {
    let joint = punct('=', Spacing::Joint, source(0, 1));
    let gt = punct('>', Spacing::Alone, source(1, 2));
    let brace = group(Delimiter::Brace, vec![], source(3, 5));
    assert_eq!(step(ArmState::Idle, &joint), (ArmState::SawJoint, false));
    assert_eq!(step(ArmState::SawJoint, &gt), (ArmState::SawArrow, false));
    assert_eq!(step(ArmState::SawArrow, &brace), (ArmState::Idle, true));
    assert_eq!(step(ArmState::Idle, &gt), (ArmState::Idle, false));
    assert_eq!(step(ArmState::Idle, &brace), (ArmState::Idle, false));
    assert_eq!(step(ArmState::SawArrow, &ident("x", source(0, 1))), (ArmState::Idle, false));
}

fn arm(matcher: &str, output: &str, at: u32) -> Vec<TokenTree> {
    vec![
        group(Delimiter::Parenthesis, vec![ident(matcher, source(at + 1, at + 2))], source(at, at + 3)),
        punct('=', Spacing::Joint, source(at + 4, at + 5)),
        punct('>', Spacing::Alone, source(at + 5, at + 6)),
        group(Delimiter::Brace, vec![ident(output, source(at + 8, at + 9))], source(at + 7, at + 10)),
        punct(';', Spacing::Alone, source(at + 10, at + 11)),
    ]
}

fn assert_wrap_call(t: &TokenTree, inner: &[TokenTree]) {
    let g = match t {
        TokenTree::Group(g) => g,
        _ => panic!("not a group"),
    };
    assert_eq!(g.delimiter, Delimiter::Brace);
    let s = &g.stream;
    assert_eq!(s.len(), 8);
    assert_eq!(s[0], punct(':', Spacing::Joint, g.span.copy()));
    assert_eq!(s[1], punct(':', Spacing::Alone, g.span.copy()));
    assert_eq!(s[2], ident("scrub", g.span.copy()));
    assert_eq!(s[3], punct(':', Spacing::Joint, g.span.copy()));
    assert_eq!(s[4], punct(':', Spacing::Alone, g.span.copy()));
    assert_eq!(s[5], ident("scrub", g.span.copy()));
    assert_eq!(s[6], punct('!', Spacing::Alone, g.span.copy()));
    match &s[7] {
        TokenTree::Group(h) => {
            assert_eq!(h.delimiter, Delimiter::Brace);
            assert_eq!(h.span, g.span);
            assert_eq!(h.stream.as_slice(), inner);
        }
        _ => panic!("no wrapped block"),
    }
}

#[test]
fn detector_finds_every_arm_in_order() {
    let mut body = arm("a", "x", 0);
    body.extend(arm("b", "y", 20));
    body.extend(arm("c", "z", 40));
    let out = scrub_macro_body(body);
    assert_eq!(out.len(), 15);
    assert_wrap_call(&out[3], &[ident("x", source(8, 9))]);
    assert_wrap_call(&out[8], &[ident("y", source(28, 29))]);
    assert_wrap_call(&out[13], &[ident("z", source(48, 49))]);
    assert_eq!(out[0], arm("a", "x", 0)[0]);
    assert_eq!(out[14], arm("c", "z", 40)[4]);
}

#[test]
fn detector_ignores_lone_gt_and_brace() {
    let body = vec![
        punct('>', Spacing::Alone, source(0, 1)),
        group(Delimiter::Brace, vec![], source(1, 3)),
        punct('=', Spacing::Alone, source(3, 4)),
        punct('>', Spacing::Alone, source(4, 5)),
        group(Delimiter::Brace, vec![], source(5, 7)),
        punct('-', Spacing::Joint, source(7, 8)),
        punct('>', Spacing::Alone, source(8, 9)),
        ident("x", source(9, 10)),
        group(Delimiter::Brace, vec![], source(10, 12)),
    ];
    let expected = vec![
        punct('>', Spacing::Alone, source(0, 1)),
        group(Delimiter::Brace, vec![], source(1, 3)),
        punct('=', Spacing::Alone, source(3, 4)),
        punct('>', Spacing::Alone, source(4, 5)),
        group(Delimiter::Brace, vec![], source(5, 7)),
        punct('-', Spacing::Joint, source(7, 8)),
        punct('>', Spacing::Alone, source(8, 9)),
        ident("x", source(9, 10)),
        group(Delimiter::Brace, vec![], source(10, 12)),
    ];
    assert_eq!(scrub_macro_body(body), expected);
}

#[test]
fn detector_on_a_joint_gt() {
    // `=>>` followed by a brace: the `>` joined to the next one restarts
    let body = vec![
        punct('=', Spacing::Joint, source(0, 1)),
        punct('>', Spacing::Joint, source(1, 2)),
        punct('>', Spacing::Alone, source(2, 3)),
        group(Delimiter::Brace, vec![], source(4, 6)),
    ];
    let out = scrub_macro_body(body);
    assert_wrap_call(&out[3], &[]);
}

#[test]
fn add_scrub_builds_the_wrap_call() {
    let at = source(10, 20);
    let out = add_scrub(vec![ident("q", source(12, 13))], &at);
    let wrapped = group(Delimiter::Brace, out, at.copy());
    assert_wrap_call(&wrapped, &[ident("q", source(12, 13))]);
}

#[test]
fn splice_keeps_delimiter_and_location() {
    let g = group(Delimiter::Bracket, vec![ident("q", source(12, 13))], source(10, 20));
    let out = splice(g);
    match &out {
        TokenTree::Group(h) => {
            assert_eq!(h.delimiter, Delimiter::Bracket);
            assert_eq!(h.span, source(10, 20));
            assert_eq!(h.stream.len(), 8);
            assert_eq!(stream_of(&h.stream[7]), &vec![ident("q", source(12, 13))]);
        }
        _ => panic!("not a group"),
    }
}

#[test]
fn scrubbed_rejects_an_argument() {
    let attr = vec![ident("x", source(0, 1))];
    assert_eq!(scrubbed(attr, vec![]), Err(ScrubError::AttributeArgument));
}

#[test]
fn scrubbed_rules_definition() {
    // macro_rules! rules { (a) => {x}; (b) => {y}; }
    let mut arms = arm("a", "x", 20);
    arms.extend(arm("b", "y", 40));
    let body = vec![
        ident("macro_rules", source(0, 11)),
        punct('!', Spacing::Alone, source(11, 12)),
        ident("rules", source(13, 18)),
        group(Delimiter::Brace, arms, source(19, 60)),
    ];
    let out = scrubbed(vec![], body).unwrap();
    assert_eq!(out.len(), 4);
    assert_eq!(out[2], ident("rules", source(13, 18)));
    let inner = stream_of(&out[3]);
    assert_eq!(inner.len(), 10);
    assert_wrap_call(&inner[3], &[ident("x", source(28, 29))]);
    assert_wrap_call(&inner[8], &[ident("y", source(48, 49))]);
    assert_eq!(inner[0], arm("a", "x", 20)[0]);
}

#[test]
fn scrubbed_single_arm_definition() {
    // macro decl($e:expr) { let () = $e; }
    let block = vec![ident("let", source(22, 25)), punct(';', Spacing::Alone, source(30, 31))];
    let body = vec![
        ident("macro", source(0, 5)),
        ident("decl", source(6, 10)),
        group(Delimiter::Parenthesis, vec![ident("e", source(12, 13))], source(10, 19)),
        group(Delimiter::Brace, block, source(20, 32)),
    ];
    let out = scrubbed(vec![], body).unwrap();
    assert_eq!(out.len(), 4);
    assert_eq!(out[2], group(Delimiter::Parenthesis, vec![ident("e", source(12, 13))], source(10, 19)));
    match &out[3] {
        TokenTree::Group(g) => {
            assert_eq!(g.span, source(20, 32));
            assert_eq!(g.delimiter, Delimiter::Brace);
            let w = group(Delimiter::Brace, g.stream.iter().map(copy_tree).collect(), source(20, 32));
            assert_wrap_call(
                &w,
                &[ident("let", source(22, 25)), punct(';', Spacing::Alone, source(30, 31))],
            );
        }
        _ => panic!("not a group"),
    }
}

fn copy_tree(t: &TokenTree) -> TokenTree {
    match t {
        TokenTree::Group(g) => TokenTree::Group(Group {
            delimiter: g.delimiter,
            stream: g.stream.iter().map(copy_tree).collect(),
            span: g.span.copy(),
        }),
        TokenTree::Ident(i) => ident(&i.name, i.span.copy()),
        TokenTree::Punct(p) => punct(p.ch, p.spacing, p.span.copy()),
        TokenTree::Literal(l) => TokenTree::Literal(Literal { text: l.text.clone(), span: l.span.copy() }),
    }
}

#[test]
fn instrumented_definition_blames_the_call_site() {
    // macro_rules! b { ($e:expr) => { let () = $e; }; }, then b!(A)
    let def = vec![
        group(Delimiter::Parenthesis, vec![ident("e", source(20, 21))], source(18, 27)),
        punct('=', Spacing::Joint, source(28, 29)),
        punct('>', Spacing::Alone, source(29, 30)),
        group(
            Delimiter::Brace,
            vec![
                ident("let", source(33, 36)),
                group(Delimiter::Parenthesis, vec![], source(37, 39)),
                punct('=', Spacing::Alone, source(40, 41)),
                ident("e", source(42, 44)),
                punct(';', Spacing::Alone, source(44, 45)),
            ],
            source(31, 47),
        ),
        punct(';', Spacing::Alone, source(47, 48)),
    ];
    let out = scrub_macro_body(def);
    let block = &out[3];
    let call = stream_of(block);
    assert_eq!(call.len(), 8);

    // Expanding b!(A) at 100..106: the definition's tokens come out of that
    // expansion; `$e` is replaced by the caller's `A` at 103..104.
    let in_b = |s: &Span| generated(s.lo, s.hi, 1, caller());
    let wrapped = stream_of(&call[7]);
    let expanded: Vec<TokenTree> = wrapped
        .iter()
        .map(|t| match t {
            TokenTree::Ident(i) if i.name == "e" => ident("A", source(103, 104)),
            TokenTree::Ident(i) => ident(&i.name, in_b(&i.span)),
            TokenTree::Punct(p) => punct(p.ch, p.spacing, in_b(&p.span)),
            TokenTree::Group(g) => group(g.delimiter, vec![], in_b(&g.span)),
            TokenTree::Literal(l) => TokenTree::Literal(Literal { text: l.text.clone(), span: in_b(&l.span) }),
        })
        .collect();

    let result = scrub(expanded, &invocation()).unwrap();
    assert_eq!(result.len(), 5);
    for i in [0usize, 1, 2, 4] {
        let s = span_of(&result[i]);
        assert_eq!((s.lo, s.hi), (100, 106));
        assert_eq!(s.ctx.mark, 1);
    }
    assert_eq!(result[3], ident("A", source(103, 104)));
}
