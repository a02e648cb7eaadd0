use vstd::prelude::*;
use crate::token::{Delimiter, Spacing, TokenTree};

verus! {

/// Where the detector stands after the tokens seen so far.
#[derive(Clone, Copy, Debug, PartialEq, Eq, Structural)]
pub enum ArmState {
    Idle,
    /// The last token was punctuation joined to the next one.
    SawJoint,
    /// The last two tokens were joined punctuation and then `>`: an arrow.
    SawArrow,
}

/// One transition: the next state, and whether `t` is an arm's output block.
pub open spec fn spec_step(s: ArmState, t: TokenTree) -> (ArmState, bool) {
    if t is Punct && t->Punct_0.spacing == Spacing::Joint {
        (ArmState::SawJoint, false)
    } else if t is Punct && t->Punct_0.ch == '>' && s == ArmState::SawJoint {
        (ArmState::SawArrow, false)
    } else if t is Group && t->Group_0.delimiter == Delimiter::Brace && s == ArmState::SawArrow {
        (ArmState::Idle, true)
    } else {
        (ArmState::Idle, false)
    }
}

/// The state after scanning `ts` from `Idle`.
pub open spec fn state_after(ts: Seq<TokenTree>) -> ArmState
    decreases ts.len(),
{
    if ts.len() == 0 {
        ArmState::Idle
    } else {
        spec_step(state_after(ts.drop_last()), ts.last()).0
    }
}

/// The token at position `i` of `ts` is the output block of an arm.
pub open spec fn is_arm_body(ts: Seq<TokenTree>, i: int) -> bool {
    0 <= i < ts.len() && spec_step(state_after(ts.take(i)), ts[i]).1
}

/// Feeds one token to the detector.
pub fn step(state: ArmState, t: &TokenTree) -> (r: (ArmState, bool))
    ensures
        r == spec_step(state, *t),
{
    match t {
        TokenTree::Punct(p) => {
            if p.spacing == Spacing::Joint {
                (ArmState::SawJoint, false)
            } else if p.ch == '>' && state == ArmState::SawJoint {
                (ArmState::SawArrow, false)
            } else {
                (ArmState::Idle, false)
            }
        },
        TokenTree::Group(g) => {
            if g.delimiter == Delimiter::Brace && state == ArmState::SawArrow {
                (ArmState::Idle, true)
            } else {
                (ArmState::Idle, false)
            }
        },
        _ => (ArmState::Idle, false),
    }
}

/// The arrow `=>` (or any joined punctuation followed by a lone `>`) ends
/// just before position `i` of `ts`.
pub open spec fn arrow_before(ts: Seq<TokenTree>, i: int) -> bool {
    &&& 2 <= i <= ts.len()
    &&& ts[i - 2] is Punct
    &&& ts[i - 2]->Punct_0.spacing == Spacing::Joint
    &&& ts[i - 1] is Punct
    &&& ts[i - 1]->Punct_0.ch == '>'
    &&& ts[i - 1]->Punct_0.spacing == Spacing::Alone
}

/// Arm detection is exact: the token at `i` is found as an output block
/// exactly when it is a brace group right after an arrow. Every arm's block
/// is found, whatever came before, and a `>` or a brace group without the
/// joined punctuation and `>` before it never is.
pub proof fn lemma_arm_body_exact(ts: Seq<TokenTree>, i: int)
    requires
        0 <= i < ts.len(),
    ensures
        is_arm_body(ts, i) <==> arrow_before(ts, i) && ts[i] is Group && ts[i]->Group_0.delimiter
            == Delimiter::Brace,
{
    reveal_with_fuel(state_after, 3);
    if i >= 1 {
        assert(ts.take(i).drop_last() =~= ts.take(i - 1));
        assert(ts.take(i).last() == ts[i - 1]);
    }
    if i >= 2 {
        assert(ts.take(i - 1).drop_last() =~= ts.take(i - 2));
        assert(ts.take(i - 1).last() == ts[i - 2]);
    }
}

} // verus!
