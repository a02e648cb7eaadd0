//! Re-attributes the provenance of macro-generated tokens to the caller of a
//! macro, so that diagnostics raised inside an expansion point at the call
//! site rather than at the macro's own body.
//!
//! Tokens and locations are modelled as plain data: a [`Span`] carries the
//! region that diagnostics display and the hygiene context it resolves under,
//! and the context records the expansion site it came from, if any.

pub mod arms;
pub mod span;
pub mod splice;
pub mod token;
pub mod walk;

pub use arms::{ArmState, step};
pub use span::{Span, SyntaxContext};
pub use splice::{add_scrub, scrub_macro_body, scrubbed, splice};
pub use token::{Delimiter, Group, Ident, Literal, Punct, Spacing, TokenTree};
pub use walk::{ScrubError, scrub, scrub_with};
