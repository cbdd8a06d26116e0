//! Turns a partial, hand-typed address such as `example.com` into the one
//! address of that site that answers.
//!
//! Up to four forms of the input are probed, in a fixed order: with
//! `https://` and as typed, with `https://` and the `www.` label toggled,
//! then the same two with `http://`. The first probe that is accepted ends
//! the resolution; its final address is the result.
//!
//! The library performs no request itself. `resolve::begin` names the first
//! address to probe, the caller performs the GET and hands what came back to
//! `resolve::advance`, which names the next address or the result. `utils`
//! holds the parts: candidate building, the `www.` toggle and the acceptance
//! rule. The `_laws` modules state what holds of them in general.

pub mod resolve;
pub mod resolve_laws;
pub mod utils;
