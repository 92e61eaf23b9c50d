//! Key expression matching and the unicast transport manager of a
//! publish/subscribe fabric.
//!
//! - [`key_expr`]: intersection and inclusion of key expressions, with the
//!   facts about them in [`key_expr_props`].
//! - [`manager`]: the state and decisions of the unicast transport manager
//!   (admission, link managers per protocol, transports per peer).
pub mod error;
pub mod key_expr;
pub mod key_expr_props;
pub mod key_semantics;
pub mod link;
pub mod manager;
pub mod transport;
