//! What the tools need from the host application.
use vstd::prelude::*;

verus! {

/// The host application as the tools see it.
pub trait AiEnvironment {
    /// The user's base currency code.
    fn base_currency(&self) -> String;
}

} // verus!
