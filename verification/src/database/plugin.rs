//! The handle by which the profile store is set up.

use vstd::prelude::*;
use crate::database::queries::ConnectionRegistry;

verus! {

/// Sets up the profile store.
#[derive(Debug, Clone, Copy, PartialEq, Eq, Structural)]
pub struct Builder {}

impl Builder {
    /// A builder with nothing set.
    pub fn new() -> (r: Builder)
        ensures
            r == (Builder {  }),
    {
        Builder {  }
    }

    /// The registry that the store starts with: one without profiles.
    pub fn registry(self) -> (r: ConnectionRegistry)
        ensures
            r@ == Seq::<crate::models::connection_config::Profile>::empty(),
    {
        ConnectionRegistry::new()
    }
}

impl Default for Builder {
    fn default() -> (r: Builder)
        ensures
            r == (Builder {  }),
    {
        Builder {  }
    }
}

} // verus!
