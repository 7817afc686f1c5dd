//! Notifiers that need no outside service.

use vstd::prelude::*;

use crate::domain::deferral::Deferral;
use crate::domain::traits::Notifier;
use crate::domain::PromoteError;

verus! {

/// A notifier that does nothing, for tests and library use.
pub struct NoopNotifier;

impl Notifier for NoopNotifier {
    open spec fn notified(&self, deferral: Deferral, r: Result<(), PromoteError>) -> bool {
        r is Ok
    }

    fn on_deferred(&self, deferral: &Deferral) -> (r: Result<(), PromoteError>)
        ensures
            r is Ok,
    {
        Ok(())
    }
}

} // verus!
