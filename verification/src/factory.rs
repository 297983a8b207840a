//! The reporting decorator around the host's service factory.
//!
//! The host's factory abstraction is asynchronous and belongs to the
//! host; the decorator here carries the inner factory and the decision
//! logic.  The host forwards each build to the delegate, and on success
//! consults [`reporting_enabled`] with the opt-out variable's value
//! before spawning the one-shot reporting worker.

use vstd::prelude::*;

verus! {

/// Wraps an inner service factory; after each of the delegate's
/// successful builds a usage report may be sent.
pub struct OrbiterAbstractRouterServiceFactory<T> {
    delegate: T,
}

impl<T> OrbiterAbstractRouterServiceFactory<T> {
    /// The factory this decorator wraps.
    pub closed spec fn inner(&self) -> T {
        self.delegate
    }

    /// Decorates `delegate`.
    pub fn new(delegate: T) -> (r: OrbiterAbstractRouterServiceFactory<T>)
        ensures
            r.inner() == delegate,
    {
        OrbiterAbstractRouterServiceFactory { delegate }
    }

    /// The wrapped factory, to forward a build to.
    pub fn delegate_mut(&mut self) -> (r: &mut T)
        ensures
            *r == old(self).inner(),
            final(self).inner() == *final(r),
    {
        &mut self.delegate
    }
}

/// Whether a report may be sent, from the opt-out variable's value:
/// reporting is disabled exactly when the value is the literal `true`;
/// any other value, and an unset variable, leave it enabled.
pub open spec fn reporting_enabled_spec(env_value: Option<Seq<char>>) -> bool {
    match env_value {
        Option::Some(s) => s != "true"@,
        Option::None => true,
    }
}

/// Decides whether a report may be sent; `env_value` is the opt-out
/// variable's value, `None` when it is unset.
pub fn reporting_enabled(env_value: Option<&str>) -> (r: bool)
    ensures
        r == reporting_enabled_spec(env_value.deep_view()),
{
    match env_value {
        Option::Some(s) => !crate::usage::str_eq(s, "true"),
        Option::None => true,
    }
}

/// The opt-out is exact: only the literal `true` disables reporting;
/// in particular the empty value, `TRUE` and `1` all leave it enabled.
pub proof fn lemma_opt_out_exact(env_value: Option<Seq<char>>)
    ensures
        !reporting_enabled_spec(env_value) <==> env_value == Option::Some("true"@),
{
}

} // verus!
