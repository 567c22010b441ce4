//! The route value handed around by the surrounding navigation machinery: a
//! route string together with optional history state.

use vstd::prelude::*;

verus! {

/// The representation of a route, segmented into different sections for easy
/// access.
#[derive(Clone, Debug, PartialEq)]
pub struct Route<T> {
    /// The route string.
    pub route: String,
    /// The state stored by the browser's history interface.
    pub state: Option<T>,
}

/// Formats a path, a query, and a fragment into a route string.
///
/// This expects that all three already carry their expected separators
/// (`?`, `#`, and so on).
pub fn format_route_string(path: &str, query: &str, fragment: &str) -> (r: String)
    ensures
        r@ == path@ + query@ + fragment@,
{
    let mut r = String::new();
    r.append(path);
    r.append(query);
    r.append(fragment);
    proof { assert(r@ =~= path@ + query@ + fragment@); }
    r
}

impl<T> Route<T> {
    /// Wraps the route string that the navigation service read from the
    /// browser.  The associated state is not carried here; it is only
    /// delivered through navigation events.
    pub fn current_route(route: String) -> (r: Self)
        ensures
            r.route@ == route@,
            r.state is None,
    {
        Route { route, state: None }
    }

    /// The underlying route string.
    pub fn as_route_string(&self) -> (r: &String)
        ensures
            r@ == self.route@,
    {
        &self.route
    }
}

impl<T> From<&str> for Route<T> {
    /// A route wrapping the given string, with no state.
    fn from(string: &str) -> (r: Route<T>)
        ensures
            r.route@ == string@,
            r.state is None,
    {
        Route {
            route: string.to_owned(),
            state: None,
        }
    }
}

impl<T> vstd::std_specs::convert::FromSpecImpl<&str> for Route<T> {
    /// The conversion allocates a fresh `String`, whose identity is not a
    /// function of the input at the spec level; the contract is carried by
    /// the `ensures` on `from` itself.
    open spec fn obeys_from_spec() -> bool {
        false
    }

    open spec fn from_spec(v: &str) -> Route<T> {
        arbitrary()
    }
}

impl<T> Default for Route<T> {
    /// An empty route with no state.
    fn default() -> (r: Self)
        ensures
            r.route@ == Seq::<char>::empty(),
            r.state is None,
    {
        Route { route: String::new(), state: None }
    }
}

} // verus!
