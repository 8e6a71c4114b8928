//! Names of the networks that compose files declare.

use vstd::prelude::*;
use crate::text::concat_str;

verus! {

/// A network of a compose project.
#[derive(Debug, Hash)]
pub struct NetworkName {
    pub compose_name: String,
    pub name: String,
}

impl NetworkName {
    /// The network `name` of the compose project `compose_name`.
    pub fn new(compose_name: &str, name: &str) -> (r: Self)
        ensures
            r.compose_name@ == compose_name@,
            r.name@ == name@,
    {
        NetworkName { compose_name: String::from_str(compose_name), name: String::from_str(name) }
    }

    /// `<compose_name>_<name>`, the name the network is created under.
    pub fn full_name(&self) -> (r: String)
        ensures
            r@ == self.compose_name@ + "_"@ + self.name@,
    {
        let a = concat_str(self.compose_name.as_str(), "_");
        concat_str(a.as_str(), self.name.as_str())
    }
}

} // verus!
