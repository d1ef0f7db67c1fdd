//! What the application is configured with.

use vstd::prelude::*;

verus! {

/// The address under which the application is reached from outside, as the
/// links it sends out have to name it.
#[derive(Clone, Debug, PartialEq, Eq)]
pub struct ApplicationBaseUrl(pub String);

impl View for ApplicationBaseUrl {
    type V = Seq<char>;

    open spec fn view(&self) -> Seq<char> {
        self.0@
    }
}

} // verus!
