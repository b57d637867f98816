//! Exact semantic versions, held as their canonical text.
use vstd::prelude::*;

verus! {

use crate::foreign::{eval_version, version_eval, version_text_canon};

/// An exact semantic version, stored as the canonical text that the
/// external semantic-version parser both accepts and prints. Two versions
/// are equal exactly when their canonical texts are equal.
#[derive(Debug, Hash)]
pub struct Version {
    text: String,
}

impl View for Version {
    type V = Seq<char>;

    closed spec fn view(&self) -> Seq<char> {
        self.text@
    }
}

impl Version {
    #[verifier::type_invariant]
    pub open spec fn inv(self) -> bool {
        version_text_canon(self.view())
    }

    /// Parses an exact version. Anything but canonical
    /// `major.minor.patch[-pre][+build]` text fails, so a range such as `*`
    /// or a two-component `1.0` is rejected.
    pub fn parse(s: &str) -> (r: Option<Version>)
        ensures
            (r is Some) == (version_eval(s@) is Some),
            r matches Some(v) ==> version_eval(s@) == Some(v@),
    {
        match eval_version(s) {
            Some(text) => Some(Version { text }),
            None => None,
        }
    }

    /// The canonical text of this version.
    pub fn as_text(&self) -> (r: &str)
        ensures
            r@ == self@,
    {
        self.text.as_str()
    }

}

impl Clone for Version {
    fn clone(&self) -> (r: Self)
        ensures
            r@ == self@,
    {
        proof {
            use_type_invariant(self);
        }
        Version { text: self.text.clone() }
    }
}

impl PartialEq for Version {
    fn eq(&self, other: &Self) -> (r: bool) {
        self.text == other.text
    }
}

impl vstd::std_specs::cmp::PartialEqSpecImpl for Version {
    open spec fn obeys_eq_spec() -> bool {
        true
    }

    open spec fn eq_spec(&self, other: &Version) -> bool {
        self@ == other@
    }
}

} // verus!
