//! Build profiles.

use vstd::prelude::*;
use vstd::string::*;

use crate::path;
use crate::path::PathError;
use crate::text;

verus! {

/// The profile of a build, which names a directory below the build directory.
#[derive(Debug)]
pub struct Profile {
    name: String,
}

impl View for Profile {
    type V = Seq<char>;

    closed spec fn view(&self) -> Seq<char> {
        self.name@
    }
}

impl Profile {
    #[verifier::type_invariant]
    spec fn inv(self) -> bool {
        !path::is_abs(self.name@)
    }

    /// The profile of the given name, which must not be an absolute path.
    pub fn new(name: &str) -> (r: Result<Profile, PathError>)
        ensures
            match r {
                Ok(p) => !path::is_abs(name@) && p@ == name@,
                Err(e) => path::is_abs(name@) && e == PathError::NotRelative,
            },
    {
        if path::is_absolute(name) {
            Err(PathError::NotRelative)
        } else {
            Ok(Profile { name: text::copy(name) })
        }
    }

    /// The profile of a build that asks for none.
    pub fn debug() -> (r: Profile)
        ensures
            r@ == "debug"@,
    {
        proof {
            reveal_strlit("debug");
        }
        Profile { name: text::copy("debug") }
    }

    /// The name of the profile.
    pub fn as_str(&self) -> (r: &str)
        ensures
            r@ == self@,
            !path::is_abs(self@),
    {
        proof {
            use_type_invariant(self);
        }
        self.name.as_str()
    }
}

impl Clone for Profile {
    fn clone(&self) -> (r: Self)
        ensures
            r == *self,
    {
        proof {
            use_type_invariant(self);
        }
        Profile { name: self.name.clone() }
    }
}

} // verus!
