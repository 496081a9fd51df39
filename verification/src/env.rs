//! Environment-variable plumbing: a small wrapper that carries an
//! optional value through a chain of checks, ending in `None` when any
//! check fails.
//!
//! Reading the process environment itself happens outside the library;
//! the checks on the value live here.

use vstd::prelude::*;

verus! {

use vstd::string::StrSliceExecFns;

/// An environment variable's value after zero or more checks: `Some`
/// while every check has passed, `None` once one has failed.
#[derive(Debug)]
pub struct EnvVar<Inner>(pub Option<Inner>);

/// Relies on str::parse: the target type's `FromStr` implementation
/// decides whether the text parses; nothing is assumed of the outcome.
#[verifier::external_body]
fn parse_str<T: std::str::FromStr>(s: &str) -> (r: Option<T>) {
    s.parse().ok()
}

impl<Inner> EnvVar<Inner> {
    /// The value. The chain must not have failed.
    pub fn unwrap(self) -> (r: Inner)
        requires
            self.0 is Some,
        ensures
            r == self.0->0,
    {
        match self {
            EnvVar(Some(v)) => v,
            EnvVar(None) => unreached(),
        }
    }
}

impl EnvVar<String> {
    /// Substitute a default for a variable that was not set; a present
    /// value is kept.
    pub fn with_default_value(self, default: String) -> (r: EnvVar<String>)
        ensures
            r.0 is Some,
            self.0 is Some ==> r.0 == self.0,
            self.0 is None ==> r.0 == Some(default),
    {
        match self.0 {
            Some(v) => EnvVar(Some(v)),
            None => EnvVar(Some(default)),
        }
    }

    /// Fail the chain when the value is the empty string.
    pub fn ensure_non_empty(self) -> (r: Self)
        requires
            self.0 is Some,
        ensures
            self.0->0@.len() == 0 ==> r.0 is None,
            self.0->0@.len() > 0 ==> r.0 == self.0,
    {
        let empty = match &self.0 {
            Some(v) => v.as_str().unicode_len() == 0,
            None => true,
        };
        if empty {
            EnvVar(None)
        } else {
            self
        }
    }

    /// Fail the chain when the value does not parse as a `T`. Whether it
    /// does is the target type's decision; the value itself is kept
    /// either way the check passes.
    pub fn ensure_parsable<T: std::str::FromStr>(self) -> (r: Self)
        requires
            self.0 is Some,
        ensures
            r.0 is Some ==> r.0 == self.0,
    {
        match self.parse::<T>().0 {
            Some(_) => self,
            None => EnvVar(None),
        }
    }

    /// Parse the value as a `T`; the target type's `FromStr` decides.
    pub fn parse<T: std::str::FromStr>(&self) -> (r: EnvVar<T>)
        requires
            self.0 is Some,
    {
        let text = match &self.0 {
            Some(v) => v.as_str(),
            None => unreached(),
        };
        match parse_str::<T>(text) {
            Some(parsed) => EnvVar(Some(parsed)),
            None => EnvVar(None),
        }
    }
}


/// The directory uploaded overlay assets are served from, as handed to
/// the router's state.
#[derive(Debug, Clone)]
pub struct AssetDirectory(pub String);

} // verus!
