//! Termination requests and how they are described.

use crate::endpoint::optional_text;
use crate::text::{push_signed_decimal, signed_decimal};
use vstd::prelude::*;

verus! {

/// A signal that was received: its number and, where the platform has one,
/// the platform's name for it.
#[derive(Debug, Clone, PartialEq, Eq)]
pub struct Signal {
    pub number: i32,
    pub name: Option<String>,
}

/// The description of a signal: its number in brackets, then, where a name is
/// known, a colon and the name.
pub open spec fn signal_description(number: int, name: Option<Seq<char>>) -> Seq<char> {
    let numbered = "signal ("@ + signed_decimal(number) + ")"@;
    match name {
        Some(name) => numbered + ": "@ + name,
        None => numbered,
    }
}

impl Signal {
    /// A human-readable description of the signal.
    pub fn to_string(&self) -> (description: String)
        ensures
            description@ == signal_description(self.number as int, optional_text(self.name)),
    {
        let mut description = String::new();
        description.append("signal (");
        push_signed_decimal(&mut description, self.number as i64);
        description.append(")");
        match &self.name {
            Some(name) => {
                description.append(": ");
                description.append(name.as_str());
            },
            None => {},
        }
        assert(description@ =~= signal_description(self.number as int, optional_text(self.name)));
        description
    }
}

} // verus!
