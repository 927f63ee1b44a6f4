//! Small counted quantities that appear in messages.
use vstd::prelude::*;

use crate::text::{decimal, push_decimal, push_str};

verus! {

/// A number of arguments as it appears in messages.
pub open spec fn args_text(n: nat) -> Seq<char> {
    decimal(n) + if n == 1 {
        " argument"@
    } else {
        " arguments"@
    }
}

/// A number of elements as it appears in messages.
pub open spec fn elements_text(n: nat) -> Seq<char> {
    decimal(n) + if n == 1 {
        " element"@
    } else {
        " elements"@
    }
}

/// A number of arguments.
#[derive(Clone, Copy, PartialEq, Eq, Structural, Debug)]
pub struct Args(pub usize);

/// A number of tuple elements.
#[derive(Clone, Copy, PartialEq, Eq, Structural, Debug)]
pub struct Elements(pub usize);

impl Args {
    /// How the number is written in messages.
    pub fn to_string(&self) -> (s: String)
        ensures
            s@ == args_text(self.0 as nat),
    {
        let mut s = String::new();
        push_decimal(&mut s, self.0 as u64);
        if self.0 == 1 {
            push_str(&mut s, " argument");
        } else {
            push_str(&mut s, " arguments");
        }
        s
    }
}

impl Elements {
    /// How the number is written in messages.
    pub fn to_string(&self) -> (s: String)
        ensures
            s@ == elements_text(self.0 as nat),
    {
        let mut s = String::new();
        push_decimal(&mut s, self.0 as u64);
        if self.0 == 1 {
            push_str(&mut s, " element");
        } else {
            push_str(&mut s, " elements");
        }
        s
    }
}

} // verus!
