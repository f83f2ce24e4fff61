//! The request-concurrency setting of a sink: unlimited ("none"),
//! adaptive, or a fixed limit.

use vstd::prelude::*;

use crate::text::str_eq;

verus! {

/// A sink's request-concurrency setting.
#[derive(Clone, Copy, PartialEq, Eq, Structural, Debug)]
pub enum Concurrency {
    /// No setting of its own: defer to the default.
    Unset,
    Adaptive,
    Fixed(usize),
}

/// The wire form of a concurrency setting: the strings "none" and
/// "adaptive", or a positive integer.
#[derive(Clone, PartialEq, Eq, Debug)]
pub enum ConcurrencyValue {
    Text(String),
    Number(u64),
}

impl Default for Concurrency {
    /// The default setting places no limit of its own.
    fn default() -> (r: Concurrency)
        ensures
            r is Unset,
    {
        Concurrency::Unset
    }
}

impl Concurrency {
    /// The fallback rule: this setting, or `other` where this one says
    /// nothing.
    pub open spec fn spec_if_none(self, other: Concurrency) -> Concurrency {
        if self is Unset {
            other
        } else {
            self
        }
    }

    /// This setting, or `other` where this one says nothing.
    pub fn if_none(self, other: Concurrency) -> (r: Concurrency)
        ensures
            r == self.spec_if_none(other),
    {
        match self {
            Concurrency::Unset => other,
            _ => self,
        }
    }

    /// The fixed request limit this setting demands, after falling back
    /// to `default` where it says nothing: adaptive and unlimited
    /// settings demand none.
    pub fn parse_concurrency(&self, default: Concurrency) -> (r: Option<usize>)
        ensures
            r == (match self.spec_if_none(default) {
                Concurrency::Fixed(limit) => Some(limit),
                _ => None::<usize>,
            }),
    {
        match self.if_none(default) {
            Concurrency::Unset => None,
            Concurrency::Adaptive => None,
            Concurrency::Fixed(limit) => Some(limit),
        }
    }

    /// The wire form of this setting: "none", "adaptive", or the fixed
    /// limit as a number.
    pub fn serialize(&self) -> (r: ConcurrencyValue)
        ensures
            self is Unset ==> (r matches ConcurrencyValue::Text(s) && s@ == "none"@),
            self is Adaptive ==> (r matches ConcurrencyValue::Text(s) && s@ == "adaptive"@),
            self matches Concurrency::Fixed(i) ==> r == ConcurrencyValue::Number(i as u64),
    {
        match self {
            Concurrency::Unset => ConcurrencyValue::Text(String::from_str("none")),
            Concurrency::Adaptive => ConcurrencyValue::Text(String::from_str("adaptive")),
            Concurrency::Fixed(i) => ConcurrencyValue::Number(*i as u64),
        }
    }

    /// Read a setting back from its wire form: the two known strings, or
    /// a positive integer that fits the platform's size type.  Reading a
    /// written setting back yields the written setting.
    pub fn deserialize(value: &ConcurrencyValue) -> (r: Result<Concurrency, String>)
        ensures
            match value {
                ConcurrencyValue::Text(s) => {
                    if s@ == "none"@ {
                        r == Ok::<Concurrency, String>(Concurrency::Unset)
                    } else if s@ == "adaptive"@ {
                        r == Ok::<Concurrency, String>(Concurrency::Adaptive)
                    } else {
                        r is Err
                    }
                },
                ConcurrencyValue::Number(n) => {
                    if 0 < *n <= usize::MAX {
                        r == Ok::<Concurrency, String>(Concurrency::Fixed(*n as usize))
                    } else {
                        r is Err
                    }
                },
            },
    {
        match value {
            ConcurrencyValue::Text(s) => {
                if str_eq(s.as_str(), "none") {
                    Ok(Concurrency::Unset)
                } else if str_eq(s.as_str(), "adaptive") {
                    Ok(Concurrency::Adaptive)
                } else {
                    Err(String::from_str("expected \"none\", \"adaptive\", or a positive integer"))
                }
            },
            ConcurrencyValue::Number(n) => {
                if *n == 0 {
                    Err(String::from_str("expected a positive integer"))
                } else if *n > usize::MAX as u64 {
                    Err(String::from_str("concurrency limit does not fit this platform"))
                } else {
                    Ok(Concurrency::Fixed(*n as usize))
                }
            },
        }
    }
}

/// Whether a setting places no limit of its own.
pub fn concurrency_is_none(concurrency: &Concurrency) -> (r: bool)
    ensures
        r == (concurrency is Unset),
{
    matches!(concurrency, Concurrency::Unset)
}

} // verus!
