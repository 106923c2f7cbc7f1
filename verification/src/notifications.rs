//! Notification data model: the action list, the urgency levels and the
//! hint record a notification carries.

use vstd::prelude::*;

verus! {

/// One action a notification offers.
#[derive(Debug)]
pub struct Action {
    pub id: String,
    pub label: String,
}

impl Clone for Action {
    fn clone(&self) -> (r: Self)
        ensures
            r == *self,
    {
        Action { id: self.id.clone(), label: self.label.clone() }
    }
}

/// A notification's urgency.
#[derive(Clone, Copy, Debug, PartialEq, Eq, Structural)]
pub enum Urgency {
    Critical,
    Normal,
    Low,
}

/// The urgency a wire code denotes: zero is low, two is critical, anything
/// else is normal.
pub open spec fn spec_urgency_from(value: u8) -> Urgency {
    if value == 0 {
        Urgency::Low
    } else if value == 2 {
        Urgency::Critical
    } else {
        Urgency::Normal
    }
}

/// The wire code of an urgency.
pub open spec fn spec_urgency_code(u: Urgency) -> u8 {
    match u {
        Urgency::Low => 0,
        Urgency::Normal => 1,
        Urgency::Critical => 2,
    }
}

impl From<u8> for Urgency {
    fn from(value: u8) -> (r: Self)
        ensures
            r == spec_urgency_from(value),
    {
        if value == 0 {
            Urgency::Low
        } else if value == 2 {
            Urgency::Critical
        } else {
            Urgency::Normal
        }
    }
}

impl vstd::std_specs::convert::FromSpecImpl<u8> for Urgency {
    open spec fn obeys_from_spec() -> bool {
        true
    }

    open spec fn from_spec(v: u8) -> Urgency {
        spec_urgency_from(v)
    }
}

impl Urgency {
    /// The wire code of this urgency.
    pub fn code(&self) -> (r: u8)
        ensures
            r == spec_urgency_code(*self),
    {
        match self {
            Urgency::Low => 0,
            Urgency::Normal => 1,
            Urgency::Critical => 2,
        }
    }
}

/// Round-trip law: decoding a code and re-encoding it is the identity on
/// the three defined codes, and decoding an encoded urgency gives the
/// urgency back.
pub proof fn lemma_urgency_round_trip(u: Urgency, code: u8)
    ensures
        spec_urgency_from(spec_urgency_code(u)) == u,
        code <= 2 ==> spec_urgency_code(spec_urgency_from(code)) == code,
{
}

/// The hints a notification carries.
#[allow(non_snake_case)]
#[derive(Debug)]
pub struct Hints {
    pub actionIcons: bool,
    pub category: String,
    pub desktopEntry: String,
    pub imageData: image::DynamicImage,
    pub imagePath: String,
    pub resident: bool,
    pub soundFile: String,
    pub soundName: String,
    pub supressSound: bool,
    pub transient: bool,
    pub urgency: Urgency,
    pub x: i64,
    pub y: i64,
}

} // verus!
