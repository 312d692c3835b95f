//! Why an agent can die; the rating model links death reasons to the
//! options that would have prevented them.

use vstd::prelude::*;

verus! {

#[derive(Debug, Clone, Copy, PartialEq, Eq, Hash, Structural)]
pub enum DeathReason {
    Starvation,
    OldAge,
    Homeliness,
}

impl DeathReason {
    pub fn get_at_risk_message(&self) -> (r: String)
        ensures
            r@ == at_risk_message(*self),
    {
        match self {
            DeathReason::Starvation => "I am starving".to_string(),
            DeathReason::OldAge => "I am old".to_string(),
            DeathReason::Homeliness => "I am homeless".to_string(),
        }
    }

    pub fn get_reason_of_death_message(&self) -> (r: String)
        ensures
            r@ == death_message(*self),
    {
        match self {
            DeathReason::Starvation => "Starved".to_string(),
            DeathReason::OldAge => "Olded to death".to_string(),
            DeathReason::Homeliness => "Exposure".to_string(),
        }
    }
}

pub open spec fn at_risk_message(reason: DeathReason) -> Seq<char> {
    match reason {
        DeathReason::Starvation => "I am starving"@,
        DeathReason::OldAge => "I am old"@,
        DeathReason::Homeliness => "I am homeless"@,
    }
}

pub open spec fn death_message(reason: DeathReason) -> Seq<char> {
    match reason {
        DeathReason::Starvation => "Starved"@,
        DeathReason::OldAge => "Olded to death"@,
        DeathReason::Homeliness => "Exposure"@,
    }
}

} // verus!
