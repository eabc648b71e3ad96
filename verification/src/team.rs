//! The team record the service returns for the team-information call.

use vstd::prelude::*;

verus! {

/// Whether a team is readable by anyone or by members only.
#[derive(Debug)]
pub enum TeamPrivacy {
    Closed,
    Open,
}

/// A team as the service describes it.
#[derive(Debug)]
pub struct Team {
    pub name: String,
    pub privacy: TeamPrivacy,
    pub description: String,
    pub icon: String,
    pub url: String,
}

} // verus!
