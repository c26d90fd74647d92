//! Records a student holds about team membership: the team credentials for a
//! guild and the pending invitations to join a team.

use vstd::prelude::*;

verus! {

/// The view of an optional string.
pub open spec fn opt_view(o: Option<String>) -> Option<Seq<char>> {
    match o {
        Some(s) => Some(s@),
        None => None,
    }
}

/// A student's credentials in one guild: the team they belong to, and the
/// team's password as last propagated to them.
#[derive(Clone, Debug)]
pub struct Credentials {
    pub team: String,
    pub password: Option<String>,
}

impl Credentials {
    pub fn new(team: String, password: Option<String>) -> (r: Credentials)
        ensures
            r.team == team,
            r.password == password,
    {
        Credentials { team, password }
    }

    pub fn team(&self) -> (r: &String)
        ensures
            *r == self.team,
    {
        &self.team
    }

    pub fn password(&self) -> (r: &Option<String>)
        ensures
            *r == self.password,
    {
        &self.password
    }
}

/// An invitation to join team `team_id`, sent by the student `sender_id`.
///
/// Two requests are equal when they name the same team.
#[derive(Clone, Debug)]
pub struct TeamRequest {
    pub team_id: String,
    pub sender_id: u64,
}

impl TeamRequest {
    pub fn team_id(&self) -> (r: &String)
        ensures
            *r == self.team_id,
    {
        &self.team_id
    }

    pub fn sender_id(&self) -> (r: u64)
        ensures
            r == self.sender_id,
    {
        self.sender_id
    }
}

impl PartialEq for TeamRequest {
    fn eq(&self, other: &TeamRequest) -> (r: bool) {
        self.team_id == other.team_id
    }
}

impl vstd::std_specs::cmp::PartialEqSpecImpl for TeamRequest {
    open spec fn obeys_eq_spec() -> bool {
        true
    }

    open spec fn eq_spec(&self, other: &TeamRequest) -> bool {
        self.team_id@ == other.team_id@
    }
}

impl From<(String, u64)> for TeamRequest {
    fn from(pair: (String, u64)) -> (r: TeamRequest) {
        TeamRequest { team_id: pair.0, sender_id: pair.1 }
    }
}

impl vstd::std_specs::convert::FromSpecImpl<(String, u64)> for TeamRequest {
    open spec fn obeys_from_spec() -> bool {
        true
    }

    open spec fn from_spec(pair: (String, u64)) -> TeamRequest {
        TeamRequest { team_id: pair.0, sender_id: pair.1 }
    }
}

impl From<TeamRequest> for (String, u64) {
    fn from(req: TeamRequest) -> (r: (String, u64)) {
        (req.team_id, req.sender_id)
    }
}

impl vstd::std_specs::convert::FromSpecImpl<TeamRequest> for (String, u64) {
    open spec fn obeys_from_spec() -> bool {
        true
    }

    open spec fn from_spec(req: TeamRequest) -> (String, u64) {
        (req.team_id, req.sender_id)
    }
}

} // verus!
