//! A student: identity, and per guild their team credentials, preferences,
//! pending team invitations and request history.

use crate::credentials::{Credentials, TeamRequest};
use std::collections::HashMap;
use crate::credentials::opt_view;
use vstd::prelude::*;

verus! {

broadcast use vstd::std_specs::hash::group_hash_axioms;

/// What a student record holds, per guild keyed by the guild's identifier.
pub struct StudentView {
    pub id: u64,
    pub name: Seq<char>,
    pub credentials: Map<u64, Credentials>,
    pub preferred_queue: Map<u64, String>,
    pub last_command: Map<u64, String>,
    pub team_requests: Map<u64, Vec<TeamRequest>>,
    pub request_history: Map<u64, Vec<u16>>,
}

impl StudentView {
    /// Whether the student belongs to a team in guild `g`.
    pub open spec fn affiliated(self, g: u64) -> bool {
        self.credentials.contains_key(g)
    }

    /// The identifier of the student's team in guild `g`, if any.
    pub open spec fn team_in(self, g: u64) -> Option<Seq<char>> {
        if self.credentials.contains_key(g) {
            Some(self.credentials[g].team@)
        } else {
            None
        }
    }

    /// The invitations the student holds in guild `g`, oldest first.
    pub open spec fn pending(self, g: u64) -> Seq<TeamRequest> {
        if self.team_requests.contains_key(g) {
            self.team_requests[g]@
        } else {
            Seq::empty()
        }
    }

    /// Whether the student holds an invitation to team `tid` in guild `g`.
    pub open spec fn invited_to(self, g: u64, tid: Seq<char>) -> bool {
        exists|i: int| 0 <= i < self.pending(g).len() && (#[trigger] self.pending(g)[i]).team_id@ == tid
    }

    /// The student after joining team `tid` (password `pass`) in guild `g`:
    /// credentials set, every invitation of that guild dropped.
    pub open spec fn with_team(self, g: u64, cred: Credentials) -> StudentView {
        StudentView {
            credentials: self.credentials.insert(g, cred),
            team_requests: self.team_requests.remove(g),
            ..self
        }
    }

    /// Whether `after` is this student once invitation to team `tid` from
    /// `sender` was added to their invitations in guild `g`.
    pub open spec fn invited(self, after: StudentView, g: u64, tid: Seq<char>, sender: u64) -> bool {
        &&& after == (StudentView {
            team_requests: self.team_requests.insert(g, after.team_requests[g]),
            ..self
        })
        &&& after.pending(g).len() == self.pending(g).len() + 1
        &&& after.pending(g).drop_last() == self.pending(g)
        &&& after.pending(g).last().team_id@ == tid
        &&& after.pending(g).last().sender_id == sender
    }

    /// The student after their team in guild `g` set password `pw`.
    pub open spec fn with_password(self, g: u64, pw: String) -> StudentView {
        StudentView {
            credentials: self.credentials.insert(
                g,
                Credentials { team: self.credentials[g].team, password: Some(pw) },
            ),
            ..self
        }
    }

    /// The student after leaving their team in guild `g`.
    pub open spec fn without_team(self, g: u64) -> StudentView {
        StudentView { credentials: self.credentials.remove(g), ..self }
    }
}

/// A student and their per-guild state.
pub struct Student {
    id: u64,
    name: String,
    credentials: HashMap<u64, Credentials>,
    preferred_queue: HashMap<u64, String>,
    last_command: HashMap<u64, String>,
    team_requests: HashMap<u64, Vec<TeamRequest>>,
    request_history: HashMap<u64, Vec<u16>>,
}

impl View for Student {
    type V = StudentView;

    closed spec fn view(&self) -> StudentView {
        StudentView {
            id: self.id,
            name: self.name@,
            credentials: self.credentials@,
            preferred_queue: self.preferred_queue@,
            last_command: self.last_command@,
            team_requests: self.team_requests@,
            request_history: self.request_history@,
        }
    }
}

impl Student {
    /// A new student, with no state in any guild.
    pub fn new(user_id: u64, user_name: String) -> (r: Student)
        ensures
            r@.id == user_id,
            r@.name == user_name@,
            r@.credentials == Map::<u64, Credentials>::empty(),
            r@.preferred_queue == Map::<u64, String>::empty(),
            r@.last_command == Map::<u64, String>::empty(),
            r@.team_requests == Map::<u64, Vec<TeamRequest>>::empty(),
            r@.request_history == Map::<u64, Vec<u16>>::empty(),
    {
        Student {
            id: user_id,
            name: user_name,
            credentials: HashMap::new(),
            preferred_queue: HashMap::new(),
            last_command: HashMap::new(),
            team_requests: HashMap::new(),
            request_history: HashMap::new(),
        }
    }

    /// A student as stored: every field given.
    pub fn from_parts(
        id: u64,
        name: String,
        credentials: HashMap<u64, Credentials>,
        preferred_queue: HashMap<u64, String>,
        last_command: HashMap<u64, String>,
        team_requests: HashMap<u64, Vec<TeamRequest>>,
        request_history: HashMap<u64, Vec<u16>>,
    ) -> (r: Student)
        ensures
            r@ == (StudentView {
                id,
                name: name@,
                credentials: credentials@,
                preferred_queue: preferred_queue@,
                last_command: last_command@,
                team_requests: team_requests@,
                request_history: request_history@,
            }),
    {
        Student { id, name, credentials, preferred_queue, last_command, team_requests, request_history }
    }

    pub fn credentials(&self) -> (r: &HashMap<u64, Credentials>)
        ensures
            r@ == self@.credentials,
    {
        &self.credentials
    }

    pub fn preferred_queues(&self) -> (r: &HashMap<u64, String>)
        ensures
            r@ == self@.preferred_queue,
    {
        &self.preferred_queue
    }

    pub fn last_commands(&self) -> (r: &HashMap<u64, String>)
        ensures
            r@ == self@.last_command,
    {
        &self.last_command
    }

    pub fn team_requests(&self) -> (r: &HashMap<u64, Vec<TeamRequest>>)
        ensures
            r@ == self@.team_requests,
    {
        &self.team_requests
    }

    pub fn request_histories(&self) -> (r: &HashMap<u64, Vec<u16>>)
        ensures
            r@ == self@.request_history,
    {
        &self.request_history
    }

    pub fn id(&self) -> (r: u64)
        ensures
            r == self@.id,
    {
        self.id
    }

    pub fn name(&self) -> (r: &String)
        ensures
            r@ == self@.name,
    {
        &self.name
    }

    pub fn set_name(&mut self, name: String)
        ensures
            final(self)@ == (StudentView { name: name@, ..old(self)@ }),
    {
        self.name = name;
    }

    pub fn get_credentials(&self, guild: u64) -> (r: Option<&Credentials>)
        ensures
            r.is_some() == self@.credentials.contains_key(guild),
            r.is_some() ==> *r.unwrap() == self@.credentials[guild],
    {
        self.credentials.get(&guild)
    }

    pub fn get_existing_credentials(&self, guild: u64) -> (r: &Credentials)
        requires
            self@.credentials.contains_key(guild),
        ensures
            *r == self@.credentials[guild],
    {
        self.credentials.get(&guild).unwrap()
    }

    pub fn get_preferred_queue(&self, guild: u64) -> (r: Option<&String>)
        ensures
            r.is_some() == self@.preferred_queue.contains_key(guild),
            r.is_some() ==> *r.unwrap() == self@.preferred_queue[guild],
    {
        self.preferred_queue.get(&guild)
    }

    pub fn get_existing_preferred_queue(&self, guild: u64) -> (r: &String)
        requires
            self@.preferred_queue.contains_key(guild),
        ensures
            *r == self@.preferred_queue[guild],
    {
        self.preferred_queue.get(&guild).unwrap()
    }

    pub fn get_last_command(&self, guild: u64) -> (r: Option<&String>)
        ensures
            r.is_some() == self@.last_command.contains_key(guild),
            r.is_some() ==> *r.unwrap() == self@.last_command[guild],
    {
        self.last_command.get(&guild)
    }

    pub fn get_existing_last_command(&self, guild: u64) -> (r: &String)
        requires
            self@.last_command.contains_key(guild),
        ensures
            *r == self@.last_command[guild],
    {
        self.last_command.get(&guild).unwrap()
    }

    pub fn get_team_requests(&self, guild: u64) -> (r: Option<&Vec<TeamRequest>>)
        ensures
            r.is_some() == self@.team_requests.contains_key(guild),
            r.is_some() ==> *r.unwrap() == self@.team_requests[guild],
    {
        self.team_requests.get(&guild)
    }

    pub fn get_existing_team_requests(&self, guild: u64) -> (r: &Vec<TeamRequest>)
        requires
            self@.team_requests.contains_key(guild),
        ensures
            *r == self@.team_requests[guild],
    {
        self.team_requests.get(&guild).unwrap()
    }

    pub fn request_history(&self, guild: u64) -> (r: Option<&Vec<u16>>)
        ensures
            r.is_some() == self@.request_history.contains_key(guild),
            r.is_some() ==> *r.unwrap() == self@.request_history[guild],
    {
        self.request_history.get(&guild)
    }

    /// Records that the student belongs to team `team_id` in `guild_id`, and
    /// drops every invitation they held in that guild.
    pub fn add_team(&mut self, guild_id: u64, team_id: String, team_password: Option<String>)
        ensures
            final(self)@ == old(self)@.with_team(
                guild_id,
                Credentials { team: team_id, password: team_password },
            ),
    {
        let cred = Credentials { team: team_id, password: team_password };
        self.credentials.insert(guild_id, cred);
        self.team_requests.remove(&guild_id);
    }

    /// Replaces the password in the student's credentials for `guild_id`.
    pub fn set_password(&mut self, guild_id: u64, password: String)
        requires
            old(self)@.credentials.contains_key(guild_id),
        ensures
            final(self)@ == old(self)@.with_password(guild_id, password),
    {
        let team = self.credentials.get(&guild_id).unwrap().team.clone();
        self.credentials.insert(guild_id, Credentials { team, password: Some(password) });
    }

    /// Forgets the student's team in `guild_id`.
    pub fn remove_team(&mut self, guild_id: u64)
        ensures
            final(self)@ == old(self)@.without_team(guild_id),
    {
        self.credentials.remove(&guild_id);
    }

    /// The identifier of the student's team in `guild_id`, if any.
    pub fn get_team_id(&self, guild_id: u64) -> (r: Option<String>)
        ensures
            opt_view(r) == self@.team_in(guild_id),
    {
        match self.credentials.get(&guild_id) {
            Some(credentials) => Some(credentials.team.clone()),
            None => None,
        }
    }

    /// Whether the student holds an invitation to team `team_id` in `guild_id`.
    pub fn has_invitation(&self, guild_id: u64, team_id: &String) -> (r: bool)
        ensures
            r == self@.invited_to(guild_id, team_id@),
    {
        match self.team_requests.get(&guild_id) {
            None => false,
            Some(requests) => {
                let mut i: usize = 0;
                while i < requests.len()
                    invariant
                        i <= requests@.len(),
                        requests@ == self@.pending(guild_id),
                        forall|j: int| 0 <= j < i ==> (#[trigger] requests@[j]).team_id@ != team_id@,
                    decreases requests.len() - i,
                {
                    if requests[i].team_id == *team_id {
                        return true;
                    }
                    i = i + 1;
                }
                false
            },
        }
    }

    /// Adds an invitation to team `team_id`, sent by `sender_id`, to the
    /// student's invitations in `guild_id`.
    pub fn add_team_request(&mut self, guild_id: u64, team_id: String, sender_id: u64)
        ensures
            final(self)@.pending(guild_id) == old(self)@.pending(guild_id).push(
                TeamRequest { team_id, sender_id },
            ),
            final(self)@ == (StudentView {
                team_requests: final(self)@.team_requests,
                ..old(self)@
            }),
            final(self)@.team_requests == old(self)@.team_requests.insert(
                guild_id,
                final(self)@.team_requests[guild_id],
            ),
    {
        let request = TeamRequest { team_id, sender_id };
        let mut requests: Vec<TeamRequest> = match self.team_requests.remove(&guild_id) {
            Some(v) => v,
            None => Vec::new(),
        };
        requests.push(request);
        self.team_requests.insert(guild_id, requests);
    }

    pub fn set_preferred_queue(&mut self, guild_id: u64, queue_name: String)
        ensures
            final(self)@ == (StudentView {
                preferred_queue: old(self)@.preferred_queue.insert(guild_id, queue_name),
                ..old(self)@
            }),
    {
        self.preferred_queue.insert(guild_id, queue_name);
    }

    pub fn set_last_command(&mut self, guild_id: u64, command: String)
        ensures
            final(self)@ == (StudentView {
                last_command: old(self)@.last_command.insert(guild_id, command),
                ..old(self)@
            }),
    {
        self.last_command.insert(guild_id, command);
    }

    /// Appends `request_id` to the student's request history in `gid`.
    pub fn add_request(&mut self, gid: u64, request_id: u16)
        ensures
            final(self)@.request_history.contains_key(gid),
            final(self)@.request_history[gid]@ == (if old(self)@.request_history.contains_key(gid) {
                old(self)@.request_history[gid]@
            } else {
                Seq::empty()
            }).push(request_id),
            final(self)@ == (StudentView {
                request_history: final(self)@.request_history,
                ..old(self)@
            }),
            final(self)@.request_history == old(self)@.request_history.insert(
                gid,
                final(self)@.request_history[gid],
            ),
    {
        let mut history: Vec<u16> = match self.request_history.remove(&gid) {
            Some(v) => v,
            None => Vec::new(),
        };
        history.push(request_id);
        self.request_history.insert(gid, history);
    }
}

} // verus!
