//! The invitation workflow: creating a team, inviting students to it,
//! joining it on an invitation and leaving it. Each operation takes the
//! records it reads and changes, and either applies the whole change or
//! refuses with a `RegistryError` and changes nothing.

use crate::error::RegistryError;
use crate::guild::{GuildInfoView, GuildTeamInfo};
use crate::student::{Student, StudentView};
use crate::team::{add_member_post, without_member, Team, TeamView};
use crate::textmap::TextMap;
use vstd::prelude::*;

verus! {

/// What became of one invitation of a batch.
#[derive(Clone, Copy, Debug, PartialEq, Eq, Structural)]
pub enum InviteOutcome {
    /// The invitation was added to the student's invitations.
    Sent,
    /// The student is the one inviting: skipped.
    SelfInvitation,
    /// The student already belongs to a team in the guild: skipped.
    AlreadyAffiliated,
}

/// What inviting student `s` into guild `g` on behalf of `inviter` gives.
pub open spec fn invite_outcome(inviter: u64, g: u64, s: StudentView) -> InviteOutcome {
    if s.id == inviter {
        InviteOutcome::SelfInvitation
    } else if s.affiliated(g) {
        InviteOutcome::AlreadyAffiliated
    } else {
        InviteOutcome::Sent
    }
}

/// Whether `after` is `before` once `outcome` was applied for an invitation
/// to team `tid` of guild `g` from `inviter`.
pub open spec fn invitation_applied(
    before: StudentView,
    after: StudentView,
    outcome: InviteOutcome,
    g: u64,
    tid: Seq<char>,
    inviter: u64,
) -> bool {
    if outcome == InviteOutcome::Sent {
        before.invited(after, g, tid, inviter)
    } else {
        after == before
    }
}

/// How many more members team `t` can take under `capacity`.
pub open spec fn remaining_capacity(t: TeamView, capacity: u8) -> nat {
    if t.members.len() < capacity {
        (capacity - t.members.len()) as nat
    } else {
        0
    }
}

/// Why `inviter` may not invite `n` students to team `t`, if they may.
pub open spec fn invite_error(t: TeamView, inviter: u64, n: nat, capacity: u8) -> Option<RegistryError> {
    if !t.members.contains(inviter) {
        Some(RegistryError::NotAffiliated)
    } else if t.confirmed {
        Some(RegistryError::TeamLocked)
    } else if n > remaining_capacity(t, capacity) {
        Some(RegistryError::CapacityExceeded)
    } else {
        None
    }
}

/// Why student `s` may not join team `t`, if they may.
pub open spec fn join_error(t: TeamView, s: StudentView, capacity: u8) -> Option<RegistryError> {
    if s.affiliated(t.guild) {
        Some(RegistryError::AlreadyAffiliated)
    } else if t.confirmed {
        Some(RegistryError::TeamLocked)
    } else if !s.invited_to(t.guild, t.id) {
        Some(RegistryError::NotInvited)
    } else if t.members.len() >= capacity {
        Some(RegistryError::CapacityExceeded)
    } else {
        None
    }
}

/// Why student `s` may not leave team `t`, if they may.
pub open spec fn leave_error(t: TeamView, s: StudentView) -> Option<RegistryError> {
    if !t.members.contains(s.id) {
        Some(RegistryError::NotAffiliated)
    } else if t.confirmed {
        Some(RegistryError::TeamLocked)
    } else {
        None
    }
}

/// Why `inviter` may not create a team in the guild of `info` inviting `n`
/// students, if they may.
pub open spec fn create_error(info: GuildInfoView, inviter: StudentView, n: nat, capacity: u8) -> Option<
    RegistryError,
> {
    if inviter.affiliated(info.guild_id) {
        Some(RegistryError::AlreadyAffiliated)
    } else if n + 1 > capacity {
        Some(RegistryError::CapacityExceeded)
    } else if !info.can_register() {
        Some(RegistryError::IdentifiersExhausted)
    } else {
        None
    }
}

/// Sends an invitation to team `team_id` of guild `guild` from `inviter` to
/// each of `invitees`, skipping the inviter and anyone already in a team of
/// the guild. The result says what became of each, in order.
pub fn send_invitations(guild: u64, team_id: &String, inviter: u64, invitees: &mut Vec<Student>) -> (r: Vec<InviteOutcome>)
    ensures
        r@.len() == old(invitees)@.len(),
        final(invitees)@.len() == old(invitees)@.len(),
        forall|i: int|
            0 <= i < old(invitees)@.len() ==> #[trigger] r@[i] == invite_outcome(
                inviter,
                guild,
                old(invitees)@[i]@,
            ) && invitation_applied(
                old(invitees)@[i]@,
                final(invitees)@[i]@,
                r@[i],
                guild,
                team_id@,
                inviter,
            ),
{
    let mut outcomes: Vec<InviteOutcome> = Vec::new();
    let mut i: usize = 0;
    while i < invitees.len()
        invariant
            i <= invitees@.len(),
            invitees@.len() == old(invitees)@.len(),
            outcomes@.len() == i,
            forall|j: int|
                0 <= j < i ==> #[trigger] outcomes@[j] == invite_outcome(
                    inviter,
                    guild,
                    old(invitees)@[j]@,
                ) && invitation_applied(
                    old(invitees)@[j]@,
                    invitees@[j]@,
                    outcomes@[j],
                    guild,
                    team_id@,
                    inviter,
                ),
            forall|j: int| i <= j < invitees@.len() ==> #[trigger] invitees@[j] == old(invitees)@[j],
        decreases invitees.len() - i,
    {
        if invitees[i].id() == inviter {
            outcomes.push(InviteOutcome::SelfInvitation);
        } else if invitees[i].get_credentials(guild).is_some() {
            outcomes.push(InviteOutcome::AlreadyAffiliated);
        } else {
            let ghost before = invitees@[i as int]@;
            invitees[i].add_team_request(guild, team_id.clone(), inviter);
            outcomes.push(InviteOutcome::Sent);
            let ghost after = invitees@[i as int]@;
            assert(after.pending(guild).drop_last() =~= before.pending(guild));
            assert(before.invited(after, guild, team_id@, inviter));
        }
        i = i + 1;
    }
    outcomes
}

/// `inviter`, a member of `team`, invites each of `invitees` to it. Refused
/// when the inviter is not a member, the team is confirmed, or there are more
/// invitees than places left in the team.
pub fn invite(team: &Team, inviter: &Student, invitees: &mut Vec<Student>, capacity: u8) -> (r: Result<Vec<InviteOutcome>, RegistryError>)
    ensures
        match invite_error(team@, inviter@.id, old(invitees)@.len(), capacity) {
            Some(e) => r == Err::<Vec<InviteOutcome>, RegistryError>(e) && final(invitees)@
                == old(invitees)@,
            None => r is Ok && {
                let out = r->Ok_0;
                &&& out@.len() == old(invitees)@.len()
                &&& final(invitees)@.len() == old(invitees)@.len()
                &&& forall|i: int|
                    0 <= i < old(invitees)@.len() ==> #[trigger] out@[i] == invite_outcome(
                        inviter@.id,
                        team@.guild,
                        old(invitees)@[i]@,
                    ) && invitation_applied(
                        old(invitees)@[i]@,
                        final(invitees)@[i]@,
                        out@[i],
                        team@.guild,
                        team@.id,
                        inviter@.id,
                    )
            },
        },
{
    if !team.has_member(inviter.id()) {
        return Err(RegistryError::NotAffiliated);
    }
    if team.confirmed() {
        return Err(RegistryError::TeamLocked);
    }
    let size = team.members().len();
    let remaining: usize = if size < capacity as usize {
        capacity as usize - size
    } else {
        0
    };
    if invitees.len() > remaining {
        return Err(RegistryError::CapacityExceeded);
    }
    Ok(send_invitations(team.guild(), team.id(), inviter.id(), invitees))
}

/// `student` joins `team` on an invitation to it. Refused when the student is
/// already in a team of the guild, the team is confirmed, the student holds
/// no invitation to it, or it is full. Joining drops every invitation the
/// student held in the guild.
pub fn join(team: &mut Team, student: &mut Student, capacity: u8) -> (r: Result<(), RegistryError>)
    requires
        old(team).wf(),
        old(team)@.consistent_with(old(student)@),
    ensures
        final(team).wf(),
        match join_error(old(team)@, old(student)@, capacity) {
            Some(e) => r == Err::<(), RegistryError>(e) && final(team)@ == old(team)@
                && final(student)@ == old(student)@,
            None => r is Ok && final(team)@ == (TeamView {
                members: old(team)@.members.push(old(student)@.id),
                ..old(team)@
            }) && old(team)@.joined(old(student)@, final(student)@),
        },
{
    let guild = team.guild();
    if student.get_credentials(guild).is_some() {
        return Err(RegistryError::AlreadyAffiliated);
    }
    if team.confirmed() {
        return Err(RegistryError::TeamLocked);
    }
    if !student.has_invitation(guild, team.id()) {
        return Err(RegistryError::NotInvited);
    }
    if team.members().len() >= capacity as usize {
        return Err(RegistryError::CapacityExceeded);
    }
    team.add_member(student);
    Ok(())
}

/// `student` leaves `team`. Refused when they are not a member or the team is
/// confirmed. The result is `true` when the team was emptied: its name was
/// released, its identifier retired in `info`, and its record is to be
/// deleted.
pub fn leave(team: &mut Team, student: &mut Student, info: &mut GuildTeamInfo, names: &mut TextMap) -> (r: Result<bool, RegistryError>)
    requires
        old(team).wf(),
    ensures
        final(team).wf(),
        match leave_error(old(team)@, old(student)@) {
            Some(e) => r == Err::<bool, RegistryError>(e) && final(team)@ == old(team)@
                && final(student)@ == old(student)@ && final(info)@ == old(info)@
                && final(names)@ == old(names)@,
            None => r is Ok && {
                let deleted = r->Ok_0;
                &&& final(team)@ == (TeamView {
                    members: without_member(old(team)@.members, old(student)@.id),
                    ..old(team)@
                })
                &&& final(student)@ == old(student)@.without_team(old(team)@.guild)
                &&& deleted == (final(team)@.members.len() == 0)
                &&& deleted ==> final(info)@ == old(info)@.discard(old(team)@.id)
                    && final(names)@ == old(names)@.remove(old(team)@.name)
                &&& !deleted ==> final(info)@ == old(info)@ && final(names)@ == old(names)@
            },
        },
{
    if !team.has_member(student.id()) {
        return Err(RegistryError::NotAffiliated);
    }
    if team.confirmed() {
        return Err(RegistryError::TeamLocked);
    }
    Ok(team.remove_member(student, info, names))
}

/// `inviter` creates a team in the guild of `info` and invites each of
/// `invitees` to it. Refused when the inviter is already in a team of the
/// guild, the invitees would not fit in the team beside the inviter, or no
/// identifier is left to issue. The team takes the identifier that `info`
/// issues, the password staged for it, and the inviter as its only member;
/// each invitee is invited as `send_invitations` does.
pub fn create(
    info: &mut GuildTeamInfo,
    names: &mut TextMap,
    inviter: &mut Student,
    invitees: &mut Vec<Student>,
    capacity: u8,
) -> (r: Result<(Team, Vec<InviteOutcome>), RegistryError>)
    ensures
        match create_error(old(info)@, old(inviter)@, old(invitees)@.len(), capacity) {
            Some(e) => r == Err::<(Team, Vec<InviteOutcome>), RegistryError>(e) && final(info)@
                == old(info)@ && final(names)@ == old(names)@ && final(inviter)@ == old(inviter)@
                && final(invitees)@ == old(invitees)@,
            None => r is Ok && {
                let (team, out) = r->Ok_0;
                let (info1, id) = old(info)@.register_new();
                &&& final(info)@ == info1
                &&& team.wf()
                &&& team@ == (TeamView {
                    id,
                    pass: info1.staged(id),
                    guild: old(info)@.guild_id,
                    name: id,
                    members: seq![old(inviter)@.id],
                    confirmed: false,
                })
                &&& final(names)@ == old(names)@.insert(id, id)
                &&& team@.joined(old(inviter)@, final(inviter)@)
                &&& out@.len() == old(invitees)@.len()
                &&& final(invitees)@.len() == old(invitees)@.len()
                &&& forall|i: int|
                    0 <= i < old(invitees)@.len() ==> #[trigger] out@[i] == invite_outcome(
                        old(inviter)@.id,
                        team@.guild,
                        old(invitees)@[i]@,
                    ) && invitation_applied(
                        old(invitees)@[i]@,
                        final(invitees)@[i]@,
                        out@[i],
                        team@.guild,
                        id,
                        old(inviter)@.id,
                    )
            },
        },
{
    let guild = info.guild_id();
    if inviter.get_credentials(guild).is_some() {
        return Err(RegistryError::AlreadyAffiliated);
    }
    if invitees.len() >= capacity as usize {
        return Err(RegistryError::CapacityExceeded);
    }
    if !(info.holes().len() > 0 || info.count() < 0xffff) {
        return Err(RegistryError::IdentifiersExhausted);
    }
    let id = info.register_new_team();
    let mut team = Team::new(guild, id, Some(&*info), names);
    team.add_member(inviter);
    let outcomes = send_invitations(guild, team.id(), inviter.id(), invitees);
    assert(team@.members =~= seq![old(inviter)@.id]);
    Ok((team, outcomes))
}

/// The team record an administrative addition to identifier `id` creates in
/// the guild of `info` (`info` being the metadata once `id` is reserved).
pub open spec fn fresh_team(info: GuildInfoView, id: Seq<char>) -> TeamView {
    TeamView {
        id,
        pass: info.staged(id),
        guild: info.guild_id,
        name: id,
        members: Seq::empty(),
        confirmed: false,
    }
}

/// An administrator adds `student` to team `team_id`, with no invitation and
/// no capacity or confirmation check. An existing team (`existing`, the
/// record of `team_id`) takes them as `Team::add_member` does; otherwise the
/// identifier is first reserved in `info` (refused as
/// `GuildTeamInfo::register_specific_team` refuses it) and a new team is made
/// for it.
pub fn admin_add(
    existing: Option<Team>,
    team_id: String,
    student: &mut Student,
    info: &mut GuildTeamInfo,
    names: &mut TextMap,
) -> (r: Result<Team, RegistryError>)
    requires
        existing is Some ==> existing->Some_0.wf(),
    ensures
        r is Ok ==> r->Ok_0.wf(),
        match existing {
            Some(t) => r is Ok && add_member_post(t@, old(student)@, r->Ok_0@, final(student)@)
                && final(info)@ == old(info)@ && final(names)@ == old(names)@,
            None => match old(info)@.register_specific(team_id@) {
                Err(e) => r == Err::<Team, RegistryError>(e) && final(info)@ == old(info)@
                    && final(names)@ == old(names)@ && final(student)@ == old(student)@,
                Ok(v) => r is Ok && final(info)@ == v && final(names)@ == old(names)@.insert(
                    team_id@,
                    team_id@,
                ) && add_member_post(fresh_team(v, team_id@), old(student)@, r->Ok_0@, final(student)@),
            },
        },
{
    let mut team = match existing {
        Some(t) => t,
        None => {
            match info.register_specific_team(&team_id) {
                Err(e) => {
                    return Err(e);
                },
                Ok(()) => {},
            }
            Team::new(info.guild_id(), team_id, Some(&*info), names)
        },
    };
    team.add_member(student);
    Ok(team)
}

} // verus!
