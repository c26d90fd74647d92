//! Properties that hold across operations, stated over the views and the
//! spec functions that the operations' contracts use.

use crate::credentials::opt_view;
use crate::error::RegistryError;
use crate::guild::GuildInfoView;
use crate::student::StudentView;
use crate::team::{add_member_post, TeamView};
use crate::workflow::{invite_error, join_error, leave_error};
use vstd::prelude::*;

verus! {

/// A student invited to an unconfirmed team that still has room may join it,
/// and joining leaves them in exactly that team with no invitation left in
/// the guild.
pub proof fn law_join_after_invitation(
    t: TeamView,
    before: StudentView,
    invited: StudentView,
    joined: StudentView,
    inviter: u64,
    capacity: u8,
)
    requires
        !before.affiliated(t.guild),
        before.invited(invited, t.guild, t.id, inviter),
        !t.confirmed,
        t.members.len() < capacity,
        t.joined(invited, joined),
    ensures
        join_error(t, invited, capacity) is None,
        joined.team_in(t.guild) == Some(t.id),
        joined.pending(t.guild).len() == 0,
{
    let k = invited.pending(t.guild).len() - 1;
    assert(invited.pending(t.guild)[k].team_id@ == t.id);
}

/// The identifier retired when a team is emptied is the next one issued,
/// before any other retired identifier, and issuing it restores the pool.
pub proof fn law_retired_identifier_reused_first(info: GuildInfoView, id: Seq<char>)
    ensures
        info.discard(id).can_register(),
        info.discard(id).register_new() == (info, id),
{
    assert(info.discard(id).holes.drop_last() =~= info.holes);
}

/// Adding the same student twice changes nothing the second time.
pub proof fn law_add_member_idempotent(
    t0: TeamView,
    s0: StudentView,
    t1: TeamView,
    s1: StudentView,
    t2: TeamView,
    s2: StudentView,
)
    requires
        add_member_post(t0, s0, t1, s1),
        add_member_post(t1, s1, t2, s2),
    ensures
        t2 == t1,
        s2 == s1,
{
    if !t0.members.contains(s0.id) {
        assert(t1.members[t1.members.len() - 1] == s0.id);
    }
}

/// After a team sets password `pw`, every member whose record was consistent
/// with the team holds `pw`, and every such record is consistent with the
/// team's new state.
pub proof fn law_password_reaches_every_member(
    t0: TeamView,
    pw: String,
    before: Seq<StudentView>,
    after: Seq<StudentView>,
)
    requires
        before.len() == after.len(),
        forall|i: int| 0 <= i < before.len() ==> t0.password_propagated(#[trigger] before[i], after[i], pw),
        forall|i: int| 0 <= i < before.len() ==> t0.consistent_with(#[trigger] before[i]),
    ensures
        forall|i: int|
            0 <= i < before.len() && t0.members.contains(#[trigger] before[i].id) ==> after[i].credentials[t0.guild].password
                == Some(pw),
        forall|i: int|
            0 <= i < before.len() ==> (TeamView { pass: Some(pw@), ..t0 }).consistent_with(#[trigger] after[i]),
{
    let t1 = TeamView { pass: Some(pw@), ..t0 };
    assert forall|i: int| 0 <= i < before.len() implies t1.consistent_with(#[trigger] after[i]) by {
        assert(t0.password_propagated(before[i], after[i], pw));
        if t0.members.contains(before[i].id) {
            assert(opt_view(Some(pw)) == Some(pw@));
        }
    };
}

/// A confirmed team refuses invitations, joins by anyone outside it, and
/// departures with `TeamLocked`; once unconfirmed it refuses none of them on
/// that ground.
pub proof fn law_confirmed_team_locked(
    t: TeamView,
    inviter: u64,
    n: nat,
    third: StudentView,
    member: StudentView,
    capacity: u8,
)
    requires
        t.confirmed,
        t.members.contains(inviter),
        !third.affiliated(t.guild),
        t.members.contains(member.id),
    ensures
        invite_error(t, inviter, n, capacity) == Some(RegistryError::TeamLocked),
        join_error(t, third, capacity) == Some(RegistryError::TeamLocked),
        leave_error(t, member) == Some(RegistryError::TeamLocked),
        invite_error(TeamView { confirmed: false, ..t }, inviter, n, capacity) != Some(
            RegistryError::TeamLocked,
        ),
        join_error(TeamView { confirmed: false, ..t }, third, capacity) != Some(
            RegistryError::TeamLocked,
        ),
        leave_error(TeamView { confirmed: false, ..t }, member) is None,
{
}

} // verus!
