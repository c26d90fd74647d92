//! A team: its guild-scoped identifier, display name, password, members and
//! confirmation flag, and the operations that keep each member's record in
//! step with it.

use crate::credentials::{opt_view, Credentials};
use crate::guild::{GuildInfoView, GuildTeamInfo};
use crate::student::{Student, StudentView};
use crate::textmap::TextMap;
use vstd::prelude::*;

verus! {

/// `s` with every occurrence of `x` taken out, order kept.
pub open spec fn without_member(s: Seq<u64>, x: u64) -> Seq<u64>
    decreases s.len(),
{
    if s.len() == 0 {
        s
    } else if s.last() == x {
        without_member(s.drop_last(), x)
    } else {
        without_member(s.drop_last(), x).push(s.last())
    }
}

proof fn lemma_without_member(s: Seq<u64>, x: u64)
    requires
        s.no_duplicates(),
    ensures
        without_member(s, x).no_duplicates(),
        forall|y: u64| #[trigger] without_member(s, x).contains(y) <==> (s.contains(y) && y != x),
    decreases s.len(),
{
    if s.len() > 0 {
        let d = s.drop_last();
        assert(d.no_duplicates()) by {
            assert forall|i: int, j: int| 0 <= i < d.len() && 0 <= j < d.len() && i != j implies d[i] != d[j] by {
                assert(d[i] == s[i] && d[j] == s[j]);
            };
        };
        lemma_without_member(d, x);
        let w = without_member(d, x);
        assert forall|y: u64| s.contains(y) <==> (d.contains(y) || y == s.last()) by {
            if s.contains(y) {
                let k = choose|k: int| 0 <= k < s.len() && s[k] == y;
                if k < d.len() {
                    assert(d[k] == y);
                }
            }
            if d.contains(y) {
                let k = choose|k: int| 0 <= k < d.len() && d[k] == y;
                assert(s[k] == y);
            }
            if y == s.last() {
                assert(s[s.len() - 1] == y);
            }
        };
        if s.last() != x {
            assert(!d.contains(s.last())) by {
                if d.contains(s.last()) {
                    let k = choose|k: int| 0 <= k < d.len() && d[k] == s.last();
                    assert(s[k] == s[s.len() - 1]);
                }
            };
            let w2 = w.push(s.last());
            assert forall|y: u64| w2.contains(y) <==> (w.contains(y) || y == s.last()) by {
                if w2.contains(y) {
                    let k = choose|k: int| 0 <= k < w2.len() && w2[k] == y;
                    if k < w.len() {
                        assert(w[k] == y);
                    }
                }
                if w.contains(y) {
                    let k = choose|k: int| 0 <= k < w.len() && w[k] == y;
                    assert(w2[k] == y);
                }
                if y == s.last() {
                    assert(w2[w.len() as int] == y);
                }
            };
            assert(w2.no_duplicates()) by {
                assert forall|i: int, j: int| 0 <= i < w2.len() && 0 <= j < w2.len() && i != j implies w2[i] != w2[j] by {
                    if i < w.len() && j < w.len() {
                        assert(w2[i] == w[i] && w2[j] == w[j]);
                    } else if i < w.len() {
                        assert(w2[i] == w[i]);
                        assert(w.contains(w[i]));
                    } else if j < w.len() {
                        assert(w2[j] == w[j]);
                        assert(w.contains(w[j]));
                    }
                };
            };
        }
    }
}

/// What a team record holds.
pub struct TeamView {
    pub id: Seq<char>,
    pub pass: Option<Seq<char>>,
    pub guild: u64,
    pub name: Seq<char>,
    pub members: Seq<u64>,
    pub confirmed: bool,
}

/// Whether `(t1, s1)` is what adding student `s0` to team `t0` gives: a
/// member is left as they are; anyone else is appended to the members and
/// joined to the team.
pub open spec fn add_member_post(t0: TeamView, s0: StudentView, t1: TeamView, s1: StudentView) -> bool {
    if t0.members.contains(s0.id) {
        t1 == t0 && s1 == s0
    } else {
        t1 == (TeamView { members: t0.members.push(s0.id), ..t0 }) && t0.joined(s0, s1)
    }
}

impl TeamView {
    /// Whether `c` are the credentials a member of this team holds: the
    /// team's identifier and its current password.
    pub open spec fn credentials_match(self, c: Credentials) -> bool {
        c.team@ == self.id && opt_view(c.password) == self.pass
    }

    /// Whether `after` is `before` once joined to this team: credentials for
    /// the team's guild naming this team, and no invitation left in the guild.
    pub open spec fn joined(self, before: StudentView, after: StudentView) -> bool {
        &&& after.credentials.contains_key(self.guild)
        &&& self.credentials_match(after.credentials[self.guild])
        &&& after == before.with_team(self.guild, after.credentials[self.guild])
    }

    /// Whether student `s` is consistent with this team: a member holds
    /// credentials for this team, with its password.
    pub open spec fn consistent_with(self, s: StudentView) -> bool {
        self.members.contains(s.id) ==> s.credentials.contains_key(self.guild)
            && self.credentials_match(s.credentials[self.guild])
    }

    /// Whether the team leaves `s` alone, or puts its new password `pw` in a
    /// member's credentials.
    pub open spec fn password_propagated(self, before: StudentView, after: StudentView, pw: String) -> bool {
        if self.members.contains(before.id) && before.credentials.contains_key(self.guild) {
            after == before.with_password(self.guild, pw)
        } else {
            after == before
        }
    }

    /// Whether `after` is `before` with this team's credentials dropped from
    /// a member.
    pub open spec fn membership_dropped(self, before: StudentView, after: StudentView) -> bool {
        if self.members.contains(before.id) {
            after == before.without_team(self.guild)
        } else {
            after == before
        }
    }
}

/// A team of students within one guild.
pub struct Team {
    id: String,
    pass: Option<String>,
    guild: u64,
    name: String,
    members: Vec<u64>,
    confirmed: bool,
}

impl View for Team {
    type V = TeamView;

    closed spec fn view(&self) -> TeamView {
        TeamView {
            id: self.id@,
            pass: opt_view(self.pass),
            guild: self.guild,
            name: self.name@,
            members: self.members@,
            confirmed: self.confirmed,
        }
    }
}

impl Team {
    /// The team's records are well formed: no student is listed twice.
    pub open spec fn wf(&self) -> bool {
        self@.members.no_duplicates()
    }

    /// A new, unconfirmed team with no members, named after its identifier,
    /// whose password is the one staged for it in `info` (if any). The name
    /// map of the guild gets the entry from the identifier to itself.
    pub fn new(guild_id: u64, id: String, info: Option<&GuildTeamInfo>, names: &mut TextMap) -> (r: Team)
        ensures
            r.wf(),
            r@ == (TeamView {
                id: id@,
                pass: match info {
                    Some(i) => i@.staged(id@),
                    None => None,
                },
                guild: guild_id,
                name: id@,
                members: Seq::empty(),
                confirmed: false,
            }),
            final(names)@ == old(names)@.insert(id@, id@),
    {
        let pass = match info {
            Some(i) => i.staged_password(&id),
            None => None,
        };
        names.insert(id.clone(), id.clone());
        let r = Team { id: id.clone(), pass, guild: guild_id, name: id, members: Vec::new(), confirmed: false };
        assert(r@.members =~= Seq::<u64>::empty());
        r
    }

    /// A team as stored: every field given.
    pub fn from_parts(
        id: String,
        pass: Option<String>,
        guild: u64,
        name: String,
        members: Vec<u64>,
        confirmed: bool,
    ) -> (r: Team)
        ensures
            r@ == (TeamView {
                id: id@,
                pass: opt_view(pass),
                guild,
                name: name@,
                members: members@,
                confirmed,
            }),
    {
        Team { id, pass, guild, name, members, confirmed }
    }

    pub fn id(&self) -> (r: &String)
        ensures
            r@ == self@.id,
    {
        &self.id
    }

    pub fn pass(&self) -> (r: &Option<String>)
        ensures
            opt_view(*r) == self@.pass,
    {
        &self.pass
    }

    pub fn guild(&self) -> (r: u64)
        ensures
            r == self@.guild,
    {
        self.guild
    }

    pub fn name(&self) -> (r: &String)
        ensures
            r@ == self@.name,
    {
        &self.name
    }

    pub fn members(&self) -> (r: &Vec<u64>)
        ensures
            r@ == self@.members,
    {
        &self.members
    }

    pub fn confirmed(&self) -> (r: bool)
        ensures
            r == self@.confirmed,
    {
        self.confirmed
    }

    /// Whether `user` is a member of the team.
    pub fn has_member(&self, user: u64) -> (r: bool)
        ensures
            r == self@.members.contains(user),
    {
        let mut i: usize = 0;
        while i < self.members.len()
            invariant
                i <= self.members@.len(),
                forall|j: int| 0 <= j < i ==> self.members@[j] != user,
            decreases self.members.len() - i,
        {
            if self.members[i] == user {
                return true;
            }
            i = i + 1;
        }
        false
    }

    /// Adds `student` to the team. A student who is already a member is left
    /// as they are; otherwise they get the team's credentials (with its
    /// password) and lose every invitation they held in the guild.
    pub fn add_member(&mut self, student: &mut Student)
        requires
            old(self).wf(),
        ensures
            final(self).wf(),
            add_member_post(old(self)@, old(student)@, final(self)@, final(student)@),
    {
        let sid = student.id();
        if self.has_member(sid) {
            return;
        }
        self.members.push(sid);
        student.add_team(self.guild, self.id.clone(), self.pass.clone());
        assert(self@.members.no_duplicates()) by {
            assert forall|i: int, j: int|
                0 <= i < self@.members.len() && 0 <= j < self@.members.len() && i != j implies
                self@.members[i] != self@.members[j] by {
                if i < old(self)@.members.len() && j < old(self)@.members.len() {
                    assert(old(self)@.members[i] == self@.members[i]);
                    assert(old(self)@.members[j] == self@.members[j]);
                } else if i < old(self)@.members.len() {
                    assert(old(self)@.members[i] == self@.members[i]);
                } else if j < old(self)@.members.len() {
                    assert(old(self)@.members[j] == self@.members[j]);
                }
            };
        };
    }

    /// Sets the team's password and puts it in the credentials of each member
    /// among `students` (the records of the team's members, in any order).
    pub fn set_password(&mut self, password: String, students: &mut Vec<Student>)
        ensures
            final(self)@ == (TeamView { pass: Some(password@), ..old(self)@ }),
            final(students)@.len() == old(students)@.len(),
            forall|i: int|
                0 <= i < old(students)@.len() ==> old(self)@.password_propagated(
                    #[trigger] old(students)@[i]@,
                    final(students)@[i]@,
                    password,
                ),
    {
        let mut i: usize = 0;
        while i < students.len()
            invariant
                self@ == old(self)@,
                i <= students@.len(),
                students@.len() == old(students)@.len(),
                forall|j: int|
                    0 <= j < i ==> old(self)@.password_propagated(
                        #[trigger] old(students)@[j]@,
                        students@[j]@,
                        password,
                    ),
                forall|j: int| i <= j < students@.len() ==> #[trigger] students@[j] == old(students)@[j],
            decreases students.len() - i,
        {
            let sid = students[i].id();
            if self.has_member(sid) && students[i].get_credentials(self.guild).is_some() {
                students[i].set_password(self.guild, password.clone());
            }
            i = i + 1;
        }
        self.pass = Some(password);
    }

    /// Drops the team's credentials from each member among `students`, as
    /// when the team is deleted.
    pub fn delete(&self, students: &mut Vec<Student>)
        ensures
            final(students)@.len() == old(students)@.len(),
            forall|i: int|
                0 <= i < old(students)@.len() ==> self@.membership_dropped(
                    #[trigger] old(students)@[i]@,
                    final(students)@[i]@,
                ),
    {
        let mut i: usize = 0;
        while i < students.len()
            invariant
                i <= students@.len(),
                students@.len() == old(students)@.len(),
                forall|j: int|
                    0 <= j < i ==> self@.membership_dropped(
                        #[trigger] old(students)@[j]@,
                        students@[j]@,
                    ),
                forall|j: int| i <= j < students@.len() ==> #[trigger] students@[j] == old(students)@[j],
            decreases students.len() - i,
        {
            let sid = students[i].id();
            if self.has_member(sid) {
                students[i].remove_team(self.guild);
            }
            i = i + 1;
        }
    }

    /// Removes `student` from the team. A student who is not a member is left
    /// as they are; otherwise they lose their credentials for the guild. When
    /// the last member leaves, the team's name is released from the guild's
    /// name map, its identifier is retired in `info` for reuse, and the
    /// result is `true`: the team record is then to be deleted.
    pub fn remove_member(&mut self, student: &mut Student, info: &mut GuildTeamInfo, names: &mut TextMap) -> (deleted: bool)
        requires
            old(self).wf(),
        ensures
            final(self).wf(),
            !old(self)@.members.contains(old(student)@.id) ==> final(self)@ == old(self)@
                && final(student)@ == old(student)@ && final(info)@ == old(info)@
                && final(names)@ == old(names)@ && !deleted,
            old(self)@.members.contains(old(student)@.id) ==> {
                &&& final(self)@ == (TeamView {
                    members: without_member(old(self)@.members, old(student)@.id),
                    ..old(self)@
                })
                &&& final(student)@ == old(student)@.without_team(old(self)@.guild)
                &&& deleted == (final(self)@.members.len() == 0)
                &&& deleted ==> final(info)@ == old(info)@.discard(old(self)@.id)
                    && final(names)@ == old(names)@.remove(old(self)@.name)
                &&& !deleted ==> final(info)@ == old(info)@ && final(names)@ == old(names)@
            },
            forall|y: u64| #[trigger] final(self)@.members.contains(y) <==> (old(self)@.members.contains(y) && y != old(student)@.id),
    {
        let sid = student.id();
        if !self.has_member(sid) {
            return false;
        }
        let mut kept: Vec<u64> = Vec::new();
        let mut i: usize = 0;
        while i < self.members.len()
            invariant
                i <= self.members@.len(),
                self@ == old(self)@,
                kept@ == without_member(self.members@.subrange(0, i as int), sid),
            decreases self.members.len() - i,
        {
            assert(self.members@.subrange(0, i + 1).drop_last() =~= self.members@.subrange(0, i as int));
            if self.members[i] != sid {
                kept.push(self.members[i]);
            }
            i = i + 1;
        }
        assert(self.members@.subrange(0, self.members@.len() as int) =~= self.members@);
        proof {
            lemma_without_member(self.members@, sid);
        }
        self.members = kept;
        student.remove_team(self.guild);
        if self.members.len() == 0 {
            names.remove(&self.name);
            info.discard_team(self.id.clone());
            true
        } else {
            false
        }
    }

    /// Renames the team. A name that the guild's name map gives to another
    /// team is refused silently; otherwise the old name is released and the
    /// new one maps to this team.
    pub fn change_name(&mut self, name: String, names: &mut TextMap)
        ensures
            (old(names)@.contains_key(name@) && old(names)@[name@] != old(self)@.id) ==> final(self)@
                == old(self)@ && final(names)@ == old(names)@,
            !(old(names)@.contains_key(name@) && old(names)@[name@] != old(self)@.id) ==> final(self)@
                == (TeamView { name: name@, ..old(self)@ }) && final(names)@ == old(names)@.remove(
                old(self)@.name,
            ).insert(name@, old(self)@.id),
    {
        match names.get(&name) {
            Some(holder) => {
                if holder != self.id {
                    return;
                }
            },
            None => {},
        }
        names.remove(&self.name);
        names.insert(name.clone(), self.id.clone());
        self.name = name;
    }

    /// Confirms the team, freezing its membership and invitations.
    pub fn confirm(&mut self)
        ensures
            final(self)@ == (TeamView { confirmed: true, ..old(self)@ }),
    {
        self.confirmed = true;
    }

    /// Unconfirms the team, making its membership changeable again.
    pub fn unconfirm(&mut self)
        ensures
            final(self)@ == (TeamView { confirmed: false, ..old(self)@ }),
    {
        self.confirmed = false;
    }
}

} // verus!
