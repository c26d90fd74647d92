use hermes::error::RegistryError;
use hermes::guild::GuildTeamInfo;
use hermes::student::Student;
use hermes::team::Team;
use hermes::textmap::TextMap;
use hermes::workflow::{create, invite, join, leave, InviteOutcome};

const GUILD: u64 = 77;

fn student(id: u64, name: &str) -> Student {
    Student::new(id, name.to_string())
}

fn info() -> GuildTeamInfo {
    GuildTeamInfo::new(GUILD, "g".to_string())
}

#[test]
fn register_specific_above_count_fills_holes_between() {
    let mut info = info();
    assert_eq!(info.register_new_team(), "g01");
    assert_eq!(info.register_new_team(), "g02");
    assert_eq!(info.count(), 2);
    assert_eq!(info.register_specific_team(&"g05".to_string()), Ok(()));
    assert_eq!(info.count(), 5);
    assert_eq!(info.holes(), &vec!["g03".to_string(), "g04".to_string()]);
}

#[test]
fn register_specific_from_zero_retires_one_to_below() {
    let mut info = info();
    assert_eq!(info.register_specific_team(&"g03".to_string()), Ok(()));
    assert_eq!(info.count(), 3);
    assert_eq!(info.holes(), &vec!["g01".to_string(), "g02".to_string()]);
}

#[test]
fn register_specific_takes_a_hole() {
    let mut info = info();
    info.register_specific_team(&"g05".to_string()).unwrap();
    assert_eq!(info.register_specific_team(&"g02".to_string()), Ok(()));
    assert_eq!(info.count(), 5);
    assert_eq!(info.holes(), &vec!["g01".to_string(), "g03".to_string(), "g04".to_string()]);
}

#[test]
fn register_specific_live_identifier_is_in_use() {
    let mut info = info();
    info.register_new_team();
    assert_eq!(info.register_specific_team(&"g01".to_string()), Err(RegistryError::AlreadyInUse));
    assert_eq!(info.count(), 1);
    assert!(info.holes().is_empty());
}

#[test]
fn register_specific_without_number_is_malformed() {
    let mut info = info();
    assert_eq!(
        info.register_specific_team(&"gxy".to_string()),
        Err(RegistryError::MalformedIdentifier)
    );
    assert_eq!(info.register_specific_team(&"".to_string()), Err(RegistryError::MalformedIdentifier));
    assert_eq!(
        info.register_specific_team(&"g70000".to_string()),
        Err(RegistryError::MalformedIdentifier)
    );
    assert_eq!(info.count(), 0);
}

#[test]
fn register_new_reuses_last_retired_first() {
    let mut info = info();
    info.register_new_team();
    info.register_new_team();
    info.register_new_team();
    info.discard_team("g01".to_string());
    info.discard_team("g03".to_string());
    assert_eq!(info.register_new_team(), "g03");
    assert_eq!(info.register_new_team(), "g01");
    assert_eq!(info.register_new_team(), "g04");
}

#[test]
fn identifiers_above_ninety_nine_are_not_padded() {
    let mut info = GuildTeamInfo::from_parts(GUILD, "team".to_string(), 99, TextMap::new(), vec![]);
    assert_eq!(info.register_new_team(), "team100");
}

#[test]
fn add_member_twice_changes_nothing_the_second_time() {
    let mut names = TextMap::new();
    let mut team = Team::new(GUILD, "g01".to_string(), None, &mut names);
    let mut a = student(1, "a");
    a.add_team_request(GUILD, "g09".to_string(), 5);
    team.add_member(&mut a);
    assert_eq!(team.members(), &vec![1]);
    assert_eq!(a.get_team_id(GUILD), Some("g01".to_string()));
    assert!(a.get_team_requests(GUILD).is_none());
    team.add_member(&mut a);
    assert_eq!(team.members(), &vec![1]);
    assert_eq!(a.get_existing_credentials(GUILD).team(), "g01");
    assert_eq!(a.get_existing_credentials(GUILD).password(), &None);
}

#[test]
fn set_password_reaches_every_member() {
    let mut names = TextMap::new();
    let mut team = Team::new(GUILD, "g01".to_string(), None, &mut names);
    let mut a = student(1, "a");
    let mut b = student(2, "b");
    team.add_member(&mut a);
    team.add_member(&mut b);
    let mut records = vec![a, b, student(3, "c")];
    team.set_password("x".to_string(), &mut records);
    assert_eq!(team.pass(), &Some("x".to_string()));
    assert_eq!(records[0].get_existing_credentials(GUILD).password(), &Some("x".to_string()));
    assert_eq!(records[1].get_existing_credentials(GUILD).password(), &Some("x".to_string()));
    assert!(records[2].get_credentials(GUILD).is_none());
}

#[test]
fn staged_password_is_given_to_new_team_and_members() {
    let mut info = info();
    let mut staged = TextMap::new();
    staged.insert("g01".to_string(), "secret".to_string());
    info.update_passwords(staged);
    let mut names = TextMap::new();
    let mut a = student(1, "a");
    let (team, _) = create(&mut info, &mut names, &mut a, &mut vec![], 2).unwrap();
    assert_eq!(team.pass(), &Some("secret".to_string()));
    assert_eq!(a.get_existing_credentials(GUILD).password(), &Some("secret".to_string()));
}

#[test]
fn change_name_refuses_a_name_held_by_another_team() {
    let mut names = TextMap::new();
    let mut t1 = Team::new(GUILD, "g01".to_string(), None, &mut names);
    let mut t2 = Team::new(GUILD, "g02".to_string(), None, &mut names);
    t1.change_name("lions".to_string(), &mut names);
    assert_eq!(t1.name(), "lions");
    assert_eq!(names.get(&"lions".to_string()), Some("g01".to_string()));
    assert!(!names.contains_key(&"g01".to_string()));
    t2.change_name("lions".to_string(), &mut names);
    assert_eq!(t2.name(), "g02");
    assert_eq!(names.get(&"lions".to_string()), Some("g01".to_string()));
    t1.change_name("lions".to_string(), &mut names);
    assert_eq!(t1.name(), "lions");
}

#[test]
fn join_clears_every_invitation_of_the_guild() {
    let mut info = info();
    let mut names = TextMap::new();
    let mut a = student(1, "a");
    let mut c = student(3, "c");
    let mut others = vec![student(2, "b")];
    let (mut t1, out) = create(&mut info, &mut names, &mut a, &mut others, 3).unwrap();
    assert_eq!(out, vec![InviteOutcome::Sent]);
    let mut others2 = vec![others.pop().unwrap()];
    let (_t2, _) = create(&mut info, &mut names, &mut c, &mut others2, 3).unwrap();
    let mut b = others2.pop().unwrap();
    assert_eq!(b.get_existing_team_requests(GUILD).len(), 2);
    assert_eq!(join(&mut t1, &mut b, 3), Ok(()));
    assert_eq!(b.get_team_id(GUILD), Some("g01".to_string()));
    assert!(b.get_team_requests(GUILD).is_none());
    assert!(!b.has_invitation(GUILD, &"g02".to_string()));
}

#[test]
fn join_without_invitation_is_refused() {
    let mut info = info();
    let mut names = TextMap::new();
    let mut a = student(1, "a");
    let (mut team, _) = create(&mut info, &mut names, &mut a, &mut vec![], 2).unwrap();
    let mut b = student(2, "b");
    assert_eq!(join(&mut team, &mut b, 2), Err(RegistryError::NotInvited));
    assert_eq!(team.members(), &vec![1]);
}

#[test]
fn join_when_already_in_a_team_is_refused() {
    let mut info = info();
    let mut names = TextMap::new();
    let mut a = student(1, "a");
    let (mut team, _) = create(&mut info, &mut names, &mut a, &mut vec![], 2).unwrap();
    let mut b = student(2, "b");
    b.add_team_request(GUILD, "g01".to_string(), 1);
    b.add_team(GUILD, "g07".to_string(), None);
    assert_eq!(join(&mut team, &mut b, 2), Err(RegistryError::AlreadyAffiliated));
}

#[test]
fn join_a_full_team_is_refused() {
    let mut info = info();
    let mut names = TextMap::new();
    let mut a = student(1, "a");
    let mut invitees = vec![student(2, "b"), student(3, "c")];
    let (mut team, _) = create(&mut info, &mut names, &mut a, &mut invitees, 3).unwrap();
    let mut c = invitees.pop().unwrap();
    let mut b = invitees.pop().unwrap();
    assert_eq!(join(&mut team, &mut b, 1), Err(RegistryError::CapacityExceeded));
    assert_eq!(join(&mut team, &mut b, 3), Ok(()));
    assert_eq!(join(&mut team, &mut c, 2), Err(RegistryError::CapacityExceeded));
}

#[test]
fn create_refusals() {
    let mut info = info();
    let mut names = TextMap::new();
    let mut a = student(1, "a");
    let mut two = vec![student(2, "b"), student(3, "c")];
    assert_eq!(
        create(&mut info, &mut names, &mut a, &mut two, 2).err(),
        Some(RegistryError::CapacityExceeded)
    );
    assert_eq!(info.count(), 0);
    create(&mut info, &mut names, &mut a, &mut vec![], 2).unwrap();
    assert_eq!(
        create(&mut info, &mut names, &mut a, &mut vec![], 2).err(),
        Some(RegistryError::AlreadyAffiliated)
    );
    let mut full = GuildTeamInfo::from_parts(GUILD, "g".to_string(), u16::MAX, TextMap::new(), vec![]);
    let mut d = student(4, "d");
    assert_eq!(
        create(&mut full, &mut names, &mut d, &mut vec![], 2).err(),
        Some(RegistryError::IdentifiersExhausted)
    );
}

#[test]
fn create_skips_self_and_affiliated_invitees() {
    let mut info = info();
    let mut names = TextMap::new();
    let mut a = student(1, "a");
    let mut busy = student(3, "c");
    busy.add_team(GUILD, "g09".to_string(), None);
    let mut invitees = vec![student(1, "a"), busy, student(2, "b")];
    let (team, out) = create(&mut info, &mut names, &mut a, &mut invitees, 4).unwrap();
    assert_eq!(
        out,
        vec![InviteOutcome::SelfInvitation, InviteOutcome::AlreadyAffiliated, InviteOutcome::Sent]
    );
    assert_eq!(team.id(), "g01");
    assert!(invitees[0].get_team_requests(GUILD).is_none());
    assert!(invitees[1].get_team_requests(GUILD).is_none());
    let reqs = invitees[2].get_existing_team_requests(GUILD);
    assert_eq!(reqs.len(), 1);
    assert_eq!(reqs[0].team_id(), "g01");
    assert_eq!(reqs[0].sender_id(), 1);
}

#[test]
fn invite_refusals() {
    let mut info = info();
    let mut names = TextMap::new();
    let mut a = student(1, "a");
    let (team, _) = create(&mut info, &mut names, &mut a, &mut vec![], 2).unwrap();
    let outsider = student(9, "z");
    assert_eq!(
        invite(&team, &outsider, &mut vec![student(2, "b")], 2).err(),
        Some(RegistryError::NotAffiliated)
    );
    assert_eq!(
        invite(&team, &a, &mut vec![student(2, "b"), student(3, "c")], 2).err(),
        Some(RegistryError::CapacityExceeded)
    );
    let mut one = vec![student(2, "b")];
    assert_eq!(invite(&team, &a, &mut one, 2), Ok(vec![InviteOutcome::Sent]));
    assert!(one[0].has_invitation(GUILD, &"g01".to_string()));
}

#[test]
fn leave_when_not_a_member_is_refused() {
    let mut info = info();
    let mut names = TextMap::new();
    let mut a = student(1, "a");
    let (mut team, _) = create(&mut info, &mut names, &mut a, &mut vec![], 2).unwrap();
    let mut b = student(2, "b");
    assert_eq!(leave(&mut team, &mut b, &mut info, &mut names), Err(RegistryError::NotAffiliated));
}

#[test]
fn confirmed_team_is_locked_until_unconfirmed() {
    let mut info = info();
    let mut names = TextMap::new();
    let mut a = student(1, "a");
    let mut invitees = vec![student(2, "b")];
    let (mut team, _) = create(&mut info, &mut names, &mut a, &mut invitees, 3).unwrap();
    let mut b = invitees.pop().unwrap();
    team.confirm();
    assert!(team.confirmed());
    assert_eq!(
        invite(&team, &a, &mut vec![student(3, "c")], 3).err(),
        Some(RegistryError::TeamLocked)
    );
    assert_eq!(join(&mut team, &mut b, 3), Err(RegistryError::TeamLocked));
    assert_eq!(leave(&mut team, &mut a, &mut info, &mut names), Err(RegistryError::TeamLocked));
    team.unconfirm();
    assert!(!team.confirmed());
    assert_eq!(invite(&team, &a, &mut vec![student(3, "c")], 3), Ok(vec![InviteOutcome::Sent]));
    assert_eq!(join(&mut team, &mut b, 3), Ok(()));
    assert_eq!(leave(&mut team, &mut a, &mut info, &mut names), Ok(false));
}

#[test]
fn emptied_team_releases_name_and_identifier() {
    let mut info = info();
    let mut names = TextMap::new();
    let mut a = student(1, "a");
    let (mut team, _) = create(&mut info, &mut names, &mut a, &mut vec![], 2).unwrap();
    team.change_name("owls".to_string(), &mut names);
    assert_eq!(leave(&mut team, &mut a, &mut info, &mut names), Ok(true));
    assert!(team.members().is_empty());
    assert!(a.get_credentials(GUILD).is_none());
    assert!(!names.contains_key(&"owls".to_string()));
    assert_eq!(info.holes(), &vec!["g01".to_string()]);
    assert_eq!(info.register_new_team(), "g01");
}

#[test]
fn end_to_end_two_member_team() {
    let capacity: u8 = 2;
    let mut info = info();
    let mut names = TextMap::new();
    let mut a = student(1, "a");
    let mut invitees = vec![student(2, "b")];
    let (mut team, out) = create(&mut info, &mut names, &mut a, &mut invitees, capacity).unwrap();
    assert_eq!(out, vec![InviteOutcome::Sent]);
    assert_eq!(team.id(), "g01");
    assert_eq!(team.members(), &vec![1]);
    let mut b = invitees.pop().unwrap();
    assert_eq!(b.get_existing_team_requests(GUILD).len(), 1);
    assert_eq!(b.get_existing_team_requests(GUILD)[0].team_id(), "g01");

    assert_eq!(join(&mut team, &mut b, capacity), Ok(()));
    assert_eq!(team.members(), &vec![1, 2]);
    assert_eq!(a.get_existing_credentials(GUILD).team(), "g01");
    assert_eq!(b.get_existing_credentials(GUILD).team(), "g01");

    assert_eq!(
        invite(&team, &a, &mut vec![student(3, "c")], capacity).err(),
        Some(RegistryError::CapacityExceeded)
    );

    assert_eq!(leave(&mut team, &mut b, &mut info, &mut names), Ok(false));
    assert_eq!(leave(&mut team, &mut a, &mut info, &mut names), Ok(true));
    assert!(team.members().is_empty());
    assert_eq!(info.holes(), &vec!["g01".to_string()]);

    let mut c = student(3, "c");
    let (team2, _) = create(&mut info, &mut names, &mut c, &mut vec![], capacity).unwrap();
    assert_eq!(team2.id(), "g01");
    assert!(info.holes().is_empty());
}
