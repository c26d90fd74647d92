use hermes::error::RegistryError;
use hermes::guild::GuildTeamInfo;
use hermes::passwords::{parse_password_file, password_map, two_words};
use hermes::replies::{history_reply, invitations_reply, settings_reply};
use hermes::request::{
    find_http_line, prepare_request, record_request, request_id_from_line, request_id_in_output,
    RequestError,
};
use hermes::student::Student;
use hermes::teamdump::team_dump;
use hermes::textmap::TextMap;
use hermes::workflow::admin_add;

const G: u64 = 5;

fn member_with(password: Option<&str>) -> Student {
    let mut s = Student::new(11, "ana".to_string());
    s.add_team(G, "g04".to_string(), password.map(|p| p.to_string()));
    s
}

#[test]
fn request_id_is_the_final_number_of_the_url_line() {
    let out = "Sending program...\nhttp://tablon.example/request?rid=1234\r\nDone\n";
    assert_eq!(find_http_line(out), Some("http://tablon.example/request?rid=1234"));
    assert_eq!(request_id_in_output(out), Some(1234));
}

#[test]
fn request_id_absent_without_url_line() {
    assert_eq!(request_id_in_output("no link here\nhttps://secure/9\n"), None);
    assert_eq!(request_id_in_output(""), None);
    assert_eq!(request_id_from_line("http://x/request?rid="), None);
    assert_eq!(request_id_from_line("http://x/request?rid=70000"), None);
    assert_eq!(request_id_from_line("http://x/7"), Some(7));
}

#[test]
fn prepare_request_with_given_arguments() {
    let s = member_with(Some("pw"));
    let (args, extra) = prepare_request(&s, G, Some("-q cola".to_string())).unwrap();
    assert_eq!(args, "-u g04 -x pw -q cola");
    assert_eq!(extra, "-q cola");
}

#[test]
fn prepare_request_with_preferred_queue_and_last_command() {
    let mut s = member_with(Some("pw"));
    assert_eq!(prepare_request(&s, G, None), Err(RequestError::NoQueue));
    assert_eq!(
        prepare_request(&s, G, Some("l".to_string())),
        Err(RequestError::NoPreviousCommand)
    );
    s.set_preferred_queue(G, "fast".to_string());
    let (args, extra) = prepare_request(&s, G, None).unwrap();
    assert_eq!(args, "-u g04 -x pw -q fast");
    assert_eq!(extra, "-q fast");
    s.set_last_command(G, "-q slow -t 4".to_string());
    let (args, _) = prepare_request(&s, G, Some("l".to_string())).unwrap();
    assert_eq!(args, "-u g04 -x pw -q slow -t 4");
}

#[test]
fn prepare_request_refusals() {
    let s = Student::new(1, "x".to_string());
    assert_eq!(prepare_request(&s, G, None), Err(RequestError::NotInTeam));
    let s = member_with(None);
    assert_eq!(prepare_request(&s, G, None), Err(RequestError::TeamNotRegistered));
}

#[test]
fn record_request_keeps_arguments_and_identifier() {
    let mut s = member_with(Some("pw"));
    assert_eq!(record_request(&mut s, G, "-q a".to_string(), "http://h/request?rid=42\n"), Some(42));
    assert_eq!(record_request(&mut s, G, "-q b".to_string(), "http://h/request?rid=43"), Some(43));
    assert_eq!(record_request(&mut s, G, "-q c".to_string(), "failed"), None);
    assert_eq!(s.get_existing_last_command(G), "-q c");
    assert_eq!(s.request_history(G), Some(&vec![42, 43]));
}

#[test]
fn password_file_lines() {
    let pairs = parse_password_file("g01 alpha\n  g02\tbeta extra\r\ng01 gamma\n").unwrap();
    assert_eq!(
        pairs,
        vec![
            ("g01".to_string(), "alpha".to_string()),
            ("g02".to_string(), "beta".to_string()),
            ("g01".to_string(), "gamma".to_string()),
        ]
    );
    let m = password_map(&pairs);
    assert_eq!(m.get(&"g01".to_string()), Some("gamma".to_string()));
    assert_eq!(m.get(&"g02".to_string()), Some("beta".to_string()));
    assert_eq!(m.get(&"g03".to_string()), None);
}

#[test]
fn password_file_refuses_line_without_password() {
    assert_eq!(parse_password_file("g01 a\ng02\ng03 c\n"), Err(1));
    assert_eq!(parse_password_file("\n"), Err(0));
    assert_eq!(parse_password_file(""), Ok(vec![]));
    assert_eq!(two_words("\u{3000}a\u{a0}b"), Some(("a".to_string(), "b".to_string())));
}

#[test]
fn team_dump_lists_teams_in_order() {
    let teams = vec![vec![10, 11], vec![], vec![12]];
    let (file, msgs) = team_dump(&"g".to_string(), &teams, 2);
    assert_eq!(file, "g01 10\ng01 11\ng03 12\n");
    assert_eq!(msgs, vec!["## List of teams:\n\n**g01** 10 11 \n**g03** 12 \n".to_string()]);
}

#[test]
fn team_dump_splits_long_listings() {
    let teams = vec![vec![1]; 3];
    let (_, msgs) = team_dump(&"g".to_string(), &teams, 200);
    assert_eq!(
        msgs,
        vec![
            "## List of teams:\n\n**g01** 1 \n".to_string(),
            "**g02** 1 \n".to_string(),
            "**g03** 1 \n".to_string(),
            "".to_string(),
        ]
    );
}

#[test]
fn history_shows_most_recent_first_at_most_thirty() {
    let r = history_reply(&"https://t".to_string(), &vec![1, 2]);
    assert_eq!(
        r,
        "**Last requests sent to Tablón:**\n<https://t/request?rid=2>\n<https://t/request?rid=1>\n"
    );
    let long: Vec<u16> = (1..=40).collect();
    let r = history_reply(&"u".to_string(), &long);
    assert_eq!(r.lines().count(), 31);
    assert!(r.contains("rid=40>"));
    assert!(r.contains("rid=11>"));
    assert!(!r.contains("rid=10>"));
}

#[test]
fn invitations_and_settings_replies() {
    let mut s = Student::new(3, "b".to_string());
    assert_eq!(invitations_reply(&s, G), "You do not have any team invitations.");
    s.add_team_request(G, "g02".to_string(), 9);
    assert_eq!(
        invitations_reply(&s, G),
        "You have the following team invitations:\n- Team g02 by <@9>\n"
    );
    assert_eq!(
        settings_reply(&s, G),
        "Your current settings for this server are:\n- You are not in a team in this server\n- Default queue for requests: [Not set]\n"
    );
    let mut m = member_with(Some("pw"));
    m.set_preferred_queue(G, "q1".to_string());
    m.set_last_command(G, "-q q1".to_string());
    assert_eq!(
        settings_reply(&m, G),
        "Your current settings for this server are:\n- Team: `g04`\n- Password: ||`pw`||\n- Default queue for requests: `q1`\n- Last request command: `-q q1`\n"
    );
}

#[test]
fn admin_add_registers_a_new_identifier() {
    let mut info = GuildTeamInfo::new(G, "g".to_string());
    let mut names = TextMap::new();
    let mut s = Student::new(1, "a".to_string());
    let team = admin_add(None, "g03".to_string(), &mut s, &mut info, &mut names).unwrap();
    assert_eq!(team.id(), "g03");
    assert_eq!(team.members(), &vec![1]);
    assert_eq!(info.count(), 3);
    assert_eq!(info.holes(), &vec!["g01".to_string(), "g02".to_string()]);
    assert_eq!(s.get_team_id(G), Some("g03".to_string()));
    let mut t = Student::new(2, "b".to_string());
    let team = admin_add(Some(team), "g03".to_string(), &mut t, &mut info, &mut names).unwrap();
    assert_eq!(team.members(), &vec![1, 2]);
    let mut u = Student::new(3, "c".to_string());
    assert!(matches!(
        admin_add(None, "g03".to_string(), &mut u, &mut info, &mut names),
        Err(RegistryError::AlreadyInUse)
    ));
    assert!(matches!(
        admin_add(None, "g02".to_string(), &mut u, &mut info, &mut names),
        Ok(_)
    ));
    assert_eq!(info.holes(), &vec!["g01".to_string()]);
    assert!(matches!(
        admin_add(None, "g02".to_string(), &mut u, &mut info, &mut names),
        Err(RegistryError::AlreadyInUse)
    ));
}
