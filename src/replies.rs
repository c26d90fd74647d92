//! The texts the chat commands answer with, built from a student's records.

use crate::credentials::TeamRequest;
use crate::student::{Student, StudentView};
use crate::text::{decimal, push_decimal, push_str};
use vstd::prelude::*;

verus! {

/// How many requests the history answer lists at most.
pub const HISTORY_SHOWN: usize = 30;

/// The history line for request `id` at endpoint `url`.
pub open spec fn history_entry(url: Seq<char>, id: u16) -> Seq<char> {
    "<"@ + url + "/request?rid="@ + decimal(id as nat) + ">\n"@
}

/// The history lines of the `n` most recent requests of `hist`, most recent
/// first.
pub open spec fn history_lines(url: Seq<char>, hist: Seq<u16>, n: nat) -> Seq<char>
    decreases n,
{
    if n == 0 || n > hist.len() {
        Seq::empty()
    } else {
        history_lines(url, hist, (n - 1) as nat) + history_entry(url, hist[hist.len() - n])
    }
}

/// The answer listing a student's requests: the most recent ones first, at
/// most `HISTORY_SHOWN` of them, each as a link to endpoint `url`.
pub fn history_reply(url: &String, hist: &Vec<u16>) -> (r: String)
    ensures
        r@ == "**Last requests sent to Tablón:**\n"@ + history_lines(
            url@,
            hist@,
            if hist@.len() < HISTORY_SHOWN {
                hist@.len()
            } else {
                HISTORY_SHOWN as nat
            },
        ),
{
    let mut r = String::new();
    push_str(&mut r, "**Last requests sent to Tablón:**\n");
    let shown: usize = if hist.len() < HISTORY_SHOWN {
        hist.len()
    } else {
        HISTORY_SHOWN
    };
    let ghost head = r@;
    let mut n: usize = 0;
    while n < shown
        invariant
            n <= shown <= hist@.len(),
            r@ == head + history_lines(url@, hist@, n as nat),
        decreases shown - n,
    {
        let id = hist[hist.len() - 1 - n];
        push_str(&mut r, "<");
        push_str(&mut r, url.as_str());
        push_str(&mut r, "/request?rid=");
        push_decimal(&mut r, id as u64);
        push_str(&mut r, ">\n");
        n = n + 1;
        assert(r@ =~= head + history_lines(url@, hist@, n as nat));
    }
    r
}

/// The invitation line for request `q`.
pub open spec fn invitation_entry(q: TeamRequest) -> Seq<char> {
    "- Team "@ + q.team_id@ + " by <@"@ + decimal(q.sender_id as nat) + ">\n"@
}

/// The invitation lines of the first `n` requests of `qs`.
pub open spec fn invitation_lines(qs: Seq<TeamRequest>, n: nat) -> Seq<char>
    decreases n,
{
    if n == 0 || n > qs.len() {
        Seq::empty()
    } else {
        invitation_lines(qs, (n - 1) as nat) + invitation_entry(qs[n - 1])
    }
}

/// The answer listing the invitations `s` holds in guild `g`.
pub open spec fn invitations_spec(s: StudentView, g: u64) -> Seq<char> {
    if s.pending(g).len() == 0 {
        "You do not have any team invitations."@
    } else {
        "You have the following team invitations:\n"@ + invitation_lines(s.pending(g), s.pending(g).len())
    }
}

/// The answer listing the invitations `student` holds in `guild`.
pub fn invitations_reply(student: &Student, guild: u64) -> (r: String)
    ensures
        r@ == invitations_spec(student@, guild),
{
    let mut r = String::new();
    let requests = match student.get_team_requests(guild) {
        None => {
            push_str(&mut r, "You do not have any team invitations.");
            return r;
        },
        Some(qs) => qs,
    };
    if requests.len() == 0 {
        push_str(&mut r, "You do not have any team invitations.");
        return r;
    }
    push_str(&mut r, "You have the following team invitations:\n");
    let ghost head = r@;
    let mut n: usize = 0;
    while n < requests.len()
        invariant
            n <= requests@.len(),
            requests@ == student@.pending(guild),
            r@ == head + invitation_lines(requests@, n as nat),
        decreases requests.len() - n,
    {
        push_str(&mut r, "- Team ");
        push_str(&mut r, requests[n].team_id.as_str());
        push_str(&mut r, " by <@");
        push_decimal(&mut r, requests[n].sender_id);
        push_str(&mut r, ">\n");
        n = n + 1;
        assert(r@ =~= head + invitation_lines(requests@, n as nat));
    }
    r
}

/// The answer listing the settings of `s` in guild `g`: team and password,
/// preferred queue, and last request arguments.
pub open spec fn settings_spec(s: StudentView, g: u64) -> Seq<char> {
    "Your current settings for this server are:\n"@ + (if s.credentials.contains_key(g) {
        "- Team: `"@ + s.credentials[g].team@ + "`\n"@ + match s.credentials[g].password {
            Some(p) => "- Password: ||`"@ + p@ + "`||\n"@,
            None => "- Password: [Not set]\n"@,
        }
    } else {
        "- You are not in a team in this server\n"@
    }) + (if s.preferred_queue.contains_key(g) {
        "- Default queue for requests: `"@ + s.preferred_queue[g]@ + "`\n"@
    } else {
        "- Default queue for requests: [Not set]\n"@
    }) + (if s.last_command.contains_key(g) {
        "- Last request command: `"@ + s.last_command[g]@ + "`\n"@
    } else {
        Seq::empty()
    })
}

/// The answer listing the settings of `student` in `guild`.
pub fn settings_reply(student: &Student, guild: u64) -> (r: String)
    ensures
        r@ == settings_spec(student@, guild),
{
    let mut r = String::new();
    push_str(&mut r, "Your current settings for this server are:\n");
    let ghost r0 = r@;
    match student.get_credentials(guild) {
        Some(c) => {
            push_str(&mut r, "- Team: `");
            push_str(&mut r, c.team.as_str());
            push_str(&mut r, "`\n");
            match &c.password {
                Some(p) => {
                    push_str(&mut r, "- Password: ||`");
                    push_str(&mut r, p.as_str());
                    push_str(&mut r, "`||\n");
                },
                None => {
                    push_str(&mut r, "- Password: [Not set]\n");
                },
            }
        },
        None => {
            push_str(&mut r, "- You are not in a team in this server\n");
        },
    }
    let ghost r1 = r@;
    match student.get_preferred_queue(guild) {
        Some(q) => {
            push_str(&mut r, "- Default queue for requests: `");
            push_str(&mut r, q.as_str());
            push_str(&mut r, "`\n");
        },
        None => {
            push_str(&mut r, "- Default queue for requests: [Not set]\n");
        },
    }
    let ghost r2 = r@;
    match student.get_last_command(guild) {
        Some(l) => {
            push_str(&mut r, "- Last request command: `");
            push_str(&mut r, l.as_str());
            push_str(&mut r, "`\n");
        },
        None => {},
    }
    assert(r@ =~= settings_spec(student@, guild));
    r
}

} // verus!
