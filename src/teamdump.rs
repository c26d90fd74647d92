//! The listing of a guild's teams and their members: a plain-text file with
//! one `team member` line per membership, and the same listing as chat
//! messages short enough to be sent.

use crate::guild::{team_identifier, texts_view};
use crate::text::{decimal, push_decimal, push_padded2, push_str};
use vstd::prelude::*;

verus! {

/// The longest a chat message may be.
pub const MESSAGE_LIMIT: usize = 2000;

/// The room a message keeps free for one more team line: the bold team
/// identifier, one mention per member, and the newline.
pub open spec fn reserve(capacity: u8) -> nat {
    (9 + capacity * 22 + 1) as nat
}

/// The length at which a message is closed and a new one begun.
pub open spec fn split_at(capacity: u8) -> nat {
    if reserve(capacity) <= 2000 {
        (2000 - reserve(capacity)) as nat
    } else {
        0
    }
}

/// The file lines for team `tid` with `members`: `tid member` each.
pub open spec fn file_lines(tid: Seq<char>, members: Seq<u64>) -> Seq<char>
    decreases members.len(),
{
    if members.len() == 0 {
        Seq::empty()
    } else {
        file_lines(tid, members.drop_last()) + tid + seq![' '] + decimal(members.last() as nat) + seq!['\n']
    }
}

/// The members as they stand in a message line: each followed by a space.
pub open spec fn message_members(members: Seq<u64>) -> Seq<char>
    decreases members.len(),
{
    if members.len() == 0 {
        Seq::empty()
    } else {
        message_members(members.drop_last()) + decimal(members.last() as nat) + seq![' ']
    }
}

/// The message line for team `tid` with `members`, empty for a team
/// without members.
pub open spec fn message_line(tid: Seq<char>, members: Seq<u64>) -> Seq<char> {
    if members.len() == 0 {
        Seq::empty()
    } else {
        seq!['*', '*'] + tid + seq!['*', '*', ' '] + message_members(members) + seq!['\n']
    }
}

/// The heading of the first message.
pub open spec fn heading() -> Seq<char> {
    seq!['#', '#', ' ', 'L', 'i', 's', 't', ' ', 'o', 'f', ' ', 't', 'e', 'a', 'm', 's', ':', '\n', '\n']
}

/// The file, the closed messages and the open message after the first `n`
/// teams of `teams` (team number `k + 1` has members `teams[k]`).
pub open spec fn dump_after(prefix: Seq<char>, teams: Seq<Seq<u64>>, capacity: u8, n: nat) -> (
    Seq<char>,
    Seq<Seq<char>>,
    Seq<char>,
)
    decreases n,
{
    if n == 0 {
        (Seq::empty(), Seq::empty(), heading())
    } else {
        let (f, ms, cur) = dump_after(prefix, teams, capacity, (n - 1) as nat);
        let tid = team_identifier(prefix, n);
        let f2 = f + file_lines(tid, teams[n - 1]);
        let cur2 = cur + message_line(tid, teams[n - 1]);
        if cur2.len() >= split_at(capacity) {
            (f2, ms.push(cur2), Seq::empty())
        } else {
            (f2, ms, cur2)
        }
    }
}

/// The listing of all of `teams`: the file text and the messages.
pub open spec fn dump_spec(prefix: Seq<char>, teams: Seq<Seq<u64>>, capacity: u8) -> (Seq<char>, Seq<Seq<char>>) {
    let (f, ms, cur) = dump_after(prefix, teams, capacity, teams.len());
    (f, ms.push(cur))
}

/// Lists the guild's teams in identifier order: `teams[k]` holds the members
/// of the team numbered `k + 1` (empty where that team does not exist).
/// The result is the file text and the messages; a message is closed once
/// it is too long to take one more full team line, and a team capacity too
/// large for any line to fit closes one after every team.
pub fn team_dump(prefix: &String, teams: &Vec<Vec<u64>>, capacity: u8) -> (r: (String, Vec<String>))
    ensures
        (r.0@, texts_view(r.1@)) == dump_spec(prefix@, teams@.map_values(|v: Vec<u64>| v@), capacity),
{
    let ghost tv = teams@.map_values(|v: Vec<u64>| v@);
    let reserve: usize = 9 + capacity as usize * 22 + 1;
    let limit: usize = if reserve <= MESSAGE_LIMIT {
        MESSAGE_LIMIT - reserve
    } else {
        0
    };
    let mut file = String::new();
    let mut closed: Vec<String> = Vec::new();
    let mut cur = String::new();
    push_str(&mut cur, "## List of teams:\n\n");
    proof {
        reveal_strlit("## List of teams:\n\n");
        assert(cur@ =~= heading());
        assert(texts_view(closed@) =~= Seq::<Seq<char>>::empty());
        assert(file@ =~= Seq::<char>::empty());
    }
    let mut n: usize = 0;
    while n < teams.len()
        invariant
            n <= teams@.len(),
            tv == teams@.map_values(|v: Vec<u64>| v@),
            limit == split_at(capacity),
            (file@, texts_view(closed@), cur@) == dump_after(prefix@, tv, capacity, n as nat),
        decreases teams.len() - n,
    {
        let mut tid = prefix.clone();
        push_padded2(&mut tid, (n + 1) as u64);
        let members = &teams[n];
        let mut k: usize = 0;
        let mut line = String::new();
        let ghost file0 = file@;
        while k < members.len()
            invariant
                k <= members@.len(),
                members@ == tv[n as int],
                tid@ == team_identifier(prefix@, (n + 1) as nat),
                file@ == file0 + file_lines(tid@, members@.subrange(0, k as int)),
                line@ == message_members(members@.subrange(0, k as int)),
            decreases members.len() - k,
        {
            let m = members[k];
            assert(members@.subrange(0, k + 1).drop_last() =~= members@.subrange(0, k as int));
            push_str(&mut file, tid.as_str());
            push_str(&mut file, " ");
            push_decimal(&mut file, m);
            push_str(&mut file, "\n");
            push_decimal(&mut line, m);
            push_str(&mut line, " ");
            proof {
                reveal_strlit(" ");
                reveal_strlit("\n");
                assert(file@ =~= file0 + file_lines(tid@, members@.subrange(0, k + 1)));
                assert(line@ =~= message_members(members@.subrange(0, k + 1)));
            }
            k = k + 1;
        }
        assert(members@.subrange(0, members@.len() as int) =~= members@);
        if members.len() > 0 {
            let ghost cur0 = cur@;
            push_str(&mut cur, "**");
            push_str(&mut cur, tid.as_str());
            push_str(&mut cur, "** ");
            push_str(&mut cur, line.as_str());
            push_str(&mut cur, "\n");
            proof {
                reveal_strlit("**");
                reveal_strlit("** ");
                reveal_strlit("\n");
                assert(cur@ =~= cur0 + message_line(tid@, members@));
            }
        } else {
            assert(cur@ =~= cur@ + message_line(tid@, members@));
        }
        if cur.as_str().unicode_len() >= limit {
            let ghost closed0 = texts_view(closed@);
            closed.push(cur);
            cur = String::new();
            assert(texts_view(closed@) =~= closed0.push(texts_view(closed@).last()));
        }
        n = n + 1;
        assert((file@, texts_view(closed@), cur@) == dump_after(prefix@, tv, capacity, n as nat));
    }
    let ghost closed0 = texts_view(closed@);
    closed.push(cur);
    assert(texts_view(closed@) =~= closed0.push(texts_view(closed@).last()));
    (file, closed)
}

} // verus!
