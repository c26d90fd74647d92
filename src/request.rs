//! The decisions around sending a program to the submission client: which
//! arguments to pass, and which request identifier the client reported.

use crate::credentials::opt_view;
use crate::student::{Student, StudentView};
use crate::text::{is_ascii_digit, parse_u16, parse_u16_spec, push_char, push_str};
use vstd::prelude::*;
use vstd::string::*;

verus! {

/// Why a request cannot be sent.
#[derive(Clone, Copy, Debug, PartialEq, Eq, Structural)]
pub enum RequestError {
    /// The student belongs to no team in the guild.
    NotInTeam,
    /// The student's team has no password yet.
    TeamNotRegistered,
    /// Reuse of the last arguments was asked for, and there are none.
    NoPreviousCommand,
    /// No arguments were given and the student has no preferred queue.
    NoQueue,
}

/// Whether `c` is an ASCII character.
pub open spec fn is_ascii_char(c: char) -> bool {
    c <= '\u{7f}'
}

/// Whether every character of `s` is ASCII.
pub open spec fn all_ascii(s: Seq<char>) -> bool {
    forall|i: int| 0 <= i < s.len() ==> is_ascii_char(#[trigger] s[i])
}

/// The number of characters from index `i` of `s` to the first newline
/// after it, or to the end.
pub open spec fn line_len(s: Seq<char>, i: int) -> nat
    decreases s.len() - i,
{
    if i < 0 || i >= s.len() || s[i] == '\n' {
        0
    } else {
        line_len(s, i + 1) + 1
    }
}

/// The index of the first newline at or after `i`, or the length of `s`.
pub open spec fn line_end(s: Seq<char>, i: int) -> int {
    i + line_len(s, i)
}

proof fn lemma_line_end_bounds(s: Seq<char>, i: int)
    requires
        0 <= i <= s.len(),
    ensures
        i <= line_end(s, i) <= s.len(),
    decreases s.len() - i,
{
    if i < s.len() && s[i] != '\n' {
        lemma_line_end_bounds(s, i + 1);
    }
}

/// A line without its carriage return, if it ends in one.
pub open spec fn strip_cr(l: Seq<char>) -> Seq<char> {
    if l.len() > 0 && l.last() == '\r' {
        l.drop_last()
    } else {
        l
    }
}

pub open spec fn starts_with(l: Seq<char>, p: Seq<char>) -> bool {
    p.len() <= l.len() && l.subrange(0, p.len() as int) == p
}

/// The first line of `s` from index `i` on that starts with `http://`
/// (lines end at a newline, and lose a carriage return before it).
pub open spec fn http_line_from(s: Seq<char>, i: int) -> Option<Seq<char>>
    decreases s.len() - i,
{
    if i < 0 || i >= s.len() {
        None
    } else {
        let l = strip_cr(s.subrange(i, line_end(s, i)));
        if starts_with(l, seq!['h', 't', 't', 'p', ':', '/', '/']) {
            Some(l)
        } else if line_end(s, i) >= s.len() {
            None
        } else {
            http_line_from(s, line_end(s, i) + 1)
        }
    }
}

/// The length of the run of ASCII digits that ends `l`.
pub open spec fn trailing_digit_run(l: Seq<char>) -> nat
    decreases l.len(),
{
    if l.len() > 0 && is_ascii_digit(l.last()) {
        trailing_digit_run(l.drop_last()) + 1
    } else {
        0
    }
}

/// The request identifier that the client's URL line `l` ends with, for a
/// line of ASCII characters: its final digits read as a 16-bit number.
pub open spec fn ascii_request_id(l: Seq<char>) -> Option<u16> {
    if trailing_digit_run(l) == 0 {
        None
    } else {
        parse_u16_spec(l.subrange(l.len() - trailing_digit_run(l), l.len() as int))
    }
}

/// Relies on `regex::Regex::new` and `regex::Regex::find` with the pattern
/// `(\d+)$`: the leftmost run of (Unicode) decimal digits that reaches the
/// end of `line`. Such a run is a non-empty suffix; its ASCII characters are
/// digits; the character before it is not a digit; and a line that ends in
/// an ASCII digit has one.
#[verifier::external_body]
fn trailing_digits(line: &str) -> (r: Option<String>)
    ensures
        r is Some ==> {
            let m = r->Some_0@;
            &&& 0 < m.len() <= line@.len()
            &&& line@.subrange(line@.len() - m.len(), line@.len() as int) == m
            &&& forall|i: int| 0 <= i < m.len() && is_ascii_char(#[trigger] m[i]) ==> is_ascii_digit(m[i])
            &&& m.len() < line@.len() ==> !is_ascii_digit(line@[line@.len() - m.len() - 1])
        },
        line@.len() > 0 && is_ascii_digit(line@.last()) ==> r is Some,
{
    let re = regex::Regex::new(r"(\d+)$").unwrap();
    match re.find(line) {
        Some(m) => Some(m.as_str().to_string()),
        None => None,
    }
}

proof fn lemma_digit_run(l: Seq<char>, k: nat)
    requires
        k <= l.len(),
        forall|i: int| l.len() - k <= i < l.len() ==> is_ascii_digit(#[trigger] l[i]),
        k < l.len() ==> !is_ascii_digit(l[l.len() - k - 1]),
    ensures
        trailing_digit_run(l) == k,
    decreases k,
{
    if k > 0 {
        let d = l.drop_last();
        assert forall|i: int| d.len() - (k - 1) <= i < d.len() implies is_ascii_digit(#[trigger] d[i]) by {
            assert(d[i] == l[i]);
        };
        if k - 1 < d.len() {
            assert(d[d.len() - (k - 1) - 1] == l[l.len() - k - 1]);
        }
        lemma_digit_run(d, (k - 1) as nat);
    } else if l.len() > 0 {
        assert(!is_ascii_digit(l.last()));
    }
}

/// The request identifier at the end of the client's URL line `line`: the
/// digits it ends with, read as a 16-bit number.
pub fn request_id_from_line(line: &str) -> (r: Option<u16>)
    ensures
        all_ascii(line@) ==> r == ascii_request_id(line@),
        r is Some ==> exists|k: int|
            0 < k <= line@.len() && parse_u16_spec(#[trigger] line@.subrange(line@.len() - k, line@.len() as int))
                == r,
{
    let found = trailing_digits(line);
    match found {
        None => {
            proof {
                if line@.len() > 0 {
                    assert(!is_ascii_digit(line@.last()));
                }
            }
            None
        },
        Some(digits) => {
            let r = parse_u16(digits.as_str());
            proof {
                let m = digits@;
                let k = m.len() as int;
                assert(line@.subrange(line@.len() - k, line@.len() as int) == m);
                if all_ascii(line@) {
                    assert forall|i: int| line@.len() - k <= i < line@.len() implies is_ascii_digit(
                        #[trigger] line@[i],
                    ) by {
                        assert(m[i - (line@.len() - k)] == line@[i]);
                        assert(is_ascii_char(line@[i]));
                    };
                    lemma_digit_run(line@, k as nat);
                }
            }
            r
        },
    }
}

/// The first line of `s` that starts with `http://`, if any.
pub fn find_http_line(s: &str) -> (r: Option<&str>)
    ensures
        match r {
            Some(l) => http_line_from(s@, 0) == Some(l@),
            None => http_line_from(s@, 0) is None,
        },
{
    let len = s.unicode_len();
    let mut i: usize = 0;
    while i < len
        invariant
            len == s@.len(),
            i <= len,
            http_line_from(s@, 0) == http_line_from(s@, i as int),
        decreases len - i,
    {
        let mut j: usize = i;
        while j < len && s.get_char(j) != '\n'
            invariant
                len == s@.len(),
                i <= j <= len,
                line_end(s@, i as int) == line_end(s@, j as int),
            decreases len - j,
        {
            j = j + 1;
        }
        proof {
            lemma_line_end_bounds(s@, i as int);
        }
        let raw = s.substring_char(i, j);
        let rlen = j - i;
        let line = if rlen > 0 && raw.get_char(rlen - 1) == '\r' {
            raw.substring_char(0, rlen - 1)
        } else {
            raw
        };
        assert(line@ == strip_cr(s@.subrange(i as int, line_end(s@, i as int)))) by {
            if rlen > 0 && raw@.last() == '\r' {
                assert(raw@.subrange(0, rlen - 1) =~= raw@.drop_last());
            }
        };
        let llen = line.unicode_len();
        let is_http = llen >= 7 && line.get_char(0) == 'h' && line.get_char(1) == 't' && line.get_char(2)
            == 't' && line.get_char(3) == 'p' && line.get_char(4) == ':' && line.get_char(5) == '/'
            && line.get_char(6) == '/';
        assert(is_http == starts_with(line@, seq!['h', 't', 't', 'p', ':', '/', '/'])) by {
            if llen >= 7 {
                if is_http {
                    assert(line@.subrange(0, 7) =~= seq!['h', 't', 't', 'p', ':', '/', '/']);
                }
                if starts_with(line@, seq!['h', 't', 't', 'p', ':', '/', '/']) {
                    assert(line@.subrange(0, 7)[0] == line@[0]);
                    assert(line@.subrange(0, 7)[1] == line@[1]);
                    assert(line@.subrange(0, 7)[2] == line@[2]);
                    assert(line@.subrange(0, 7)[3] == line@[3]);
                    assert(line@.subrange(0, 7)[4] == line@[4]);
                    assert(line@.subrange(0, 7)[5] == line@[5]);
                    assert(line@.subrange(0, 7)[6] == line@[6]);
                }
            }
        };
        if is_http {
            return Some(line);
        }
        assert(j == line_end(s@, i as int));
        if j == len {
            assert(http_line_from(s@, i as int) is None);
            assert(http_line_from(s@, len as int) is None);
            i = len;
        } else {
            assert(http_line_from(s@, i as int) == http_line_from(s@, j + 1));
            i = j + 1;
        }
    }
    None
}

/// The request identifier that the client reported in its output `stdout`:
/// the number that ends its first `http://` line.
pub fn request_id_in_output(stdout: &str) -> (r: Option<u16>)
    ensures
        http_line_from(stdout@, 0) is None ==> r is None,
        http_line_from(stdout@, 0) is Some && all_ascii(http_line_from(stdout@, 0)->Some_0)
            ==> r == ascii_request_id(http_line_from(stdout@, 0)->Some_0),
{
    match find_http_line(stdout) {
        None => None,
        Some(line) => request_id_from_line(line),
    }
}

/// The arguments a request goes with, after the team's credentials: those
/// given (`l` standing for the student's last ones), or else the student's
/// preferred queue as `-q <queue>`.
pub open spec fn extra_args_spec(s: StudentView, g: u64, given: Option<Seq<char>>) -> Result<
    Seq<char>,
    RequestError,
> {
    match given {
        Some(a) => if a == seq!['l'] {
            if s.last_command.contains_key(g) {
                Ok(s.last_command[g]@)
            } else {
                Err(RequestError::NoPreviousCommand)
            }
        } else {
            Ok(a)
        },
        None => if s.preferred_queue.contains_key(g) {
            Ok(seq!['-', 'q', ' '] + s.preferred_queue[g]@)
        } else {
            Err(RequestError::NoQueue)
        },
    }
}

/// The client's arguments for a request of team `team` with password
/// `password` and further arguments `extra`: `-u <team> -x <password> <extra>`.
pub open spec fn client_args(team: Seq<char>, password: Seq<char>, extra: Seq<char>) -> Seq<char> {
    seq!['-', 'u', ' '] + team + seq![' ', '-', 'x', ' '] + password + seq![' '] + extra
}

/// What preparing a request of student `s` in guild `g` gives: the client's
/// arguments and the further arguments, or why it cannot be sent.
pub open spec fn prepare_spec(s: StudentView, g: u64, given: Option<Seq<char>>) -> Result<
    (Seq<char>, Seq<char>),
    RequestError,
> {
    if !s.credentials.contains_key(g) {
        Err(RequestError::NotInTeam)
    } else if s.credentials[g].password is None {
        Err(RequestError::TeamNotRegistered)
    } else {
        match extra_args_spec(s, g, given) {
            Err(e) => Err(e),
            Ok(extra) => Ok(
                (
                    client_args(
                        s.credentials[g].team@,
                        s.credentials[g].password->Some_0@,
                        extra,
                    ),
                    extra,
                ),
            ),
        }
    }
}

/// Prepares a request of `student` in `guild` with the arguments `given`:
/// the client's arguments (team, password, then the further arguments) and
/// the further arguments alone, to be remembered once the request is sent.
pub fn prepare_request(student: &Student, guild: u64, given: Option<String>) -> (r: Result<(String, String), RequestError>)
    ensures
        match prepare_spec(student@, guild, opt_view(given)) {
            Ok((args, extra)) => r is Ok && r->Ok_0.0@ == args && r->Ok_0.1@ == extra,
            Err(e) => r == Err::<(String, String), RequestError>(e),
        },
{
    let cred = match student.get_credentials(guild) {
        None => {
            return Err(RequestError::NotInTeam);
        },
        Some(c) => c,
    };
    let password = match &cred.password {
        None => {
            return Err(RequestError::TeamNotRegistered);
        },
        Some(p) => p,
    };
    let extra: String = match given {
        Some(a) => {
            if a.as_str().unicode_len() == 1 && a.as_str().get_char(0) == 'l' {
                assert(a@ =~= seq!['l']);
                match student.get_last_command(guild) {
                    Some(last) => last.clone(),
                    None => {
                        return Err(RequestError::NoPreviousCommand);
                    },
                }
            } else {
                assert(a@ != seq!['l']) by {
                    if a@ == seq!['l'] {
                        assert(a@[0] == 'l');
                    }
                };
                a
            }
        },
        None => match student.get_preferred_queue(guild) {
            Some(q) => {
                let mut e = String::new();
                push_char(&mut e, '-');
                push_char(&mut e, 'q');
                push_char(&mut e, ' ');
                push_str(&mut e, q.as_str());
                assert(e@ =~= seq!['-', 'q', ' '] + q@);
                e
            },
            None => {
                return Err(RequestError::NoQueue);
            },
        },
    };
    let mut args = String::new();
    push_char(&mut args, '-');
    push_char(&mut args, 'u');
    push_char(&mut args, ' ');
    push_str(&mut args, cred.team.as_str());
    push_char(&mut args, ' ');
    push_char(&mut args, '-');
    push_char(&mut args, 'x');
    push_char(&mut args, ' ');
    push_str(&mut args, password.as_str());
    push_char(&mut args, ' ');
    push_str(&mut args, extra.as_str());
    assert(args@ =~= client_args(cred.team@, password@, extra@));
    Ok((args, extra))
}

/// Records a sent request of `student` in `guild`: `extra_args` become their
/// last arguments, and the identifier the client reported in `stdout`, if
/// any, is appended to their request history. The result is that
/// identifier.
pub fn record_request(student: &mut Student, guild: u64, extra_args: String, stdout: &str) -> (r: Option<u16>)
    ensures
        http_line_from(stdout@, 0) is None ==> r is None,
        http_line_from(stdout@, 0) is Some && all_ascii(http_line_from(stdout@, 0)->Some_0)
            ==> r == ascii_request_id(http_line_from(stdout@, 0)->Some_0),
        ({
            let s1 = StudentView {
                last_command: old(student)@.last_command.insert(guild, extra_args),
                ..old(student)@
            };
            match r {
                None => final(student)@ == s1,
                Some(n) => {
                    &&& final(student)@ == (StudentView {
                        request_history: final(student)@.request_history,
                        ..s1
                    })
                    &&& final(student)@.request_history == s1.request_history.insert(
                        guild,
                        final(student)@.request_history[guild],
                    )
                    &&& final(student)@.request_history[guild]@ == (if s1.request_history.contains_key(
                        guild,
                    ) {
                        s1.request_history[guild]@
                    } else {
                        Seq::empty()
                    }).push(n)
                },
            }
        }),
{
    student.set_last_command(guild, extra_args);
    let id = request_id_in_output(stdout);
    match id {
        Some(n) => student.add_request(guild, n),
        None => {},
    }
    id
}

} // verus!
