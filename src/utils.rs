//! Per-guild bot configuration and guild-name sanitising.

use crate::text::push_char;
use vstd::prelude::*;
use vstd::string::*;

verus! {

/// The per-guild configuration of the bot.
pub struct BotConfig {
    /// The URL of the guild's submission endpoint.
    pub tablon_url: String,
    /// The number of members a team may hold.
    pub team_capacity: u8,
    /// The prefix of the guild's team identifiers (`g` gives `g01`).
    pub team_prefix: String,
    /// The name of the private channel for administrative commands.
    pub bot_channel: String,
    /// The name of the public channel for leaderboards.
    pub lb_channel: String,
    /// Whether the leading teams are notified when their position changes.
    pub notify_leaders: bool,
    /// How many leading teams are notified.
    pub leader_count: u8,
    /// Whether notifications are posted publicly rather than privately.
    pub public_notify: bool,
    /// The name of the public channel for news and notifications.
    pub bot_news_channel: String,
    /// The separator between fields grouped in one leaderboard column.
    pub column_separator: String,
}

impl Default for BotConfig {
    /// The configuration a guild gets when none is provided.
    fn default() -> (r: BotConfig)
        ensures
            r.tablon_url@ == "https://frontendv.infor.uva.es"@,
            r.team_capacity == 2,
            r.team_prefix@ == "g"@,
            r.bot_channel@ == "bot-commands"@,
            r.lb_channel@ == "leaderboards"@,
            r.notify_leaders,
            r.leader_count == 5,
            r.public_notify,
            r.bot_news_channel@ == "bot-news"@,
            r.column_separator@ == " | "@,
    {
        BotConfig {
            tablon_url: String::from_str("https://frontendv.infor.uva.es"),
            team_capacity: 2,
            team_prefix: String::from_str("g"),
            bot_channel: String::from_str("bot-commands"),
            lb_channel: String::from_str("leaderboards"),
            notify_leaders: true,
            leader_count: 5,
            public_notify: true,
            bot_news_channel: String::from_str("bot-news"),
            column_separator: String::from_str(" | "),
        }
    }
}

/// The state the command framework shares between commands: none.
pub struct Data {}

/// The character a guild-name character becomes in a path-safe name: a space
/// becomes `_`, a slash `-`, anything else stays.
pub open spec fn sanitize_char(c: char) -> char {
    if c == ' ' {
        '_'
    } else if c == '/' {
        '-'
    } else {
        c
    }
}

/// A guild name made safe for use in a path: every space replaced by `_` and
/// every slash by `-`.
pub fn sanitize_name(name: &String) -> (r: String)
    ensures
        r@ == name@.map_values(|c: char| sanitize_char(c)),
{
    let len = name.as_str().unicode_len();
    let mut out = String::new();
    let mut i: usize = 0;
    while i < len
        invariant
            i <= len,
            len == name@.len(),
            out@ == name@.subrange(0, i as int).map_values(|c: char| sanitize_char(c)),
        decreases len - i,
    {
        let c = name.as_str().get_char(i);
        let d = if c == ' ' {
            '_'
        } else if c == '/' {
            '-'
        } else {
            c
        };
        push_char(&mut out, d);
        assert(name@.subrange(0, i + 1).map_values(|c: char| sanitize_char(c)) =~= name@.subrange(
            0,
            i as int,
        ).map_values(|c: char| sanitize_char(c)).push(d));
        i = i + 1;
    }
    assert(name@.subrange(0, len as int) =~= name@);
    out
}

} // verus!
