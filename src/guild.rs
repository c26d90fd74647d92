//! Per-guild team metadata: the identifier prefix, the identifier allocator
//! with its pool of retired identifiers, and the staged team passwords.

use crate::credentials::opt_view;
use crate::error::RegistryError;
use crate::text::{padded2, parse_u16, parse_u16_spec, push_padded2};
use crate::textmap::TextMap;
use vstd::prelude::*;
use vstd::string::*;

verus! {

/// The identifier with number `n` under `prefix`: the prefix, then the
/// number zero-padded to two digits (`g` and 3 give `g03`).
pub open spec fn team_identifier(prefix: Seq<char>, n: nat) -> Seq<char> {
    prefix + padded2(n)
}

/// The identifier with number `n` under `prefix`.
pub fn identifier(prefix: &String, n: u64) -> (r: String)
    ensures
        r@ == team_identifier(prefix@, n as nat),
{
    let mut id = prefix.clone();
    push_padded2(&mut id, n);
    id
}

/// The characters of `id` after the first `k`.
pub open spec fn skip_chars(id: Seq<char>, k: nat) -> Seq<char> {
    if k <= id.len() {
        id.subrange(k as int, id.len() as int)
    } else {
        Seq::empty()
    }
}

/// `s` with every occurrence of `x` taken out, order kept.
pub open spec fn without_text(s: Seq<Seq<char>>, x: Seq<char>) -> Seq<Seq<char>>
    decreases s.len(),
{
    if s.len() == 0 {
        s
    } else if s.last() == x {
        without_text(s.drop_last(), x)
    } else {
        without_text(s.drop_last(), x).push(s.last())
    }
}

/// The identifiers strictly between numbers `from` and `to`, ascending.
pub open spec fn identifiers_between(prefix: Seq<char>, from: nat, to: nat) -> Seq<Seq<char>> {
    Seq::new(
        if to > from + 1 {
            (to - from - 1) as nat
        } else {
            0
        },
        |j: int| team_identifier(prefix, (from + 1 + j) as nat),
    )
}

/// What a guild's team metadata holds.
pub struct GuildInfoView {
    pub guild_id: u64,
    pub prefix: Seq<char>,
    pub count: u16,
    pub passwords: Map<Seq<char>, Seq<char>>,
    pub holes: Seq<Seq<char>>,
}

impl GuildInfoView {
    /// Whether a fresh identifier can be issued: a retired one is free, or the
    /// count can still grow.
    pub open spec fn can_register(self) -> bool {
        self.holes.len() > 0 || self.count < 0xffff
    }

    /// The metadata after issuing an identifier, and that identifier: the
    /// most recently retired one if any, else the next number.
    pub open spec fn register_new(self) -> (GuildInfoView, Seq<char>) {
        if self.holes.len() > 0 {
            (GuildInfoView { holes: self.holes.drop_last(), ..self }, self.holes.last())
        } else {
            (
                GuildInfoView { count: (self.count + 1) as u16, ..self },
                team_identifier(self.prefix, (self.count + 1) as nat),
            )
        }
    }

    /// The metadata after reserving the specific identifier `id`, or why it
    /// cannot be reserved.
    pub open spec fn register_specific(self, id: Seq<char>) -> Result<GuildInfoView, RegistryError> {
        match parse_u16_spec(skip_chars(id, self.prefix.len())) {
            None => Err(RegistryError::MalformedIdentifier),
            Some(n) => if n > self.count {
                Ok(
                    GuildInfoView {
                        count: n,
                        holes: self.holes + identifiers_between(
                            self.prefix,
                            self.count as nat,
                            n as nat,
                        ),
                        ..self
                    },
                )
            } else if self.holes.contains(id) {
                Ok(GuildInfoView { holes: without_text(self.holes, id), ..self })
            } else {
                Err(RegistryError::AlreadyInUse)
            },
        }
    }

    /// The metadata after retiring identifier `id`.
    pub open spec fn discard(self, id: Seq<char>) -> GuildInfoView {
        GuildInfoView { holes: self.holes.push(id), ..self }
    }

    /// The password staged for team `id`, if any.
    pub open spec fn staged(self, id: Seq<char>) -> Option<Seq<char>> {
        if self.passwords.contains_key(id) {
            Some(self.passwords[id])
        } else {
            None
        }
    }
}

/// The views of a sequence of strings.
pub open spec fn texts_view(v: Seq<String>) -> Seq<Seq<char>> {
    v.map_values(|s: String| s@)
}

/// Per-guild team metadata.
pub struct GuildTeamInfo {
    guild_id: u64,
    prefix: String,
    count: u16,
    passwords: TextMap,
    holes: Vec<String>,
}

impl View for GuildTeamInfo {
    type V = GuildInfoView;

    closed spec fn view(&self) -> GuildInfoView {
        GuildInfoView {
            guild_id: self.guild_id,
            prefix: self.prefix@,
            count: self.count,
            passwords: self.passwords@,
            holes: texts_view(self.holes@),
        }
    }
}

impl GuildTeamInfo {
    /// Metadata for a guild in which no identifier has been issued yet.
    pub fn new(guild_id: u64, prefix: String) -> (r: GuildTeamInfo)
        ensures
            r@ == (GuildInfoView {
                guild_id,
                prefix: prefix@,
                count: 0,
                passwords: Map::empty(),
                holes: Seq::empty(),
            }),
    {
        let r = GuildTeamInfo { guild_id, prefix, count: 0, passwords: TextMap::new(), holes: Vec::new() };
        assert(r@.holes =~= Seq::<Seq<char>>::empty());
        r
    }

    /// Metadata as stored: every field given.
    pub fn from_parts(
        guild_id: u64,
        prefix: String,
        count: u16,
        passwords: TextMap,
        holes: Vec<String>,
    ) -> (r: GuildTeamInfo)
        ensures
            r@ == (GuildInfoView {
                guild_id,
                prefix: prefix@,
                count,
                passwords: passwords@,
                holes: texts_view(holes@),
            }),
    {
        GuildTeamInfo { guild_id, prefix, count, passwords, holes }
    }

    pub fn guild_id(&self) -> (r: u64)
        ensures
            r == self@.guild_id,
    {
        self.guild_id
    }

    pub fn prefix(&self) -> (r: &String)
        ensures
            r@ == self@.prefix,
    {
        &self.prefix
    }

    pub fn count(&self) -> (r: u16)
        ensures
            r == self@.count,
    {
        self.count
    }

    pub fn holes(&self) -> (r: &Vec<String>)
        ensures
            texts_view(r@) == self@.holes,
    {
        &self.holes
    }

    pub fn passwords(&self) -> (r: &TextMap)
        ensures
            r@ == self@.passwords,
    {
        &self.passwords
    }

    /// Changes the prefix used for identifiers issued from now on.
    pub fn update_prefix(&mut self, new_prefix: String)
        ensures
            final(self)@ == (GuildInfoView { prefix: new_prefix@, ..old(self)@ }),
    {
        self.prefix = new_prefix;
    }

    /// Replaces the staged team passwords.
    pub fn update_passwords(&mut self, passwords: TextMap)
        ensures
            final(self)@ == (GuildInfoView { passwords: passwords@, ..old(self)@ }),
    {
        self.passwords = passwords;
    }

    /// The password staged for team `id`, if any.
    pub fn staged_password(&self, id: &String) -> (r: Option<String>)
        ensures
            opt_view(r) == self@.staged(id@),
    {
        self.passwords.get(id)
    }

    /// Issues an identifier for a new team: the most recently retired one if
    /// any (last in, first out), otherwise the next number.
    pub fn register_new_team(&mut self) -> (r: String)
        requires
            old(self)@.can_register(),
        ensures
            (final(self)@, r@) == old(self)@.register_new(),
    {
        if self.holes.len() > 0 {
            let reused = self.holes.pop().unwrap();
            assert(texts_view(self.holes@) =~= texts_view(old(self).holes@).drop_last());
            return reused;
        }
        self.count = self.count + 1;
        identifier(&self.prefix, self.count as u64)
    }

    /// Reserves the specific identifier `team_id`. A number above the count
    /// raises the count to it and retires every number in between; a number
    /// at or below the count must be a retired identifier, which is taken out
    /// of the pool.
    pub fn register_specific_team(&mut self, team_id: &String) -> (r: Result<(), RegistryError>)
        ensures
            match old(self)@.register_specific(team_id@) {
                Ok(v) => r is Ok && final(self)@ == v,
                Err(e) => r == Err::<(), RegistryError>(e) && final(self)@ == old(self)@,
            },
    {
        let plen = self.prefix.as_str().unicode_len();
        let tlen = team_id.as_str().unicode_len();
        let parsed = if plen <= tlen {
            parse_u16(team_id.as_str().substring_char(plen, tlen))
        } else {
            assert(skip_chars(team_id@, plen as nat) =~= ""@) by {
                reveal_strlit("");
            };
            parse_u16("")
        };
        let n = match parsed {
            None => {
                return Err(RegistryError::MalformedIdentifier);
            },
            Some(n) => n,
        };
        if n > self.count {
            let mut i: u16 = self.count + 1;
            let ghost base = texts_view(self.holes@);
            while i < n
                invariant
                    old(self).count < i <= n,
                    self.prefix == old(self).prefix,
                    self.count == old(self).count,
                    self.guild_id == old(self).guild_id,
                    self.passwords == old(self).passwords,
                    base == old(self)@.holes,
                    texts_view(self.holes@) == base + identifiers_between(
                        self.prefix@,
                        self.count as nat,
                        i as nat,
                    ),
                decreases n - i,
            {
                let id = identifier(&self.prefix, i as u64);
                let ghost prev = self.holes@;
                self.holes.push(id);
                assert(texts_view(self.holes@) =~= texts_view(prev).push(id@));
                assert(identifiers_between(self.prefix@, self.count as nat, (i + 1) as nat)
                    =~= identifiers_between(self.prefix@, self.count as nat, i as nat).push(
                    team_identifier(self.prefix@, i as nat),
                ));
                i = i + 1;
            }
            self.count = n;
            return Ok(());
        }
        let mut kept: Vec<String> = Vec::new();
        let mut found = false;
        let mut j: usize = 0;
        let ghost hs = texts_view(self.holes@);
        while j < self.holes.len()
            invariant
                j <= self.holes@.len(),
                hs == texts_view(self.holes@),
                texts_view(kept@) == without_text(hs.subrange(0, j as int), team_id@),
                found == hs.subrange(0, j as int).contains(team_id@),
            decreases self.holes.len() - j,
        {
            let ghost before = hs.subrange(0, j as int);
            assert(hs.subrange(0, j + 1).drop_last() =~= before);
            assert(hs.subrange(0, j + 1).last() == self.holes@[j as int]@);
            if self.holes[j] == *team_id {
                found = true;
                assert(hs.subrange(0, j + 1)[j as int] == team_id@);
            } else {
                let ghost prev = kept@;
                kept.push(self.holes[j].clone());
                assert(texts_view(kept@) =~= texts_view(prev).push(self.holes@[j as int]@));
                proof {
                    if found {
                        let k = choose|k: int| 0 <= k < before.len() && before[k] == team_id@;
                        assert(hs.subrange(0, j + 1)[k] == team_id@);
                    }
                }
            }
            if !found {
                assert forall|k: int| 0 <= k < j + 1 implies #[trigger] hs.subrange(0, j + 1)[k] != team_id@ by {
                    if k < j {
                        assert(hs.subrange(0, j + 1)[k] == before[k]);
                    }
                };
            }
            j = j + 1;
        }
        assert(hs.subrange(0, self.holes@.len() as int) =~= hs);
        if found {
            self.holes = kept;
            Ok(())
        } else {
            Err(RegistryError::AlreadyInUse)
        }
    }

    /// Retires identifier `team_id`, making it available for reuse.
    pub fn discard_team(&mut self, team_id: String)
        ensures
            final(self)@ == old(self)@.discard(team_id@),
    {
        let ghost prev = self.holes@;
        self.holes.push(team_id);
        assert(texts_view(self.holes@) =~= texts_view(prev).push(team_id@));
    }
}

} // verus!
