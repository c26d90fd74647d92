//! The team password file: one team per line, its identifier and its
//! password separated by white space.

use crate::request::{line_end, line_len, strip_cr};
use crate::textmap::{pairs_map, TextMap};
use vstd::prelude::*;
use vstd::string::*;

verus! {

/// Whether `c` has the Unicode `White_Space` property.
pub open spec fn is_white_space(c: char) -> bool {
    ('\u{9}' <= c && c <= '\u{d}') || c == ' ' || c == '\u{85}' || c == '\u{a0}' || c == '\u{1680}'
        || ('\u{2000}' <= c && c <= '\u{200a}') || c == '\u{2028}' || c == '\u{2029}' || c
        == '\u{202f}' || c == '\u{205f}' || c == '\u{3000}'
}

/// Whether `c` has the Unicode `White_Space` property.
pub fn white_space(c: char) -> (r: bool)
    ensures
        r == is_white_space(c),
{
    ('\u{9}' <= c && c <= '\u{d}') || c == ' ' || c == '\u{85}' || c == '\u{a0}' || c == '\u{1680}'
        || ('\u{2000}' <= c && c <= '\u{200a}') || c == '\u{2028}' || c == '\u{2029}' || c
        == '\u{202f}' || c == '\u{205f}' || c == '\u{3000}'
}

/// The number of white-space characters of `l` from index `i` on, up to the
/// first other one.
pub open spec fn space_run(l: Seq<char>, i: int) -> nat
    decreases l.len() - i,
{
    if 0 <= i < l.len() && is_white_space(l[i]) {
        space_run(l, i + 1) + 1
    } else {
        0
    }
}

/// The number of non-white-space characters of `l` from index `i` on, up to
/// the first white space.
pub open spec fn word_run(l: Seq<char>, i: int) -> nat
    decreases l.len() - i,
{
    if 0 <= i < l.len() && !is_white_space(l[i]) {
        word_run(l, i + 1) + 1
    } else {
        0
    }
}

proof fn lemma_runs_bounded(l: Seq<char>, i: int)
    requires
        0 <= i <= l.len(),
    ensures
        i + space_run(l, i) <= l.len(),
        i + word_run(l, i) <= l.len(),
    decreases l.len() - i,
{
    if i < l.len() {
        lemma_runs_bounded(l, i + 1);
    }
}

/// The first two white-space separated words of line `l`, if it has two.
pub open spec fn first_two_words(l: Seq<char>) -> Option<(Seq<char>, Seq<char>)> {
    let a = space_run(l, 0) as int;
    let b = a + word_run(l, a);
    let c = b + space_run(l, b);
    let d = c + word_run(l, c);
    if word_run(l, a) == 0 || word_run(l, c) == 0 {
        None
    } else {
        Some((l.subrange(a, b), l.subrange(c, d)))
    }
}

/// The lines of `s` from index `i` on: split at each newline, each without a
/// final carriage return, with no empty line after a final newline.
pub open spec fn lines_from(s: Seq<char>, i: int) -> Seq<Seq<char>>
    decreases s.len() - i,
{
    if i < 0 || i >= s.len() {
        Seq::empty()
    } else if line_end(s, i) >= s.len() {
        seq![strip_cr(s.subrange(i, line_end(s, i)))]
    } else {
        seq![strip_cr(s.subrange(i, line_end(s, i)))] + lines_from(s, line_end(s, i) + 1)
    }
}

/// The team-password pairs that lines `ls` give, or the index of the first
/// line without two words.
pub open spec fn parse_lines(ls: Seq<Seq<char>>) -> Result<Seq<(Seq<char>, Seq<char>)>, nat>
    decreases ls.len(),
{
    if ls.len() == 0 {
        Ok(Seq::empty())
    } else {
        match parse_lines(ls.drop_last()) {
            Err(n) => Err(n),
            Ok(r) => match first_two_words(ls.last()) {
                None => Err((ls.len() - 1) as nat),
                Some(p) => Ok(r.push(p)),
            },
        }
    }
}

pub open spec fn pairs_view(v: Seq<(String, String)>) -> Seq<(Seq<char>, Seq<char>)> {
    v.map_values(|p: (String, String)| (p.0@, p.1@))
}

proof fn lemma_parse_error_stays(a: Seq<Seq<char>>, b: Seq<Seq<char>>)
    requires
        parse_lines(a) is Err,
    ensures
        parse_lines(a + b) == parse_lines(a),
    decreases b.len(),
{
    if b.len() == 0 {
        assert(a + b =~= a);
    } else {
        lemma_parse_error_stays(a, b.drop_last());
        assert((a + b).drop_last() =~= a + b.drop_last());
    }
}

proof fn lemma_runs_step(l: Seq<char>, i: int)
    requires
        0 <= i < l.len(),
    ensures
        is_white_space(l[i]) ==> space_run(l, i) == space_run(l, i + 1) + 1,
        !is_white_space(l[i]) ==> space_run(l, i) == 0 && word_run(l, i) == word_run(l, i + 1) + 1,
        is_white_space(l[i]) ==> word_run(l, i) == 0,
{
}

/// The index just past the run of characters of `l` from `i` on that are
/// white space (`space` true) or not (`space` false).
fn skip_run(l: &str, len: usize, i: usize, space: bool) -> (r: usize)
    requires
        len == l@.len(),
        i <= len,
    ensures
        space ==> r == i + space_run(l@, i as int),
        !space ==> r == i + word_run(l@, i as int),
        r <= len,
{
    let mut j = i;
    while j < len && white_space(l.get_char(j)) == space
        invariant
            len == l@.len(),
            i <= j <= len,
            space ==> i + space_run(l@, i as int) == j + space_run(l@, j as int),
            !space ==> i + word_run(l@, i as int) == j + word_run(l@, j as int),
        decreases len - j,
    {
        proof {
            lemma_runs_step(l@, j as int);
        }
        j = j + 1;
    }
    proof {
        lemma_runs_bounded(l@, j as int);
        if j < len {
            lemma_runs_step(l@, j as int);
        }
    }
    j
}

/// The first two words of line `l`, if it has two.
pub fn two_words(l: &str) -> (r: Option<(String, String)>)
    ensures
        match first_two_words(l@) {
            None => r is None,
            Some((a, b)) => r is Some && r->Some_0.0@ == a && r->Some_0.1@ == b,
        },
{
    let len = l.unicode_len();
    let a = skip_run(l, len, 0, true);
    let b = skip_run(l, len, a, false);
    let c = skip_run(l, len, b, true);
    let d = skip_run(l, len, c, false);
    if a == b || c == d {
        return None;
    }
    let first = String::from_str(l.substring_char(a, b));
    let second = String::from_str(l.substring_char(c, d));
    Some((first, second))
}

/// Reads a password file: the team identifier and password of each line.
/// A line without two words refuses the file, giving its index.
pub fn parse_password_file(content: &str) -> (r: Result<Vec<(String, String)>, usize>)
    ensures
        match parse_lines(lines_from(content@, 0)) {
            Ok(ps) => r is Ok && pairs_view(r->Ok_0@) == ps,
            Err(n) => r == Err::<Vec<(String, String)>, usize>(n as usize),
        },
{
    let len = content.unicode_len();
    let mut out: Vec<(String, String)> = Vec::new();
    let mut i: usize = 0;
    let mut k: usize = 0;
    assert(pairs_view(out@) =~= Seq::<(Seq<char>, Seq<char>)>::empty());
    let ghost mut done: Seq<Seq<char>> = Seq::empty();
    while i < len
        invariant
            len == content@.len(),
            i <= len,
            lines_from(content@, 0) == done + lines_from(content@, i as int),
            parse_lines(done) == Ok::<Seq<(Seq<char>, Seq<char>)>, nat>(pairs_view(out@)),
            done.len() == k,
            k <= i,
        decreases len - i,
    {
        let mut j: usize = i;
        while j < len && content.get_char(j) != '\n'
            invariant
                len == content@.len(),
                i <= j <= len,
                line_end(content@, i as int) == line_end(content@, j as int),
            decreases len - j,
        {
            j = j + 1;
        }
        proof {
            assert(line_end(content@, j as int) == j);
        }
        let raw = content.substring_char(i, j);
        let rlen = j - i;
        let line = if rlen > 0 && raw.get_char(rlen - 1) == '\r' {
            raw.substring_char(0, rlen - 1)
        } else {
            raw
        };
        assert(line@ == strip_cr(content@.subrange(i as int, line_end(content@, i as int)))) by {
            if rlen > 0 && raw@.last() == '\r' {
                assert(raw@.subrange(0, rlen - 1) =~= raw@.drop_last());
            }
        };
        let ghost next_done = done.push(line@);
        proof {
            assert(next_done.drop_last() =~= done);
            assert(next_done.last() == line@);
        }
        let ghost rest = if j < len {
            lines_from(content@, j + 1)
        } else {
            Seq::<Seq<char>>::empty()
        };
        proof {
            if j < len {
                assert(lines_from(content@, i as int) =~= seq![line@] + rest);
            } else {
                assert(lines_from(content@, i as int) =~= seq![line@]);
                assert(lines_from(content@, len as int) =~= Seq::<Seq<char>>::empty());
            }
            assert(lines_from(content@, 0) =~= next_done + rest);
        }
        match two_words(line) {
            None => {
                proof {
                    lemma_parse_error_stays(next_done, rest);
                }
                return Err(k);
            },
            Some(p) => {
                let ghost prev = out@;
                out.push(p);
                assert(pairs_view(out@) =~= pairs_view(prev).push((p.0@, p.1@)));
            },
        }
        proof {
            done = next_done;
        }
        k = k + 1;
        if j == len {
            i = len;
        } else {
            i = j + 1;
        }
        assert(lines_from(content@, 0) =~= done + lines_from(content@, i as int));
    }
    assert(lines_from(content@, len as int) =~= Seq::<Seq<char>>::empty());
    assert(done =~= lines_from(content@, 0));
    Ok(out)
}

/// The map from team identifier to password that `pairs` give, a later pair
/// for the same team overriding an earlier one.
pub fn password_map(pairs: &Vec<(String, String)>) -> (r: TextMap)
    ensures
        r@ == pairs_map(pairs@),
{
    let mut m = TextMap::new();
    let mut i: usize = 0;
    while i < pairs.len()
        invariant
            i <= pairs@.len(),
            m@ == pairs_map(pairs@.subrange(0, i as int)),
        decreases pairs.len() - i,
    {
        assert(pairs@.subrange(0, i + 1).drop_last() =~= pairs@.subrange(0, i as int));
        m.insert(pairs[i].0.clone(), pairs[i].1.clone());
        i = i + 1;
    }
    assert(pairs@.subrange(0, pairs@.len() as int) =~= pairs@);
    m
}

} // verus!
