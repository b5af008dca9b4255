//! Run settings, and the policy token `name:key=value,...` among them.
use vstd::prelude::*;
use crate::params::Params;
use crate::text::{find_char, first_index_of};

verus! {

/// Settings of one run.
pub struct Args {
    /// Path of the decoder binary.
    pub bin: String,
    /// Path of the decoder's system table.
    pub sys_table: String,
    /// Name of the search index that receives decoded frames.
    pub es_idx: String,
    /// Address of the search service.
    pub es_url: String,
    /// Radio driver settings handed to the decoder.
    pub driver: String,
    /// Which policy changes bands, with its parameters: `name` or `name:key=value,...`.
    pub chooser: String,
    /// Verbose logging.
    pub verbose: bool,
    /// No logging at all.
    pub quiet: bool,
    /// Minutes to wait on a band before asking whether to leave it.
    pub timeout: u32,
}

/// The pieces of `s` between commas, in order; `s` without a comma is one piece.
pub open spec fn split_commas(s: Seq<char>) -> Seq<Seq<char>>
    decreases s.len(),
{
    if s.len() == 0 {
        seq![Seq::<char>::empty()]
    } else {
        let before = split_commas(s.drop_last());
        if s.last() == ',' {
            before.push(Seq::<char>::empty())
        } else {
            before.update(before.len() - 1, before.last().push(s.last()))
        }
    }
}

/// Key and value of one piece `key=value`; a piece with no `=` is a key with an empty value.
pub open spec fn key_value(piece: Seq<char>) -> (Seq<char>, Seq<char>) {
    match first_index_of(piece, '=') {
        Some(j) => (piece.take(j), piece.skip(j + 1)),
        None => (piece, Seq::<char>::empty()),
    }
}

/// The parameters that pieces give, read in order: a later key replaces an earlier one.
pub open spec fn params_of(pieces: Seq<Seq<char>>) -> Map<Seq<char>, Seq<char>>
    decreases pieces.len(),
{
    if pieces.len() == 0 {
        Map::empty()
    } else {
        let kv = key_value(pieces.last());
        params_of(pieces.drop_last()).insert(kv.0, kv.1)
    }
}

/// The policy name of a token: what stands before its first `:`, or all of it.
pub open spec fn token_name(t: Seq<char>) -> Seq<char> {
    match first_index_of(t, ':') {
        Some(i) => t.take(i),
        None => t,
    }
}

/// The parameters of a token: none without a `:`, else those of what follows the first `:`.
pub open spec fn token_params(t: Seq<char>) -> Map<Seq<char>, Seq<char>> {
    match first_index_of(t, ':') {
        Some(i) => params_of(split_commas(t.skip(i + 1))),
        None => Map::empty(),
    }
}

/// Splits one piece at its first `=`.
fn split_pair(piece: &str) -> (r: (&str, &str))
    ensures
        (r.0@, r.1@) == key_value(piece@),
{
    let n = piece.unicode_len();
    match find_char(piece, '=') {
        Some(j) => (piece.substring_char(0, j), piece.substring_char(j + 1, n)),
        None => {
            let empty = piece.substring_char(n, n);
            assert(piece@.subrange(n as int, n as int) =~= Seq::<char>::empty());
            assert(piece@.subrange(0, n as int) =~= piece@);
            (piece.substring_char(0, n), empty)
        },
    }
}

/// Reads the parameters from the text after the `:` of a policy token.
fn parse_params(rest: &str) -> (p: Params)
    ensures
        p.wf(),
        p@ == params_of(split_commas(rest@)),
{
    let n = rest.unicode_len();
    let mut p = Params::new();
    let mut start: usize = 0;
    let mut i: usize = 0;
    let ghost mut done: Seq<Seq<char>> = Seq::empty();
    assert(rest@.take(0) =~= Seq::<char>::empty());
    assert(rest@.subrange(0, 0) =~= Seq::<char>::empty());
    while i < n
        invariant
            n == rest@.len(),
            start <= i <= n,
            split_commas(rest@.take(i as int)) == done.push(rest@.subrange(start as int, i as int)),
            p.wf(),
            p@ == params_of(done),
        decreases n - i,
    {
        let c = rest.get_char(i);
        assert(rest@.take(i + 1).drop_last() =~= rest@.take(i as int));
        assert(rest@.take(i + 1).last() == c);
        if c == ',' {
            let piece = rest.substring_char(start, i);
            let (k, v) = split_pair(piece);
            p.insert(k, v);
            proof {
                let old_done = done;
                done = done.push(piece@);
                assert(done.drop_last() =~= old_done);
                assert(rest@.subrange(i + 1, i + 1) =~= Seq::<char>::empty());
                assert(split_commas(rest@.take(i + 1)) =~= done.push(
                    rest@.subrange(i + 1, i + 1),
                ));
            }
            start = i + 1;
        } else {
            proof {
                assert(rest@.subrange(start as int, i + 1) =~= rest@.subrange(
                    start as int,
                    i as int,
                ).push(c));
                assert(split_commas(rest@.take(i + 1)) =~= done.push(
                    rest@.subrange(start as int, i + 1),
                ));
            }
        }
        i = i + 1;
    }
    let piece = rest.substring_char(start, n);
    let (k, v) = split_pair(piece);
    p.insert(k, v);
    proof {
        assert(rest@.take(n as int) =~= rest@);
        let all = done.push(piece@);
        assert(all.drop_last() =~= done);
    }
    p
}

/// An override from the environment wins over a setting when it is given and not empty.
pub open spec fn overridden(env_value: Option<Seq<char>>, setting: Seq<char>) -> Seq<char> {
    match env_value {
        Some(v) => if v.len() > 0 {
            v
        } else {
            setting
        },
        None => setting,
    }
}

/// The value of a setting once an override from the environment is taken into account.
pub fn override_setting<'a>(env_value: Option<&'a str>, setting: &'a str) -> (r: &'a str)
    ensures
        r@ == overridden(
            match env_value {
                Some(v) => Some(v@),
                None => None,
            },
            setting@,
        ),
{
    match env_value {
        Some(v) => if v.unicode_len() > 0 {
            v
        } else {
            setting
        },
        None => setting,
    }
}

impl Args {
    /// The policy name and its parameters, read from `chooser`.
    pub fn chooser_params(&self) -> (r: (&str, Params))
        ensures
            r.0@ == token_name(self.chooser@),
            r.1.wf(),
            r.1@ == token_params(self.chooser@),
    {
        let t = self.chooser.as_str();
        let n = t.unicode_len();
        match find_char(t, ':') {
            Some(d) => {
                let name = t.substring_char(0, d);
                let rest = t.substring_char(d + 1, n);
                (name, parse_params(rest))
            },
            None => {
                let p = Params::new();
                (t, p)
            },
        }
    }
}

} // verus!
