//! A hash of texts that is the same in every run.

use crate::model::views;
use crate::text::chars_of;
use vstd::prelude::*;

verus! {

/// What the hash of no text is.
pub const HASH_START: u64 = 0xcbf2_9ce4_8422_2325;

/// The multiplier of one step.
pub const HASH_FACTOR: u64 = 0x0000_0100_0000_01b3;

/// What stands for the end of a text: a number that is no character.
pub const HASH_END: u64 = 0x11_0000;

/// One step of the hash.
pub open spec fn hash_step(h: u64, symbol: u64) -> u64 {
    (h ^ symbol).wrapping_mul(HASH_FACTOR)
}

/// The hash after the characters of `s`.
pub open spec fn hash_text(h: u64, s: Seq<char>) -> u64
    decreases s.len(),
{
    if s.len() == 0 {
        h
    } else {
        hash_step(hash_text(h, s.drop_last()), s.last() as u64)
    }
}

/// The hash of a list of texts; the end of each counts.
pub open spec fn stable_hash_spec(parts: Seq<Seq<char>>) -> u64
    decreases parts.len(),
{
    if parts.len() == 0 {
        HASH_START
    } else {
        hash_step(hash_text(stable_hash_spec(parts.drop_last()), parts.last()), HASH_END)
    }
}

fn step(h: u64, symbol: u64) -> (r: u64)
    ensures
        r == hash_step(h, symbol),
{
    (h ^ symbol).wrapping_mul(HASH_FACTOR)
}

fn add_text(h: u64, s: &str) -> (r: u64)
    ensures
        r == hash_step(hash_text(h, s@), HASH_END),
{
    let cs: Vec<char> = chars_of(s);
    let mut r: u64 = h;
    let mut i: usize = 0;
    while i < cs.len()
        invariant
            i <= cs@.len(),
            cs@ == s@,
            r == hash_text(h, s@.take(i as int)),
        decreases cs@.len() - i,
    {
        assert(s@.take(i + 1).drop_last() =~= s@.take(i as int));
        r = step(r, cs[i] as u64);
        i = i + 1;
    }
    assert(s@.take(i as int) =~= s@);
    step(r, HASH_END)
}

pub fn stable_hash(parts: &Vec<String>) -> (r: u64)
    ensures
        r == stable_hash_spec(views(parts@)),
{
    let ghost all = views(parts@);
    let mut r: u64 = HASH_START;
    let mut i: usize = 0;
    while i < parts.len()
        invariant
            i <= parts@.len(),
            all == views(parts@),
            r == stable_hash_spec(all.take(i as int)),
        decreases parts@.len() - i,
    {
        assert(all.take(i + 1).drop_last() =~= all.take(i as int));
        r = add_text(r, parts[i].as_str());
        i = i + 1;
    }
    assert(all.take(i as int) =~= all);
    r
}

pub fn stable_hash_of_two(a: &str, b: &str) -> (r: u64)
    ensures
        r == stable_hash_spec(seq![a@, b@]),
{
    let mut parts: Vec<String> = Vec::new();
    parts.push(a.to_owned());
    parts.push(b.to_owned());
    assert(views(parts@) =~= seq![a@, b@]);
    stable_hash(&parts)
}

pub fn stable_hash_of_three(a: &str, b: &str, c: &str) -> (r: u64)
    ensures
        r == stable_hash_spec(seq![a@, b@, c@]),
{
    let mut parts: Vec<String> = Vec::new();
    parts.push(a.to_owned());
    parts.push(b.to_owned());
    parts.push(c.to_owned());
    assert(views(parts@) =~= seq![a@, b@, c@]);
    stable_hash(&parts)
}

} // verus!
