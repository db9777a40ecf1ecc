//! The in-memory dataset model: one record per creature, with names and
//! descriptions as association lists from language code (and game name) to
//! text, plus lookup over the dataset.

use vstd::prelude::*;
use crate::strutil::str_eq;

verus! {

/// One creature record, loaded once at startup and never mutated.
#[derive(Debug, Clone)]
pub struct Pokemon {
    /// Unique lowercase identifier, the key for lookup and art assets.
    pub slug: String,
    /// Generation the creature belongs to.
    pub gen: u8,
    /// Display name by language code.
    pub name: Vec<(String, String)>,
    /// Description text by language code, then by game name.
    pub desc: Vec<(String, Vec<(String, String)>)>,
    /// Alternate form identifiers, in order; may be empty. The implicit
    /// "regular" form is not listed.
    pub forms: Vec<String>,
    /// Stat values by stat name, absent for some records.
    pub stats: Option<Vec<(String, u32)>>,
}

/// The value under the first entry whose key reads `key`, if any.
pub open spec fn spec_lookup<V>(entries: Seq<(String, V)>, key: Seq<char>) -> Option<V>
    decreases entries.len(),
{
    if entries.len() == 0 {
        None
    } else if entries[0].0@ == key {
        Some(entries[0].1)
    } else {
        spec_lookup(entries.drop_first(), key)
    }
}

/// `spec_lookup` finds the first matching entry, and finds one exactly when
/// some entry has the key.
pub proof fn lemma_spec_lookup<V>(entries: Seq<(String, V)>, key: Seq<char>)
    ensures
        match spec_lookup(entries, key) {
            Some(v) => exists|i: int|
                0 <= i < entries.len() && entries[i].0@ == key && entries[i].1 == v,
            None => forall|i: int| 0 <= i < entries.len() ==> (#[trigger] entries[i]).0@ != key,
        },
    decreases entries.len(),
{
    if entries.len() > 0 && entries[0].0@ != key {
        lemma_spec_lookup(entries.drop_first(), key);
        match spec_lookup(entries.drop_first(), key) {
            Some(v) => {
                let i = choose|i: int|
                    0 <= i < entries.drop_first().len() && entries.drop_first()[i].0@ == key
                        && entries.drop_first()[i].1 == v;
                assert(entries[i + 1] == entries.drop_first()[i]);
            },
            None => {
                assert forall|i: int| 0 <= i < entries.len() implies (#[trigger] entries[i]).0@
                    != key by {
                    if i > 0 {
                        assert(entries[i] == entries.drop_first()[i - 1]);
                    }
                }
            },
        }
    }
}

/// Association-list lookup by string key.
pub fn lookup<'a, V>(entries: &'a Vec<(String, V)>, key: &str) -> (r: Option<&'a V>)
    ensures
        match r {
            Some(v) => spec_lookup(entries@, key@) == Some(*v),
            None => spec_lookup(entries@, key@) is None,
        },
{
    let n = entries.len();
    let mut i: usize = 0;
    proof {
        assert(entries@.skip(0) =~= entries@);
    }
    while i < n
        invariant
            i <= n,
            n == entries@.len(),
            spec_lookup(entries@, key@) == spec_lookup(entries@.skip(i as int), key@),
        decreases n - i,
    {
        proof {
            assert(entries@.skip(i as int)[0] == entries@[i as int]);
            assert(entries@.skip(i as int).drop_first() =~= entries@.skip(i + 1));
        }
        if str_eq(entries[i].0.as_str(), key) {
            return Some(&entries[i].1);
        }
        i = i + 1;
    }
    proof {
        assert(entries@.skip(n as int) =~= Seq::<(String, V)>::empty());
    }
    None
}

/// Whether position `i` holds the first record of `db` whose slug reads
/// `slug`.
pub open spec fn spec_is_first_match(db: Seq<Pokemon>, slug: Seq<char>, i: int) -> bool {
    0 <= i < db.len() && db[i].slug@ == slug && forall|j: int|
        0 <= j < i ==> (#[trigger] db[j]).slug@ != slug
}

/// The position of the first record whose slug reads `slug`, if any.
pub fn find_pokemon(db: &Vec<Pokemon>, slug: &str) -> (r: Option<usize>)
    ensures
        match r {
            Some(i) => spec_is_first_match(db@, slug@, i as int),
            None => forall|i: int| 0 <= i < db@.len() ==> (#[trigger] db@[i]).slug@ != slug@,
        },
{
    let n = db.len();
    let mut i: usize = 0;
    while i < n
        invariant
            i <= n,
            n == db@.len(),
            forall|j: int| 0 <= j < i ==> (#[trigger] db@[j]).slug@ != slug@,
        decreases n - i,
    {
        if str_eq(db[i].slug.as_str(), slug) {
            return Some(i);
        }
        i = i + 1;
    }
    None
}

/// The identifiers of every record, in dataset order; the surrounding
/// program prints them one per line.
pub fn list_pokemon_names(pokemon_db: &Vec<Pokemon>) -> (r: Vec<String>)
    ensures
        r@.len() == pokemon_db@.len(),
        forall|i: int| 0 <= i < r@.len() ==> r@[i]@ == (#[trigger] pokemon_db@[i]).slug@,
{
    let n = pokemon_db.len();
    let mut r: Vec<String> = Vec::new();
    let mut i: usize = 0;
    while i < n
        invariant
            i <= n,
            n == pokemon_db@.len(),
            r@.len() == i,
            forall|j: int| 0 <= j < i ==> r@[j]@ == (#[trigger] pokemon_db@[j]).slug@,
        decreases n - i,
    {
        r.push(pokemon_db[i].slug.clone());
        i = i + 1;
    }
    r
}

} // verus!
