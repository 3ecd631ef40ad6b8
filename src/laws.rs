//! Laws relating the commands to one another, over the store's content.
use crate::executor::{live_in, next_store, reply};
use crate::request::{Command, CommandModel};
use crate::store::{expiry, EntryModel, MILLIS_PER_SECOND};
use vstd::prelude::*;

verus! {

/// `SET key value`, with an optional time to live in seconds.
pub open spec fn set_command(key: Seq<char>, value: Seq<char>, ttl: Option<u64>) -> CommandModel {
    CommandModel {
        command: Command::SetValue,
        key: Some(key),
        value: Some(value),
        expiration: ttl,
        pattern: None,
    }
}

/// A command that names only a key (`GET`, `DELETE`, `EXISTS`).
pub open spec fn key_command(command: Command, key: Seq<char>) -> CommandModel {
    CommandModel { command, key: Some(key), value: None, expiration: None, pattern: None }
}

/// `KEYS pattern`.
pub open spec fn keys_command(pattern: Seq<char>) -> CommandModel {
    CommandModel {
        command: Command::Keys,
        key: None,
        value: None,
        expiration: None,
        pattern: Some(pattern),
    }
}

/// A `SET` without time to live followed by a `GET` of the same key, at any
/// later instant, answers the value set and leaves the store as it was.
pub proof fn lemma_set_then_get(
    m: Map<Seq<char>, EntryModel>,
    listing: Seq<Seq<char>>,
    key: Seq<char>,
    value: Seq<char>,
    set_at: u64,
    get_at: u64,
)
    ensures
        ({
            let m1 = next_store(m, set_command(key, value, None), set_at);
            let get = key_command(Command::Get, key);
            &&& reply(m1, listing, get, get_at) == "Value: "@ + value
            &&& next_store(m1, get, get_at) == m1
        }),
{
}

/// After `SET key value` with a time to live of `ttl > 0` seconds at
/// `set_at`, a `GET` before `ttl` seconds have passed answers the value; a
/// `GET` once they have passed answers that the key is not found and removes
/// it, so that a following `EXISTS` answers `0`.
pub proof fn lemma_set_with_ttl(
    m: Map<Seq<char>, EntryModel>,
    listing: Seq<Seq<char>>,
    key: Seq<char>,
    value: Seq<char>,
    ttl: u64,
    set_at: u64,
    get_at: u64,
    exists_at: u64,
)
    requires
        ttl > 0,
        set_at <= get_at,
    ensures
        ({
            let m1 = next_store(m, set_command(key, value, Some(ttl)), set_at);
            let get = key_command(Command::Get, key);
            let m2 = next_store(m1, get, get_at);
            &&& get_at < set_at + ttl * MILLIS_PER_SECOND ==> reply(m1, listing, get, get_at)
                == "Value: "@ + value
            &&& get_at >= set_at + ttl * MILLIS_PER_SECOND ==> {
                &&& reply(m1, listing, get, get_at) == "Key not found"@
                &&& !m2.contains_key(key)
                &&& reply(m2, listing, key_command(Command::Exists, key), exists_at) == "0"@
            }
        }),
{
    let m1 = next_store(m, set_command(key, value, Some(ttl)), set_at);
    assert(m1[key].1 == expiry(set_at, Some(ttl)));
}

/// `DELETE` of an absent key answers `0` and changes nothing; of a present
/// key it answers `1`, and a following `GET` answers that the key is not
/// found.
pub proof fn lemma_delete(
    m: Map<Seq<char>, EntryModel>,
    listing: Seq<Seq<char>>,
    key: Seq<char>,
    now: u64,
    get_at: u64,
)
    ensures
        ({
            let del = key_command(Command::Delete, key);
            let m1 = next_store(m, del, now);
            &&& !m.contains_key(key) ==> reply(m, listing, del, now) == "0"@ && m1 == m
            &&& m.contains_key(key) ==> reply(m, listing, del, now) == "1"@ && reply(
                m1,
                listing,
                key_command(Command::Get, key),
                get_at,
            ) == "Key not found"@
        }),
{
    let m1 = next_store(m, key_command(Command::Delete, key), now);
    assert(!m.contains_key(key) ==> m1 =~= m);
}

/// `EXISTS` answers `1` right after a `SET` of the key (with no time to live,
/// or a positive one), and `0` right after a `DELETE` of it.
pub proof fn lemma_exists(
    m: Map<Seq<char>, EntryModel>,
    listing: Seq<Seq<char>>,
    key: Seq<char>,
    value: Seq<char>,
    ttl: Option<u64>,
    now: u64,
    later: u64,
)
    requires
        ttl is None || ttl->0 > 0,
    ensures
        reply(
            next_store(m, set_command(key, value, ttl), now),
            listing,
            key_command(Command::Exists, key),
            now,
        ) == "1"@,
        reply(
            next_store(m, key_command(Command::Delete, key), now),
            listing,
            key_command(Command::Exists, key),
            later,
        ) == "0"@,
{
    let m1 = next_store(m, set_command(key, value, ttl), now);
    assert(live_in(m1, key, now));
}

/// `KEYS` with a pattern that does not compile answers an error and leaves
/// the store as it was.
pub proof fn lemma_keys_invalid_pattern(
    m: Map<Seq<char>, EntryModel>,
    listing: Seq<Seq<char>>,
    pattern: Seq<char>,
    now: u64,
)
    requires
        !crate::pattern::pattern_compiles(pattern),
    ensures
        reply(m, listing, keys_command(pattern), now) == "Error: invalid pattern"@,
        next_store(m, keys_command(pattern), now) == m,
{
}

/// Two `SET`s of one key, run one after the other in either order, leave
/// exactly one of the two values for the key: the one set last.
pub proof fn lemma_racing_sets(
    m: Map<Seq<char>, EntryModel>,
    key: Seq<char>,
    v1: Seq<char>,
    v2: Seq<char>,
    t1: u64,
    t2: u64,
)
    ensures
        ({
            let a = next_store(next_store(m, set_command(key, v1, None), t1), set_command(key, v2, None), t2);
            let b = next_store(next_store(m, set_command(key, v2, None), t2), set_command(key, v1, None), t1);
            &&& a.contains_key(key) && a[key].0 == v2
            &&& b.contains_key(key) && b[key].0 == v1
        }),
{
}

} // verus!
