//! Runs one command against the store and words its response.
use crate::pattern::{pattern_compiles, KeyPattern};
use crate::request::{Command, CommandModel, CommandRequest};
use crate::store::{evaluate, expiry, is_live, EntryModel, Freshness, Store};
use vstd::prelude::*;
use vstd::string::StringExecFns;

verus! {

/// The keys joined by `", "`.
pub open spec fn joined(keys: Seq<Seq<char>>) -> Seq<char>
    decreases keys.len(),
{
    if keys.len() == 0 {
        seq![]
    } else if keys.len() == 1 {
        keys[0]
    } else {
        joined(keys.drop_last()) + ", "@ + keys.last()
    }
}

/// The response listing keys: `Keys: [k1, k2, ...]`.
pub open spec fn keys_reply(keys: Seq<Seq<char>>) -> Seq<char> {
    "Keys: ["@ + joined(keys) + "]"@
}

/// Whether `key` is present and alive at `now` in the store content `m`.
pub open spec fn live_in(m: Map<Seq<char>, EntryModel>, key: Seq<char>, now: u64) -> bool {
    m.contains_key(key) && is_live(m[key], now)
}

/// The store content after running `c` at `now` on content `m`. A read of a
/// key that has expired removes it.
pub open spec fn next_store(m: Map<Seq<char>, EntryModel>, c: CommandModel, now: u64) -> Map<
    Seq<char>,
    EntryModel,
> {
    match c.command {
        Command::Get | Command::Exists => match c.key {
            Some(k) => if m.contains_key(k) && !is_live(m[k], now) {
                m.remove(k)
            } else {
                m
            },
            None => m,
        },
        Command::SetValue => match (c.key, c.value) {
            (Some(k), Some(v)) => m.insert(k, (v, expiry(now, c.expiration))),
            _ => m,
        },
        Command::Delete => match c.key {
            Some(k) => m.remove(k),
            None => m,
        },
        Command::Keys => m,
    }
}

/// The response to `c` run at `now` on content `m`, where `listing` is what
/// the store lists for the command's pattern.
pub open spec fn reply(
    m: Map<Seq<char>, EntryModel>,
    listing: Seq<Seq<char>>,
    c: CommandModel,
    now: u64,
) -> Seq<char> {
    match c.command {
        Command::Get => match c.key {
            Some(k) => if live_in(m, k, now) {
                "Value: "@ + m[k].0
            } else {
                "Key not found"@
            },
            None => "Key not found"@,
        },
        Command::SetValue => match (c.key, c.value) {
            (_, None) => "Error: Missing value"@,
            (None, Some(_)) => "Error: Missing key"@,
            (Some(_), Some(_)) => "OK"@,
        },
        Command::Delete => match c.key {
            Some(k) => if m.contains_key(k) {
                "1"@
            } else {
                "0"@
            },
            None => "Error: Missing key"@,
        },
        Command::Exists => match c.key {
            Some(k) => if live_in(m, k, now) {
                "1"@
            } else {
                "0"@
            },
            None => "Error: Missing key"@,
        },
        Command::Keys => match c.pattern {
            Some(p) => if pattern_compiles(p) {
                keys_reply(listing)
            } else {
                "Error: invalid pattern"@
            },
            None => "Error: Missing pattern"@,
        },
    }
}

/// What `store` lists, at `now`, for the pattern of `c`.
pub open spec fn listing_for(store: Store, c: CommandModel, now: u64) -> Seq<Seq<char>> {
    match c.pattern {
        Some(p) => store.listing(p, now),
        None => seq![],
    }
}

/// Words the response to a listing of keys.
pub fn format_keys(keys: &Vec<String>) -> (r: String)
    ensures
        r@ == keys_reply(keys@.map_values(|k: String| k@)),
{
    let ghost ks = keys@.map_values(|k: String| k@);
    let mut r = "Keys: [".to_owned();
    let n = keys.len();
    let mut i: usize = 0;
    while i < n
        invariant
            n == keys@.len(),
            ks == keys@.map_values(|k: String| k@),
            i <= n,
            r@ == "Keys: ["@ + joined(ks.subrange(0, i as int)),
        decreases n - i,
    {
        let ghost before = r@;
        assert(ks.subrange(0, i + 1).drop_last() =~= ks.subrange(0, i as int));
        if i > 0 {
            r.append(", ");
        }
        r.append(keys[i].as_str());
        proof {
            if i == 0 {
                assert(ks.subrange(0, 1) =~= seq![ks[0]]);
                assert(joined(ks.subrange(0, 0)) =~= Seq::<char>::empty());
                assert(r@ =~= "Keys: ["@ + joined(ks.subrange(0, 1)));
            } else {
                assert(r@ =~= "Keys: ["@ + joined(ks.subrange(0, i + 1)));
            }
        }
        i = i + 1;
    }
    assert(ks.subrange(0, n as int) =~= ks);
    r.append("]");
    r
}

/// Runs one command against the store at instant `now` and returns its
/// response.
///
/// A `Get` or `Exists` of a key that has expired removes the key and answers
/// as if it were absent; `Keys` lists only keys still alive.
pub fn execute(store: &mut Store, cmd: &CommandRequest, now: u64) -> (r: String)
    requires
        old(store).wf(),
    ensures
        final(store).wf(),
        final(store)@ == next_store(old(store)@, cmd@, now),
        r@ == reply(old(store)@, listing_for(*old(store), cmd@, now), cmd@, now),
{
    match cmd.command {
        Command::Get => match &cmd.key {
            Some(k) => match store.get(k) {
                Some(entry) => match evaluate(&entry, now) {
                    Freshness::Fresh(v) => {
                        let mut r = "Value: ".to_owned();
                        r.append(v.as_str());
                        r
                    },
                    Freshness::Expired => {
                        store.delete(k);
                        "Key not found".to_owned()
                    },
                },
                None => "Key not found".to_owned(),
            },
            None => "Key not found".to_owned(),
        },
        Command::SetValue => match (&cmd.key, &cmd.value) {
            (_, None) => "Error: Missing value".to_owned(),
            (None, Some(_)) => "Error: Missing key".to_owned(),
            (Some(k), Some(v)) => {
                store.set(k.clone(), v.clone(), cmd.expiration, now);
                "OK".to_owned()
            },
        },
        Command::Delete => match &cmd.key {
            Some(k) => if store.delete(k) {
                "1".to_owned()
            } else {
                "0".to_owned()
            },
            None => "Error: Missing key".to_owned(),
        },
        Command::Exists => match &cmd.key {
            Some(k) => match store.get(k) {
                Some(entry) => if crate::store::is_alive(&entry, now) {
                    "1".to_owned()
                } else {
                    store.delete(k);
                    "0".to_owned()
                },
                None => "0".to_owned(),
            },
            None => "Error: Missing key".to_owned(),
        },
        Command::Keys => match &cmd.pattern {
            Some(p) => match KeyPattern::new(p.as_str()) {
                Some(pattern) => {
                    let keys = store.keys_matching(&pattern, now);
                    format_keys(&keys)
                },
                None => "Error: invalid pattern".to_owned(),
            },
            None => "Error: Missing pattern".to_owned(),
        },
    }
}

} // verus!
