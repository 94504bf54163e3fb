//! A cache of resolved addresses that forgets the one used least recently.

use crate::addr::SocketAddrV4;
use lru::{DefaultHasher, LruCache};
use vstd::prelude::*;

verus! {

/// `lru::LruCache`: a map of bounded size that keeps its entries in the order of
/// their last use.
#[verifier::external_type_specification]
#[verifier::external_body]
#[verifier::reject_recursive_types(K)]
#[verifier::reject_recursive_types(V)]
#[verifier::reject_recursive_types(S)]
pub struct ExLruCache<K, V, S>(lru::LruCache<K, V, S>);

/// `lru::DefaultHasher`: how a cache hashes its keys.
#[verifier::external_type_specification]
#[verifier::external_body]
pub struct ExDefaultHasher(lru::DefaultHasher);

/// What a cache holds, the entry used most recently first.
pub uninterp spec fn cache_entries(
    cache: LruCache<String, SocketAddrV4, DefaultHasher>,
) -> Seq<(Seq<char>, SocketAddrV4)>;

/// How many entries a cache was made for.
pub uninterp spec fn cache_cap(cache: LruCache<String, SocketAddrV4, DefaultHasher>) -> nat;

/// The address that a key stands for, if it stands for one.
pub open spec fn found(entries: Seq<(Seq<char>, SocketAddrV4)>, key: Seq<char>) -> Option<
    SocketAddrV4,
>
    decreases entries.len(),
{
    if entries.len() == 0 {
        None
    } else if entries[0].0 == key {
        Some(entries[0].1)
    } else {
        found(entries.skip(1), key)
    }
}

/// The entries without that of a key.
pub open spec fn without(
    entries: Seq<(Seq<char>, SocketAddrV4)>,
    key: Seq<char>,
) -> Seq<(Seq<char>, SocketAddrV4)>
    decreases entries.len(),
{
    if entries.len() == 0 {
        entries
    } else if entries[0].0 == key {
        without(entries.skip(1), key)
    } else {
        seq![entries[0]] + without(entries.skip(1), key)
    }
}

/// The entries after a key was looked up: its entry, if there is one, comes first.
pub open spec fn touched(
    entries: Seq<(Seq<char>, SocketAddrV4)>,
    key: Seq<char>,
) -> Seq<(Seq<char>, SocketAddrV4)> {
    match found(entries, key) {
        Some(addr) => seq![(key, addr)] + without(entries, key),
        None => entries,
    }
}

/// The entries after a key was given an address: its entry comes first, and if a
/// full cache did not have the key, the entry used least recently is gone.
pub open spec fn inserted(
    entries: Seq<(Seq<char>, SocketAddrV4)>,
    cap: nat,
    key: Seq<char>,
    addr: SocketAddrV4,
) -> Seq<(Seq<char>, SocketAddrV4)> {
    if found(entries, key) is Some {
        seq![(key, addr)] + without(entries, key)
    } else if entries.len() == cap {
        seq![(key, addr)] + entries.drop_last()
    } else {
        seq![(key, addr)] + entries
    }
}

/// `LruCache::new` makes an empty cache for `cap` entries. It reserves room for as
/// many at once, so `cap` is kept small.
#[verifier::external_body]
pub(crate) fn new_cache(cap: usize) -> (cache: LruCache<String, SocketAddrV4, DefaultHasher>)
    requires
        0 < cap <= 0xffff,
    ensures
        cache_entries(cache) == Seq::<(Seq<char>, SocketAddrV4)>::empty(),
        cache_cap(cache) == cap,
{
    LruCache::new(cap)
}

/// `LruCache::get` returns the address of a key and makes its entry the one used
/// most recently.
#[verifier::external_body]
pub(crate) fn cache_get(
    cache: &mut LruCache<String, SocketAddrV4, DefaultHasher>,
    key: &String,
) -> (addr: Option<SocketAddrV4>)
    ensures
        addr == found(cache_entries(*old(cache)), key@),
        cache_entries(*final(cache)) == touched(cache_entries(*old(cache)), key@),
        cache_cap(*final(cache)) == cache_cap(*old(cache)),
{
    cache.get(key).copied()
}

/// `LruCache::put` gives a key an address and makes its entry the one used most
/// recently; a full cache first drops the entry used least recently, unless it has
/// the key already.
#[verifier::external_body]
pub(crate) fn cache_put(
    cache: &mut LruCache<String, SocketAddrV4, DefaultHasher>,
    key: String,
    addr: SocketAddrV4,
)
    requires
        cache_cap(*old(cache)) > 0,
    ensures
        cache_entries(*final(cache)) == inserted(
            cache_entries(*old(cache)),
            cache_cap(*old(cache)),
            key@,
            addr,
        ),
        cache_cap(*final(cache)) == cache_cap(*old(cache)),
{
    cache.put(key, addr);
}

/// `LruCache::pop` removes the entry of a key.
#[verifier::external_body]
pub(crate) fn cache_pop(cache: &mut LruCache<String, SocketAddrV4, DefaultHasher>, key: &String)
    ensures
        cache_entries(*final(cache)) == without(cache_entries(*old(cache)), key@),
        cache_cap(*final(cache)) == cache_cap(*old(cache)),
{
    cache.pop(key);
}

/// No key has two entries.
pub open spec fn distinct(entries: Seq<(Seq<char>, SocketAddrV4)>) -> bool {
    forall|i: int, j: int|
        0 <= i < j < entries.len() ==> (#[trigger] entries[i]).0 != (#[trigger] entries[j]).0
}

proof fn lemma_without(entries: Seq<(Seq<char>, SocketAddrV4)>, key: Seq<char>)
    ensures
        without(entries, key).len() <= entries.len(),
        found(entries, key) is Some ==> without(entries, key).len() < entries.len(),
        forall|i: int|
            0 <= i < without(entries, key).len() ==> (#[trigger] without(entries, key)[i]).0 != key
                && entries.contains(without(entries, key)[i]),
    decreases entries.len(),
{
    if entries.len() > 0 {
        let rest = entries.skip(1);
        lemma_without(rest, key);
        assert forall|i: int| 0 <= i < without(entries, key).len() implies (
        #[trigger] without(entries, key)[i]).0 != key && entries.contains(
            without(entries, key)[i],
        ) by {
            let e = without(entries, key)[i];
            if e == entries[0] {
                assert(entries.contains(entries[0]));
            }
            if entries[0].0 == key {
                assert(rest.contains(e));
            } else if i > 0 {
                assert(e == without(rest, key)[i - 1]);
                assert(rest.contains(e));
            }
            if rest.contains(e) {
                let k = choose|k: int| 0 <= k < rest.len() && rest[k] == e;
                assert(entries[k + 1] == e);
            }
        }
    }
}

proof fn lemma_without_distinct(entries: Seq<(Seq<char>, SocketAddrV4)>, key: Seq<char>)
    requires
        distinct(entries),
    ensures
        distinct(without(entries, key)),
    decreases entries.len(),
{
    if entries.len() > 0 {
        let rest = entries.skip(1);
        assert(distinct(rest)) by {
            assert forall|i: int, j: int| 0 <= i < j < rest.len() implies (
            #[trigger] rest[i]).0 != (#[trigger] rest[j]).0 by {
                assert(rest[i] == entries[i + 1] && rest[j] == entries[j + 1]);
            }
        }
        lemma_without_distinct(rest, key);
        lemma_without(rest, key);
        if entries[0].0 != key {
            lemma_front_distinct(entries[0], without(rest, key), rest);
        }
    }
}

/// An entry in front of some of the others, whose keys differ from its own.
proof fn lemma_front_distinct(
    first: (Seq<char>, SocketAddrV4),
    some: Seq<(Seq<char>, SocketAddrV4)>,
    others: Seq<(Seq<char>, SocketAddrV4)>,
)
    requires
        distinct(some),
        forall|i: int| 0 <= i < some.len() ==> others.contains(#[trigger] some[i]),
        forall|i: int| 0 <= i < others.len() ==> (#[trigger] others[i]).0 != first.0,
    ensures
        distinct(seq![first] + some),
{
    let all = seq![first] + some;
    assert forall|i: int, j: int| 0 <= i < j < all.len() implies (#[trigger] all[i]).0 != (
    #[trigger] all[j]).0 by {
        assert(all[j] == some[j - 1]);
        if i == 0 {
            assert(others.contains(some[j - 1]));
        } else {
            assert(all[i] == some[i - 1]);
        }
    }
}

proof fn lemma_not_found(entries: Seq<(Seq<char>, SocketAddrV4)>, key: Seq<char>)
    ensures
        found(entries, key) is None <==> forall|i: int|
            0 <= i < entries.len() ==> (#[trigger] entries[i]).0 != key,
    decreases entries.len(),
{
    if entries.len() > 0 {
        let rest = entries.skip(1);
        lemma_not_found(rest, key);
        if entries[0].0 != key {
            if found(rest, key) is None {
                assert forall|i: int| 0 <= i < entries.len() implies (
                #[trigger] entries[i]).0 != key by {
                    if i > 0 {
                        assert(rest[i - 1] == entries[i]);
                    }
                }
            } else {
                let k = choose|k: int| 0 <= k < rest.len() && (#[trigger] rest[k]).0 == key;
                assert(entries[k + 1].0 == key);
            }
        }
    }
}

/// A removed key is gone, and the other keys keep their addresses.
pub proof fn law_removed_key_is_forgotten(
    entries: Seq<(Seq<char>, SocketAddrV4)>,
    key: Seq<char>,
    other: Seq<char>,
)
    ensures
        found(without(entries, key), key) is None,
        other != key ==> found(without(entries, key), other) == found(entries, other),
    decreases entries.len(),
{
    if entries.len() > 0 {
        let rest = entries.skip(1);
        law_removed_key_is_forgotten(rest, key, other);
        if entries[0].0 != key {
            let kept = without(entries, key);
            assert(kept.skip(1) =~= without(rest, key));
        }
    }
}

/// A key that was given an address has it.
pub proof fn law_inserted_key_is_found(
    entries: Seq<(Seq<char>, SocketAddrV4)>,
    cap: nat,
    key: Seq<char>,
    addr: SocketAddrV4,
)
    ensures
        found(inserted(entries, cap, key, addr), key) == Some(addr),
{
}

proof fn lemma_found_without_last(entries: Seq<(Seq<char>, SocketAddrV4)>, key: Seq<char>)
    requires
        entries.len() > 0,
        entries.last().0 != key,
    ensures
        found(entries.drop_last(), key) == found(entries, key),
    decreases entries.len(),
{
    if entries.len() > 1 {
        lemma_found_without_last(entries.skip(1), key);
        assert(entries.drop_last().skip(1) =~= entries.skip(1).drop_last());
    } else {
        assert(found(entries.skip(1), key) is None);
    }
}

/// Giving a key an address changes no other, but for the one used least recently if
/// the cache is full.
pub proof fn law_insertion_keeps_the_recent(
    entries: Seq<(Seq<char>, SocketAddrV4)>,
    cap: nat,
    key: Seq<char>,
    addr: SocketAddrV4,
    other: Seq<char>,
)
    requires
        0 < cap,
        other != key,
        entries.len() < cap || found(entries, key) is Some || entries.last().0 != other,
    ensures
        found(inserted(entries, cap, key, addr), other) == found(entries, other),
{
    let all = inserted(entries, cap, key, addr);
    law_removed_key_is_forgotten(entries, key, other);
    if found(entries, key) is Some {
        assert(all.skip(1) =~= without(entries, key));
    } else if entries.len() == cap {
        lemma_found_without_last(entries, other);
        assert(all.skip(1) =~= entries.drop_last());
    } else {
        assert(all.skip(1) =~= entries);
    }
}

/// Looking up a key changes no address.
pub proof fn law_lookup_changes_no_address(
    entries: Seq<(Seq<char>, SocketAddrV4)>,
    key: Seq<char>,
    other: Seq<char>,
)
    ensures
        found(touched(entries, key), other) == found(entries, other),
{
    law_removed_key_is_forgotten(entries, key, other);
    if found(entries, key) is Some {
        assert(touched(entries, key).skip(1) =~= without(entries, key));
    }
}

/// No operation lets the cache grow beyond its size.
pub proof fn law_cache_stays_bounded(
    entries: Seq<(Seq<char>, SocketAddrV4)>,
    cap: nat,
    key: Seq<char>,
    addr: SocketAddrV4,
)
    requires
        0 < cap,
        entries.len() <= cap,
    ensures
        touched(entries, key).len() <= cap,
        inserted(entries, cap, key, addr).len() <= cap,
        without(entries, key).len() <= cap,
{
    lemma_without(entries, key);
}

/// No operation gives a key two entries.
pub proof fn law_cache_keys_stay_distinct(
    entries: Seq<(Seq<char>, SocketAddrV4)>,
    cap: nat,
    key: Seq<char>,
    addr: SocketAddrV4,
)
    requires
        distinct(entries),
        entries.len() <= cap,
        0 < cap,
    ensures
        distinct(touched(entries, key)),
        distinct(inserted(entries, cap, key, addr)),
        distinct(without(entries, key)),
{
    lemma_without(entries, key);
    lemma_without_distinct(entries, key);
    lemma_not_found(entries, key);
    match found(entries, key) {
        Some(old_addr) => {
            let kept = without(entries, key);
            assert forall|i: int| 0 <= i < kept.len() implies kept.contains(#[trigger] kept[i]) by {}
            lemma_front_distinct((key, old_addr), kept, kept);
            lemma_front_distinct((key, addr), kept, kept);
        },
        None => {
            assert forall|i: int| 0 <= i < entries.len() implies entries.contains(
                #[trigger] entries[i],
            ) by {}
            if entries.len() == cap {
                let kept = entries.drop_last();
                assert forall|i: int| 0 <= i < kept.len() implies entries.contains(
                    #[trigger] kept[i],
                ) by {
                    assert(kept[i] == entries[i]);
                }
                assert(distinct(kept));
                lemma_front_distinct((key, addr), kept, entries);
            } else {
                lemma_front_distinct((key, addr), entries, entries);
            }
        },
    }
}

proof fn lemma_without_is_removal(
    entries: Seq<(Seq<char>, SocketAddrV4)>,
    key: Seq<char>,
    i: int,
)
    requires
        distinct(entries),
        0 <= i < entries.len(),
        entries[i].0 == key,
    ensures
        found(entries, key) == Some(entries[i].1),
        without(entries, key) == entries.remove(i),
    decreases entries.len(),
{
    let rest = entries.skip(1);
    assert(distinct(rest)) by {
        assert forall|a: int, b: int| 0 <= a < b < rest.len() implies (#[trigger] rest[a]).0 != (
        #[trigger] rest[b]).0 by {
            assert(rest[a] == entries[a + 1] && rest[b] == entries[b + 1]);
        }
    }
    if i == 0 {
        lemma_without_absent(rest, key);
        assert(without(entries, key) =~= entries.remove(0));
    } else {
        assert(rest[i - 1] == entries[i]);
        assert(entries[0].0 != key);
        lemma_without_is_removal(rest, key, i - 1);
        assert(without(entries, key) =~= entries.remove(i));
    }
}

proof fn lemma_without_absent(entries: Seq<(Seq<char>, SocketAddrV4)>, key: Seq<char>)
    requires
        forall|i: int| 0 <= i < entries.len() ==> (#[trigger] entries[i]).0 != key,
    ensures
        found(entries, key) is None,
        without(entries, key) == entries,
    decreases entries.len(),
{
    if entries.len() > 0 {
        let rest = entries.skip(1);
        assert forall|i: int| 0 <= i < rest.len() implies (#[trigger] rest[i]).0 != key by {
            assert(rest[i] == entries[i + 1]);
        }
        lemma_without_absent(rest, key);
        assert(without(entries, key) =~= entries);
    }
}

/// A key that has an entry stands for the address in it. Looking it up moves this entry
/// to the front; giving it another address does too, with that address; removing it
/// takes out this entry. All other entries stay as they are and in their order.
pub proof fn law_entry_of_a_known_key(
    entries: Seq<(Seq<char>, SocketAddrV4)>,
    cap: nat,
    key: Seq<char>,
    addr: SocketAddrV4,
    i: int,
)
    requires
        distinct(entries),
        0 <= i < entries.len(),
        entries[i].0 == key,
    ensures
        found(entries, key) == Some(entries[i].1),
        touched(entries, key) == seq![entries[i]] + entries.remove(i),
        inserted(entries, cap, key, addr) == seq![(key, addr)] + entries.remove(i),
        without(entries, key) == entries.remove(i),
{
    lemma_without_is_removal(entries, key, i);
}

/// A key without an entry stands for no address, and looking it up or removing it
/// changes nothing. Giving it an address puts a new entry in front of the others, of
/// which a full cache loses the last one and any other loses none.
pub proof fn law_entry_of_an_unknown_key(
    entries: Seq<(Seq<char>, SocketAddrV4)>,
    cap: nat,
    key: Seq<char>,
    addr: SocketAddrV4,
)
    requires
        entries.len() <= cap,
        0 < cap,
        forall|i: int| 0 <= i < entries.len() ==> (#[trigger] entries[i]).0 != key,
    ensures
        found(entries, key) is None,
        touched(entries, key) == entries,
        without(entries, key) == entries,
        inserted(entries, cap, key, addr) == seq![(key, addr)] + entries.take(
            if entries.len() < cap {
                entries.len() as int
            } else {
                cap - 1
            },
        ),
{
    lemma_without_absent(entries, key);
    assert(entries.take(entries.len() as int) =~= entries);
    if entries.len() == cap {
        assert(entries.take(cap - 1) =~= entries.drop_last());
    }
}

} // verus!
