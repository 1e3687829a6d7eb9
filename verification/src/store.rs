//! The storage engine: a content-addressed, per-owner store of metadata
//! and value pairs. An entry is addressed by the owner's 20-byte identity
//! and the 32-byte hash of its key name; creation fails on an existing
//! address, update and delete fail on a missing one, and deletion removes
//! the entry so that a later read fails.

use vstd::prelude::*;
use vstd::utf8::encode_utf8;
use crate::actions::create::{KeyMeta, MetaView};
use crate::utils::{bytes_eq, sha256, sha256_of};

verus! {

/// The address of a key name: the SHA-256 digest of its UTF-8 bytes.
pub open spec fn key_hash_of(name: Seq<char>) -> Seq<u8> {
    sha256_of(encode_utf8(name))
}

/// The stored address of a key name.
pub fn hash_key(key: &String) -> (r: Vec<u8>)
    ensures
        r@ == key_hash_of(key@),
        r@.len() == 32,
{
    sha256(key.as_str().as_bytes())
}

/// One stored entry.
pub struct StoreEntry {
    pub owner: Vec<u8>,
    pub key_hash: Vec<u8>,
    pub meta: KeyMeta,
    pub value: Vec<u8>,
}

pub ghost struct EntryView {
    pub owner: Seq<u8>,
    pub key_hash: Seq<u8>,
    pub meta: MetaView,
    pub value: Seq<u8>,
}

impl View for StoreEntry {
    type V = EntryView;

    open spec fn view(&self) -> EntryView {
        EntryView {
            owner: self.owner@,
            key_hash: self.key_hash@,
            meta: self.meta@,
            value: self.value@,
        }
    }
}

/// The entry stored under an owner and a hashed key, if any: the first
/// match in insertion order.
pub open spec fn lookup(s: Seq<EntryView>, owner: Seq<u8>, key_hash: Seq<u8>) -> Option<EntryView>
    decreases s.len(),
{
    if s.len() == 0 {
        None
    } else if s[0].owner == owner && s[0].key_hash == key_hash {
        Some(s[0])
    } else {
        lookup(s.drop_first(), owner, key_hash)
    }
}

/// No two entries share an address.
pub open spec fn uniq(s: Seq<EntryView>) -> bool {
    forall|i: int, j: int|
        0 <= i < j < s.len() ==> !(s[i].owner == s[j].owner && s[i].key_hash == s[j].key_hash)
}

/// The metadata records of one owner's entries, in insertion order.
pub open spec fn metas_of(s: Seq<EntryView>, owner: Seq<u8>) -> Seq<MetaView>
    decreases s.len(),
{
    if s.len() == 0 {
        Seq::empty()
    } else if s[0].owner == owner {
        seq![s[0].meta] + metas_of(s.drop_first(), owner)
    } else {
        metas_of(s.drop_first(), owner)
    }
}

pub proof fn lemma_lookup_props(s: Seq<EntryView>, o: Seq<u8>, k: Seq<u8>)
    ensures
        lookup(s, o, k) matches Some(e) ==> exists|i: int|
            0 <= i < s.len() && s[i] == e && e.owner == o && e.key_hash == k,
        lookup(s, o, k) is None ==> forall|i: int|
            0 <= i < s.len() ==> !(s[i].owner == o && s[i].key_hash == k),
    decreases s.len(),
{
    if s.len() > 0 {
        lemma_lookup_props(s.drop_first(), o, k);
        assert forall|i: int| 1 <= i < s.len() implies s.drop_first()[i - 1] == s[i] by {}
        if !(s[0].owner == o && s[0].key_hash == k) {
            match lookup(s, o, k) {
                Some(e) => {
                    let i = choose|i: int|
                        0 <= i < s.drop_first().len() && s.drop_first()[i] == e && e.owner == o
                            && e.key_hash == k;
                    assert(s[i + 1] == e);
                },
                None => {},
            }
        }
    }
}

pub proof fn lemma_lookup_push(s: Seq<EntryView>, e: EntryView, o: Seq<u8>, k: Seq<u8>)
    ensures
        lookup(s.push(e), o, k) == (if lookup(s, o, k) is Some {
            lookup(s, o, k)
        } else if e.owner == o && e.key_hash == k {
            Some(e)
        } else {
            None
        }),
    decreases s.len(),
{
    if s.len() == 0 {
        assert(s.push(e)[0] == e);
        assert(s.push(e).drop_first() =~= Seq::empty());
    } else {
        assert(s.push(e)[0] == s[0]);
        assert(s.push(e).drop_first() =~= s.drop_first().push(e));
        lemma_lookup_push(s.drop_first(), e, o, k);
    }
}

pub proof fn lemma_lookup_update(s: Seq<EntryView>, i: int, e2: EntryView)
    requires
        0 <= i < s.len(),
        s[i].owner == e2.owner,
        s[i].key_hash == e2.key_hash,
        uniq(s),
    ensures
        lookup(s.update(i, e2), e2.owner, e2.key_hash) == Some(e2),
        forall|o2: Seq<u8>, k2: Seq<u8>|
            !(o2 == e2.owner && k2 == e2.key_hash) ==> lookup(s.update(i, e2), o2, k2) == lookup(
                s,
                o2,
                k2,
            ),
        uniq(s.update(i, e2)),
    decreases s.len(),
{
    let s2 = s.update(i, e2);
    assert(s2.len() == s.len());
    assert forall|a: int, b: int| 0 <= a < b < s2.len() implies !(s2[a].owner == s2[b].owner
        && s2[a].key_hash == s2[b].key_hash) by {
        assert(s2[a] == if a == i {
            e2
        } else {
            s[a]
        });
        assert(s2[b] == if b == i {
            e2
        } else {
            s[b]
        });
    }
    if i == 0 {
        assert(s2[0] == e2);
        assert(s2.drop_first() =~= s.drop_first());
        assert forall|o2: Seq<u8>, k2: Seq<u8>|
            !(o2 == e2.owner && k2 == e2.key_hash) implies lookup(s2, o2, k2) == lookup(
            s,
            o2,
            k2,
        ) by {
            assert(!(s[0].owner == o2 && s[0].key_hash == k2));
            assert(!(s2[0].owner == o2 && s2[0].key_hash == k2));
        }
    } else {
        assert(s2[0] == s[0]);
        assert(s2.drop_first() =~= s.drop_first().update(i - 1, e2));
        assert(!(s[0].owner == e2.owner && s[0].key_hash == e2.key_hash));
        assert forall|a: int, b: int| 0 <= a < b < s.drop_first().len() implies !(
        s.drop_first()[a].owner == s.drop_first()[b].owner && s.drop_first()[a].key_hash
            == s.drop_first()[b].key_hash) by {
            assert(s.drop_first()[a] == s[a + 1]);
            assert(s.drop_first()[b] == s[b + 1]);
        }
        assert(s.drop_first()[i - 1] == s[i]);
        lemma_lookup_update(s.drop_first(), i - 1, e2);
        assert(lookup(s2, e2.owner, e2.key_hash) == Some(e2));
        assert forall|o2: Seq<u8>, k2: Seq<u8>|
            !(o2 == e2.owner && k2 == e2.key_hash) implies lookup(s2, o2, k2) == lookup(
            s,
            o2,
            k2,
        ) by {
            if s[0].owner == o2 && s[0].key_hash == k2 {
            } else {
                assert(lookup(s2, o2, k2) == lookup(s2.drop_first(), o2, k2));
                assert(lookup(s.drop_first().update(i - 1, e2), o2, k2) == lookup(
                    s.drop_first(),
                    o2,
                    k2,
                ));
                assert(lookup(s, o2, k2) == lookup(s.drop_first(), o2, k2));
            }
        }
    }
}

pub proof fn lemma_lookup_remove(s: Seq<EntryView>, i: int)
    requires
        0 <= i < s.len(),
        uniq(s),
    ensures
        lookup(s.remove(i), s[i].owner, s[i].key_hash) is None,
        forall|o2: Seq<u8>, k2: Seq<u8>|
            !(o2 == s[i].owner && k2 == s[i].key_hash) ==> lookup(s.remove(i), o2, k2) == lookup(
                s,
                o2,
                k2,
            ),
        uniq(s.remove(i)),
    decreases s.len(),
{
    let s2 = s.remove(i);
    assert forall|a: int| 0 <= a < s2.len() implies !(s2[a].owner == s[i].owner && s2[a].key_hash
        == s[i].key_hash) by {
        if a < i {
            assert(s2[a] == s[a]);
        } else {
            assert(s2[a] == s[a + 1]);
        }
    }
    lemma_lookup_props(s2, s[i].owner, s[i].key_hash);
    match lookup(s2, s[i].owner, s[i].key_hash) {
        Some(e) => {
            let a = choose|a: int|
                0 <= a < s2.len() && s2[a] == e && e.owner == s[i].owner && e.key_hash
                    == s[i].key_hash;
            assert(false);
        },
        None => {},
    }
    assert forall|a: int, b: int| 0 <= a < b < s2.len() implies !(s2[a].owner == s2[b].owner
        && s2[a].key_hash == s2[b].key_hash) by {
        let a0 = if a < i {
            a
        } else {
            a + 1
        };
        let b0 = if b < i {
            b
        } else {
            b + 1
        };
        assert(s2[a] == s[a0]);
        assert(s2[b] == s[b0]);
    }
    if i == 0 {
        assert(s2 =~= s.drop_first());
        assert forall|o2: Seq<u8>, k2: Seq<u8>|
            !(o2 == s[i].owner && k2 == s[i].key_hash) implies lookup(s2, o2, k2) == lookup(
            s,
            o2,
            k2,
        ) by {
            assert(!(s[0].owner == o2 && s[0].key_hash == k2));
        }
    } else {
        assert(s2[0] == s[0]);
        assert(s2.drop_first() =~= s.drop_first().remove(i - 1));
        assert forall|a: int, b: int| 0 <= a < b < s.drop_first().len() implies !(
        s.drop_first()[a].owner == s.drop_first()[b].owner && s.drop_first()[a].key_hash
            == s.drop_first()[b].key_hash) by {
            assert(s.drop_first()[a] == s[a + 1]);
            assert(s.drop_first()[b] == s[b + 1]);
        }
        assert(s.drop_first()[i - 1] == s[i]);
        lemma_lookup_remove(s.drop_first(), i - 1);
        assert forall|o2: Seq<u8>, k2: Seq<u8>|
            !(o2 == s[i].owner && k2 == s[i].key_hash) implies lookup(s2, o2, k2) == lookup(
            s,
            o2,
            k2,
        ) by {
            if s[0].owner == o2 && s[0].key_hash == k2 {
            } else {
                assert(lookup(s2, o2, k2) == lookup(s2.drop_first(), o2, k2));
                assert(lookup(s.drop_first().remove(i - 1), o2, k2) == lookup(
                    s.drop_first(),
                    o2,
                    k2,
                ));
                assert(lookup(s, o2, k2) == lookup(s.drop_first(), o2, k2));
            }
        }
    }
}

/// An owner with no entries has an empty listing: absence is an empty
/// collection, never an error.
pub proof fn lemma_metas_of_absent(s: Seq<EntryView>, owner: Seq<u8>)
    requires
        forall|i: int| 0 <= i < s.len() ==> s[i].owner != owner,
    ensures
        metas_of(s, owner) == Seq::<MetaView>::empty(),
    decreases s.len(),
{
    if s.len() > 0 {
        assert forall|i: int| 0 <= i < s.drop_first().len() implies s.drop_first()[i].owner
            != owner by {
            assert(s.drop_first()[i] == s[i + 1]);
        }
        lemma_metas_of_absent(s.drop_first(), owner);
    }
}

/// The store itself: the entries, in creation order.
pub struct Store {
    entries: Vec<StoreEntry>,
}

impl View for Store {
    type V = Seq<EntryView>;

    closed spec fn view(&self) -> Seq<EntryView> {
        self.entries@.map_values(|e: StoreEntry| e@)
    }
}

impl Store {
    pub open spec fn wf(&self) -> bool {
        uniq(self@)
    }

    pub fn new() -> (r: Store)
        ensures
            r.wf(),
            r@ == Seq::<EntryView>::empty(),
    {
        let r = Store { entries: Vec::new() };
        proof {
            assert(r@ =~= Seq::<EntryView>::empty());
        }
        r
    }

    /// The position of the entry stored under an address, if any.
    fn find_index(&self, owner: &Vec<u8>, key_hash: &Vec<u8>) -> (r: Option<usize>)
        ensures
            r matches Some(i) ==> i < self@.len() && lookup(self@, owner@, key_hash@) == Some(
                self@[i as int],
            ) && self@[i as int].owner == owner@ && self@[i as int].key_hash == key_hash@,
            r is None ==> lookup(self@, owner@, key_hash@) is None,
    {
        let mut i: usize = 0;
        proof {
            assert(self@.skip(0) =~= self@);
        }
        while i < self.entries.len()
            invariant
                i <= self.entries.len(),
                self@.len() == self.entries.len(),
                lookup(self@.skip(i as int), owner@, key_hash@) == lookup(
                    self@,
                    owner@,
                    key_hash@,
                ),
            decreases self.entries.len() - i,
        {
            let e = &self.entries[i];
            proof {
                assert(self@.skip(i as int)[0] == self@[i as int]);
                assert(self@[i as int] == self.entries@[i as int]@);
            }
            if bytes_eq(&e.owner, owner) && bytes_eq(&e.key_hash, key_hash) {
                return Some(i);
            }
            proof {
                assert(self@.skip(i as int).drop_first() =~= self@.skip(i as int + 1));
            }
            i += 1;
        }
        proof {
            assert(self@.skip(i as int) =~= Seq::<EntryView>::empty());
        }
        None
    }

    /// Create an entry. Fails, leaving the store unchanged, exactly when
    /// the address already holds one; success appends the entry, and every
    /// other address reads as before.
    pub fn create(&mut self, entry: StoreEntry) -> (r: bool)
        requires
            old(self).wf(),
        ensures
            final(self).wf(),
            !r ==> lookup(old(self)@, entry@.owner, entry@.key_hash) is Some && final(self)@
                == old(self)@,
            r ==> lookup(old(self)@, entry@.owner, entry@.key_hash) is None && final(self)@ == old(
                self,
            )@.push(entry@),
            r ==> lookup(final(self)@, entry@.owner, entry@.key_hash) == Some(entry@),
            r ==> forall|o2: Seq<u8>, k2: Seq<u8>|
                !(o2 == entry@.owner && k2 == entry@.key_hash) ==> lookup(final(self)@, o2, k2)
                    == lookup(old(self)@, o2, k2),
    {
        match self.find_index(&entry.owner, &entry.key_hash) {
            Some(_) => false,
            None => {
                proof {
                    lemma_lookup_props(self@, entry@.owner, entry@.key_hash);
                    lemma_lookup_push(self@, entry@, entry@.owner, entry@.key_hash);
                    assert forall|o2: Seq<u8>, k2: Seq<u8>|
                        !(o2 == entry@.owner && k2 == entry@.key_hash) implies lookup(
                        self@.push(entry@),
                        o2,
                        k2,
                    ) == lookup(self@, o2, k2) by {
                        lemma_lookup_push(self@, entry@, o2, k2);
                    }
                    assert forall|a: int, b: int| 0 <= a < b < self@.push(entry@).len() implies !(
                    self@.push(entry@)[a].owner == self@.push(entry@)[b].owner && self@.push(
                        entry@,
                    )[a].key_hash == self@.push(entry@)[b].key_hash) by {
                        if b < self@.len() {
                        } else {
                            assert(self@.push(entry@)[b] == entry@);
                        }
                    }
                }
                let ghost pre = self@;
                self.entries.push(entry);
                proof {
                    assert(self@ =~= pre.push(self.entries@[pre.len() as int]@));
                }
                true
            },
        }
    }

    /// The entry stored under an address, if any.
    pub fn get(&self, owner: &Vec<u8>, key_hash: &Vec<u8>) -> (r: Option<&StoreEntry>)
        ensures
            r matches Some(e) ==> lookup(self@, owner@, key_hash@) == Some(e@),
            r is None ==> lookup(self@, owner@, key_hash@) is None,
    {
        match self.find_index(owner, key_hash) {
            Some(i) => Some(&self.entries[i]),
            None => None,
        }
    }

    /// Overwrite the entry under an address. Fails, leaving the store
    /// unchanged, exactly when the address holds none; success replaces
    /// metadata and value in place, and every other address reads as
    /// before.
    pub fn update(&mut self, owner: &Vec<u8>, key_hash: &Vec<u8>, meta: KeyMeta, value: Vec<u8>)
        -> (r: bool)
        requires
            old(self).wf(),
        ensures
            final(self).wf(),
            !r ==> lookup(old(self)@, owner@, key_hash@) is None && final(self)@ == old(self)@,
            r ==> lookup(old(self)@, owner@, key_hash@) is Some,
            r ==> lookup(final(self)@, owner@, key_hash@) == Some(
                EntryView { owner: owner@, key_hash: key_hash@, meta: meta@, value: value@ },
            ),
            r ==> forall|o2: Seq<u8>, k2: Seq<u8>|
                !(o2 == owner@ && k2 == key_hash@) ==> lookup(final(self)@, o2, k2) == lookup(
                    old(self)@,
                    o2,
                    k2,
                ),
            r ==> final(self)@.len() == old(self)@.len(),
    {
        match self.find_index(owner, key_hash) {
            Some(i) => {
                let ghost pre = self@;
                let e2 = StoreEntry {
                    owner: crate::utils::clone_bytes(owner),
                    key_hash: crate::utils::clone_bytes(key_hash),
                    meta,
                    value,
                };
                proof {
                    lemma_lookup_update(pre, i as int, e2@);
                }
                self.entries.set(i, e2);
                proof {
                    assert(self@ =~= pre.update(
                        i as int,
                        self.entries@[i as int]@,
                    ));
                }
                true
            },
            None => false,
        }
    }

    /// Remove the entry under an address. Fails, leaving the store
    /// unchanged, exactly when the address holds none; success removes it,
    /// so that the address reads as absent, and every other address reads
    /// as before.
    pub fn delete(&mut self, owner: &Vec<u8>, key_hash: &Vec<u8>) -> (r: bool)
        requires
            old(self).wf(),
        ensures
            final(self).wf(),
            !r ==> lookup(old(self)@, owner@, key_hash@) is None && final(self)@ == old(self)@,
            r ==> lookup(old(self)@, owner@, key_hash@) is Some,
            r ==> lookup(final(self)@, owner@, key_hash@) is None,
            r ==> forall|o2: Seq<u8>, k2: Seq<u8>|
                !(o2 == owner@ && k2 == key_hash@) ==> lookup(final(self)@, o2, k2) == lookup(
                    old(self)@,
                    o2,
                    k2,
                ),
            r ==> final(self)@.len() == old(self)@.len() - 1,
    {
        match self.find_index(owner, key_hash) {
            Some(i) => {
                let ghost pre = self@;
                proof {
                    lemma_lookup_remove(pre, i as int);
                }
                self.entries.remove(i);
                proof {
                    assert(self@ =~= pre.remove(i as int));
                }
                true
            },
            None => false,
        }
    }

    /// The metadata records of one owner's entries, in insertion order;
    /// an owner with no entries gets the empty vector.
    pub fn list(&self, owner: &Vec<u8>) -> (r: Vec<KeyMeta>)
        ensures
            r@.map_values(|m: KeyMeta| m@) == metas_of(self@, owner@),
    {
        let mut out: Vec<KeyMeta> = Vec::new();
        let mut i: usize = 0;
        proof {
            assert(out@.map_values(|m: KeyMeta| m@) =~= Seq::<MetaView>::empty());
            assert(self@.skip(0) =~= self@);
            assert(Seq::<MetaView>::empty() + metas_of(self@, owner@) =~= metas_of(
                self@,
                owner@,
            ));
        }
        while i < self.entries.len()
            invariant
                i <= self.entries.len(),
                self@.len() == self.entries.len(),
                out@.map_values(|m: KeyMeta| m@) + metas_of(self@.skip(i as int), owner@)
                    == metas_of(self@, owner@),
            decreases self.entries.len() - i,
        {
            let e = &self.entries[i];
            let ghost pre_out = out@;
            proof {
                assert(self@.skip(i as int)[0] == self@[i as int]);
                assert(self@[i as int] == self.entries@[i as int]@);
                assert(self@.skip(i as int).drop_first() =~= self@.skip(i as int + 1));
            }
            if bytes_eq(&e.owner, owner) {
                out.push(e.meta.dup());
                proof {
                    assert(out@.map_values(|m: KeyMeta| m@) =~= pre_out.map_values(
                        |m: KeyMeta| m@,
                    ).push(self@[i as int].meta));
                    assert(pre_out.map_values(|m: KeyMeta| m@).push(self@[i as int].meta)
                        + metas_of(self@.skip(i as int + 1), owner@) =~= pre_out.map_values(
                        |m: KeyMeta| m@,
                    ) + (seq![self@[i as int].meta] + metas_of(self@.skip(i as int + 1), owner@)));
                }
            }
            i += 1;
        }
        proof {
            assert(self@.skip(i as int) =~= Seq::<EntryView>::empty());
            assert(out@.map_values(|m: KeyMeta| m@) + Seq::<MetaView>::empty() =~= out@.map_values(
                |m: KeyMeta| m@,
            ));
        }
        out
    }

    /// How many entries the store holds.
    pub fn len(&self) -> (r: usize)
        ensures
            r == self@.len(),
    {
        self.entries.len()
    }
}

} // verus!
