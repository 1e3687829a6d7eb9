//! Synchronisation planning: which local files must be created remotely,
//! and which must be updated because their content hash or their privacy
//! differs from the remote record. The content hash lets the planner
//! detect changes without decrypting anything.

use vstd::prelude::*;
use crate::actions::create::{KeyMeta, MetaView};
use crate::actions::list::{LocalFileMeta, LocalFileMetaView};
use crate::utils::{bytes_eq, clone_bytes};

verus! {

/// The remote record stored under a key name, if any: the first match.
pub open spec fn meta_named(rs: Seq<MetaView>, name: Seq<char>) -> Option<MetaView>
    decreases rs.len(),
{
    if rs.len() == 0 {
        None
    } else if rs[0].name == name {
        Some(rs[0])
    } else {
        meta_named(rs.drop_first(), name)
    }
}

/// A local file must be created remotely when no remote record carries
/// its name.
pub open spec fn needs_create(rs: Seq<MetaView>, l: LocalFileMetaView) -> bool {
    meta_named(rs, l.name) is None
}

/// A local file must be updated remotely when a remote record carries its
/// name but its content hash differs, or its privacy does not match the
/// requested one.
pub open spec fn needs_update(rs: Seq<MetaView>, l: LocalFileMetaView, public: bool) -> bool {
    match meta_named(rs, l.name) {
        Some(t) => t.original_hash != l.original_hash || ((t.rand is None) != public),
        None => false,
    }
}

/// The local files to create, in order.
pub open spec fn plan_create(ls: Seq<LocalFileMetaView>, rs: Seq<MetaView>) -> Seq<
    LocalFileMetaView,
>
    decreases ls.len(),
{
    if ls.len() == 0 {
        Seq::empty()
    } else if needs_create(rs, ls[0]) {
        seq![ls[0]] + plan_create(ls.drop_first(), rs)
    } else {
        plan_create(ls.drop_first(), rs)
    }
}

/// The local files to update, in order.
pub open spec fn plan_update(ls: Seq<LocalFileMetaView>, rs: Seq<MetaView>, public: bool) -> Seq<
    LocalFileMetaView,
>
    decreases ls.len(),
{
    if ls.len() == 0 {
        Seq::empty()
    } else if needs_update(rs, ls[0], public) {
        seq![ls[0]] + plan_update(ls.drop_first(), rs, public)
    } else {
        plan_update(ls.drop_first(), rs, public)
    }
}

impl LocalFileMeta {
    pub fn dup(&self) -> (r: LocalFileMeta)
        ensures
            r@ == self@,
    {
        LocalFileMeta {
            name: self.name.clone(),
            path: self.path.clone(),
            original_hash: clone_bytes(&self.original_hash),
            size: self.size,
        }
    }
}

/// The remote record under a name, if any.
fn find_remote<'a>(remote: &'a Vec<KeyMeta>, name: &String) -> (r: Option<&'a KeyMeta>)
    ensures
        r matches Some(m) ==> meta_named(remote@.map_values(|m2: KeyMeta| m2@), name@) == Some(
            m@,
        ),
        r is None ==> meta_named(remote@.map_values(|m2: KeyMeta| m2@), name@) is None,
{
    let ghost rs = remote@.map_values(|m2: KeyMeta| m2@);
    let mut i: usize = 0;
    proof {
        assert(rs.skip(0) =~= rs);
    }
    while i < remote.len()
        invariant
            i <= remote.len(),
            rs == remote@.map_values(|m2: KeyMeta| m2@),
            rs.len() == remote@.len(),
            meta_named(rs.skip(i as int), name@) == meta_named(rs, name@),
        decreases remote.len() - i,
    {
        let m = &remote[i];
        proof {
            assert(rs.skip(i as int)[0] == rs[i as int]);
            assert(rs[i as int] == remote@[i as int]@);
        }
        if m.name.eq(name) {
            return Some(m);
        }
        proof {
            assert(rs.skip(i as int).drop_first() =~= rs.skip(i as int + 1));
        }
        i += 1;
    }
    proof {
        assert(rs.skip(i as int) =~= Seq::<MetaView>::empty());
    }
    None
}

/// True iff this local file needs an update against the remote records.
fn file_needs_update(remote: &Vec<KeyMeta>, l: &LocalFileMeta, public: bool) -> (r: bool)
    ensures
        r == needs_update(remote@.map_values(|m2: KeyMeta| m2@), l@, public),
{
    match find_remote(remote, &l.name) {
        Some(t) => {
            let hash_differs = !bytes_eq(&t.original_hash, &l.original_hash);
            let privacy_differs = t.rand.is_none() != public;
            hash_differs || privacy_differs
        },
        None => false,
    }
}

/// The synchronisation plan: the local files absent remotely, to create,
/// and those present but stale or re-scoped, to update, each in local
/// order.
pub fn sync_plan(local: &Vec<LocalFileMeta>, remote: &Vec<KeyMeta>, public: bool) -> (r: (
    Vec<LocalFileMeta>,
    Vec<LocalFileMeta>,
))
    ensures
        r.0@.map_values(|l: LocalFileMeta| l@) == plan_create(
            local@.map_values(|l: LocalFileMeta| l@),
            remote@.map_values(|m: KeyMeta| m@),
        ),
        r.1@.map_values(|l: LocalFileMeta| l@) == plan_update(
            local@.map_values(|l: LocalFileMeta| l@),
            remote@.map_values(|m: KeyMeta| m@),
            public,
        ),
{
    let ghost ls = local@.map_values(|l: LocalFileMeta| l@);
    let ghost rs = remote@.map_values(|m: KeyMeta| m@);
    let mut to_create: Vec<LocalFileMeta> = Vec::new();
    let mut to_update: Vec<LocalFileMeta> = Vec::new();
    let mut i: usize = 0;
    proof {
        assert(ls.skip(0) =~= ls);
        assert(to_create@.map_values(|l: LocalFileMeta| l@) =~= Seq::<LocalFileMetaView>::empty());
        assert(to_update@.map_values(|l: LocalFileMeta| l@) =~= Seq::<LocalFileMetaView>::empty());
        assert(Seq::<LocalFileMetaView>::empty() + plan_create(ls, rs) =~= plan_create(ls, rs));
        assert(Seq::<LocalFileMetaView>::empty() + plan_update(ls, rs, public) =~= plan_update(
            ls,
            rs,
            public,
        ));
    }
    while i < local.len()
        invariant
            i <= local.len(),
            ls == local@.map_values(|l: LocalFileMeta| l@),
            rs == remote@.map_values(|m: KeyMeta| m@),
            ls.len() == local@.len(),
            to_create@.map_values(|l: LocalFileMeta| l@) + plan_create(ls.skip(i as int), rs)
                == plan_create(ls, rs),
            to_update@.map_values(|l: LocalFileMeta| l@) + plan_update(
                ls.skip(i as int),
                rs,
                public,
            ) == plan_update(ls, rs, public),
        decreases local.len() - i,
    {
        let l = &local[i];
        proof {
            assert(ls.skip(i as int)[0] == ls[i as int]);
            assert(ls[i as int] == local@[i as int]@);
            assert(ls.skip(i as int).drop_first() =~= ls.skip(i as int + 1));
        }
        let ghost pre_create = to_create@;
        let ghost pre_update = to_update@;
        match find_remote(remote, &l.name) {
            None => {
                to_create.push(l.dup());
                proof {
                    assert(to_create@.map_values(|x: LocalFileMeta| x@) =~= pre_create.map_values(
                        |x: LocalFileMeta| x@,
                    ).push(ls[i as int]));
                    assert(pre_create.map_values(|x: LocalFileMeta| x@).push(ls[i as int])
                        + plan_create(ls.skip(i as int + 1), rs) =~= pre_create.map_values(
                        |x: LocalFileMeta| x@,
                    ) + (seq![ls[i as int]] + plan_create(ls.skip(i as int + 1), rs)));
                }
            },
            Some(_) => {},
        }
        if file_needs_update(remote, l, public) {
            to_update.push(l.dup());
            proof {
                assert(to_update@.map_values(|x: LocalFileMeta| x@) =~= pre_update.map_values(
                    |x: LocalFileMeta| x@,
                ).push(ls[i as int]));
                assert(pre_update.map_values(|x: LocalFileMeta| x@).push(ls[i as int])
                    + plan_update(ls.skip(i as int + 1), rs, public) =~= pre_update.map_values(
                    |x: LocalFileMeta| x@,
                ) + (seq![ls[i as int]] + plan_update(ls.skip(i as int + 1), rs, public)));
            }
        }
        i += 1;
    }
    proof {
        assert(ls.skip(i as int) =~= Seq::<LocalFileMetaView>::empty());
        assert(to_create@.map_values(|l: LocalFileMeta| l@) + Seq::<LocalFileMetaView>::empty()
            =~= to_create@.map_values(|l: LocalFileMeta| l@));
        assert(to_update@.map_values(|l: LocalFileMeta| l@) + Seq::<LocalFileMetaView>::empty()
            =~= to_update@.map_values(|l: LocalFileMeta| l@));
    }
    (to_create, to_update)
}

} // verus!
