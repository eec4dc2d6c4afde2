//! The records of virtual machines and of warm pools.

use crate::model::{PoolRecord, PoolRecordView, VmRecord, VmRecordView};
use crate::paths::{self, join, with_extension};
use crate::text::{self, same_text};
use std::collections::HashMap;
use vstd::prelude::*;
use vstd::std_specs::iter::IteratorSpec;

verus! {

broadcast use {
    vstd::std_specs::hash::group_hash_axioms,
};

// ------------------------------------------------------------------- machines

/// The records of all machines by identifier, and the file that keeps them.
pub struct Store {
    path: String,
    inner: HashMap<u128, VmRecord>,
}

/// `list` holds every record of `m` once, the one created first at the front.
pub open spec fn is_listing(list: Seq<VmRecordView>, m: Map<u128, VmRecordView>) -> bool {
    &&& by_age(list)
    &&& exists|order: Seq<u128>| #[trigger] lists_in_order(list, m, order)
}

/// `entries` holds every record of `m` once, with the identifier that it stands
/// under.
pub open spec fn is_contents(entries: Seq<(u128, VmRecord)>, m: Map<u128, VmRecordView>) -> bool {
    &&& forall|i: int|
        0 <= i < entries.len() ==> m.contains_key((#[trigger] entries[i]).0) && m[entries[i].0]
            == entries[i].1@
    &&& forall|id: u128| #[trigger]
        m.contains_key(id) ==> exists|i: int| 0 <= i < entries.len() && (#[trigger] entries[i]).0
            == id
    &&& forall|i: int, j: int|
        0 <= i < j < entries.len() ==> (#[trigger] entries[i]).0 != (#[trigger] entries[j]).0
}

/// No record was created after one that stands behind it.
pub open spec fn by_age(list: Seq<VmRecordView>) -> bool {
    forall|i: int, j: int|
        0 <= i < j < list.len() ==> (#[trigger] list[i]).created_at.at_or_before(
            (#[trigger] list[j]).created_at,
        )
}

/// `list` holds the records of `m` in the order `order` of their identifiers.
pub open spec fn lists_in_order(
    list: Seq<VmRecordView>,
    m: Map<u128, VmRecordView>,
    order: Seq<u128>,
) -> bool {
    &&& order.no_duplicates()
    &&& forall|id: u128| order.contains(id) <==> m.contains_key(id)
    &&& list.len() == order.len()
    &&& forall|i: int| 0 <= i < list.len() ==> #[trigger] list[i] == m[order[i]]
}

/// Every record stands under its own identifier.
pub open spec fn keyed(m: Map<u128, VmRecordView>) -> bool {
    forall|id: u128| #[trigger] m.contains_key(id) ==> m[id].id == id
}

/// Some record has the vsock address `cid`.
pub open spec fn cid_in_use(m: Map<u128, VmRecordView>, cid: u32) -> bool {
    exists|id: u128| #[trigger] m.contains_key(id) && m[id].guest_cid == Some(cid)
}

/// Keeping `vm` gives nobody an address that another record has: it has none,
/// or the one that its record has already.
pub open spec fn keeps_address(m: Map<u128, VmRecordView>, vm: VmRecordView) -> bool {
    vm.guest_cid is None || (m.contains_key(vm.id) && m[vm.id].guest_cid == vm.guest_cid)
}

/// No two records share a vsock address.
pub open spec fn cids_distinct(m: Map<u128, VmRecordView>) -> bool {
    forall|a: u128, b: u128|
        #[trigger] m.contains_key(a) && #[trigger] m.contains_key(b) && a != b
            && m[a].guest_cid is Some ==> m[a].guest_cid != m[b].guest_cid
}

/// `cid` is the lowest address from `first` on that no record has. The highest
/// number of all stands for "any address" and is never given out.
pub open spec fn is_lowest_free(m: Map<u128, VmRecordView>, first: u32, cid: u32) -> bool {
    &&& first <= cid < u32::MAX
    &&& !cid_in_use(m, cid)
    &&& forall|c: u32| first <= c < cid ==> cid_in_use(m, c)
}

/// The record with its vsock address set.
pub open spec fn with_cid(vm: VmRecordView, cid: Option<u32>) -> VmRecordView {
    VmRecordView { guest_cid: cid, ..vm }
}

/// Every vsock address is taken.
#[derive(Debug, Clone, Copy, PartialEq, Eq, Structural)]
pub struct CidsExhausted;

impl View for Store {
    type V = Map<u128, VmRecordView>;

    closed spec fn view(&self) -> Map<u128, VmRecordView> {
        record_views(self.inner@)
    }
}

/// The views of the records under their identifiers.
pub open spec fn record_views(m: Map<u128, VmRecord>) -> Map<u128, VmRecordView> {
    Map::new(|id: u128| m.contains_key(id), |id: u128| m[id]@)
}

impl Store {
    /// The file that keeps the records.
    pub closed spec fn file(&self) -> Seq<char> {
        self.path@
    }

    /// The records that were read from the file `vms.json` in `state_dir`, each
    /// with the identifier that it stood under. Of two under the same
    /// identifier the later one counts.
    pub fn load(state_dir: &str, entries: Vec<(u128, VmRecord)>) -> (r: Self)
        ensures
            r.file() == paths::joined(state_dir@, "vms.json"@),
            r@ == entries_map(entries@),
    {
        let mut inner: HashMap<u128, VmRecord> = HashMap::new();
        let ghost all = entries@;
        proof {
            assert(all.take(0) =~= Seq::<(u128, VmRecord)>::empty());
            assert(record_views(inner@) =~= entries_map(all.take(0)));
        }
        for e in it: entries
            invariant
                it.seq() == all,
                record_views(inner@) == entries_map(all.take(it.index())),
        {
            let ghost before = record_views(inner@);
            let ghost n = it.index();
            let ghost rec = e.1@;
            let id: u128 = e.0;
            inner.insert(id, e.1);
            proof {
                assert(all.take(n + 1).drop_last() =~= all.take(n));
                assert(all.take(n + 1).last() == all[n]);
                assert(record_views(inner@) =~= before.insert(id, rec));
            }
        }
        proof {
            assert(all.take(all.len() as int) =~= all);
        }
        Store { path: join(state_dir, "vms.json"), inner }
    }

    /// The file that keeps the records.
    pub fn path(&self) -> (r: &str)
        ensures
            r@ == self.file(),
    {
        self.path.as_str()
    }

    /// The file that the records are written to before it takes the place of
    /// the other.
    pub fn temporary_path(&self) -> (r: String)
        ensures
            r@ == paths::extended(self.file(), "json.tmp"@),
    {
        proof {
            reveal_strlit("json.tmp");
        }
        with_extension(self.path.as_str(), "json.tmp")
    }

    /// Keeps a record in place of the one with its identifier, if there is one.
    pub fn insert(&mut self, vm: VmRecord)
        ensures
            final(self)@ == old(self)@.insert(vm@.id, vm@),
            final(self).file() == old(self).file(),
    {
        let id: u128 = vm.id;
        let ghost before = self@;
        let ghost rec = vm@;
        self.inner.insert(id, vm);
        proof {
            assert(self@ =~= before.insert(id, rec));
        }
    }

    pub fn update(&mut self, vm: VmRecord)
        ensures
            final(self)@ == old(self)@.insert(vm@.id, vm@),
            final(self).file() == old(self).file(),
    {
        self.insert(vm);
    }

    pub fn get(&self, id: u128) -> (r: Option<VmRecord>)
        ensures
            match r {
                Some(vm) => self@.contains_key(id) && vm@ == self@[id],
                None => !self@.contains_key(id),
            },
    {
        match self.inner.get(&id) {
            Some(vm) => Some(vm.clone()),
            None => None,
        }
    }

    /// Drops a record and gives it back, if there is one.
    pub fn remove(&mut self, id: u128) -> (r: Option<VmRecord>)
        ensures
            final(self)@ == old(self)@.remove(id),
            final(self).file() == old(self).file(),
            match r {
                Some(vm) => old(self)@.contains_key(id) && vm@ == old(self)@[id],
                None => !old(self)@.contains_key(id),
            },
    {
        let ghost before = self@;
        let r = self.inner.remove(&id);
        proof {
            assert(self@ =~= before.remove(id));
        }
        r
    }

    /// The identifiers of all records, in no particular order.
    fn ids(&self) -> (r: Vec<u128>)
        ensures
            r@.no_duplicates(),
            forall|id: u128| r@.contains(id) <==> self@.contains_key(id),
    {
        let mut out: Vec<u128> = Vec::new();
        for k in it: self.inner.keys()
            invariant
                it.seq() == IteratorSpec::remaining(
                    &vstd::std_specs::hash::spec_keys_iter(&self.inner),
                ),
                out@ == it.seq().unref().take(it.index()),
        {
            proof {
                assert(it.seq().unref().take(it.index() + 1) =~= it.seq().unref().take(
                    it.index(),
                ).push(*it.seq()[it.index()]));
            }
            out.push(*k);
        }
        proof {
            let all = IteratorSpec::remaining(&vstd::std_specs::hash::spec_keys_iter(&self.inner));
            assert(out@ =~= all.unref());
            assert(out@.no_duplicates()) by {
                assert forall|i: int, j: int| 0 <= i < out@.len() && 0 <= j < out@.len() && i != j
                    implies out@[i] != out@[j] by {
                    assert(all[i] != all[j]);
                }
            }
            assert forall|id: u128| out@.contains(id) <==> self@.contains_key(id) by {
                assert(out@.to_set().contains(id) <==> self.inner@.dom().contains(id));
            }
        }
        out
    }

    /// All records with the identifiers that they stand under, as they are
    /// written to the file, in no particular order.
    pub fn entries(&self) -> (r: Vec<(u128, VmRecord)>)
        ensures
            is_contents(r@, self@),
    {
        let ids = self.ids();
        let mut out: Vec<(u128, VmRecord)> = Vec::new();
        let mut i: usize = 0;
        while i < ids.len()
            invariant
                i <= ids@.len(),
                ids@.no_duplicates(),
                forall|id: u128| ids@.contains(id) <==> self@.contains_key(id),
                out@.len() == i,
                forall|k: int|
                    0 <= k < i ==> (#[trigger] out@[k]).0 == ids@[k] && out@[k].1@ == self@[ids@[k]],
            decreases ids@.len() - i,
        {
            let id: u128 = ids[i];
            proof {
                assert(ids@.contains(id));
                assert(self@.contains_key(id));
            }
            out.push((id, self.inner.get(&id).unwrap().clone()));
            i += 1;
        }
        proof {
            assert forall|k: int| 0 <= k < out@.len() implies self@.contains_key(
                (#[trigger] out@[k]).0,
            ) && self@[out@[k].0] == out@[k].1@ by {
                assert(ids@.contains(ids@[k]));
            }
            assert forall|id: u128| #[trigger] self@.contains_key(id) implies exists|k: int|
                0 <= k < out@.len() && (#[trigger] out@[k]).0 == id by {
                assert(ids@.contains(id));
                let k = choose|k: int| 0 <= k < ids@.len() && ids@[k] == id;
                assert(out@[k].0 == id);
            }
            assert forall|a: int, b: int| 0 <= a < b < out@.len() implies (#[trigger] out@[a]).0 != (
            #[trigger] out@[b]).0 by {
                assert(ids@[a] != ids@[b]);
            }
        }
        out
    }

    /// All records, the one created first at the front.
    pub fn list(&self) -> (r: Vec<VmRecord>)
        ensures
            is_listing(text::views(r@), self@),
    {
        let ids = self.ids();
        let mut out: Vec<VmRecord> = Vec::new();
        let ghost mut order: Seq<u128> = Seq::empty();
        let mut i: usize = 0;
        while i < ids.len()
            invariant
                i <= ids@.len(),
                ids@.no_duplicates(),
                forall|id: u128| ids@.contains(id) <==> self@.contains_key(id),
                out@.len() == i,
                order.len() == i,
                order.no_duplicates(),
                forall|id: u128| order.contains(id) <==> ids@.take(i as int).contains(id),
                forall|k: int| 0 <= k < out@.len() ==> (#[trigger] out@[k])@ == self@[order[k]],
                by_age(text::views(out@)),
            decreases ids@.len() - i,
        {
            let id: u128 = ids[i];
            proof {
                assert(ids@.contains(id));
                assert(self@.contains_key(id));
            }
            let vm = self.inner.get(&id).unwrap().clone();
            let mut j: usize = out.len();
            while j > 0 && !out[j - 1].created_at.is_at_or_before(&vm.created_at)
                invariant
                    j <= out@.len(),
                    by_age(text::views(out@)),
                    forall|k: int|
                        j <= k < out@.len() ==> vm.created_at.at_or_before(
                            (#[trigger] out@[k]).created_at,
                        ),
                decreases j,
            {
                j -= 1;
                proof {
                    let views = text::views(out@);
                    assert forall|k: int| j <= k < out@.len() implies vm.created_at.at_or_before(
                        (#[trigger] out@[k]).created_at,
                    ) by {
                        if k > j {
                            assert(views[j as int].created_at.at_or_before(views[k].created_at));
                        }
                    }
                }
            }
            let ghost before = out@;
            let ghost old_order = order;
            let ghost rec = vm@;
            let ghost added = vm;
            out.insert(j, vm);
            proof {
                let views = text::views(before);
                if j > 0 {
                    assert forall|k: int| 0 <= k < j implies views[k].created_at.at_or_before(
                        rec.created_at,
                    ) by {
                        if k < j - 1 {
                            assert(views[k].created_at.at_or_before(views[j - 1].created_at));
                        }
                    }
                }
                order = old_order.insert(j as int, id);
                lemma_insert_in_order(before, added, j as int);
                lemma_insert_distinct(old_order, id, j as int, ids@, i as int);
                assert forall|k: int| 0 <= k < out@.len() implies (#[trigger] out@[k])@
                    == self@[order[k]] by {
                    if k < j {
                        assert(out@[k] == before[k]);
                        assert(order[k] == old_order[k]);
                    } else if k > j {
                        assert(out@[k] == before[k - 1]);
                        assert(order[k] == old_order[k - 1]);
                    }
                }
            }
            i += 1;
        }
        proof {
            assert(ids@.take(i as int) =~= ids@);
            assert(lists_in_order(text::views(out@), self@, order));
        }
        out
    }

    /// The vsock addresses that are in use.
    fn cids(&self) -> (r: Vec<u32>)
        ensures
            forall|cid: u32| r@.contains(cid) <==> cid_in_use(self@, cid),
    {
        let ids = self.ids();
        let mut out: Vec<u32> = Vec::new();
        let ghost mut from: Seq<u128> = Seq::empty();
        let mut i: usize = 0;
        while i < ids.len()
            invariant
                i <= ids@.len(),
                forall|id: u128| ids@.contains(id) <==> self@.contains_key(id),
                from.len() == out@.len(),
                forall|k: int|
                    0 <= k < out@.len() ==> self@.contains_key(#[trigger] from[k])
                        && self@[from[k]].guest_cid == Some(out@[k]),
                forall|k: int|
                    0 <= k < i && self@[#[trigger] ids@[k]].guest_cid is Some ==> out@.contains(
                        self@[ids@[k]].guest_cid->0,
                    ),
            decreases ids@.len() - i,
        {
            let id: u128 = ids[i];
            proof {
                assert(ids@.contains(id));
            }
            let ghost before = out@;
            if let Some(cid) = self.inner.get(&id).unwrap().guest_cid {
                out.push(cid);
                proof {
                    from = from.push(id);
                    assert(out@[out@.len() - 1] == cid);
                    assert forall|c: u32| before.contains(c) implies out@.contains(c) by {
                        let k = choose|k: int| 0 <= k < before.len() && before[k] == c;
                        assert(out@[k] == c);
                    }
                }
            }
            i += 1;
        }
        proof {
            assert forall|cid: u32| out@.contains(cid) <==> cid_in_use(self@, cid) by {
                if out@.contains(cid) {
                    let k = choose|k: int| 0 <= k < out@.len() && out@[k] == cid;
                    assert(self@.contains_key(from[k]));
                }
                if cid_in_use(self@, cid) {
                    let id = choose|id: u128| #[trigger]
                        self@.contains_key(id) && self@[id].guest_cid == Some(cid);
                    assert(ids@.contains(id));
                    let k = choose|k: int| 0 <= k < ids@.len() && ids@[k] == id;
                    assert(self@[ids@[k]].guest_cid is Some);
                }
            }
        }
        out
    }

    /// The lowest vsock address from `first` on that no record has.
    fn free_cid(&self, first: u32) -> (r: Option<u32>)
        ensures
            match r {
                Some(cid) => is_lowest_free(self@, first, cid),
                None => forall|c: u32| first <= c < u32::MAX ==> cid_in_use(self@, c),
            },
    {
        let used = self.cids();
        let mut c: u32 = first;
        while c < u32::MAX
            invariant
                first <= c,
                forall|cid: u32| used@.contains(cid) <==> cid_in_use(self@, cid),
                forall|d: u32| first <= d < c ==> cid_in_use(self@, d),
            decreases u32::MAX - c,
        {
            if !contains(&used, c) {
                return Some(c);
            }
            c += 1;
        }
        None
    }

    /// Keeps a new record and, if it needs one, gives it the lowest vsock
    /// address from `first` on that no record has.
    pub fn insert_with_cid(&mut self, vm: VmRecord, needs_cid: bool, first: u32) -> (r: Result<
        VmRecord,
        CidsExhausted,
    >)
        ensures
            final(self).file() == old(self).file(),
            match r {
                Ok(kept) => {
                    &&& final(self)@ == old(self)@.insert(kept@.id, kept@)
                    &&& kept@ == with_cid(vm@, kept@.guest_cid)
                    &&& if needs_cid {
                        kept@.guest_cid is Some && is_lowest_free(
                            old(self)@,
                            first,
                            kept@.guest_cid->0,
                        )
                    } else {
                        kept@.guest_cid is None
                    }
                },
                Err(_) => {
                    &&& needs_cid
                    &&& forall|c: u32| first <= c < u32::MAX ==> cid_in_use(old(self)@, c)
                    &&& final(self)@ == old(self)@
                },
            },
    {
        let mut vm = vm;
        if needs_cid {
            match self.free_cid(first) {
                Some(cid) => {
                    vm.guest_cid = Some(cid);
                },
                None => {
                    return Err(CidsExhausted);
                },
            }
        } else {
            vm.guest_cid = None;
        }
        let kept = vm.clone();
        self.insert(vm);
        Ok(kept)
    }
}

/// The records under their identifiers, later ones over earlier ones.
pub open spec fn entries_map(entries: Seq<(u128, VmRecord)>) -> Map<u128, VmRecordView>
    decreases entries.len(),
{
    if entries.len() == 0 {
        Map::empty()
    } else {
        entries_map(entries.drop_last()).insert(entries.last().0, entries.last().1@)
    }
}

fn contains(v: &Vec<u32>, x: u32) -> (r: bool)
    ensures
        r == v@.contains(x),
{
    let mut i: usize = 0;
    while i < v.len()
        invariant
            i <= v@.len(),
            forall|k: int| 0 <= k < i ==> v@[k] != x,
        decreases v@.len() - i,
    {
        if v[i] == x {
            return true;
        }
        i += 1;
    }
    false
}

proof fn lemma_insert_in_order(s: Seq<VmRecord>, x: VmRecord, j: int)
    requires
        0 <= j <= s.len(),
        by_age(text::views(s)),
        forall|k: int|
            0 <= k < j ==> (#[trigger] text::views(s)[k]).created_at.at_or_before(x@.created_at),
        forall|k: int|
            j <= k < s.len() ==> x.created_at.at_or_before((#[trigger] s[k]).created_at),
    ensures
        by_age(text::views(s.insert(j, x))),
{
    let v = text::views(s);
    let w = text::views(s.insert(j, x));
    assert forall|a: int, b: int| 0 <= a < b < w.len() implies (
    #[trigger] w[a]).created_at.at_or_before((#[trigger] w[b]).created_at) by {
        if b < j {
            assert(w[a] == v[a] && w[b] == v[b]);
        } else if a > j {
            assert(w[a] == v[a - 1] && w[b] == v[b - 1]);
        } else if a == j {
            assert(w[a] == x@ && w[b] == s[b - 1]@);
        } else if b == j {
            assert(w[a] == v[a] && w[b] == x@);
        } else {
            assert(w[a] == v[a] && w[b] == v[b - 1]);
        }
    }
}

proof fn lemma_insert_distinct(order: Seq<u128>, id: u128, j: int, ids: Seq<u128>, i: int)
    requires
        0 <= i < ids.len(),
        ids.no_duplicates(),
        ids[i] == id,
        order.no_duplicates(),
        0 <= j <= order.len(),
        forall|x: u128| order.contains(x) <==> ids.take(i).contains(x),
    ensures
        order.insert(j, id).no_duplicates(),
        forall|x: u128| order.insert(j, id).contains(x) <==> ids.take(i + 1).contains(x),
{
    let w = order.insert(j, id);
    assert(!order.contains(id)) by {
        if order.contains(id) {
            let k = choose|k: int| 0 <= k < ids.take(i).len() && ids.take(i)[k] == id;
            assert(ids[k] == ids[i]);
        }
    }
    assert forall|a: int, b: int| 0 <= a < w.len() && 0 <= b < w.len() && a != b implies w[a]
        != w[b] by {
        let oa = if a < j { a } else { a - 1 };
        let ob = if b < j { b } else { b - 1 };
        if a != j {
            assert(w[a] == order[oa]);
            assert(order.contains(w[a]));
        }
        if b != j {
            assert(w[b] == order[ob]);
            assert(order.contains(w[b]));
        }
    }
    let longer = ids.take(i + 1);
    assert forall|x: u128| w.contains(x) <==> longer.contains(x) by {
        assert(longer =~= ids.take(i).push(id));
        if w.contains(x) {
            let a = choose|a: int| 0 <= a < w.len() && w[a] == x;
            if a == j {
                assert(longer[i] == x);
            } else {
                let oa = if a < j { a } else { a - 1 };
                assert(order[oa] == x);
                assert(order.contains(x));
                let k = choose|k: int| 0 <= k < ids.take(i).len() && ids.take(i)[k] == x;
                assert(longer[k] == x);
            }
        }
        if longer.contains(x) {
            let k = choose|k: int| 0 <= k < longer.len() && longer[k] == x;
            if k == i {
                assert(w[j] == x);
            } else {
                assert(ids.take(i)[k] == x);
                assert(order.contains(x));
                let a = choose|a: int| 0 <= a < order.len() && order[a] == x;
                if a < j {
                    assert(w[a] == x);
                } else {
                    assert(w[a + 1] == x);
                }
            }
        }
    }
}

// ----------------------------------------------------------------------- pools

/// The warm pools, each under its own name.
pub struct PoolStore {
    inner: Vec<PoolRecord>,
}

/// No two pools share a name.
pub open spec fn names_distinct(pools: Seq<PoolRecordView>) -> bool {
    forall|i: int, j: int|
        0 <= i < j < pools.len() ==> (#[trigger] pools[i]).name != (#[trigger] pools[j]).name
}

/// Where the pool called `name` stands; the number of pools if there is none.
pub open spec fn pool_index(pools: Seq<PoolRecordView>, name: Seq<char>) -> int
    decreases pools.len(),
{
    if pools.len() == 0 || pools[0].name == name {
        0
    } else {
        1 + pool_index(pools.skip(1), name)
    }
}

/// The pool called `name`.
pub open spec fn pool_named(pools: Seq<PoolRecordView>, name: Seq<char>) -> Option<
    PoolRecordView,
> {
    if pool_index(pools, name) < pools.len() {
        Some(pools[pool_index(pools, name)])
    } else {
        None
    }
}

/// The pools with `pool` in place of the one of that name, or at the end.
pub open spec fn with_pool(pools: Seq<PoolRecordView>, pool: PoolRecordView) -> Seq<
    PoolRecordView,
> {
    let i = pool_index(pools, pool.name);
    if i < pools.len() {
        pools.update(i, pool)
    } else {
        pools.push(pool)
    }
}

/// The pools without the one called `name`.
pub open spec fn without_pool(pools: Seq<PoolRecordView>, name: Seq<char>) -> Seq<
    PoolRecordView,
> {
    let i = pool_index(pools, name);
    if i < pools.len() {
        pools.remove(i)
    } else {
        pools
    }
}

/// The pool with other members.
pub open spec fn with_members(pool: PoolRecordView, members: Seq<u128>) -> PoolRecordView {
    PoolRecordView { members, ..pool }
}

pub proof fn lemma_pool_index(pools: Seq<PoolRecordView>, name: Seq<char>)
    ensures
        0 <= pool_index(pools, name) <= pools.len(),
        pool_index(pools, name) < pools.len() ==> pools[pool_index(pools, name)].name == name,
        forall|i: int|
            0 <= i < pool_index(pools, name) ==> (#[trigger] pools[i]).name != name,
    decreases pools.len(),
{
    if pools.len() > 0 && pools[0].name != name {
        let rest = pools.skip(1);
        lemma_pool_index(rest, name);
        assert forall|i: int| 0 <= i < pool_index(pools, name) implies (#[trigger] pools[i]).name
            != name by {
            if i > 0 {
                assert(rest[i - 1] == pools[i]);
            }
        }
    }
}

proof fn lemma_pool_index_is(pools: Seq<PoolRecordView>, name: Seq<char>, k: int)
    requires
        0 <= k <= pools.len(),
        k < pools.len() ==> pools[k].name == name,
        forall|i: int| 0 <= i < k ==> (#[trigger] pools[i]).name != name,
    ensures
        pool_index(pools, name) == k,
{
    lemma_pool_index(pools, name);
    let p = pool_index(pools, name);
    if p < k {
        assert(pools[p].name != name);
    }
}

/// A pool that is set is found under its name, and the others are found as
/// before.
pub proof fn lemma_with_pool(pools: Seq<PoolRecordView>, pool: PoolRecordView, other: Seq<char>)
    ensures
        pool_named(with_pool(pools, pool), pool.name) == Some(pool),
        other != pool.name ==> pool_named(with_pool(pools, pool), other) == pool_named(
            pools,
            other,
        ),
{
    let k = pool_index(pools, pool.name);
    let more = with_pool(pools, pool);
    lemma_pool_index(pools, pool.name);
    assert forall|i: int| 0 <= i < k implies (#[trigger] more[i]).name != pool.name by {
        assert(more[i] == pools[i]);
    }
    lemma_pool_index_is(more, pool.name, k);
    if other != pool.name {
        lemma_pool_index(pools, other);
        let j = pool_index(pools, other);
        if j < pools.len() {
            assert(more[j] == pools[j]);
            assert forall|i: int| 0 <= i < j implies (#[trigger] more[i]).name != other by {
                assert(pools[i].name != other);
            }
            lemma_pool_index_is(more, other, j);
        } else {
            assert forall|i: int| 0 <= i < more.len() implies (#[trigger] more[i]).name != other by {
                if i < pools.len() {
                    assert(pools[i].name != other);
                }
            }
            lemma_pool_index_is(more, other, more.len() as int);
        }
    }
}

impl View for PoolStore {
    type V = Seq<PoolRecordView>;

    closed spec fn view(&self) -> Seq<PoolRecordView> {
        text::views(self.inner@)
    }
}

impl PoolStore {
    pub open spec fn wf(&self) -> bool {
        names_distinct(self@)
    }

    /// The pools that were read from a file. Of two with the same name the
    /// later one counts.
    pub fn load(records: Vec<PoolRecord>) -> (r: Self)
        ensures
            r.wf(),
            r@ == loaded(text::views(records@)),
    {
        let ghost all = text::views(records@);
        let mut store = PoolStore { inner: Vec::new() };
        proof {
            assert(all.take(0) =~= Seq::<PoolRecordView>::empty());
            assert(store@ =~= Seq::<PoolRecordView>::empty());
        }
        for p in it: records
            invariant
                text::views(it.seq()) == all,
                store.wf(),
                store@ == loaded(all.take(it.index())),
        {
            let ghost n = it.index();
            proof {
                assert(text::views(it.seq())[n] == p@);
                assert(all.take(n + 1).drop_last() =~= all.take(n));
                assert(all.take(n + 1).last() == p@);
            }
            store.insert(p);
        }
        proof {
            assert(all.take(all.len() as int) =~= all);
        }
        store
    }

    fn find(&self, name: &str) -> (r: usize)
        ensures
            r == pool_index(self@, name@),
            r <= self.inner@.len(),
    {
        let mut i: usize = 0;
        while i < self.inner.len()
            invariant
                i <= self.inner@.len(),
                forall|k: int| 0 <= k < i ==> (#[trigger] self@[k]).name != name@,
            decreases self.inner@.len() - i,
        {
            if same_text(self.inner[i].name.as_str(), name) {
                proof {
                    lemma_pool_index_is(self@, name@, i as int);
                }
                return i;
            }
            i += 1;
        }
        proof {
            lemma_pool_index_is(self@, name@, i as int);
        }
        i
    }

    pub fn get(&self, name: &str) -> (r: Option<PoolRecord>)
        ensures
            text::opt(r) == pool_named(self@, name@),
    {
        let i = self.find(name);
        if i < self.inner.len() {
            Some(self.inner[i].clone())
        } else {
            None
        }
    }

    /// Keeps a pool in place of the one with its name, if there is one.
    pub fn insert(&mut self, pool: PoolRecord)
        requires
            old(self).wf(),
        ensures
            final(self).wf(),
            final(self)@ == with_pool(old(self)@, pool@),
    {
        let i = self.find(pool.name.as_str());
        let ghost before = self@;
        let ghost added = pool@;
        proof {
            lemma_pool_index(before, added.name);
        }
        if i < self.inner.len() {
            self.inner.set(i, pool);
            proof {
                assert(self@ =~= before.update(i as int, added));
            }
        } else {
            self.inner.push(pool);
            proof {
                assert(self@ =~= before.push(added));
            }
        }
    }

    /// All pools.
    pub fn list(&self) -> (r: Vec<PoolRecord>)
        ensures
            text::views(r@) == self@,
    {
        let r = self.inner.clone();
        proof {
            assert(text::views(r@) =~= self@);
        }
        r
    }

    /// Drops a pool and gives it back, if there is one.
    pub fn remove(&mut self, name: &str) -> (r: Option<PoolRecord>)
        requires
            old(self).wf(),
        ensures
            final(self).wf(),
            final(self)@ == without_pool(old(self)@, name@),
            text::opt(r) == pool_named(old(self)@, name@),
    {
        let i = self.find(name);
        if i < self.inner.len() {
            let ghost before = self@;
            let pool = self.inner.remove(i);
            proof {
                assert(self@ =~= before.remove(i as int));
            }
            Some(pool)
        } else {
            None
        }
    }

    /// Takes the newest member out of a pool, if it has one.
    pub fn pop_member(&mut self, name: &str) -> (r: Option<u128>)
        requires
            old(self).wf(),
        ensures
            final(self).wf(),
            match r {
                Some(id) => {
                    &&& pool_named(old(self)@, name@) matches Some(p)
                    &&& p.members.len() > 0
                    &&& id == p.members.last()
                    &&& final(self)@ == with_pool(
                        old(self)@,
                        with_members(p, p.members.drop_last()),
                    )
                },
                None => {
                    &&& final(self)@ == old(self)@
                    &&& match pool_named(old(self)@, name@) {
                        Some(p) => p.members.len() == 0,
                        None => true,
                    }
                },
            },
    {
        match self.get(name) {
            Some(mut pool) => {
                proof {
                    lemma_pool_index(self@, name@);
                }
                match pool.members.pop() {
                    Some(id) => {
                        proof {
                            let p = pool_named(self@, name@)->0;
                            assert(pool@ == with_members(p, p.members.drop_last()));
                        }
                        self.insert(pool);
                        Some(id)
                    },
                    None => None,
                }
            },
            None => None,
        }
    }

    /// Puts a member into a pool. Says whether the pool is still there.
    pub fn push_member(&mut self, name: &str, id: u128) -> (r: bool)
        requires
            old(self).wf(),
        ensures
            final(self).wf(),
            r == (pool_named(old(self)@, name@) is Some),
            final(self)@ == match pool_named(old(self)@, name@) {
                Some(p) => with_pool(old(self)@, with_members(p, p.members.push(id))),
                None => old(self)@,
            },
    {
        match self.get(name) {
            Some(mut pool) => {
                pool.members.push(id);
                proof {
                    let p = pool_named(self@, name@)->0;
                    assert(pool@ == with_members(p, p.members.push(id)));
                }
                self.insert(pool);
                true
            },
            None => false,
        }
    }
}

/// The pools of a file, later ones over earlier ones of the same name.
pub open spec fn loaded(records: Seq<PoolRecordView>) -> Seq<PoolRecordView>
    decreases records.len(),
{
    if records.len() == 0 {
        Seq::empty()
    } else {
        with_pool(loaded(records.drop_last()), records.last())
    }
}

// ------------------------------------------------------------------------ laws

/// What was kept under an identifier is what is found under it, and everything
/// else stays as it was.
pub proof fn kept_is_found(m: Map<u128, VmRecordView>, vm: VmRecordView, other: u128)
    ensures
        m.insert(vm.id, vm).contains_key(vm.id),
        m.insert(vm.id, vm)[vm.id] == vm,
        other != vm.id ==> m.insert(vm.id, vm).contains_key(other) == m.contains_key(other),
        other != vm.id && m.contains_key(other) ==> m.insert(vm.id, vm)[other] == m[other],
{
}

/// What was removed is not found, and everything else stays as it was.
pub proof fn removed_is_gone(m: Map<u128, VmRecordView>, id: u128, other: u128)
    ensures
        !m.remove(id).contains_key(id),
        other != id ==> m.remove(id).contains_key(other) == m.contains_key(other),
        other != id && m.contains_key(other) ==> m.remove(id)[other] == m[other],
{
}

/// Records stay under their own identifiers whatever is kept or removed.
pub proof fn records_stay_keyed(m: Map<u128, VmRecordView>, vm: VmRecordView, id: u128)
    requires
        keyed(m),
    ensures
        keyed(m.insert(vm.id, vm)),
        keyed(m.remove(id)),
{
}

/// A new record that gets the lowest free address, or none, leaves all
/// addresses distinct.
pub proof fn addresses_stay_distinct(m: Map<u128, VmRecordView>, vm: VmRecordView, first: u32)
    requires
        cids_distinct(m),
        vm.guest_cid is Some ==> is_lowest_free(m, first, vm.guest_cid->0),
    ensures
        cids_distinct(m.insert(vm.id, vm)),
{
    let n = m.insert(vm.id, vm);
    assert forall|a: u128, b: u128|
        #[trigger] n.contains_key(a) && #[trigger] n.contains_key(b) && a != b
            && n[a].guest_cid is Some implies n[a].guest_cid != n[b].guest_cid by {
        if a == vm.id {
            assert(m.contains_key(b));
        } else {
            assert(m.contains_key(a));
            if b != vm.id {
                assert(m.contains_key(b));
            }
        }
    }
}

/// A change of a record that keeps its address, and a removal, leave all
/// addresses distinct.
pub proof fn updates_keep_addresses_distinct(
    m: Map<u128, VmRecordView>,
    vm: VmRecordView,
    id: u128,
)
    requires
        cids_distinct(m),
        keeps_address(m, vm),
    ensures
        cids_distinct(m.insert(vm.id, vm)),
        cids_distinct(m.remove(id)),
{
    let n = m.insert(vm.id, vm);
    assert forall|a: u128, b: u128|
        #[trigger] n.contains_key(a) && #[trigger] n.contains_key(b) && a != b
            && n[a].guest_cid is Some implies n[a].guest_cid != n[b].guest_cid by {
        if a == vm.id {
            assert(m.contains_key(b));
        } else {
            assert(m.contains_key(a));
            if b != vm.id {
                assert(m.contains_key(b));
            }
        }
    }
}

/// A listing has every record, and none twice.
pub proof fn listing_has_each_record_once(
    list: Seq<VmRecordView>,
    m: Map<u128, VmRecordView>,
    id: u128,
)
    requires
        keyed(m),
        is_listing(list, m),
    ensures
        m.contains_key(id) <==> exists|i: int| 0 <= i < list.len() && (#[trigger] list[i]).id == id,
        forall|i: int, j: int|
            0 <= i < j < list.len() ==> (#[trigger] list[i]).id != (#[trigger] list[j]).id,
        forall|i: int| 0 <= i < list.len() ==> m.contains_key((#[trigger] list[i]).id)
            && m[list[i].id] == list[i],
{
    let order = choose|order: Seq<u128>| #[trigger] lists_in_order(list, m, order);
    assert forall|i: int| 0 <= i < list.len() implies m.contains_key((#[trigger] list[i]).id)
        && m[list[i].id] == list[i] && list[i].id == order[i] by {
        assert(order.contains(order[i]));
    }
    if m.contains_key(id) {
        assert(order.contains(id));
        let i = choose|i: int| 0 <= i < order.len() && order[i] == id;
        assert(list[i].id == id);
    }
    assert forall|i: int, j: int| 0 <= i < j < list.len() implies (#[trigger] list[i]).id != (
    #[trigger] list[j]).id by {
        assert(list[i].id == order[i] && list[j].id == order[j]);
    }
}

proof fn lemma_entries_map(entries: Seq<(u128, VmRecord)>, m: Map<u128, VmRecordView>)
    requires
        forall|i: int|
            0 <= i < entries.len() ==> m.contains_key((#[trigger] entries[i]).0) && m[entries[i].0]
                == entries[i].1@,
    ensures
        forall|id: u128| #[trigger]
            entries_map(entries).contains_key(id) <==> exists|i: int|
                0 <= i < entries.len() && (#[trigger] entries[i]).0 == id,
        forall|id: u128| #[trigger]
            entries_map(entries).contains_key(id) ==> entries_map(entries)[id] == m[id],
    decreases entries.len(),
{
    if entries.len() > 0 {
        let rest = entries.drop_last();
        let n = entries.len() - 1;
        assert forall|i: int| 0 <= i < rest.len() implies m.contains_key((#[trigger] rest[i]).0)
            && m[rest[i].0] == rest[i].1@ by {
            assert(rest[i] == entries[i]);
        }
        lemma_entries_map(rest, m);
        assert(entries[n] == entries.last());
        assert forall|id: u128| #[trigger] entries_map(entries).contains_key(id) <==> exists|i: int|
            0 <= i < entries.len() && (#[trigger] entries[i]).0 == id by {
            if entries_map(rest).contains_key(id) {
                let i = choose|i: int| 0 <= i < rest.len() && (#[trigger] rest[i]).0 == id;
                assert(entries[i].0 == id);
            }
            if exists|i: int| 0 <= i < entries.len() && (#[trigger] entries[i]).0 == id {
                let i = choose|i: int| 0 <= i < entries.len() && (#[trigger] entries[i]).0 == id;
                if i < n {
                    assert(rest[i].0 == id);
                }
            }
        }
        assert forall|id: u128| #[trigger] entries_map(entries).contains_key(id) implies entries_map(
            entries,
        )[id] == m[id] by {
            if id != entries[n].0 {
                assert(entries_map(rest).contains_key(id));
            }
        }
    }
}

/// What was kept is what is there after it was written and read again: loading
/// the contents of a store gives the same store, and loading nothing an empty
/// one.
pub proof fn a_reload_gives_back_what_was_kept(
    entries: Seq<(u128, VmRecord)>,
    m: Map<u128, VmRecordView>,
)
    requires
        is_contents(entries, m),
    ensures
        entries_map(entries) == m,
        entries_map(Seq::empty()) == Map::<u128, VmRecordView>::empty(),
{
    lemma_entries_map(entries, m);
    assert(entries_map(entries) =~= m);
    assert(entries_map(Seq::empty()) =~= Map::<u128, VmRecordView>::empty());
}

/// Loading the records of a listing, each under its own identifier, gives the
/// same store.
pub proof fn a_listing_can_be_loaded(
    entries: Seq<(u128, VmRecord)>,
    list: Seq<VmRecordView>,
    m: Map<u128, VmRecordView>,
)
    requires
        keyed(m),
        is_listing(list, m),
        entries.len() == list.len(),
        forall|i: int|
            0 <= i < list.len() ==> (#[trigger] entries[i]).0 == list[i].id && entries[i].1@
                == list[i],
    ensures
        entries_map(entries) == m,
{
    assert forall|id: u128| #[trigger] m.contains_key(id) implies exists|i: int|
        0 <= i < entries.len() && (#[trigger] entries[i]).0 == id by {
        listing_has_each_record_once(list, m, id);
        let i = choose|i: int| 0 <= i < list.len() && (#[trigger] list[i]).id == id;
        assert(entries[i].0 == id);
    }
    listing_has_each_record_once(list, m, 0);
    assert forall|i: int| 0 <= i < entries.len() implies m.contains_key((#[trigger] entries[i]).0)
        && m[entries[i].0] == entries[i].1@ by {
        assert(m[list[i].id] == list[i]);
    }
    assert forall|i: int, j: int| 0 <= i < j < entries.len() implies (#[trigger] entries[i]).0 != (
    #[trigger] entries[j]).0 by {
        assert(list[i].id != list[j].id);
    }
    a_reload_gives_back_what_was_kept(entries, m);
}

/// Pools that were written are read as they were.
pub proof fn pools_are_loaded_as_they_were(pools: Seq<PoolRecordView>)
    requires
        names_distinct(pools),
    ensures
        loaded(pools) == pools,
    decreases pools.len(),
{
    if pools.len() > 0 {
        let rest = pools.drop_last();
        assert forall|i: int, j: int| 0 <= i < j < rest.len() implies (#[trigger] rest[i]).name != (
        #[trigger] rest[j]).name by {
            assert(rest[i] == pools[i] && rest[j] == pools[j]);
        }
        pools_are_loaded_as_they_were(rest);
        assert forall|i: int| 0 <= i < rest.len() implies (#[trigger] rest[i]).name
            != pools.last().name by {
            assert(rest[i] == pools[i]);
            assert(pools[i].name != pools[pools.len() - 1].name);
        }
        lemma_pool_index_is(rest, pools.last().name, rest.len() as int);
    }
    assert(loaded(pools) =~= pools);
}

/// Some pool has `id` as a member.
pub open spec fn is_member(pools: Seq<PoolRecordView>, id: u128) -> bool {
    exists|i: int| 0 <= i < pools.len() && (#[trigger] pools[i]).members.contains(id)
}

/// No machine is a member twice, in one pool or in two.
pub open spec fn members_distinct(pools: Seq<PoolRecordView>) -> bool {
    &&& forall|i: int| 0 <= i < pools.len() ==> (#[trigger] pools[i]).members.no_duplicates()
    &&& forall|i: int, j: int, id: u128|
        0 <= i < j < pools.len() && #[trigger] pools[i].members.contains(id)
            ==> !#[trigger] pools[j].members.contains(id)
}

/// A member that was taken out of a pool is in no pool any more, so nobody else
/// gets it.
pub proof fn no_member_is_handed_out_twice(pools: Seq<PoolRecordView>, name: Seq<char>)
    requires
        names_distinct(pools),
        members_distinct(pools),
        pool_named(pools, name) is Some,
        (pool_named(pools, name)->0).members.len() > 0,
    ensures
        ({
            let p = pool_named(pools, name)->0;
            let rest = with_pool(pools, with_members(p, p.members.drop_last()));
            !is_member(rest, p.members.last()) && members_distinct(rest)
        }),
{
    lemma_pool_index(pools, name);
    let k = pool_index(pools, name);
    let p = pools[k];
    let id = p.members.last();
    let fewer = p.members.drop_last();
    let rest = with_pool(pools, with_members(p, fewer));
    assert(rest == pools.update(k, with_members(p, fewer)));
    assert(p.members.contains(id)) by {
        assert(p.members[p.members.len() - 1] == id);
    }
    assert forall|x: u128| fewer.contains(x) implies p.members.contains(x) && x != id by {
        let i = choose|i: int| 0 <= i < fewer.len() && fewer[i] == x;
        assert(p.members[i] == x);
        assert(p.members[p.members.len() - 1] == id);
    }
    assert(fewer.no_duplicates()) by {
        assert forall|i: int, j: int| 0 <= i < fewer.len() && 0 <= j < fewer.len() && i != j implies
            fewer[i] != fewer[j] by {
            assert(p.members[i] != p.members[j]);
        }
    }
    assert forall|i: int| 0 <= i < rest.len() implies !(#[trigger] rest[i]).members.contains(
        id,
    ) by {
        if i < k {
            assert(pools[i].members.contains(id) ==> !pools[k].members.contains(id));
        } else if i > k {
            assert(pools[k].members.contains(id) ==> !pools[i].members.contains(id));
        }
    }
    assert forall|i: int| 0 <= i < rest.len() implies (
    #[trigger] rest[i]).members.no_duplicates() by {
        if i != k {
            assert(rest[i] == pools[i]);
            assert(pools[i].members.no_duplicates());
        }
    }
    assert forall|i: int, j: int, x: u128|
        0 <= i < j < rest.len() && #[trigger] rest[i].members.contains(x) implies !#[trigger] rest[j].members.contains(
    x) by {
        assert(pools[i].members.contains(x));
        assert(!pools[j].members.contains(x));
    }
}

/// A machine that is in no pool can be put into one without being a member
/// twice.
pub proof fn a_new_member_is_a_member_once(
    pools: Seq<PoolRecordView>,
    name: Seq<char>,
    id: u128,
)
    requires
        names_distinct(pools),
        members_distinct(pools),
        !is_member(pools, id),
        pool_named(pools, name) is Some,
    ensures
        ({
            let p = pool_named(pools, name)->0;
            let more = with_pool(pools, with_members(p, p.members.push(id)));
            is_member(more, id) && members_distinct(more)
        }),
{
    lemma_pool_index(pools, name);
    let k = pool_index(pools, name);
    let p = pools[k];
    let grown = p.members.push(id);
    let more = with_pool(pools, with_members(p, grown));
    assert(more == pools.update(k, with_members(p, grown)));
    assert(grown[p.members.len() as int] == id);
    assert(more[k].members.contains(id));
    assert forall|x: u128| grown.contains(x) implies p.members.contains(x) || x == id by {
        let i = choose|i: int| 0 <= i < grown.len() && grown[i] == x;
        if i < p.members.len() {
            assert(p.members[i] == x);
        }
    }
    assert(grown.no_duplicates()) by {
        assert(!p.members.contains(id)) by {
            assert(pools[k].members.contains(id) ==> is_member(pools, id));
        }
        assert(p.members.no_duplicates());
        assert forall|i: int, j: int| 0 <= i < grown.len() && 0 <= j < grown.len() && i != j implies
            grown[i] != grown[j] by {
            if i < p.members.len() {
                assert(p.members.contains(p.members[i]));
            }
            if j < p.members.len() {
                assert(p.members.contains(p.members[j]));
            }
        }
    }
    assert forall|i: int| 0 <= i < more.len() implies (
    #[trigger] more[i]).members.no_duplicates() by {
        if i != k {
            assert(more[i] == pools[i]);
            assert(pools[i].members.no_duplicates());
        }
    }
    assert forall|i: int, j: int, x: u128|
        0 <= i < j < more.len() && #[trigger] more[i].members.contains(x) implies !#[trigger] more[j].members.contains(
    x) by {
        if x == id {
            assert(i == k || !pools[i].members.contains(id));
            assert(j == k || !pools[j].members.contains(id));
        } else {
            assert(pools[i].members.contains(x));
            assert(!pools[j].members.contains(x));
        }
    }
}

/// A pool that is dropped leaves no machine a member twice.
pub proof fn a_dropped_pool_leaves_members_distinct(pools: Seq<PoolRecordView>, name: Seq<char>)
    requires
        members_distinct(pools),
    ensures
        members_distinct(without_pool(pools, name)),
{
    lemma_pool_index(pools, name);
    let k = pool_index(pools, name);
    let fewer = without_pool(pools, name);
    if k < pools.len() {
        assert forall|i: int| 0 <= i < fewer.len() implies (
        #[trigger] fewer[i]).members.no_duplicates() by {
            let a = if i < k { i } else { i + 1 };
            assert(fewer[i] == pools[a]);
            assert(pools[a].members.no_duplicates());
        }
        assert forall|i: int, j: int, x: u128|
            0 <= i < j < fewer.len() && #[trigger] fewer[i].members.contains(x) implies !#[trigger] fewer[j].members.contains(
        x) by {
            let a = if i < k { i } else { i + 1 };
            let b = if j < k { j } else { j + 1 };
            assert(fewer[i] == pools[a] && fewer[j] == pools[b]);
            assert(pools[a].members.contains(x));
            assert(!pools[b].members.contains(x));
        }
    }
}

/// A new pool without members leaves no machine a member twice.
pub proof fn an_empty_pool_leaves_members_distinct(
    pools: Seq<PoolRecordView>,
    fresh: PoolRecordView,
)
    requires
        members_distinct(pools),
        fresh.members.len() == 0,
    ensures
        members_distinct(pools.push(fresh)),
{
    let more = pools.push(fresh);
    assert forall|i: int| 0 <= i < more.len() implies (
    #[trigger] more[i]).members.no_duplicates() by {
        if i < pools.len() {
            assert(more[i] == pools[i]);
            assert(pools[i].members.no_duplicates());
        }
    }
    assert forall|i: int, j: int, x: u128|
        0 <= i < j < more.len() && #[trigger] more[i].members.contains(x) implies !#[trigger] more[j].members.contains(
    x) by {
        if j < pools.len() {
            assert(pools[i].members.contains(x));
            assert(!pools[j].members.contains(x));
        }
    }
}

/// A pool that was dropped is not found any more, and the others are found as
/// before.
pub proof fn a_dropped_pool_is_gone(
    pools: Seq<PoolRecordView>,
    name: Seq<char>,
    other: Seq<char>,
)
    requires
        names_distinct(pools),
    ensures
        pool_named(without_pool(pools, name), name) is None,
        other != name ==> pool_named(without_pool(pools, name), other) == pool_named(pools, other),
        pool_named(pools, name) is Some ==> without_pool(pools, name).len() == pools.len() - 1,
        pool_named(pools, name) is None ==> without_pool(pools, name) == pools,
{
    let k = pool_index(pools, name);
    let fewer = without_pool(pools, name);
    lemma_pool_index(pools, name);
    assert forall|i: int| 0 <= i < fewer.len() implies (#[trigger] fewer[i]).name != name by {
        if k < pools.len() {
            if i < k {
                assert(fewer[i] == pools[i]);
            } else {
                assert(fewer[i] == pools[i + 1]);
                assert(pools[k].name != pools[i + 1].name);
            }
        } else {
            assert(fewer[i] == pools[i]);
        }
    }
    lemma_pool_index_is(fewer, name, fewer.len() as int);
    if other != name && k < pools.len() {
        lemma_pool_index(pools, other);
        let j = pool_index(pools, other);
        let at = if j < k {
            j
        } else {
            j - 1
        };
        assert(j != k);
        assert forall|i: int| 0 <= i < at implies (#[trigger] fewer[i]).name != other by {
            if i < k {
                assert(fewer[i] == pools[i]);
            } else {
                assert(fewer[i] == pools[i + 1]);
            }
        }
        if at < fewer.len() {
            assert(fewer[at] == pools[j]);
        }
        lemma_pool_index_is(fewer, other, at);
    }
}

/// A pool is found if and only if there is one of that name, and it has that name.
pub proof fn a_pool_is_found_by_its_name(pools: Seq<PoolRecordView>, name: Seq<char>)
    ensures
        pool_named(pools, name) is Some <==> exists|i: int|
            0 <= i < pools.len() && (#[trigger] pools[i]).name == name,
        pool_named(pools, name) matches Some(p) ==> p.name == name && pools.contains(p),
{
    lemma_pool_index(pools, name);
    let k = pool_index(pools, name);
    if k < pools.len() {
        assert(pools[k].name == name);
    }
}

/// Other members leave the rest of a pool as it is.
pub proof fn members_are_all_that_changes(pool: PoolRecordView, members: Seq<u128>)
    ensures
        with_members(pool, members).members == members,
        with_members(pool, members).name == pool.name,
        with_members(pool, members).size == pool.size,
        with_members(pool, members).template == pool.template,
{
}

/// An address leaves the rest of a record as it is.
pub proof fn an_address_is_all_that_is_added(vm: VmRecordView, cid: Option<u32>)
    ensures
        with_cid(vm, cid).guest_cid == cid,
        with_cid(vm, cid) == (VmRecordView { guest_cid: with_cid(vm, cid).guest_cid, ..vm }),
{
}

/// The address that a machine gets is free, and every lower one from the first on
/// is taken.
pub proof fn the_lowest_free_address_is_given(
    m: Map<u128, VmRecordView>,
    first: u32,
    cid: u32,
    other: u32,
)
    requires
        is_lowest_free(m, first, cid),
    ensures
        first <= cid < u32::MAX,
        forall|id: u128| #[trigger] m.contains_key(id) ==> m[id].guest_cid != Some(cid),
        first <= other < cid ==> exists|id: u128| #[trigger]
            m.contains_key(id) && m[id].guest_cid == Some(other),
        is_lowest_free(m, first, other) ==> other == cid,
{
    if first <= other < cid {
        assert(cid_in_use(m, other));
    }
    if is_lowest_free(m, first, other) && cid < other {
        assert(cid_in_use(m, cid));
    }
}

/// Of several records under one identifier the last one is loaded, and nothing is
/// loaded that was not there.
pub proof fn the_last_record_counts(entries: Seq<(u128, VmRecord)>, k: int, id: u128)
    requires
        0 <= k < entries.len(),
        forall|i: int| k < i < entries.len() ==> (#[trigger] entries[i]).0 != entries[k].0,
    ensures
        entries_map(entries).contains_key(entries[k].0),
        entries_map(entries)[entries[k].0] == entries[k].1@,
        entries_map(entries).contains_key(id) ==> exists|i: int|
            0 <= i < entries.len() && (#[trigger] entries[i]).0 == id,
    decreases entries.len(),
{
    let n = entries.len() - 1;
    let rest = entries.drop_last();
    if k < n {
        assert forall|i: int| k < i < rest.len() implies (#[trigger] rest[i]).0 != rest[k].0 by {
            assert(rest[i] == entries[i]);
        }
        the_last_record_counts(rest, k, id);
        assert(entries[n].0 != entries[k].0);
    }
    lemma_only_entries_are_loaded(entries, id);
}

proof fn lemma_only_entries_are_loaded(entries: Seq<(u128, VmRecord)>, id: u128)
    ensures
        entries_map(entries).contains_key(id) ==> exists|i: int|
            0 <= i < entries.len() && (#[trigger] entries[i]).0 == id,
    decreases entries.len(),
{
    if entries.len() > 0 && entries_map(entries).contains_key(id) {
        let rest = entries.drop_last();
        lemma_only_entries_are_loaded(rest, id);
        if entries.last().0 == id {
            assert(entries[entries.len() - 1].0 == id);
        } else {
            let i = choose|i: int| 0 <= i < rest.len() && (#[trigger] rest[i]).0 == id;
            assert(entries[i].0 == id);
        }
    }
}

/// A listing shows older machines before newer ones.
pub proof fn older_machines_come_first(
    list: Seq<VmRecordView>,
    m: Map<u128, VmRecordView>,
    i: int,
    j: int,
)
    requires
        is_listing(list, m),
        0 <= i < j < list.len(),
    ensures
        list[i].created_at.secs <= list[j].created_at.secs,
        list[i].created_at.secs == list[j].created_at.secs ==> list[i].created_at.nanos
            <= list[j].created_at.nanos,
{
}

/// Of several pools with one name the last one is loaded.
pub proof fn the_last_pool_counts(records: Seq<PoolRecordView>, k: int)
    requires
        0 <= k < records.len(),
        forall|i: int| k < i < records.len() ==> (#[trigger] records[i]).name != records[k].name,
    ensures
        pool_named(loaded(records), records[k].name) == Some(records[k]),
    decreases records.len(),
{
    let rest = records.drop_last();
    let last = records.last();
    lemma_with_pool(loaded(rest), last, records[k].name);
    if k < rest.len() {
        assert forall|i: int| k < i < rest.len() implies (#[trigger] rest[i]).name
            != rest[k].name by {
            assert(rest[i] == records[i]);
        }
        the_last_pool_counts(rest, k);
        assert(records[records.len() - 1].name != records[k].name);
    }
}

/// A pool that is set is found under its name, in place of the one that had it;
/// the others are found as before, and there is one more only if there was none.
pub proof fn a_pool_replaces_its_namesake(
    pools: Seq<PoolRecordView>,
    pool: PoolRecordView,
    other: Seq<char>,
)
    ensures
        pool_named(with_pool(pools, pool), pool.name) == Some(pool),
        other != pool.name ==> pool_named(with_pool(pools, pool), other) == pool_named(
            pools,
            other,
        ),
        with_pool(pools, pool).len() == if pool_named(pools, pool.name) is Some {
            pools.len()
        } else {
            pools.len() + 1
        },
{
    lemma_with_pool(pools, pool, other);
    lemma_pool_index(pools, pool.name);
}

} // verus!
