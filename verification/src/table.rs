use vstd::prelude::*;

use crate::asset::Asset;

verus! {

/// Whether some entry of `s` carries the address `addr`.
pub open spec fn seq_has_addr(s: Seq<Asset>, addr: Seq<char>) -> bool {
    exists|i: int| 0 <= i < s.len() && s[i].address@ == addr
}

/// The index of the entry of `s` carrying `addr` (meaningful when
/// `seq_has_addr(s, addr)` holds and addresses in `s` are unique).
pub open spec fn seq_addr_index(s: Seq<Asset>, addr: Seq<char>) -> int {
    choose|i: int| 0 <= i < s.len() && s[i].address@ == addr
}

/// The entry of `s` carrying `addr`, if any.
pub open spec fn seq_lookup(s: Seq<Asset>, addr: Seq<char>) -> Option<Asset> {
    if seq_has_addr(s, addr) {
        Some(s[seq_addr_index(s, addr)])
    } else {
        None
    }
}

/// Addresses are unique keys: no two entries carry the same address.
pub open spec fn seq_addrs_unique(s: Seq<Asset>) -> bool {
    forall|i: int, j: int|
        0 <= i < j < s.len() ==> s[i].address@ != s[j].address@
}

pub proof fn lemma_lookup_at(s: Seq<Asset>, i: int)
    requires
        seq_addrs_unique(s),
        0 <= i < s.len(),
    ensures
        seq_lookup(s, s[i].address@) == Some(s[i]),
{
    let addr = s[i].address@;
    assert(seq_has_addr(s, addr));
    let j = seq_addr_index(s, addr);
    if i != j {
        assert(s[i].address@ != s[j].address@);
    }
}

/// A backend's asset table: a mapping from address to asset with unique
/// keys and no significant order, mutated by registration and removal and
/// read by the fetch cycle.
pub struct AssetTable {
    assets: Vec<Asset>,
}

impl AssetTable {
    /// The table's entries. Order carries no meaning; the table is read
    /// through `spec_lookup`.
    pub closed spec fn spec_assets(self) -> Seq<Asset> {
        self.assets@
    }

    /// Key uniqueness, established by `new` and kept by every method.
    pub open spec fn wf(self) -> bool {
        seq_addrs_unique(self.spec_assets())
    }

    pub open spec fn spec_lookup(self, addr: Seq<char>) -> Option<Asset> {
        seq_lookup(self.spec_assets(), addr)
    }

    pub fn new() -> (r: AssetTable)
        ensures
            r.wf(),
            r.spec_assets() == Seq::<Asset>::empty(),
            forall|a: Seq<char>| r.spec_lookup(a) is None,
    {
        let t = AssetTable { assets: Vec::new() };
        proof {
            assert(t.spec_assets() =~= Seq::<Asset>::empty());
        }
        t
    }

    pub fn len(&self) -> (r: usize)
        ensures
            r == self.spec_assets().len(),
    {
        self.assets.len()
    }

    pub fn is_empty(&self) -> (r: bool)
        ensures
            r == (self.spec_assets().len() == 0),
    {
        self.assets.len() == 0
    }

    /// A view of the entries, for building one batched outbound request.
    pub fn entries(&self) -> (r: &Vec<Asset>)
        ensures
            r@ == self.spec_assets(),
    {
        &self.assets
    }

    fn find_index(&self, addr: &str) -> (r: Option<usize>)
        ensures
            match r {
                Some(i) => i < self.spec_assets().len() && self.spec_assets()[i as int].address@
                    == addr@,
                None => !seq_has_addr(self.spec_assets(), addr@),
            },
    {
        let n = self.assets.len();
        let mut i: usize = 0;
        while i < n
            invariant
                i <= n,
                n == self.spec_assets().len(),
                forall|j: int| 0 <= j < i ==> self.spec_assets()[j].address@ != addr@,
            decreases n - i,
        {
            if crate::ident::str_eq(self.assets[i].address.as_str(), addr) {
                return Some(i);
            }
            i = i + 1;
        }
        None
    }

    /// Registers an asset; on a duplicate address the last write wins.
    /// Always succeeds.
    pub fn add_asset(&mut self, asset: Asset)
        requires
            old(self).wf(),
        ensures
            final(self).wf(),
            final(self).spec_lookup(asset.address@) == Some(asset),
            forall|a: Seq<char>|
                a != asset.address@ ==> final(self).spec_lookup(a) == old(self).spec_lookup(a),
            final(self).spec_assets().len() == if seq_has_addr(
                old(self).spec_assets(),
                asset.address@,
            ) {
                old(self).spec_assets().len()
            } else {
                old(self).spec_assets().len() + 1
            },
    {
        let ghost s0 = self.spec_assets();
        let ghost addr = asset.address@;
        match self.find_index(asset.address.as_str()) {
            Some(i) => {
                self.assets[i] = asset;
                proof {
                    let s1 = self.spec_assets();
                    assert(s1 =~= s0.update(i as int, asset));
                    assert forall|p: int, q: int| 0 <= p < q < s1.len() implies s1[p].address@
                        != s1[q].address@ by {
                        assert(s0[p].address@ != s0[q].address@);
                    }
                    lemma_lookup_at(s1, i as int);
                    assert forall|a: Seq<char>| a != addr implies seq_lookup(s1, a) == seq_lookup(
                        s0,
                        a,
                    ) by {
                        Self::lemma_lookup_update_other(s0, s1, i as int, a);
                    }
                }
            },
            None => {
                self.assets.push(asset);
                proof {
                    let s1 = self.spec_assets();
                    assert(s1 =~= s0.push(asset));
                    assert forall|p: int, q: int| 0 <= p < q < s1.len() implies s1[p].address@
                        != s1[q].address@ by {
                        if q < s0.len() {
                            assert(s0[p].address@ != s0[q].address@);
                        } else {
                            assert(s1[q] == asset);
                            assert(s0[p].address@ != addr);
                        }
                    }
                    lemma_lookup_at(s1, s0.len() as int);
                    assert forall|a: Seq<char>| a != addr implies seq_lookup(s1, a) == seq_lookup(
                        s0,
                        a,
                    ) by {
                        Self::lemma_lookup_update_other(s0, s1, s0.len() as int, a);
                    }
                }
            },
        }
    }

    /// Lookup and update at every position but `i` agree, so every address
    /// other than the one written at `i` resolves as before.
    proof fn lemma_lookup_update_other(s0: Seq<Asset>, s1: Seq<Asset>, i: int, a: Seq<char>)
        requires
            seq_addrs_unique(s0),
            s0.len() <= s1.len() <= s0.len() + 1,
            0 <= i < s1.len(),
            forall|j: int| 0 <= j < s1.len() && j != i ==> j < s0.len() && s1[j] == s0[j],
            s1[i].address@ != a,
            i < s0.len() ==> s0[i].address@ != a,
        ensures
            seq_lookup(s1, a) == seq_lookup(s0, a),
    {
        if seq_has_addr(s0, a) {
            let j = seq_addr_index(s0, a);
            assert(j != i);
            assert(s1[j].address@ == a);
            assert(seq_has_addr(s1, a));
            let k = seq_addr_index(s1, a);
            assert(k != i);
            assert(s0[k].address@ == a);
            assert(seq_lookup(s0, a) == Some(s0[seq_addr_index(s0, a)]));
        } else {
            if seq_has_addr(s1, a) {
                let k = seq_addr_index(s1, a);
                assert(k != i);
                assert(s0[k].address@ == a);
            }
        }
    }

    /// Removes the asset registered under `asset_address`, if any.
    /// Always succeeds; removing an absent address is a no-op.
    pub fn remove_asset(&mut self, asset_address: &str)
        requires
            old(self).wf(),
        ensures
            final(self).wf(),
            final(self).spec_lookup(asset_address@) is None,
            forall|a: Seq<char>|
                a != asset_address@ ==> final(self).spec_lookup(a) == old(self).spec_lookup(a),
    {
        let ghost s0 = self.spec_assets();
        let ghost addr = asset_address@;
        match self.find_index(asset_address) {
            Some(i) => {
                self.assets.remove(i);
                proof {
                    let s1 = self.spec_assets();
                    assert(s1 =~= s0.subrange(0, i as int) + s0.subrange(
                        i + 1,
                        s0.len() as int,
                    ));
                    assert forall|p: int, q: int| 0 <= p < q < s1.len() implies s1[p].address@
                        != s1[q].address@ by {
                        let p0 = if p < i { p } else { p + 1 };
                        let q0 = if q < i { q } else { q + 1 };
                        assert(s1[p] == s0[p0]);
                        assert(s1[q] == s0[q0]);
                        assert(s0[p0].address@ != s0[q0].address@);
                    }
                    if seq_has_addr(s1, addr) {
                        let k = seq_addr_index(s1, addr);
                        let k0 = if k < i as int { k } else { k + 1 };
                        assert(s1[k] == s0[k0]);
                        assert(s0[k0].address@ == addr);
                        assert(s0[i as int].address@ == addr);
                        assert(k0 != i as int);
                    }
                    assert forall|a: Seq<char>| a != addr implies seq_lookup(s1, a) == seq_lookup(
                        s0,
                        a,
                    ) by {
                        Self::lemma_lookup_remove_other(s0, s1, i as int, a);
                    }
                }
            },
            None => {
                proof {
                    assert(self.spec_lookup(addr) is None);
                }
            },
        }
    }

    proof fn lemma_lookup_remove_other(s0: Seq<Asset>, s1: Seq<Asset>, i: int, a: Seq<char>)
        requires
            seq_addrs_unique(s0),
            0 <= i < s0.len(),
            s1.len() == s0.len() - 1,
            forall|j: int| 0 <= j < i ==> s1[j] == s0[j],
            forall|j: int| i <= j < s1.len() ==> s1[j] == s0[j + 1],
            s0[i].address@ != a,
        ensures
            seq_lookup(s1, a) == seq_lookup(s0, a),
    {
        if seq_has_addr(s0, a) {
            let j = seq_addr_index(s0, a);
            assert(j != i);
            let j1 = if j < i { j } else { j - 1 };
            assert(s1[j1] == s0[j]);
            assert(seq_has_addr(s1, a));
            let k = seq_addr_index(s1, a);
            let k0 = if k < i { k } else { k + 1 };
            assert(s1[k] == s0[k0]);
            assert(seq_lookup(s1, a) == Some(s0[k0]));
            assert(seq_lookup(s0, a) == Some(s0[j]));
        } else {
            if seq_has_addr(s1, a) {
                let k = seq_addr_index(s1, a);
                let k0 = if k < i { k } else { k + 1 };
                assert(s1[k] == s0[k0]);
                assert(seq_has_addr(s0, a));
            }
        }
    }

    /// The asset registered under `addr`, as the table holds it now.
    pub fn lookup(&self, addr: &str) -> (r: Option<Asset>)
        requires
            self.wf(),
        ensures
            r == self.spec_lookup(addr@),
    {
        match self.find_index(addr) {
            Some(i) => {
                proof {
                    lemma_lookup_at(self.spec_assets(), i as int);
                }
                Some(self.assets[i].clone())
            },
            None => None,
        }
    }

    /// A read-consistent snapshot of the table, taken by the fetch cycle
    /// before it leaves for the network: later mutation of the table does
    /// not change the snapshot.
    pub fn snapshot(&self) -> (r: AssetTable)
        ensures
            r.spec_assets() == self.spec_assets(),
            r.wf() == self.wf(),
    {
        let n = self.assets.len();
        let mut copy: Vec<Asset> = Vec::new();
        let mut i: usize = 0;
        while i < n
            invariant
                i <= n,
                n == self.assets@.len(),
                copy@ =~= self.assets@.take(i as int),
            decreases n - i,
        {
            copy.push(self.assets[i].clone());
            proof {
                assert(copy@ =~= self.assets@.take(i + 1));
            }
            i = i + 1;
        }
        let r = AssetTable { assets: copy };
        proof {
            assert(r.spec_assets() =~= self.spec_assets());
        }
        r
    }
}

} // verus!
