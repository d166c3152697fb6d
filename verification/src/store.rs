//! The per-owner voucher store: an id-indexed collection per owner, with
//! explicit in-place update.  Every mutation is all-or-nothing and the model
//! of every other owner's collection is untouched by it.

use vstd::prelude::*;

use vstd::pervasive::VecAdditionalExecFns;

use crate::errors::VoucherError;
use crate::voucher::{Voucher, VoucherModel};

verus! {

/// Names of the two persisted collections in a host's storage layout: the
/// owner index and one owner's voucher set.
pub enum StorageKeys {
    Vouchers,
    AccountVouchers,
}

/// One owner's vouchers, keyed by voucher id.
struct OwnerVouchers {
    owner: String,
    vouchers: Vec<Voucher>,
}

/// The models of a sequence of voucher records.
pub open spec fn models_of(vs: Seq<Voucher>) -> Seq<VoucherModel> {
    vs.map_values(|v: Voucher| v@)
}

/// Index of the first voucher with the given id, or -1 when there is none.
pub open spec fn find_voucher(s: Seq<VoucherModel>, id: Seq<char>) -> int
    decreases s.len(),
{
    if s.len() == 0 {
        -1
    } else if s[0].id == id {
        0
    } else if find_voucher(s.drop_first(), id) == -1 {
        -1
    } else {
        1 + find_voucher(s.drop_first(), id)
    }
}

/// What `find_voucher` returns: -1 exactly when the id is absent, otherwise
/// the first index carrying it.
pub proof fn lemma_find_voucher_props(s: Seq<VoucherModel>, id: Seq<char>)
    ensures
        -1 <= find_voucher(s, id) < s.len(),
        find_voucher(s, id) == -1 ==> (forall|i: int| 0 <= i < s.len() ==> s[i].id != id),
        find_voucher(s, id) >= 0 ==> s[find_voucher(s, id)].id == id && (forall|j: int|
            0 <= j < find_voucher(s, id) ==> s[j].id != id),
    decreases s.len(),
{
    if s.len() == 0 {
    } else if s[0].id == id {
    } else {
        lemma_find_voucher_props(s.drop_first(), id);
        let f = find_voucher(s, id);
        if f == -1 {
            assert forall|i: int| 0 <= i < s.len() implies s[i].id != id by {
                if i > 0 {
                    assert(s.drop_first()[i - 1] == s[i]);
                }
            }
        } else {
            assert(s.drop_first()[f - 1] == s[f]);
            assert forall|j: int| 0 <= j < f implies s[j].id != id by {
                if j > 0 {
                    assert(s.drop_first()[j - 1] == s[j]);
                }
            }
        }
    }
}

/// When `k` is the first index whose voucher carries the id, `find_voucher`
/// returns `k`.
proof fn lemma_find_voucher_at(s: Seq<VoucherModel>, id: Seq<char>, k: int)
    requires
        0 <= k < s.len(),
        s[k].id == id,
        forall|j: int| 0 <= j < k ==> s[j].id != id,
    ensures
        find_voucher(s, id) == k,
    decreases k,
{
    if k == 0 {
    } else {
        assert(s.drop_first()[k - 1] == s[k]);
        assert forall|j: int| 0 <= j < k - 1 implies s.drop_first()[j].id != id by {
            assert(s.drop_first()[j] == s[j + 1]);
        }
        lemma_find_voucher_at(s.drop_first(), id, k - 1);
    }
}

/// A sequence of voucher models that is fit to be one owner's collection:
/// every voucher well-formed, ids pairwise distinct.
pub open spec fn seq_vouchers_wf(s: Seq<VoucherModel>) -> bool {
    &&& forall|i: int| 0 <= i < s.len() ==> (#[trigger] s[i]).wf()
    &&& forall|k: int, l: int| 0 <= k < l < s.len() ==> s[k].id != s[l].id
}

/// The vouchers of the first entry with the given owner, or empty when the
/// owner is absent (absence is equivalent to an empty collection).
spec fn vouchers_in(entries: Seq<OwnerVouchers>, owner: Seq<char>) -> Seq<VoucherModel>
    decreases entries.len(),
{
    if entries.len() == 0 {
        Seq::empty()
    } else if entries[0].owner@ == owner {
        models_of(entries[0].vouchers@)
    } else {
        vouchers_in(entries.drop_first(), owner)
    }
}

/// An owner entry fit for the store.
spec fn entry_wf(e: OwnerVouchers) -> bool {
    seq_vouchers_wf(models_of(e.vouchers@))
}

/// Skipping a prefix with no matching owner leaves the lookup unchanged.
proof fn lemma_vouchers_in_skip(entries: Seq<OwnerVouchers>, owner: Seq<char>, k: int)
    requires
        0 <= k <= entries.len(),
        forall|j: int| 0 <= j < k ==> entries[j].owner@ != owner,
    ensures
        vouchers_in(entries, owner) == vouchers_in(entries.skip(k), owner),
    decreases k,
{
    if k > 0 {
        assert(entries[0].owner@ != owner);
        assert(vouchers_in(entries, owner) == vouchers_in(entries.drop_first(), owner));
        assert forall|j: int| 0 <= j < k - 1 implies (#[trigger] entries.drop_first()[j]).owner@
            != owner by {
            assert(entries.drop_first()[j] == entries[j + 1]);
        }
        lemma_vouchers_in_skip(entries.drop_first(), owner, k - 1);
        assert(entries.drop_first().skip(k - 1) =~= entries.skip(k));
    } else {
        assert(entries.skip(0) =~= entries);
    }
}

/// Replacing the first entry of an owner rebinds that owner's collection and
/// no other.
proof fn lemma_vouchers_in_update(
    entries: Seq<OwnerVouchers>,
    i: int,
    e2: OwnerVouchers,
    o: Seq<char>,
)
    requires
        0 <= i < entries.len(),
        e2.owner@ == entries[i].owner@,
        forall|j: int| 0 <= j < i ==> entries[j].owner@ != entries[i].owner@,
    ensures
        vouchers_in(entries.update(i, e2), o) == if o == entries[i].owner@ {
            models_of(e2.vouchers@)
        } else {
            vouchers_in(entries, o)
        },
    decreases i,
{
    let entries2 = entries.update(i, e2);
    if i == 0 {
        if o != entries[0].owner@ {
            assert(entries2.drop_first() =~= entries.drop_first());
        }
    } else {
        assert(entries2[0] == entries[0]);
        assert(entries2.drop_first() =~= entries.drop_first().update(i - 1, e2));
        assert forall|j: int| 0 <= j < i - 1 implies (#[trigger] entries.drop_first()[j]).owner@
            != entries.drop_first()[i - 1].owner@ by {
            assert(entries.drop_first()[j] == entries[j + 1]);
        }
        lemma_vouchers_in_update(entries.drop_first(), i - 1, e2, o);
    }
}

/// Appending an entry for a new owner binds that owner's collection and no
/// other.
proof fn lemma_vouchers_in_push(entries: Seq<OwnerVouchers>, e2: OwnerVouchers, o: Seq<char>)
    requires
        forall|j: int| 0 <= j < entries.len() ==> entries[j].owner@ != e2.owner@,
    ensures
        vouchers_in(entries.push(e2), o) == if o == e2.owner@ {
            models_of(e2.vouchers@)
        } else {
            vouchers_in(entries, o)
        },
    decreases entries.len(),
{
    let entries2 = entries.push(e2);
    assert(entries2.len() == entries.len() + 1);
    if entries.len() == 0 {
        assert(entries2[0] == e2);
        if o != e2.owner@ {
            assert(entries2.drop_first() =~= Seq::<OwnerVouchers>::empty());
            assert(vouchers_in(Seq::<OwnerVouchers>::empty(), o) == Seq::<VoucherModel>::empty());
            assert(vouchers_in(entries, o) == Seq::<VoucherModel>::empty());
        }
    } else {
        assert(entries2[0] == entries[0]);
        assert(entries2.drop_first() =~= entries.drop_first().push(e2));
        assert forall|j: int| 0 <= j < entries.drop_first().len() implies (
        #[trigger] entries.drop_first()[j]).owner@ != e2.owner@ by {
            assert(entries.drop_first()[j] == entries[j + 1]);
        }
        lemma_vouchers_in_push(entries.drop_first(), e2, o);
    }
}

/// Per-owner collection of voucher records.
pub struct VoucherStore {
    entries: Vec<OwnerVouchers>,
}

impl VoucherStore {
    /// The store invariant: owner names pairwise distinct, every collection
    /// well-formed.
    pub closed spec fn wf(self) -> bool {
        &&& forall|i: int, j: int|
            0 <= i < j < self.entries@.len() ==> self.entries@[i].owner@ != self.entries@[j].owner@
        &&& forall|i: int| 0 <= i < self.entries@.len() ==> entry_wf(#[trigger] self.entries@[i])
    }

    /// The model: each owner's sequence of voucher models, empty when the
    /// owner is absent.
    pub closed spec fn vouchers_of(self, owner: Seq<char>) -> Seq<VoucherModel> {
        vouchers_in(self.entries@, owner)
    }

    /// In a well-formed store every owner's collection is well-formed.
    pub proof fn lemma_vouchers_of_wf(self, owner: Seq<char>)
        requires
            self.wf(),
        ensures
            seq_vouchers_wf(self.vouchers_of(owner)),
    {
        self.lemma_vouchers_in_wf(self.entries@.len() as int, owner);
        assert(self.entries@.skip(0) =~= self.entries@);
    }

    proof fn lemma_vouchers_in_wf(self, k: int, owner: Seq<char>)
        requires
            self.wf(),
            0 <= k <= self.entries@.len(),
        ensures
            seq_vouchers_wf(vouchers_in(self.entries@.skip(self.entries@.len() - k), owner)),
        decreases k,
    {
        let n = self.entries@.len() as int;
        let tail = self.entries@.skip(n - k);
        if k == 0 {
            assert(tail =~= Seq::<OwnerVouchers>::empty());
        } else {
            assert(tail[0] == self.entries@[n - k]);
            assert(entry_wf(self.entries@[n - k]));
            assert(tail.drop_first() =~= self.entries@.skip(n - (k - 1)));
            self.lemma_vouchers_in_wf(k - 1, owner);
        }
    }

    /// An empty store: every owner's collection is empty.
    pub fn new() -> (r: VoucherStore)
        ensures
            r.wf(),
            forall|o: Seq<char>| r.vouchers_of(o) == Seq::<VoucherModel>::empty(),
    {
        let r = VoucherStore { entries: Vec::new() };
        proof {
            assert forall|o: Seq<char>| r.vouchers_of(o) == Seq::<VoucherModel>::empty() by {
                assert(r.entries@.len() == 0);
            }
        }
        r
    }

    /// Index of the entry holding this owner's collection, if there is one.
    fn find_entry(&self, owner: &String) -> (r: Option<usize>)
        ensures
            match r {
                Option::Some(i) => i < self.entries@.len() && self.entries@[i as int].owner@
                    == owner@ && self.vouchers_of(owner@) == models_of(
                    self.entries@[i as int].vouchers@,
                ) && (forall|j: int| 0 <= j < i ==> self.entries@[j].owner@ != owner@),
                Option::None => self.vouchers_of(owner@) == Seq::<VoucherModel>::empty() && (
                forall|j: int| 0 <= j < self.entries@.len() ==> self.entries@[j].owner@ != owner@),
            },
    {
        let n = self.entries.len();
        let mut i: usize = 0;
        while i < n
            invariant
                0 <= i <= n,
                n == self.entries@.len(),
                forall|j: int| 0 <= j < i ==> self.entries@[j].owner@ != owner@,
            decreases n - i,
        {
            if self.entries[i].owner.eq(owner) {
                proof {
                    lemma_vouchers_in_skip(self.entries@, owner@, i as int);
                    assert(self.entries@.skip(i as int)[0] == self.entries@[i as int]);
                }
                return Option::Some(i);
            }
            i = i + 1;
        }
        proof {
            lemma_vouchers_in_skip(self.entries@, owner@, self.entries@.len() as int);
            assert(self.entries@.skip(self.entries@.len() as int) =~= Seq::<
                OwnerVouchers,
            >::empty());
        }
        Option::None
    }

    /// A copy of the owner's vouchers, in storage order; empty when the owner
    /// is absent.
    pub fn list_by_owner(&self, owner: &String) -> (r: Vec<Voucher>)
        ensures
            models_of(r@) == self.vouchers_of(owner@),
    {
        let mut out: Vec<Voucher> = Vec::new();
        let i = match self.find_entry(owner) {
            Option::Some(i) => i,
            Option::None => {
                proof {
                    assert(models_of(out@) =~= self.vouchers_of(owner@));
                }
                return out;
            },
        };
        let target = &self.entries[i].vouchers;
        let n = target.len();
        let mut k: usize = 0;
        while k < n
            invariant
                0 <= k <= n,
                n == target@.len(),
                out@.len() == k,
                forall|j: int| 0 <= j < k ==> out@[j]@ == target@[j]@,
            decreases n - k,
        {
            out.push(target[k].duplicate());
            k = k + 1;
        }
        proof {
            assert(models_of(out@) =~= models_of(target@));
        }
        out
    }

    /// A copy of the voucher with this id in the owner's collection, if any.
    pub fn get(&self, owner: &String, id: &String) -> (r: Option<Voucher>)
        requires
            self.wf(),
        ensures
            match r {
                Option::Some(v) => find_voucher(self.vouchers_of(owner@), id@) >= 0 && v@
                    == self.vouchers_of(owner@)[find_voucher(self.vouchers_of(owner@), id@)],
                Option::None => find_voucher(self.vouchers_of(owner@), id@) == -1,
            },
    {
        let i = match self.find_entry(owner) {
            Option::Some(i) => i,
            Option::None => {
                return Option::None;
            },
        };
        let k = match find_in_vec(&self.entries[i].vouchers, id) {
            Option::Some(k) => k,
            Option::None => {
                return Option::None;
            },
        };
        Option::Some(self.entries[i].vouchers[k].duplicate())
    }

    /// Add a voucher to the owner's collection; refused with `Conflict` when
    /// the id is already taken there.
    pub fn insert(&mut self, owner: &String, voucher: Voucher) -> (r: Result<(), VoucherError>)
        requires
            old(self).wf(),
            voucher@.wf(),
        ensures
            final(self).wf(),
            match r {
                Result::Ok(_) => find_voucher(old(self).vouchers_of(owner@), voucher@.id) == -1
                    && final(self).vouchers_of(owner@) == old(self).vouchers_of(owner@).push(
                    voucher@,
                ) && (forall|o: Seq<char>|
                    o != owner@ ==> final(self).vouchers_of(o) == old(self).vouchers_of(o)),
                Result::Err(e) => e == VoucherError::Conflict && find_voucher(
                    old(self).vouchers_of(owner@),
                    voucher@.id,
                ) >= 0 && *final(self) == *old(self),
            },
    {
        let ghost s0 = self.vouchers_of(owner@);
        match self.find_entry(owner) {
            Option::Some(i) => {
                match find_in_vec(&self.entries[i].vouchers, &voucher.id) {
                    Option::Some(_) => Result::Err(VoucherError::Conflict),
                    Option::None => {
                        let ghost entries0 = self.entries@;
                        let mut entry = self.entries.remove(i);
                        let ghost v0 = entry.vouchers@;
                        entry.vouchers.push(voucher);
                        let ghost e2 = entry;
                        self.entries.insert(i, entry);
                        proof {
                            assert(self.entries@ =~= entries0.update(i as int, e2));
                            assert(models_of(e2.vouchers@) =~= models_of(v0).push(
                                e2.vouchers@[v0.len() as int]@,
                            ));
                            lemma_find_voucher_props(s0, e2.vouchers@[v0.len() as int]@.id);
                            assert forall|o: Seq<char>| true implies vouchers_in(
                                self.entries@,
                                o,
                            ) == if o == entries0[i as int].owner@ {
                                models_of(e2.vouchers@)
                            } else {
                                vouchers_in(entries0, o)
                            } by {
                                lemma_vouchers_in_update(entries0, i as int, e2, o);
                            }
                            assert forall|x: int| 0 <= x < self.entries@.len() implies entry_wf(
                                #[trigger] self.entries@[x],
                            ) by {
                                if x != i as int {
                                    assert(self.entries@[x] == entries0[x]);
                                }
                            }
                        }
                        Result::Ok(())
                    },
                }
            },
            Option::None => {
                let ghost entries0 = self.entries@;
                let mut vouchers: Vec<Voucher> = Vec::new();
                vouchers.push(voucher);
                let entry = OwnerVouchers { owner: owner.clone(), vouchers };
                let ghost e2 = entry;
                self.entries.push(entry);
                proof {
                    assert(models_of(e2.vouchers@) =~= Seq::<VoucherModel>::empty().push(
                        e2.vouchers@[0]@,
                    ));
                    assert forall|o: Seq<char>| true implies vouchers_in(self.entries@, o) == if o
                        == e2.owner@ {
                        models_of(e2.vouchers@)
                    } else {
                        vouchers_in(entries0, o)
                    } by {
                        lemma_vouchers_in_push(entries0, e2, o);
                    }
                    assert forall|x: int| 0 <= x < self.entries@.len() implies entry_wf(
                        #[trigger] self.entries@[x],
                    ) by {
                        if x < entries0.len() {
                            assert(self.entries@[x] == entries0[x]);
                        }
                    }
                }
                Result::Ok(())
            },
        }
    }

    /// Atomically replace the voucher with this id by a new record carrying
    /// the same id; `NotFound` when the id is absent.
    pub fn replace(&mut self, owner: &String, id: &String, voucher: Voucher) -> (r: Result<
        (),
        VoucherError,
    >)
        requires
            old(self).wf(),
            voucher@.wf(),
            voucher@.id == id@,
        ensures
            final(self).wf(),
            match r {
                Result::Ok(_) => ({
                    let s = old(self).vouchers_of(owner@);
                    let k = find_voucher(s, id@);
                    &&& k >= 0
                    &&& final(self).vouchers_of(owner@) == s.update(k, voucher@)
                    &&& (forall|o: Seq<char>|
                        o != owner@ ==> final(self).vouchers_of(o) == old(self).vouchers_of(o))
                }),
                Result::Err(e) => e == VoucherError::NotFound && find_voucher(
                    old(self).vouchers_of(owner@),
                    id@,
                ) == -1 && *final(self) == *old(self),
            },
    {
        let ghost s0 = self.vouchers_of(owner@);
        let i = match self.find_entry(owner) {
            Option::Some(i) => i,
            Option::None => {
                return Result::Err(VoucherError::NotFound);
            },
        };
        let k = match find_in_vec(&self.entries[i].vouchers, id) {
            Option::Some(k) => k,
            Option::None => {
                return Result::Err(VoucherError::NotFound);
            },
        };
        let ghost entries0 = self.entries@;
        let mut entry = self.entries.remove(i);
        let ghost v0 = entry.vouchers@;
        entry.vouchers.set(k, voucher);
        let ghost e2 = entry;
        self.entries.insert(i, entry);
        proof {
            assert(self.entries@ =~= entries0.update(i as int, e2));
            assert(models_of(e2.vouchers@) =~= models_of(v0).update(
                k as int,
                e2.vouchers@[k as int]@,
            ));
            lemma_find_voucher_props(s0, id@);
            assert forall|o: Seq<char>| true implies vouchers_in(self.entries@, o) == if o
                == entries0[i as int].owner@ {
                models_of(e2.vouchers@)
            } else {
                vouchers_in(entries0, o)
            } by {
                lemma_vouchers_in_update(entries0, i as int, e2, o);
            }
            assert forall|x: int| 0 <= x < self.entries@.len() implies entry_wf(
                #[trigger] self.entries@[x],
            ) by {
                if x != i as int {
                    assert(self.entries@[x] == entries0[x]);
                }
            }
        }
        Result::Ok(())
    }

    /// Remove the voucher with this id from the owner's collection;
    /// `NotFound` when the id is absent (never a silent no-op).
    pub fn remove(&mut self, owner: &String, id: &String) -> (r: Result<(), VoucherError>)
        requires
            old(self).wf(),
        ensures
            final(self).wf(),
            match r {
                Result::Ok(_) => ({
                    let s = old(self).vouchers_of(owner@);
                    let k = find_voucher(s, id@);
                    &&& k >= 0
                    &&& final(self).vouchers_of(owner@) == s.remove(k)
                    &&& (forall|o: Seq<char>|
                        o != owner@ ==> final(self).vouchers_of(o) == old(self).vouchers_of(o))
                }),
                Result::Err(e) => e == VoucherError::NotFound && find_voucher(
                    old(self).vouchers_of(owner@),
                    id@,
                ) == -1 && *final(self) == *old(self),
            },
    {
        let ghost s0 = self.vouchers_of(owner@);
        let i = match self.find_entry(owner) {
            Option::Some(i) => i,
            Option::None => {
                return Result::Err(VoucherError::NotFound);
            },
        };
        let k = match find_in_vec(&self.entries[i].vouchers, id) {
            Option::Some(k) => k,
            Option::None => {
                return Result::Err(VoucherError::NotFound);
            },
        };
        let ghost entries0 = self.entries@;
        let mut entry = self.entries.remove(i);
        let ghost v0 = entry.vouchers@;
        entry.vouchers.remove(k);
        let ghost e2 = entry;
        self.entries.insert(i, entry);
        proof {
            assert(self.entries@ =~= entries0.update(i as int, e2));
            assert(models_of(e2.vouchers@) =~= models_of(v0).remove(k as int));
            lemma_find_voucher_props(s0, id@);
            assert forall|o: Seq<char>| true implies vouchers_in(self.entries@, o) == if o
                == entries0[i as int].owner@ {
                models_of(e2.vouchers@)
            } else {
                vouchers_in(entries0, o)
            } by {
                lemma_vouchers_in_update(entries0, i as int, e2, o);
            }
            assert forall|x: int| 0 <= x < self.entries@.len() implies entry_wf(
                #[trigger] self.entries@[x],
            ) by {
                if x != i as int {
                    assert(self.entries@[x] == entries0[x]);
                }
            }
        }
        Result::Ok(())
    }
}

/// Index of the voucher with this id in the vector, matching `find_voucher`
/// on its model.
fn find_in_vec(vs: &Vec<Voucher>, id: &String) -> (r: Option<usize>)
    ensures
        match r {
            Option::Some(k) => k < vs@.len() && find_voucher(models_of(vs@), id@) == k as int,
            Option::None => find_voucher(models_of(vs@), id@) == -1,
        },
{
    let n = vs.len();
    let mut k: usize = 0;
    while k < n
        invariant
            0 <= k <= n,
            n == vs@.len(),
            forall|j: int| 0 <= j < k ==> models_of(vs@)[j].id != id@,
        decreases n - k,
    {
        if vs[k].id.eq(id) {
            proof {
                lemma_find_voucher_at(models_of(vs@), id@, k as int);
            }
            return Option::Some(k);
        }
        k = k + 1;
    }
    proof {
        lemma_find_voucher_props(models_of(vs@), id@);
    }
    Option::None
}

} // verus!
