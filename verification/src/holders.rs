//! The collection of holder records: an explicit mapping from address to
//! record, kept in the order of the addresses. An address without a record
//! reads as a record of zeros.

use vstd::prelude::*;
use crate::address::{addr_lt, address_lt, lemma_addr_irreflexive, lemma_addr_total, lemma_addr_transitive};
use crate::state::{Holder, HolderView};

verus! {

/// Whether the records stand in strictly ascending order of their addresses.
/// Such a sequence holds no address twice.
pub open spec fn sorted(s: Seq<HolderView>) -> bool {
    forall|i: int, j: int|
        0 <= i < j < s.len() ==> addr_lt((#[trigger] s[i]).address, (#[trigger] s[j]).address)
}

/// The first position at or after `i` whose address does not come before
/// `address`; the length where there is none.
pub open spec fn rank_from(s: Seq<HolderView>, address: Seq<char>, i: int) -> int
    decreases s.len() - i,
{
    if i < 0 || i >= s.len() {
        s.len() as int
    } else if addr_lt(s[i].address, address) {
        rank_from(s, address, i + 1)
    } else {
        i
    }
}

/// Where the record of `address` stands, or would stand, in a sorted
/// sequence: behind every record whose address comes before it.
pub open spec fn rank(s: Seq<HolderView>, address: Seq<char>) -> int {
    rank_from(s, address, 0)
}

/// Whether `s` holds a record of `address`.
pub open spec fn holds(s: Seq<HolderView>, address: Seq<char>) -> bool {
    rank(s, address) < s.len() && s[rank(s, address)].address == address
}

/// The record of `address`, a record of zeros where `s` holds none.
pub open spec fn lookup(s: Seq<HolderView>, address: Seq<char>) -> HolderView {
    if holds(s, address) {
        s[rank(s, address)]
    } else {
        HolderView::empty(address)
    }
}

/// The sequence with `holder` as the record of its address: in place of the
/// record that was there, or as a new record at its place in the order.
pub open spec fn upsert(s: Seq<HolderView>, holder: HolderView) -> Seq<HolderView> {
    if holds(s, holder.address) {
        s.update(rank(s, holder.address), holder)
    } else {
        s.insert(rank(s, holder.address), holder)
    }
}

/// The sum of the balances of all records.
pub open spec fn sum_balances(s: Seq<HolderView>) -> nat
    decreases s.len(),
{
    if s.len() == 0 {
        0
    } else {
        sum_balances(s.drop_last()) + s.last().balance
    }
}

/// The records that a listing shows: those whose address comes after the
/// cursor, in order, and no more than `limit` of them.
pub open spec fn listed(s: Seq<HolderView>, start_after: Option<Seq<char>>, limit: nat) -> Seq<
    HolderView,
> {
    let eligible = match start_after {
        Some(cursor) => s.filter(|h: HolderView| addr_lt(cursor, h.address)),
        None => s,
    };
    if limit < eligible.len() {
        eligible.take(limit as int)
    } else {
        eligible
    }
}

/// The holder records, in the order of their addresses.
#[derive(Debug, Clone, PartialEq, Eq)]
pub struct Holders {
    pub records: Vec<Holder>,
}

impl View for Holders {
    type V = Seq<HolderView>;

    open spec fn view(&self) -> Seq<HolderView> {
        Seq::new(self.records@.len(), |i: int| self.records@[i]@)
    }
}

impl Holders {
    /// Whether the records are in order, which every operation here keeps.
    pub open spec fn wf(&self) -> bool {
        sorted(self@)
    }

    /// The empty collection.
    pub fn new() -> (holders: Holders)
        ensures
            holders@ == Seq::<HolderView>::empty(),
            holders.wf(),
    {
        let holders = Holders { records: Vec::new() };
        assert(holders@ =~= Seq::<HolderView>::empty());
        holders
    }

    /// The number of records.
    pub fn len(&self) -> (n: usize)
        ensures
            n == self@.len(),
    {
        self.records.len()
    }

    fn position(&self, address: &String) -> (k: usize)
        ensures
            k == rank(self@, address@),
            k <= self@.len(),
    {
        let mut k: usize = 0;
        while k < self.records.len() && address_lt(&self.records[k].address, address)
            invariant
                k <= self.records.len(),
                rank(self@, address@) == rank_from(self@, address@, k as int),
            decreases self.records.len() - k,
        {
            k = k + 1;
        }
        k
    }

    /// Whether there is a record of `address`.
    pub fn contains(&self, address: &String) -> (found: bool)
        ensures
            found == holds(self@, address@),
    {
        let k: usize = self.position(address);
        k < self.records.len() && self.records[k].address == *address
    }

    /// The record of `address`; a record of zeros where there is none.
    pub fn get(&self, address: &String) -> (holder: Holder)
        ensures
            holder@ == lookup(self@, address@),
    {
        let k: usize = self.position(address);
        if k < self.records.len() && self.records[k].address == *address {
            self.records[k].duplicate()
        } else {
            Holder::new(address.clone())
        }
    }

    /// Makes `holder` the record of its address.
    pub fn put(&mut self, holder: Holder)
        ensures
            final(self)@ == upsert(old(self)@, holder@),
            old(self).wf() ==> final(self).wf(),
    {
        let k: usize = self.position(&holder.address);
        proof {
            if self.wf() {
                lemma_upsert_sorted(self@, holder@);
            }
        }
        if k < self.records.len() && self.records[k].address == holder.address {
            self.records[k] = holder;
            assert(self@ =~= old(self)@.update(k as int, holder@));
        } else {
            self.records.insert(k, holder);
            assert(self@ =~= old(self)@.insert(k as int, holder@));
        }
    }

    /// One page of the records, in the order of their addresses: those
    /// behind the cursor `start_after`, or from the first where there is no
    /// cursor, and at most `limit` of them.
    pub fn list(&self, start_after: Option<&String>, limit: u32) -> (page: Vec<Holder>)
        ensures
            holder_views(page@) == listed(
                self@,
                match start_after {
                    Some(cursor) => Some(cursor@),
                    None => None,
                },
                limit as nat,
            ),
    {
        let ghost cursor: Option<Seq<char>> = match start_after {
            Some(c) => Some(c@),
            None => None,
        };
        let ghost keep = |h: HolderView| cursor is Some ==> addr_lt(cursor->0, h.address);
        let mut page: Vec<Holder> = Vec::new();
        let mut i: usize = 0;
        proof {
            lemma_eligible(self@, cursor);
            assert(self@.take(0) =~= Seq::<HolderView>::empty());
            assert(Seq::<HolderView>::empty().filter(keep) =~= Seq::<HolderView>::empty()) by {
                reveal(Seq::filter);
            }
            assert(holder_views(page@) =~= Seq::<HolderView>::empty());
        }
        while i < self.records.len() && page.len() < limit as usize
            invariant
                i <= self.records.len(),
                page.len() <= limit,
                keep == |h: HolderView| cursor is Some ==> addr_lt(cursor->0, h.address),
                cursor == match start_after {
                    Some(c) => Some(c@),
                    None => None,
                },
                holder_views(page@) == self@.take(i as int).filter(keep),
            decreases self.records.len() - i,
        {
            let after: bool = match start_after {
                Some(c) => address_lt(c, &self.records[i].address),
                None => true,
            };
            proof {
                assert(self@.take(i as int + 1) =~= self@.take(i as int).push(self@[i as int]));
                self@.take(i as int).lemma_filter_push(self@[i as int], keep);
                assert(after == keep(self@[i as int]));
            }
            if after {
                let ghost before = page@;
                page.push(self.records[i].duplicate());
                assert(holder_views(page@) =~= holder_views(before).push(self@[i as int]));
            }
            i = i + 1;
        }
        proof {
            let all = self@.filter(keep);
            let seen = self@.take(i as int);
            if i == self.records.len() {
                assert(seen =~= self@);
            } else {
                assert(self@ =~= seen + self@.skip(i as int));
                Seq::filter_distributes_over_add(seen, self@.skip(i as int), keep);
                assert(all.take(limit as int) =~= seen.filter(keep));
            }
        }
        page
    }
}

/// The views of a sequence of records.
pub open spec fn holder_views(records: Seq<Holder>) -> Seq<HolderView> {
    Seq::new(records.len(), |i: int| records[i]@)
}

proof fn lemma_eligible(s: Seq<HolderView>, cursor: Option<Seq<char>>)
    ensures
        cursor is None ==> s.filter(|h: HolderView| cursor is Some ==> addr_lt(cursor->0, h.address))
            == s,
        cursor is Some ==> s.filter(
            |h: HolderView| cursor is Some ==> addr_lt(cursor->0, h.address),
        ) == s.filter(|h: HolderView| addr_lt(cursor->0, h.address)),
    decreases s.len(),
{
    reveal(Seq::filter);
    let keep = |h: HolderView| cursor is Some ==> addr_lt(cursor->0, h.address);
    if s.len() > 0 {
        lemma_eligible(s.drop_last(), cursor);
        if cursor is None {
            assert(s.filter(keep) =~= s);
        } else {
            let plain = |h: HolderView| addr_lt(cursor->0, h.address);
            assert(keep(s.last()) == plain(s.last()));
        }
    } else if cursor is Some {
        let plain = |h: HolderView| addr_lt(cursor->0, h.address);
        assert(s.filter(keep) =~= s.filter(plain));
    }
}

/// In a sorted sequence every record before the rank of `address` has an
/// address before it, and no record from the rank on has.
pub proof fn lemma_rank_bounds(s: Seq<HolderView>, address: Seq<char>)
    requires
        sorted(s),
    ensures
        0 <= rank(s, address) <= s.len(),
        forall|i: int| 0 <= i < rank(s, address) ==> addr_lt((#[trigger] s[i]).address, address),
        forall|i: int|
            rank(s, address) <= i < s.len() ==> !addr_lt((#[trigger] s[i]).address, address),
{
    lemma_rank_from_bounds(s, address, 0);
}

proof fn lemma_rank_from_bounds(s: Seq<HolderView>, address: Seq<char>, k: int)
    requires
        sorted(s),
        0 <= k <= s.len(),
    ensures
        k <= rank_from(s, address, k) <= s.len(),
        forall|i: int|
            k <= i < rank_from(s, address, k) ==> addr_lt((#[trigger] s[i]).address, address),
        forall|i: int|
            rank_from(s, address, k) <= i < s.len() ==> !addr_lt(
                (#[trigger] s[i]).address,
                address,
            ),
    decreases s.len() - k,
{
    if k < s.len() {
        if addr_lt(s[k].address, address) {
            lemma_rank_from_bounds(s, address, k + 1);
        } else {
            assert forall|i: int| k <= i < s.len() implies !addr_lt(
                (#[trigger] s[i]).address,
                address,
            ) by {
                if k < i && addr_lt(s[i].address, address) {
                    lemma_addr_transitive(s[k].address, s[i].address, address);
                }
            }
        }
    }
}

/// Putting a record into a sorted sequence leaves it sorted.
pub proof fn lemma_upsert_sorted(s: Seq<HolderView>, holder: HolderView)
    requires
        sorted(s),
    ensures
        sorted(upsert(s, holder)),
{
    let k = rank(s, holder.address);
    let t = upsert(s, holder);
    lemma_rank_bounds(s, holder.address);
    if holds(s, holder.address) {
        assert forall|i: int, j: int| 0 <= i < j < t.len() implies addr_lt(
            (#[trigger] t[i]).address,
            (#[trigger] t[j]).address,
        ) by {
            assert(addr_lt(s[i].address, s[j].address));
        }
    } else {
        assert forall|i: int, j: int| 0 <= i < j < t.len() implies addr_lt(
            (#[trigger] t[i]).address,
            (#[trigger] t[j]).address,
        ) by {
            if j < k {
                assert(addr_lt(s[i].address, s[j].address));
            } else if j == k {
                assert(addr_lt(s[i].address, holder.address));
            } else if i == k {
                let other = s[j - 1].address;
                if !addr_lt(holder.address, other) {
                    lemma_addr_total(holder.address, other);
                    if j - 1 > k {
                        assert(addr_lt(s[k].address, s[j - 1].address));
                    }
                }
            } else if i < k {
                assert(addr_lt(s[i].address, s[j - 1].address));
            } else {
                assert(addr_lt(s[i - 1].address, s[j - 1].address));
            }
        }
    }
}

proof fn lemma_sum_update(s: Seq<HolderView>, k: int, holder: HolderView)
    requires
        0 <= k < s.len(),
    ensures
        sum_balances(s.update(k, holder)) + s[k].balance == sum_balances(s) + holder.balance,
    decreases s.len(),
{
    let t = s.update(k, holder);
    if k == s.len() - 1 {
        assert(t.drop_last() =~= s.drop_last());
    } else {
        assert(t.drop_last() =~= s.drop_last().update(k, holder));
        lemma_sum_update(s.drop_last(), k, holder);
    }
}

proof fn lemma_sum_insert(s: Seq<HolderView>, k: int, holder: HolderView)
    requires
        0 <= k <= s.len(),
    ensures
        sum_balances(s.insert(k, holder)) == sum_balances(s) + holder.balance,
    decreases s.len(),
{
    let t = s.insert(k, holder);
    if k == s.len() {
        assert(t.drop_last() =~= s);
    } else {
        assert(t.drop_last() =~= s.drop_last().insert(k, holder));
        lemma_sum_insert(s.drop_last(), k, holder);
    }
}

proof fn lemma_rank_from_range(s: Seq<HolderView>, address: Seq<char>, k: int)
    requires
        0 <= k <= s.len(),
    ensures
        k <= rank_from(s, address, k) <= s.len(),
    decreases s.len() - k,
{
    if k < s.len() && addr_lt(s[k].address, address) {
        lemma_rank_from_range(s, address, k + 1);
    }
}

/// Putting a record changes the sum of the balances by the difference
/// between the record's balance and the balance that its address had.
pub proof fn lemma_sum_upsert(s: Seq<HolderView>, holder: HolderView)
    ensures
        sum_balances(upsert(s, holder)) + lookup(s, holder.address).balance == sum_balances(s)
            + holder.balance,
{
    let k = rank(s, holder.address);
    lemma_rank_from_range(s, holder.address, 0);
    if holds(s, holder.address) {
        lemma_sum_update(s, k, holder);
    } else {
        lemma_sum_insert(s, k, holder);
    }
}

/// In a sorted sequence a record is found by its address wherever it
/// stands, and an address that no record has is not found.
pub proof fn lemma_holds_iff_present(s: Seq<HolderView>, address: Seq<char>)
    requires
        sorted(s),
    ensures
        holds(s, address) <==> exists|i: int| 0 <= i < s.len() && (#[trigger] s[i]).address == address,
        forall|i: int|
            0 <= i < s.len() && (#[trigger] s[i]).address == address ==> lookup(s, address) == s[i],
{
    let k = rank(s, address);
    lemma_rank_bounds(s, address);
    assert forall|i: int| 0 <= i < s.len() && (#[trigger] s[i]).address == address implies i == k
        && holds(s, address) by {
        lemma_addr_irreflexive(address);
        if i > k {
            assert(addr_lt(s[k].address, s[i].address));
        }
    }
}

/// After a record was put into a sorted sequence, its address reads as that
/// record and every other address reads as before.
pub proof fn lemma_lookup_upsert(s: Seq<HolderView>, holder: HolderView, address: Seq<char>)
    requires
        sorted(s),
    ensures
        holds(upsert(s, holder), address) == (address == holder.address || holds(s, address)),
        lookup(upsert(s, holder), address) == if address == holder.address {
            holder
        } else {
            lookup(s, address)
        },
{
    let t = upsert(s, holder);
    let k = rank(s, holder.address);
    lemma_upsert_sorted(s, holder);
    lemma_rank_bounds(s, holder.address);
    lemma_rank_bounds(s, address);
    lemma_rank_bounds(t, address);
    lemma_holds_iff_present(s, address);
    lemma_holds_iff_present(t, address);
    assert(t[k] == holder);
    let shift = if holds(s, holder.address) {
        0int
    } else {
        1int
    };
    if address != holder.address {
        if holds(s, address) {
            let i = rank(s, address);
            let j = if i < k {
                i
            } else {
                i + shift
            };
            assert(t[j] == s[i]);
        }
        if holds(t, address) {
            let j = rank(t, address);
            let i = if j < k {
                j
            } else {
                j - shift
            };
            assert(s[i] == t[j]);
        }
    }
}

} // verus!
