//! Vote receipts kept by their key, the pair of proposal id and voter. The
//! store is a vector sorted by key, so a lookup is a bisection and an insert
//! happens only where the key is absent.
use vstd::prelude::*;
use crate::pubkey::{Pubkey, KEY_LEN};
use crate::state::VoteRecord;

verus! {

/// The key under which a receipt is kept.
pub open spec fn receipt_key(r: VoteRecord) -> (u32, Seq<u8>) {
    (r.proposal_id, r.voter@)
}

/// `a` and `b` agree before index `i`, and `a` is smaller at `i`.
pub open spec fn first_smaller_at(a: Seq<u8>, b: Seq<u8>, i: int) -> bool {
    &&& 0 <= i < a.len()
    &&& i < b.len()
    &&& a[i] < b[i]
    &&& forall|m: int| 0 <= m < i ==> a[m] == b[m]
}

/// Lexicographic order on byte strings.
pub open spec fn bytes_lt(a: Seq<u8>, b: Seq<u8>) -> bool {
    exists|i: int| #[trigger] first_smaller_at(a, b, i)
}

/// The order of receipt keys: by proposal id, then by voter bytes.
pub open spec fn key_lt(a: (u32, Seq<u8>), b: (u32, Seq<u8>)) -> bool {
    a.0 < b.0 || (a.0 == b.0 && bytes_lt(a.1, b.1))
}

proof fn lemma_bytes_lt_trans(a: Seq<u8>, b: Seq<u8>, c: Seq<u8>)
    requires
        bytes_lt(a, b),
        bytes_lt(b, c),
    ensures
        bytes_lt(a, c),
{
    let i = choose|i: int| first_smaller_at(a, b, i);
    let j = choose|j: int| first_smaller_at(b, c, j);
    let k = if i < j { i } else { j };
    assert(first_smaller_at(a, c, k));
}

proof fn lemma_bytes_lt_asym(a: Seq<u8>, b: Seq<u8>)
    requires
        bytes_lt(a, b),
    ensures
        !bytes_lt(b, a),
        a != b,
{
    let i = choose|i: int| first_smaller_at(a, b, i);
    if bytes_lt(b, a) {
        let j = choose|j: int| first_smaller_at(b, a, j);
        if i < j {
            assert(b[i] == a[i]);
        } else if j < i {
            assert(a[j] == b[j]);
        }
    }
    assert(a[i] != b[i]);
}

proof fn lemma_key_lt_trans(a: (u32, Seq<u8>), b: (u32, Seq<u8>), c: (u32, Seq<u8>))
    requires
        key_lt(a, b),
        key_lt(b, c),
    ensures
        key_lt(a, c),
{
    if a.0 == b.0 && b.0 == c.0 {
        lemma_bytes_lt_trans(a.1, b.1, c.1);
    }
}

proof fn lemma_key_lt_asym(a: (u32, Seq<u8>), b: (u32, Seq<u8>))
    requires
        key_lt(a, b),
    ensures
        !key_lt(b, a),
        a != b,
{
    if a.0 == b.0 {
        lemma_bytes_lt_asym(a.1, b.1);
    }
}

/// Compares two identities: negative, zero or positive as `a` is smaller
/// than, equal to or larger than `b`.
fn compare_keys(a: &Pubkey, b: &Pubkey) -> (r: i8)
    ensures
        (r == 0) == (a@ == b@),
        (r < 0) == bytes_lt(a@, b@),
        (r > 0) == bytes_lt(b@, a@),
{
    let mut i: usize = 0;
    while i < KEY_LEN
        invariant
            0 <= i <= KEY_LEN,
            a@.len() == KEY_LEN,
            b@.len() == KEY_LEN,
            forall|m: int| 0 <= m < i ==> a@[m] == b@[m],
        decreases KEY_LEN - i,
    {
        if a.bytes[i] < b.bytes[i] {
            proof {
                assert(first_smaller_at(a@, b@, i as int));
                lemma_bytes_lt_asym(a@, b@);
            }
            return -1;
        }
        if a.bytes[i] > b.bytes[i] {
            proof {
                assert(first_smaller_at(b@, a@, i as int));
                lemma_bytes_lt_asym(b@, a@);
            }
            return 1;
        }
        i = i + 1;
    }
    assert(a@ =~= b@);
    proof {
        if bytes_lt(a@, b@) {
            lemma_bytes_lt_asym(a@, b@);
        }
    }
    0
}

/// Compares the key of `rec` with the key (`proposal_id`, `voter`).
fn compare_receipt(rec: &VoteRecord, proposal_id: u32, voter: &Pubkey) -> (r: i8)
    ensures
        (r == 0) == (receipt_key(*rec) == (proposal_id, voter@)),
        (r < 0) == key_lt(receipt_key(*rec), (proposal_id, voter@)),
        (r > 0) == key_lt((proposal_id, voter@), receipt_key(*rec)),
{
    if rec.proposal_id < proposal_id {
        -1
    } else if rec.proposal_id > proposal_id {
        1
    } else {
        compare_keys(&rec.voter, voter)
    }
}

/// A set of vote receipts, at most one per key.
pub struct ReceiptSet {
    records: Vec<VoteRecord>,
}

impl View for ReceiptSet {
    type V = Set<(u32, Seq<u8>)>;

    closed spec fn view(&self) -> Set<(u32, Seq<u8>)> {
        Set::new(
            |k: (u32, Seq<u8>)|
                exists|i: int|
                    0 <= i < self.records@.len() && #[trigger] receipt_key(self.records@[i]) == k,
        )
    }
}

impl ReceiptSet {
    /// The records are in strictly increasing order of key.
    pub closed spec fn inv(&self) -> bool {
        forall|i: int, j: int|
            0 <= i < j < self.records@.len() ==> key_lt(
                #[trigger] receipt_key(self.records@[i]),
                #[trigger] receipt_key(self.records@[j]),
            )
    }

    /// No receipts.
    pub fn new() -> (r: ReceiptSet)
        ensures
            r.inv(),
            r@ == Set::<(u32, Seq<u8>)>::empty(),
    {
        let r = ReceiptSet { records: Vec::new() };
        assert(r@ =~= Set::<(u32, Seq<u8>)>::empty());
        r
    }

    /// Finds the key (`proposal_id`, `voter`): whether it is present, and the
    /// index where it is or where it would go.
    fn search(&self, proposal_id: u32, voter: &Pubkey) -> (r: (bool, usize))
        requires
            self.inv(),
        ensures
            r.1 <= self.records@.len(),
            r.0 == self@.contains((proposal_id, voter@)),
            !r.0 ==> forall|i: int|
                0 <= i < r.1 ==> key_lt(
                    #[trigger] receipt_key(self.records@[i]),
                    (proposal_id, voter@),
                ),
            !r.0 ==> forall|i: int|
                r.1 <= i < self.records@.len() ==> key_lt(
                    (proposal_id, voter@),
                    #[trigger] receipt_key(self.records@[i]),
                ),
    {
        let ghost k: (u32, Seq<u8>) = (proposal_id, voter@);
        let mut lo: usize = 0;
        let mut hi: usize = self.records.len();
        while lo < hi
            invariant
                self.inv(),
                k == (proposal_id, voter@),
                0 <= lo <= hi <= self.records@.len(),
                forall|i: int| 0 <= i < lo ==> key_lt(#[trigger] receipt_key(self.records@[i]), k),
                forall|i: int|
                    hi <= i < self.records@.len() ==> key_lt(k, #[trigger] receipt_key(self.records@[i])),
            decreases hi - lo,
        {
            let mid = lo + (hi - lo) / 2;
            let c = compare_receipt(&self.records[mid], proposal_id, voter);
            if c == 0 {
                return (true, mid);
            }
            if c < 0 {
                assert forall|i: int| 0 <= i <= mid implies key_lt(
                    #[trigger] receipt_key(self.records@[i]),
                    k,
                ) by {
                    if i < mid {
                        lemma_key_lt_trans(
                            receipt_key(self.records@[i]),
                            receipt_key(self.records@[mid as int]),
                            k,
                        );
                    }
                }
                lo = mid + 1;
            } else {
                assert forall|i: int| mid <= i < self.records@.len() implies key_lt(
                    k,
                    #[trigger] receipt_key(self.records@[i]),
                ) by {
                    if i > mid {
                        lemma_key_lt_trans(
                            k,
                            receipt_key(self.records@[mid as int]),
                            receipt_key(self.records@[i]),
                        );
                    }
                }
                hi = mid;
            }
        }
        assert forall|i: int| 0 <= i < self.records@.len() implies #[trigger] receipt_key(
            self.records@[i],
        ) != k by {
            if i < lo {
                lemma_key_lt_asym(receipt_key(self.records@[i]), k);
            } else {
                lemma_key_lt_asym(k, receipt_key(self.records@[i]));
            }
        }
        (false, lo)
    }

    /// Whether a receipt for (`proposal_id`, `voter`) is held.
    pub fn contains(&self, proposal_id: u32, voter: &Pubkey) -> (r: bool)
        requires
            self.inv(),
        ensures
            r == self@.contains((proposal_id, voter@)),
    {
        self.search(proposal_id, voter).0
    }

    /// Adds `rec` unless a receipt with its key is held already; returns
    /// whether it was added.
    pub fn insert(&mut self, rec: VoteRecord) -> (r: bool)
        requires
            old(self).inv(),
        ensures
            final(self).inv(),
            r == !old(self)@.contains(receipt_key(rec)),
            final(self)@ == old(self)@.insert(receipt_key(rec)),
    {
        let (found, pos) = self.search(rec.proposal_id, &rec.voter);
        if found {
            assert(self@ =~= old(self)@.insert(receipt_key(rec)));
            return false;
        }
        let ghost old_records = self.records@;
        let ghost k: (u32, Seq<u8>) = receipt_key(rec);
        self.records.insert(pos, rec);
        proof {
            old_records.insert_ensures(pos as int, rec);
            let new_records = self.records@;
            assert forall|i: int, j: int|
                0 <= i < j < new_records.len() implies key_lt(
                #[trigger] receipt_key(new_records[i]),
                #[trigger] receipt_key(new_records[j]),
            ) by {
                if j < pos {
                } else if j == pos {
                } else if i < pos {
                    assert(new_records[j] == old_records[j - 1]);
                    if i < pos {
                        lemma_key_lt_trans(receipt_key(new_records[i]), k, receipt_key(new_records[j]));
                    }
                } else if i == pos {
                    assert(new_records[j] == old_records[j - 1]);
                } else {
                    assert(new_records[i] == old_records[i - 1]);
                    assert(new_records[j] == old_records[j - 1]);
                }
            }
            assert forall|x: (u32, Seq<u8>)| #[trigger] self@.contains(x) == old(self)@.insert(
                k,
            ).contains(x) by {
                if x == k {
                    assert(receipt_key(new_records[pos as int]) == k);
                } else if old(self)@.contains(x) {
                    let i = choose|i: int|
                        0 <= i < old_records.len() && #[trigger] receipt_key(old_records[i]) == x;
                    if i < pos {
                        assert(receipt_key(new_records[i]) == x);
                    } else {
                        assert(receipt_key(new_records[i + 1]) == x);
                    }
                }
                if self@.contains(x) && x != k {
                    let i = choose|i: int|
                        0 <= i < new_records.len() && #[trigger] receipt_key(new_records[i]) == x;
                    if i < pos {
                        assert(receipt_key(old_records[i]) == x);
                    } else {
                        assert(i != pos);
                        assert(receipt_key(old_records[i - 1]) == x);
                    }
                }
            }
            assert(self@ =~= old(self)@.insert(k));
        }
        true
    }
}

} // verus!
