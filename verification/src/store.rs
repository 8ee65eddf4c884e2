//! The in-memory bill store: a collection of named bills with amounts in
//! cents, keyed by unique name, kept in insertion order.

use vstd::prelude::*;

verus! {

/// A single bill: a name and an amount in whole cents.
///
/// Amounts are held as cents so that sums are exact; two decimal places
/// of currency correspond to one unit here.
pub struct Bills {
    pub name: String,
    pub amount: u64,
}

impl Bills {
    /// The mathematical content of a bill: its name's characters and its amount.
    pub open spec fn entry(self) -> (Seq<char>, u64) {
        (self.name@, self.amount)
    }

    /// Create a bill.
    pub fn new(name: String, amount: u64) -> (b: Bills)
        ensures
            b.name@ == name@,
            b.amount == amount,
    {
        Bills { name, amount }
    }

    /// Put this bill into the store, overwriting any bill of the same name.
    pub fn add(self, bills: &mut BillStore)
        requires
            old(bills).wf(),
        ensures
            final(bills).wf(),
            final(bills).entries() == spec_add(old(bills).entries(), self.name@, self.amount),
    {
        let Bills { name, amount } = self;
        bills.add(name, amount);
    }
}

/// Whether some entry of `s` carries the name `name`.
pub open spec fn has_name(s: Seq<(Seq<char>, u64)>, name: Seq<char>) -> bool {
    exists|i: int| 0 <= i < s.len() && (#[trigger] s[i]).0 == name
}

/// The index of the entry named `name`; meaningful only when `has_name`
/// holds, and unique when the names of `s` are distinct.
pub open spec fn name_index(s: Seq<(Seq<char>, u64)>, name: Seq<char>) -> int {
    choose|i: int| 0 <= i < s.len() && (#[trigger] s[i]).0 == name
}

/// The amount stored under `name`; meaningful only when `has_name` holds.
pub open spec fn amount_of(s: Seq<(Seq<char>, u64)>, name: Seq<char>) -> u64 {
    s[name_index(s, name)].1
}

/// No two entries of `s` share a name.
pub open spec fn distinct_names(s: Seq<(Seq<char>, u64)>) -> bool {
    forall|i: int, j: int|
        0 <= i < j < s.len() ==> (#[trigger] s[i]).0 != (#[trigger] s[j]).0
}

/// What adding a bill does to the entries: overwrite in place when the name
/// is already present (last write wins, position kept), append otherwise.
pub open spec fn spec_add(
    s: Seq<(Seq<char>, u64)>,
    name: Seq<char>,
    amount: u64,
) -> Seq<(Seq<char>, u64)> {
    if has_name(s, name) {
        s.update(name_index(s, name), (name, amount))
    } else {
        s.push((name, amount))
    }
}

/// What removing a name does to the entries: delete its entry when present,
/// nothing otherwise.
pub open spec fn spec_remove(s: Seq<(Seq<char>, u64)>, name: Seq<char>) -> Seq<(Seq<char>, u64)> {
    if has_name(s, name) {
        s.remove(name_index(s, name))
    } else {
        s
    }
}

/// The sum of all amounts, in cents, as an unbounded integer.
pub open spec fn sum_cents(s: Seq<(Seq<char>, u64)>) -> int
    decreases s.len(),
{
    if s.len() == 0 {
        0
    } else {
        sum_cents(s.drop_last()) + s.last().1
    }
}

/// Relies on str's PartialEq: two string slices are equal exactly when
/// their character sequences are.
#[verifier::external_body]
pub(crate) fn str_eq(a: &str, b: &str) -> (r: bool)
    ensures
        r == (a@ == b@),
{
    a == b
}

/// The store of bills. Names are unique; entries keep insertion order.
pub struct BillStore {
    bills: Vec<Bills>,
}

impl BillStore {
    /// The store's contents as a sequence of (name, amount) entries.
    pub closed spec fn entries(self) -> Seq<(Seq<char>, u64)> {
        self.bills@.map_values(|b: Bills| b.entry())
    }

    /// Well-formedness: no two bills share a name.
    pub open spec fn wf(self) -> bool {
        distinct_names(self.entries())
    }

    /// An empty store.
    pub fn new() -> (s: BillStore)
        ensures
            s.wf(),
            s.entries() == Seq::<(Seq<char>, u64)>::empty(),
    {
        let s = BillStore { bills: Vec::new() };
        proof {
            assert(s.entries() =~= Seq::<(Seq<char>, u64)>::empty());
        }
        s
    }

    /// The index of the bill named `name`, if any.
    fn index_of(&self, name: &str) -> (r: Option<usize>)
        requires
            self.wf(),
        ensures
            match r {
                Some(i) => {
                    &&& i < self.entries().len()
                    &&& self.entries()[i as int].0 == name@
                    &&& has_name(self.entries(), name@)
                    &&& name_index(self.entries(), name@) == i as int
                },
                None => !has_name(self.entries(), name@),
            },
    {
        let ghost s = self.entries();
        let n = self.bills.len();
        let mut i: usize = 0;
        while i < n
            invariant
                n == s.len(),
                i <= n,
                self.wf(),
                s == self.entries(),
                forall|j: int| 0 <= j < i ==> (#[trigger] s[j]).0 != name@,
            decreases n - i,
        {
            if str_eq(self.bills[i].name.as_str(), name) {
                proof {
                    assert(s[i as int].0 == name@);
                    assert(has_name(s, name@));
                    assert forall|k: int| 0 <= k < s.len() && (#[trigger] s[k]).0 == name@ implies k
                        == i as int by {
                        if k != i as int {
                            assert(s[k].0 != s[i as int].0);
                        }
                    }
                }
                return Some(i);
            }
            i += 1;
        }
        None
    }

    /// Whether a bill named `name` is in the store.
    pub fn contains(&self, name: &str) -> (r: bool)
        requires
            self.wf(),
        ensures
            r == has_name(self.entries(), name@),
    {
        self.index_of(name).is_some()
    }

    /// Insert a bill, or overwrite the amount when the name is already
    /// taken: overwriting is silent by design, the last value wins.
    pub fn add(&mut self, name: String, amount: u64)
        requires
            old(self).wf(),
        ensures
            final(self).wf(),
            final(self).entries() == spec_add(old(self).entries(), name@, amount),
    {
        let ghost s = self.entries();
        match self.index_of(name.as_str()) {
            Some(i) => {
                let b = Bills { name, amount };
                self.bills.remove(i);
                self.bills.insert(i, b);
                proof {
                    assert(self.entries() =~= s.update(i as int, (b.name@, amount)));
                    lemma_add_distinct(s, b.name@, amount);
                }
            },
            None => {
                let b = Bills { name, amount };
                self.bills.push(b);
                proof {
                    assert(self.entries() =~= s.push((b.name@, amount)));
                    lemma_add_distinct(s, b.name@, amount);
                }
            },
        }
    }

    /// Delete the bill named `name`; absence is not an error, the store is
    /// then left unchanged.
    pub fn remove(&mut self, name: &str)
        requires
            old(self).wf(),
        ensures
            final(self).wf(),
            final(self).entries() == spec_remove(old(self).entries(), name@),
            !has_name(old(self).entries(), name@) ==> final(self).entries() == old(
                self,
            ).entries(),
    {
        let ghost s = self.entries();
        match self.index_of(name) {
            Some(i) => {
                self.bills.remove(i);
                proof {
                    assert(self.entries() =~= s.remove(i as int));
                    lemma_remove_distinct(s, name@);
                }
            },
            None => {},
        }
    }

    /// Replace the bill named `old_name` by one named `new_name` with
    /// `new_amount`, as a removal followed by an insertion. Returns whether
    /// `old_name` was found; when it was not, the store is unchanged.
    pub fn update(&mut self, old_name: &str, new_name: String, new_amount: u64) -> (found: bool)
        requires
            old(self).wf(),
        ensures
            final(self).wf(),
            found == has_name(old(self).entries(), old_name@),
            found ==> final(self).entries() == spec_add(
                spec_remove(old(self).entries(), old_name@),
                new_name@,
                new_amount,
            ),
            !found ==> final(self).entries() == old(self).entries(),
    {
        if self.contains(old_name) {
            self.remove(old_name);
            self.add(new_name, new_amount);
            true
        } else {
            false
        }
    }

    /// The sum of all amounts, in cents. Amounts are whole cents, so the
    /// sum is exact; it is computed once, over the aggregate.
    pub fn total(&self) -> (t: u128)
        ensures
            t == sum_cents(self.entries()),
    {
        let ghost s = self.entries();
        let n = self.bills.len();
        let mut acc: u128 = 0;
        let mut i: usize = 0;
        while i < n
            invariant
                n == s.len(),
                i <= n,
                s == self.entries(),
                acc == sum_cents(s.subrange(0, i as int)),
                acc <= i * (u64::MAX as int),
            decreases n - i,
        {
            proof {
                assert(s.subrange(0, i + 1).drop_last() =~= s.subrange(0, i as int));
                assert((i + 1) * (u64::MAX as int) <= (usize::MAX as int) * (u64::MAX as int))
                    by (nonlinear_arith)
                    requires
                        i + 1 <= usize::MAX as int,
                ;
                assert((usize::MAX as int) * (u64::MAX as int) < u128::MAX as int)
                    by (nonlinear_arith)
                    requires
                        usize::MAX as int <= u64::MAX as int,
                ;
            }
            acc = acc + self.bills[i].amount as u128;
            i += 1;
        }
        proof {
            assert(s.subrange(0, n as int) =~= s);
        }
        acc
    }

    /// The bills, in insertion order.
    pub fn list(&self) -> (r: &Vec<Bills>)
        ensures
            r@.map_values(|b: Bills| b.entry()) == self.entries(),
    {
        &self.bills
    }

    /// How many bills the store holds.
    pub fn len(&self) -> (n: usize)
        ensures
            n == self.entries().len(),
    {
        self.bills.len()
    }
}

/// Adding a bill keeps the names distinct, and afterwards the name is
/// present and carries the amount just given.
pub proof fn lemma_add_distinct(s: Seq<(Seq<char>, u64)>, name: Seq<char>, amount: u64)
    requires
        distinct_names(s),
    ensures
        distinct_names(spec_add(s, name, amount)),
        has_name(spec_add(s, name, amount), name),
        amount_of(spec_add(s, name, amount), name) == amount,
{
    let r = spec_add(s, name, amount);
    if has_name(s, name) {
        let i = name_index(s, name);
        assert(0 <= i < s.len() && s[i].0 == name);
        assert forall|a: int, b: int| 0 <= a < b < r.len() implies (#[trigger] r[a]).0 != (
        #[trigger] r[b]).0 by {
            assert(r[a].0 == s[a].0 && r[b].0 == s[b].0);
        }
        assert(r[i].0 == name);
        lemma_unique_index(r, name, i);
        assert(amount_of(r, name) == r[i].1);
    } else {
        let i = s.len() as int;
        assert forall|a: int, b: int| 0 <= a < b < r.len() implies (#[trigger] r[a]).0 != (
        #[trigger] r[b]).0 by {
            if b < i {
                assert(r[a].0 == s[a].0 && r[b].0 == s[b].0);
            } else {
                assert(r[b].0 == name);
                assert(r[a].0 == s[a].0);
                if s[a].0 == name {
                    assert(has_name(s, name));
                }
            }
        }
        assert(r[i].0 == name);
        lemma_unique_index(r, name, i);
        assert(amount_of(r, name) == r[i].1);
    }
}

/// Removing a name keeps the names distinct, and afterwards the name is
/// no longer present.
pub proof fn lemma_remove_distinct(s: Seq<(Seq<char>, u64)>, name: Seq<char>)
    requires
        distinct_names(s),
    ensures
        distinct_names(spec_remove(s, name)),
        !has_name(spec_remove(s, name), name),
{
    let r = spec_remove(s, name);
    if has_name(s, name) {
        let i = name_index(s, name);
        assert(0 <= i < s.len() && s[i].0 == name);
        assert forall|a: int, b: int| 0 <= a < b < r.len() implies (#[trigger] r[a]).0 != (
        #[trigger] r[b]).0 by {
            let oa: int = if a < i { a } else { a + 1 };
            let ob: int = if b < i { b } else { b + 1 };
            assert(r[a] == s[oa] && r[b] == s[ob]);
        }
        assert forall|k: int| 0 <= k < r.len() implies (#[trigger] r[k]).0 != name by {
            let ok: int = if k < i { k } else { k + 1 };
            assert(r[k] == s[ok]);
            if ok != i && s[ok].0 == name {
                assert(s[i].0 == s[ok].0);
            }
        }
    }
}

/// Adding a bill leaves every other name exactly as present or absent as
/// it was.
pub proof fn lemma_add_other_name(
    s: Seq<(Seq<char>, u64)>,
    name: Seq<char>,
    amount: u64,
    other: Seq<char>,
)
    requires
        other != name,
    ensures
        has_name(spec_add(s, name, amount), other) == has_name(s, other),
{
    let r = spec_add(s, name, amount);
    if has_name(s, name) {
        let i = name_index(s, name);
        assert(0 <= i < s.len() && s[i].0 == name);
        if has_name(s, other) {
            let k = choose|k: int| 0 <= k < s.len() && (#[trigger] s[k]).0 == other;
            assert(r[k].0 == other);
        }
        if has_name(r, other) {
            let k = choose|k: int| 0 <= k < r.len() && (#[trigger] r[k]).0 == other;
            assert(k != i);
            assert(s[k].0 == other);
        }
    } else {
        if has_name(s, other) {
            let k = choose|k: int| 0 <= k < s.len() && (#[trigger] s[k]).0 == other;
            assert(r[k].0 == other);
        }
        if has_name(r, other) {
            let k = choose|k: int| 0 <= k < r.len() && (#[trigger] r[k]).0 == other;
            assert(k != s.len());
            assert(s[k].0 == other);
        }
    }
}

/// Re-adding a name overwrites: adding under a name and then adding under
/// the same name again leaves exactly what the second addition alone
/// would have left. In particular, re-adding the same name and amount
/// changes nothing further.
pub proof fn lemma_add_overwrites(s: Seq<(Seq<char>, u64)>, name: Seq<char>, a1: u64, a2: u64)
    requires
        distinct_names(s),
    ensures
        spec_add(spec_add(s, name, a1), name, a2) == spec_add(s, name, a2),
{
    let s1 = spec_add(s, name, a1);
    lemma_add_distinct(s, name, a1);
    if has_name(s, name) {
        let i = name_index(s, name);
        assert(0 <= i < s.len() && s[i].0 == name);
        assert(s1[i].0 == name);
        lemma_unique_index(s1, name, i);
        assert(spec_add(s1, name, a2) =~= spec_add(s, name, a2));
    } else {
        let i = s.len() as int;
        assert(s1[i].0 == name);
        lemma_unique_index(s1, name, i);
        assert(spec_add(s1, name, a2) =~= s.push((name, a2)));
    }
}

/// Updating an existing name replaces the entry entirely: afterwards the
/// new name is present with the new amount, and the old name is gone
/// unless it is the new name itself. With identical names this is exactly
/// an overwrite.
pub proof fn lemma_update_replaces(
    s: Seq<(Seq<char>, u64)>,
    old_name: Seq<char>,
    new_name: Seq<char>,
    amount: u64,
)
    requires
        distinct_names(s),
        has_name(s, old_name),
    ensures
        ({
            let r = spec_add(spec_remove(s, old_name), new_name, amount);
            &&& distinct_names(r)
            &&& has_name(r, new_name)
            &&& amount_of(r, new_name) == amount
            &&& new_name != old_name ==> !has_name(r, old_name)
        }),
{
    let mid = spec_remove(s, old_name);
    lemma_remove_distinct(s, old_name);
    lemma_add_distinct(mid, new_name, amount);
    if new_name != old_name {
        lemma_add_other_name(mid, new_name, amount, old_name);
    }
}

/// In a sequence with distinct names, an index whose entry carries `name`
/// is the one that `name_index` denotes.
proof fn lemma_unique_index(s: Seq<(Seq<char>, u64)>, name: Seq<char>, i: int)
    requires
        distinct_names(s),
        0 <= i < s.len(),
        s[i].0 == name,
    ensures
        has_name(s, name),
        name_index(s, name) == i,
{
    assert(has_name(s, name));
    let k = name_index(s, name);
    assert(0 <= k < s.len() && s[k].0 == name);
    if k != i {
        assert(s[k].0 != s[i].0);
    }
}

} // verus!
