use vstd::prelude::*;

verus! {

/// What `holder` owns in `balances`: a holder without an entry owns nothing.
pub open spec fn balance_of(balances: Map<Seq<char>, nat>, holder: Seq<char>) -> nat {
    if balances.dom().contains(holder) {
        balances[holder]
    } else {
        0
    }
}

/// The sum of all balances of a finite ledger.
pub open spec fn share_total(balances: Map<Seq<char>, nat>) -> nat
    decreases balances.dom().len(),
{
    if balances.dom().finite() && balances.dom().len() > 0 {
        let holder = balances.dom().choose();
        balances[holder] + share_total(balances.remove(holder))
    } else {
        0
    }
}

/// The total can be split at any holder, not only at the chosen one.
pub proof fn lemma_share_total_remove(balances: Map<Seq<char>, nat>, holder: Seq<char>)
    requires
        balances.dom().finite(),
        balances.dom().contains(holder),
    ensures
        share_total(balances) == balances[holder] + share_total(balances.remove(holder)),
    decreases balances.dom().len(),
{
    let chosen = balances.dom().choose();
    if chosen != holder {
        lemma_share_total_remove(balances.remove(chosen), holder);
        lemma_share_total_remove(balances.remove(holder), chosen);
        assert(balances.remove(chosen).remove(holder) =~= balances.remove(holder).remove(chosen));
    }
}

/// Writing one balance changes the total by the difference of that balance.
pub proof fn lemma_share_total_insert(
    balances: Map<Seq<char>, nat>,
    holder: Seq<char>,
    amount: nat,
)
    requires
        balances.dom().finite(),
    ensures
        share_total(balances.insert(holder, amount)) == share_total(balances) - balance_of(
            balances,
            holder,
        ) + amount,
{
    let written = balances.insert(holder, amount);
    lemma_share_total_remove(written, holder);
    if balances.dom().contains(holder) {
        lemma_share_total_remove(balances, holder);
        assert(written.remove(holder) =~= balances.remove(holder));
    } else {
        assert(written.remove(holder) =~= balances);
    }
}

/// No holder owns more than the total.
pub proof fn lemma_balance_within_total(balances: Map<Seq<char>, nat>, holder: Seq<char>)
    requires
        balances.dom().finite(),
    ensures
        balance_of(balances, holder) <= share_total(balances),
{
    if balances.dom().contains(holder) {
        lemma_share_total_remove(balances, holder);
    }
}

/// One line of the share ledger.
#[derive(Debug)]
pub struct ShareEntry {
    pub holder: String,
    pub amount: u128,
}

/// The share ledger: for each holder the number of shares owned.  It keeps
/// at most one entry per holder.
#[derive(Debug)]
pub struct ShareBalances {
    entries: Vec<ShareEntry>,
}

spec fn holders_distinct(entries: Seq<ShareEntry>) -> bool {
    forall|i: int, j: int| 0 <= i < j < entries.len() ==> entries[i].holder@ != entries[j].holder@
}

spec fn entries_map(entries: Seq<ShareEntry>) -> Map<Seq<char>, nat>
    decreases entries.len(),
{
    if entries.len() == 0 {
        Map::empty()
    } else {
        entries_map(entries.drop_last()).insert(
            entries.last().holder@,
            entries.last().amount as nat,
        )
    }
}

spec fn entries_sum(entries: Seq<ShareEntry>) -> nat
    decreases entries.len(),
{
    if entries.len() == 0 {
        0
    } else {
        entries_sum(entries.drop_last()) + entries.last().amount as nat
    }
}

proof fn lemma_entries_map(entries: Seq<ShareEntry>)
    ensures
        entries_map(entries).dom().finite(),
        forall|holder: Seq<char>| #[trigger]
            entries_map(entries).dom().contains(holder) <==> exists|i: int|
                0 <= i < entries.len() && #[trigger] entries[i].holder@ == holder,
        holders_distinct(entries) ==> forall|i: int|
            0 <= i < entries.len() ==> entries_map(entries)[#[trigger] entries[i].holder@]
                == entries[i].amount,
    decreases entries.len(),
{
    if entries.len() > 0 {
        let front = entries.drop_last();
        lemma_entries_map(front);
        assert forall|holder: Seq<char>| #[trigger]
            entries_map(entries).dom().contains(holder) implies exists|i: int|
            0 <= i < entries.len() && #[trigger] entries[i].holder@ == holder by {
            if holder == entries.last().holder@ {
                assert(entries[entries.len() - 1].holder@ == holder);
            } else {
                let i = choose|i: int| 0 <= i < front.len() && #[trigger] front[i].holder@ == holder;
                assert(entries[i].holder@ == holder);
            }
        }
        assert forall|holder: Seq<char>|
            (exists|i: int|
                0 <= i < entries.len() && #[trigger] entries[i].holder@
                    == holder) implies #[trigger] entries_map(entries).dom().contains(holder) by {
            let i = choose|i: int| 0 <= i < entries.len() && #[trigger] entries[i].holder@ == holder;
            if i < front.len() {
                assert(front[i].holder@ == holder);
            }
        }
        if holders_distinct(entries) {
            assert(holders_distinct(front)) by {
                assert forall|i: int, j: int| 0 <= i < j < front.len() implies front[i].holder@
                    != front[j].holder@ by {
                    assert(entries[i].holder@ != entries[j].holder@);
                }
            }
            assert forall|i: int| 0 <= i < entries.len() implies entries_map(
                entries,
            )[#[trigger] entries[i].holder@] == entries[i].amount by {
                if i < front.len() {
                    assert(front[i].holder@ == entries[i].holder@);
                    assert(entries[i].holder@ != entries[entries.len() - 1].holder@);
                }
            }
        }
    }
}

proof fn lemma_entries_sum(entries: Seq<ShareEntry>)
    requires
        holders_distinct(entries),
    ensures
        share_total(entries_map(entries)) == entries_sum(entries),
    decreases entries.len(),
{
    if entries.len() == 0 {
        assert(entries_map(entries).dom() =~= Set::<Seq<char>>::empty());
    } else {
        let front = entries.drop_last();
        assert(holders_distinct(front)) by {
            assert forall|i: int, j: int| 0 <= i < j < front.len() implies front[i].holder@
                != front[j].holder@ by {
                assert(entries[i].holder@ != entries[j].holder@);
            }
        }
        lemma_entries_sum(front);
        lemma_entries_map(front);
        assert(!entries_map(front).dom().contains(entries.last().holder@)) by {
            if entries_map(front).dom().contains(entries.last().holder@) {
                let i = choose|i: int|
                    0 <= i < front.len() && #[trigger] front[i].holder@ == entries.last().holder@;
                assert(entries[i].holder@ == entries[entries.len() - 1].holder@);
            }
        }
        lemma_share_total_insert(
            entries_map(front),
            entries.last().holder@,
            entries.last().amount as nat,
        );
    }
}

impl View for ShareBalances {
    type V = Map<Seq<char>, nat>;

    closed spec fn view(&self) -> Map<Seq<char>, nat> {
        entries_map(self.entries@)
    }
}

impl ShareBalances {
    #[verifier::type_invariant]
    spec fn one_entry_per_holder(&self) -> bool {
        holders_distinct(self.entries@)
    }

    /// A ledger holds finitely many entries.
    pub proof fn lemma_finite(&self)
        ensures
            self@.dom().finite(),
    {
        lemma_entries_map(self.entries@);
    }

    /// The ledger in which nobody owns anything.
    pub fn new() -> (balances: ShareBalances)
        ensures
            balances@ == Map::<Seq<char>, nat>::empty(),
    {
        ShareBalances { entries: Vec::new() }
    }

    /// Where `holder`'s entry stands, if there is one.
    fn position(&self, holder: &String) -> (found: Option<usize>)
        ensures
            match found {
                Some(i) => i < self.entries.len() && self.entries[i as int].holder@ == holder@,
                None => forall|i: int|
                    0 <= i < self.entries.len() ==> self.entries[i].holder@ != holder@,
            },
    {
        let mut i: usize = 0;
        while i < self.entries.len()
            invariant
                i <= self.entries.len(),
                forall|j: int| 0 <= j < i ==> self.entries[j].holder@ != holder@,
            decreases self.entries.len() - i,
        {
            if self.entries[i].holder == *holder {
                return Some(i);
            }
            i = i + 1;
        }
        None
    }

    /// The shares that `holder` owns: zero where the ledger has no entry.
    pub fn get(&self, holder: &String) -> (amount: u128)
        ensures
            amount == balance_of(self@, holder@),
    {
        proof {
            use_type_invariant(self);
            lemma_entries_map(self.entries@);
        }
        match self.position(holder) {
            Some(i) => self.entries[i].amount,
            None => 0,
        }
    }

    /// Writes `holder`'s balance, with a new entry where there was none.
    pub fn set(&mut self, holder: String, amount: u128)
        ensures
            final(self)@ == old(self)@.insert(holder@, amount as nat),
    {
        proof {
            use_type_invariant(&*self);
            lemma_entries_map(self.entries@);
        }
        let ghost before = self.entries@;
        let found = self.position(&holder);
        let mut entries: Vec<ShareEntry> = Vec::new();
        core::mem::swap(&mut self.entries, &mut entries);
        match found {
            Some(i) => {
                entries.set(i, ShareEntry { holder, amount });
                proof {
                    lemma_entries_update(before, i as int, entries@[i as int]);
                }
            },
            None => {
                entries.push(ShareEntry { holder, amount });
                assert(entries@.drop_last() =~= before);
            },
        }
        self.entries = entries;
    }

    /// The sum of all balances, or `None` where it does not fit into 128 bits.
    pub fn checked_total(&self) -> (total: Option<u128>)
        ensures
            total == (if share_total(self@) <= u128::MAX {
                Some(share_total(self@) as u128)
            } else {
                None
            }),
    {
        proof {
            use_type_invariant(self);
            lemma_entries_sum(self.entries@);
        }
        let mut sum: u128 = 0;
        let mut i: usize = 0;
        while i < self.entries.len()
            invariant
                i <= self.entries.len(),
                sum == entries_sum(self.entries@.take(i as int)),
                share_total(self@) == entries_sum(self.entries@),
            decreases self.entries.len() - i,
        {
            proof {
                lemma_entries_sum_take(self.entries@, i as int);
            }
            match sum.checked_add(self.entries[i].amount) {
                Some(next) => {
                    sum = next;
                },
                None => {
                    return None;
                },
            }
            i = i + 1;
        }
        assert(self.entries@.take(i as int) =~= self.entries@);
        Some(sum)
    }
}

proof fn lemma_entries_update(entries: Seq<ShareEntry>, at: int, entry: ShareEntry)
    requires
        holders_distinct(entries),
        0 <= at < entries.len(),
        entry.holder@ == entries[at].holder@,
    ensures
        holders_distinct(entries.update(at, entry)),
        entries_map(entries.update(at, entry)) == entries_map(entries).insert(
            entry.holder@,
            entry.amount as nat,
        ),
    decreases entries.len(),
{
    let updated = entries.update(at, entry);
    assert(holders_distinct(updated)) by {
        assert forall|i: int, j: int| 0 <= i < j < updated.len() implies updated[i].holder@
            != updated[j].holder@ by {
            assert(entries[i].holder@ != entries[j].holder@);
        }
    }
    let front = entries.drop_last();
    if at == entries.len() - 1 {
        assert(updated.drop_last() =~= front);
        assert(entries_map(updated) =~= entries_map(entries).insert(
            entry.holder@,
            entry.amount as nat,
        ));
    } else {
        assert(holders_distinct(front)) by {
            assert forall|i: int, j: int| 0 <= i < j < front.len() implies front[i].holder@
                != front[j].holder@ by {
                assert(entries[i].holder@ != entries[j].holder@);
            }
        }
        lemma_entries_update(front, at, entry);
        assert(updated.drop_last() =~= front.update(at, entry));
        assert(entries[at].holder@ != entries[entries.len() - 1].holder@);
        assert(entries_map(updated) =~= entries_map(entries).insert(
            entry.holder@,
            entry.amount as nat,
        ));
    }
}

proof fn lemma_entries_sum_take(entries: Seq<ShareEntry>, upto: int)
    requires
        0 <= upto < entries.len(),
    ensures
        entries_sum(entries.take(upto + 1)) == entries_sum(entries.take(upto)) + entries[upto].amount,
        entries_sum(entries.take(upto + 1)) <= entries_sum(entries),
    decreases entries.len() - upto,
{
    assert(entries.take(upto + 1).drop_last() =~= entries.take(upto));
    if upto + 1 < entries.len() {
        lemma_entries_sum_take(entries, upto + 1);
    } else {
        assert(entries.take(upto + 1) =~= entries);
    }
}

} // verus!
