//! The mnemonic tally: how often each mnemonic occurs among the decoded
//! instructions.

use crate::decode::{mnemonics, Instruction};
use vstd::prelude::*;

verus! {

/// How many instructions of `names` carry the mnemonic `m`.
pub open spec fn occurrences(names: Seq<Option<Seq<char>>>, m: Seq<char>) -> nat {
    names.to_multiset().count(Some(m))
}

/// How many instructions of `names` carry no mnemonic.
pub open spec fn unnamed(names: Seq<Option<Seq<char>>>) -> nat {
    names.to_multiset().count(None)
}

/// The tally of a run of instructions: every mnemonic that occurs, mapped to
/// the number of its occurrences. Instructions without a mnemonic are left
/// out.
pub open spec fn tally_of(names: Seq<Option<Seq<char>>>) -> Map<Seq<char>, nat> {
    Map::new(
        |m: Seq<char>| occurrences(names, m) > 0,
        |m: Seq<char>| occurrences(names, m),
    )
}

/// The tally after one more occurrence of `m`: its count goes up by one, or
/// it enters with count one.
pub open spec fn bump(t: Map<Seq<char>, nat>, m: Seq<char>) -> Map<Seq<char>, nat> {
    if t.dom().contains(m) {
        t.insert(m, t[m] + 1)
    } else {
        t.insert(m, 1)
    }
}

/// The sum of all counts of a tally.
pub open spec fn total_count(t: Map<Seq<char>, nat>) -> nat
    decreases t.dom().len(),
    when t.dom().finite()
{
    if t.dom().len() == 0 {
        0
    } else {
        let k = t.dom().choose();
        t[k] + total_count(t.remove(k))
    }
}

/// No instructions, empty tally.
pub proof fn lemma_tally_of_empty()
    ensures
        tally_of(Seq::empty()) == Map::<Seq<char>, nat>::empty(),
{
    let none = Seq::<Option<Seq<char>>>::empty();
    assert forall|m: Seq<char>| occurrences(none, m) == 0 by {
        none.to_multiset_ensures();
    }
}

/// One more instruction bumps the tally at its mnemonic, or leaves the tally
/// alone if it has none.
pub proof fn lemma_tally_of_push(names: Seq<Option<Seq<char>>>, x: Option<Seq<char>>)
    ensures
        tally_of(names.push(x)) == match x {
            Some(m) => bump(tally_of(names), m),
            None => tally_of(names),
        },
        unnamed(names.push(x)) == unnamed(names) + (if x is None { 1nat } else { 0nat }),
{
    vstd::seq_lib::to_multiset_build(names, x);
    let before = names.to_multiset();
    let after = names.push(x).to_multiset();
    assert forall|y: Option<Seq<char>>| after.count(y) == before.count(y) + (if y == x {
        1nat
    } else {
        0nat
    }) by {
        if y == x {
            vstd::multiset::lemma_insert_increases_count_by_1(before, x);
        } else {
            vstd::multiset::lemma_insert_other_elements_unchanged(before, x, y);
        }
    }
}

/// The total of a finite tally splits off the count of any one of its keys.
proof fn lemma_total_split(t: Map<Seq<char>, nat>, k: Seq<char>)
    requires
        t.dom().finite(),
        t.dom().contains(k),
    ensures
        total_count(t) == t[k] + total_count(t.remove(k)),
    decreases t.dom().len(),
{
    let c = t.dom().choose();
    if c != k {
        lemma_total_split(t.remove(c), k);
        lemma_total_split(t.remove(k), c);
        assert(t.remove(c).remove(k) =~= t.remove(k).remove(c));
    }
}

/// Bumping a finite tally raises its total by exactly one.
pub proof fn lemma_total_bump(t: Map<Seq<char>, nat>, m: Seq<char>)
    requires
        t.dom().finite(),
    ensures
        bump(t, m).dom().finite(),
        total_count(bump(t, m)) == total_count(t) + 1,
{
    let b = bump(t, m);
    lemma_total_split(b, m);
    if t.dom().contains(m) {
        lemma_total_split(t, m);
        assert(b.remove(m) =~= t.remove(m));
    } else {
        assert(b.remove(m) =~= t);
    }
}

/// The counts of a tally add up to the number of instructions that carry a
/// mnemonic. So the total never exceeds the number of instructions, and it
/// reaches it exactly when every instruction has a mnemonic.
pub proof fn lemma_tally_total(names: Seq<Option<Seq<char>>>)
    ensures
        tally_of(names).dom().finite(),
        total_count(tally_of(names)) + unnamed(names) == names.len(),
        total_count(tally_of(names)) <= names.len(),
        total_count(tally_of(names)) == names.len() <==> (forall|i: int|
            0 <= i < names.len() ==> (#[trigger] names[i]) is Some),
    decreases names.len(),
{
    if names.len() == 0 {
        lemma_tally_of_empty();
        assert(names =~= Seq::empty());
        names.to_multiset_ensures();
    } else {
        let front = names.drop_last();
        let x = names.last();
        lemma_tally_total(front);
        lemma_tally_of_push(front, x);
        assert(front.push(x) =~= names);
        match x {
            Some(m) => {
                lemma_total_bump(tally_of(front), m);
            },
            None => {},
        }
    }
    names.to_multiset_ensures();
}

/// The tally depends on which instructions were decoded, not on the order
/// in which they are visited: rearranging them leaves every count as it is.
pub proof fn lemma_tally_ignores_order(
    first: Seq<Option<Seq<char>>>,
    second: Seq<Option<Seq<char>>>,
)
    requires
        first.to_multiset() == second.to_multiset(),
    ensures
        tally_of(first) == tally_of(second),
{
}

/// One line of a tally: a mnemonic and the number of times it occurred.
#[derive(Debug)]
pub struct TallyEntry {
    pub mnemonic: String,
    pub count: u64,
}

/// Whether `entries` lists the tally `t`: every key of `t` appears on
/// exactly one line, with its count, and no other line is present.
pub open spec fn lists(entries: Seq<TallyEntry>, t: Map<Seq<char>, nat>) -> bool {
    &&& forall|i: int, j: int|
        0 <= i < j < entries.len() ==> (#[trigger] entries[i]).mnemonic@ != (
        #[trigger] entries[j]).mnemonic@
    &&& forall|i: int|
        0 <= i < entries.len() ==> t.dom().contains((#[trigger] entries[i]).mnemonic@)
            && t[entries[i].mnemonic@] == entries[i].count
    &&& forall|k: Seq<char>|
        t.dom().contains(k) ==> exists|i: int|
            0 <= i < entries.len() && (#[trigger] entries[i]).mnemonic@ == k
}

spec fn distinct_keys(entries: Seq<TallyEntry>) -> bool {
    forall|i: int, j: int|
        0 <= i < j < entries.len() ==> (#[trigger] entries[i]).mnemonic@ != (
        #[trigger] entries[j]).mnemonic@
}

spec fn entries_map(entries: Seq<TallyEntry>) -> Map<Seq<char>, nat>
    decreases entries.len(),
{
    if entries.len() == 0 {
        Map::empty()
    } else {
        entries_map(entries.drop_last()).insert(
            entries.last().mnemonic@,
            entries.last().count as nat,
        )
    }
}

spec fn sum_counts(entries: Seq<TallyEntry>) -> nat
    decreases entries.len(),
{
    if entries.len() == 0 {
        0
    } else {
        sum_counts(entries.drop_last()) + entries.last().count as nat
    }
}

proof fn lemma_entries_map(entries: Seq<TallyEntry>)
    requires
        distinct_keys(entries),
    ensures
        entries_map(entries).dom().finite(),
        entries_map(entries).dom().len() == entries.len(),
        lists(entries, entries_map(entries)),
        total_count(entries_map(entries)) == sum_counts(entries),
    decreases entries.len(),
{
    if entries.len() > 0 {
        let front = entries.drop_last();
        let k = entries.last().mnemonic@;
        let inner = entries_map(front);
        let whole = entries_map(entries);
        lemma_entries_map(front);
        assert(!inner.dom().contains(k));
        assert forall|i: int| 0 <= i < entries.len() implies whole.dom().contains(
            (#[trigger] entries[i]).mnemonic@,
        ) && whole[entries[i].mnemonic@] == entries[i].count by {
            if i < front.len() {
                assert(inner.dom().contains(front[i].mnemonic@));
            }
        }
        assert forall|x: Seq<char>| whole.dom().contains(x) implies exists|i: int|
            0 <= i < entries.len() && (#[trigger] entries[i]).mnemonic@ == x by {
            if x != k {
                let i = choose|i: int| 0 <= i < front.len() && (#[trigger] front[i]).mnemonic@ == x;
                assert(entries[i].mnemonic@ == x);
            }
        }
        lemma_total_split(whole, k);
        assert(whole.remove(k) =~= inner);
    }
}

/// Replacing the count on line `j`, under the same mnemonic, replaces the
/// value of that mnemonic in the map and nothing else.
proof fn lemma_updated_entry(before: Seq<TallyEntry>, after: Seq<TallyEntry>, j: int)
    requires
        0 <= j < before.len(),
        after.len() == before.len(),
        distinct_keys(before),
        after[j].mnemonic@ == before[j].mnemonic@,
        forall|i: int| 0 <= i < before.len() && i != j ==> #[trigger] after[i] == before[i],
    ensures
        distinct_keys(after),
        entries_map(after) == entries_map(before).insert(
            before[j].mnemonic@,
            after[j].count as nat,
        ),
{
    assert forall|a: int, b: int| 0 <= a < b < after.len() implies (#[trigger] after[a]).mnemonic@
        != (#[trigger] after[b]).mnemonic@ by {
        assert(after[a].mnemonic@ == before[a].mnemonic@);
        assert(after[b].mnemonic@ == before[b].mnemonic@);
    }
    lemma_entries_map(before);
    lemma_entries_map(after);
    let k = before[j].mnemonic@;
    let old_map = entries_map(before);
    let new_map = entries_map(after);
    assert forall|x: Seq<char>| new_map.dom().contains(x) implies old_map.dom().contains(x)
        && (x != k ==> new_map[x] == old_map[x]) by {
        let i = choose|i: int| 0 <= i < after.len() && (#[trigger] after[i]).mnemonic@ == x;
        assert(before[i].mnemonic@ == x);
    }
    assert forall|x: Seq<char>| old_map.dom().contains(x) implies new_map.dom().contains(x) by {
        let i = choose|i: int| 0 <= i < before.len() && (#[trigger] before[i]).mnemonic@ == x;
        assert(after[i].mnemonic@ == x);
    }
    assert(new_map[k] == after[j].count);
    assert(new_map =~= old_map.insert(k, after[j].count as nat));
}

/// A prefix of the lines never adds up to more than all of them.
proof fn lemma_sum_prefix(entries: Seq<TallyEntry>, n: int)
    requires
        0 <= n <= entries.len(),
    ensures
        sum_counts(entries.take(n)) <= sum_counts(entries),
    decreases entries.len() - n,
{
    if n == entries.len() {
        assert(entries.take(n) =~= entries);
    } else {
        lemma_sum_prefix(entries, n + 1);
        assert(entries.take(n + 1).drop_last() =~= entries.take(n));
    }
}

/// Counts per mnemonic, kept as one line per distinct mnemonic.
#[derive(Debug)]
pub struct MnemonicTally {
    entries: Vec<TallyEntry>,
}

impl View for MnemonicTally {
    type V = Map<Seq<char>, nat>;

    closed spec fn view(&self) -> Map<Seq<char>, nat> {
        entries_map(self.entries@)
    }
}

impl MnemonicTally {
    /// The invariant of a tally: no mnemonic is listed twice, every listed
    /// count is positive, and the counts add up to at most `u64::MAX`.
    pub closed spec fn wf(&self) -> bool {
        &&& distinct_keys(self.entries@)
        &&& forall|i: int| 0 <= i < self.entries@.len() ==> (#[trigger] self.entries@[i]).count >= 1
        &&& sum_counts(self.entries@) <= u64::MAX
    }

    /// A well-formed tally has finitely many mnemonics, each with a positive
    /// count, and its counts add up to at most `u64::MAX`.
    pub proof fn lemma_well_formed(&self)
        requires
            self.wf(),
        ensures
            self@.dom().finite(),
            total_count(self@) <= u64::MAX,
            forall|k: Seq<char>| self@.dom().contains(k) ==> 1 <= #[trigger] self@[k] <= u64::MAX,
    {
        lemma_entries_map(self.entries@);
        assert forall|k: Seq<char>| self@.dom().contains(k) implies 1 <= #[trigger] self@[k]
            <= u64::MAX by {
            let i = choose|i: int|
                0 <= i < self.entries@.len() && (#[trigger] self.entries@[i]).mnemonic@ == k;
            assert(self@[k] == self.entries@[i].count);
        }
    }

    /// An empty tally.
    pub fn new() -> (t: Self)
        ensures
            t.wf(),
            t@ == Map::<Seq<char>, nat>::empty(),
    {
        MnemonicTally { entries: Vec::new() }
    }

    /// Counts one occurrence of `mnemonic`: its count is incremented, or it
    /// is inserted with count one on first occurrence.
    pub fn record(&mut self, mnemonic: &str)
        requires
            old(self).wf(),
            total_count(old(self)@) < u64::MAX,
        ensures
            final(self).wf(),
            final(self)@ == bump(old(self)@, mnemonic@),
    {
        let key = mnemonic.to_owned();
        let ghost before = self.entries@;
        proof {
            lemma_entries_map(before);
        }
        let mut i: usize = 0;
        while i < self.entries.len()
            invariant
                i <= before.len(),
                self.entries@ == before,
                old(self).entries@ == before,
                old(self).wf(),
                key@ == mnemonic@,
                sum_counts(before) < u64::MAX,
                forall|j: int| 0 <= j < i ==> (#[trigger] before[j]).mnemonic@ != key@,
            decreases before.len() - i,
        {
            if self.entries[i].mnemonic == key {
                let count = self.entries[i].count;
                proof {
                    lemma_entries_map(before);
                    lemma_total_split(entries_map(before), key@);
                }
                self.entries.set(i, TallyEntry { mnemonic: key, count: count + 1 });
                proof {
                    lemma_updated_entry(before, self.entries@, i as int);
                    lemma_total_bump(entries_map(before), key@);
                    lemma_entries_map(self.entries@);
                }
                return;
            }
            i += 1;
        }
        self.entries.push(TallyEntry { mnemonic: key, count: 1 });
        proof {
            assert(self.entries@.drop_last() =~= before);
            lemma_total_bump(entries_map(before), key@);
            lemma_entries_map(self.entries@);
        }
    }

    /// The count recorded for `mnemonic`, zero if it never occurred.
    pub fn count(&self, mnemonic: &str) -> (n: u64)
        requires
            self.wf(),
        ensures
            n == (if self@.dom().contains(mnemonic@) {
                self@[mnemonic@]
            } else {
                0
            }),
    {
        let key = mnemonic.to_owned();
        proof {
            lemma_entries_map(self.entries@);
        }
        let mut i: usize = 0;
        while i < self.entries.len()
            invariant
                i <= self.entries@.len(),
                key@ == mnemonic@,
                lists(self.entries@, self@),
                forall|j: int| 0 <= j < i ==> (#[trigger] self.entries@[j]).mnemonic@ != key@,
            decreases self.entries@.len() - i,
        {
            if self.entries[i].mnemonic == key {
                return self.entries[i].count;
            }
            i += 1;
        }
        0
    }

    /// The number of distinct mnemonics.
    pub fn len(&self) -> (n: usize)
        requires
            self.wf(),
        ensures
            n == self@.dom().len(),
    {
        proof {
            lemma_entries_map(self.entries@);
        }
        self.entries.len()
    }

    /// The sum of all counts.
    pub fn total(&self) -> (n: u64)
        requires
            self.wf(),
        ensures
            n == total_count(self@),
    {
        proof {
            lemma_entries_map(self.entries@);
        }
        let mut n: u64 = 0;
        let mut i: usize = 0;
        while i < self.entries.len()
            invariant
                i <= self.entries@.len(),
                n == sum_counts(self.entries@.take(i as int)),
                sum_counts(self.entries@) <= u64::MAX,
            decreases self.entries@.len() - i,
        {
            proof {
                assert(self.entries@.take(i + 1).drop_last() =~= self.entries@.take(i as int));
                lemma_sum_prefix(self.entries@, i + 1);
            }
            n = n + self.entries[i].count;
            i += 1;
        }
        proof {
            assert(self.entries@.take(i as int) =~= self.entries@);
        }
        n
    }

    /// The lines of the tally: one per distinct mnemonic, each with its
    /// count. Their order is not specified.
    pub fn entries(&self) -> (e: &Vec<TallyEntry>)
        requires
            self.wf(),
        ensures
            lists(e@, self@),
    {
        proof {
            lemma_entries_map(self.entries@);
        }
        &self.entries
    }
}

/// Counts the occurrences of each mnemonic among `instructions`.
/// Instructions without a mnemonic are skipped.
pub fn tally_mnemonics(instructions: &Vec<Instruction>) -> (t: MnemonicTally)
    ensures
        t.wf(),
        t@ == tally_of(mnemonics(instructions@)),
{
    let ghost names = mnemonics(instructions@);
    let mut t = MnemonicTally::new();
    proof {
        lemma_tally_of_empty();
        assert(names.take(0) =~= Seq::empty());
    }
    let mut i: usize = 0;
    while i < instructions.len()
        invariant
            i <= instructions@.len(),
            names == mnemonics(instructions@),
            t.wf(),
            t@ == tally_of(names.take(i as int)),
        decreases instructions@.len() - i,
    {
        proof {
            lemma_tally_total(names.take(i as int));
            lemma_tally_of_push(names.take(i as int), names[i as int]);
            assert(names.take(i as int).push(names[i as int]) =~= names.take(i + 1));
        }
        match &instructions[i].mnemonic {
            Some(name) => {
                t.record(name.as_str());
            },
            None => {},
        }
        i += 1;
    }
    proof {
        assert(names.take(i as int) =~= names);
    }
    t
}

} // verus!
