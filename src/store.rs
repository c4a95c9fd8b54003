//! Keyed accumulators. Each store type offers the one update policy it was
//! declared with, so an operation of the other policy cannot be written
//! against it: an additive store only adds, a last-write store only sets.
use vstd::prelude::*;
use vstd::string::*;
use crate::text::{bigint_sum, int_text, is_int_text, lemma_text_int, text_int};

verus! {

/// A key and its value text.
pub struct Entry {
    pub key: String,
    pub value: String,
}

/// One change to a key of an additive store, with the value before and after.
pub struct Delta {
    pub key: String,
    pub old_value: String,
    pub new_value: String,
}

/// Whether both values of a delta are canonical integer texts.
pub open spec fn delta_wf(d: Delta) -> bool {
    is_int_text(d.old_value@) && is_int_text(d.new_value@)
}

/// A delta as key, old value and new value.
pub open spec fn delta_triple(d: Delta) -> (Seq<char>, int, int) {
    (d.key@, text_int(d.old_value@), text_int(d.new_value@))
}

/// A delta log as triples.
pub open spec fn log_triples(ds: Seq<Delta>) -> Seq<(Seq<char>, int, int)> {
    ds.map_values(|d: Delta| delta_triple(d))
}

/// The value of a key, zero where the key is absent.
pub open spec fn value_or_zero(m: Map<Seq<char>, int>, k: Seq<char>) -> int {
    if m.contains_key(k) {
        m[k]
    } else {
        0
    }
}

/// Replays a delta log on a map of values: each entry adds its change
/// (new minus old) to its key, in order.
pub open spec fn replay(m: Map<Seq<char>, int>, log: Seq<(Seq<char>, int, int)>) -> Map<Seq<char>, int>
    decreases log.len(),
{
    if log.len() == 0 {
        m
    } else {
        let before = replay(m, log.drop_last());
        let d = log.last();
        before.insert(d.0, value_or_zero(before, d.0) + (d.2 - d.1))
    }
}

/// Replaying a log in two parts is replaying it whole.
pub proof fn lemma_replay_split(
    m: Map<Seq<char>, int>,
    a: Seq<(Seq<char>, int, int)>,
    b: Seq<(Seq<char>, int, int)>,
)
    ensures
        replay(replay(m, a), b) == replay(m, a + b),
    decreases b.len(),
{
    if b.len() == 0 {
        assert(a + b =~= a);
    } else {
        lemma_replay_split(m, a, b.drop_last());
        assert((a + b).drop_last() =~= a + b.drop_last());
        assert((a + b).last() == b.last());
    }
}

proof fn lemma_zero_text()
    ensures
        "0"@ == int_text(0),
        is_int_text("0"@),
        text_int("0"@) == 0,
{
    reveal_strlit("0");
    assert(int_text(0) =~= seq!['0']);
    lemma_text_int(0);
}

fn zero_text() -> (r: String)
    ensures
        r@ == int_text(0),
        is_int_text(r@),
        text_int(r@) == 0,
{
    proof {
        lemma_zero_text();
    }
    "0".to_string()
}

/// Finds the position of a key among entries.
fn find_entry(entries: &Vec<Entry>, key: &str) -> (r: Option<usize>)
    ensures
        r matches Some(i) ==> i < entries@.len() && entries@[i as int].key@ == key@,
        r is None ==> forall|j: int| 0 <= j < entries@.len() ==> entries@[j].key@ != key@,
{
    let mut i: usize = 0;
    while i < entries.len()
        invariant
            i <= entries@.len(),
            forall|j: int| 0 <= j < i ==> entries@[j].key@ != key@,
        decreases entries@.len() - i,
    {
        let k = entries[i].key.as_str();
        if str_equal(k, key) {
            return Some(i);
        }
        i = i + 1;
    }
    None
}

/// Whether two texts are equal, character by character.
pub fn str_equal(a: &str, b: &str) -> (r: bool)
    ensures
        r == (a@ == b@),
{
    let n = a.unicode_len();
    if n != b.unicode_len() {
        return false;
    }
    let mut i: usize = 0;
    while i < n
        invariant
            n == a@.len(),
            n == b@.len(),
            i <= n,
            forall|j: int| 0 <= j < i ==> a@[j] == b@[j],
        decreases n - i,
    {
        if a.get_char(i) != b.get_char(i) {
            return false;
        }
        i = i + 1;
    }
    proof {
        assert(a@ =~= b@);
    }
    true
}

/// An additive store: each write adds to the key's value (absent counts as
/// zero), and every write, a zero one too, is logged as a delta.
pub struct AddStore {
    entries: Vec<Entry>,
    log: Vec<Delta>,
    model: Ghost<Map<Seq<char>, int>>,
    base: Ghost<Map<Seq<char>, int>>,
}

impl AddStore {
    /// The value of each key.
    pub closed spec fn values(&self) -> Map<Seq<char>, int> {
        self.model@
    }

    /// The values as they were when the delta log was last cleared.
    pub closed spec fn base(&self) -> Map<Seq<char>, int> {
        self.base@
    }

    /// The deltas logged since the log was last cleared, in order.
    pub closed spec fn log(&self) -> Seq<Delta> {
        self.log@
    }

    /// Entries, values and the delta log agree: keys unique, values canonical,
    /// and the values are the base with the log replayed.
    pub closed spec fn wf(&self) -> bool {
        &&& forall|i: int, j: int|
            0 <= i < j < self.entries@.len() ==> self.entries@[i].key@ != self.entries@[j].key@
        &&& forall|i: int|
            0 <= i < self.entries@.len() ==> {
                &&& is_int_text(#[trigger] self.entries@[i].value@)
                &&& self.model@.contains_key(self.entries@[i].key@)
                &&& self.model@[self.entries@[i].key@] == text_int(self.entries@[i].value@)
            }
        &&& forall|k: Seq<char>|
            self.model@.contains_key(k) ==> exists|i: int|
                0 <= i < self.entries@.len() && (#[trigger] self.entries@[i]).key@ == k
        &&& forall|j: int| 0 <= j < self.log@.len() ==> delta_wf(#[trigger] self.log@[j])
        &&& self.model@ == replay(self.base@, log_triples(self.log@))
    }

    /// An empty store with an empty log.
    pub fn new() -> (r: AddStore)
        ensures
            r.wf(),
            r.values() == Map::<Seq<char>, int>::empty(),
            r.base() == Map::<Seq<char>, int>::empty(),
            r.log() == Seq::<Delta>::empty(),
    {
        let r = AddStore {
            entries: Vec::new(),
            log: Vec::new(),
            model: Ghost(Map::empty()),
            base: Ghost(Map::empty()),
        };
        proof {
            assert(log_triples(r.log@) =~= Seq::empty());
        }
        r
    }

    /// The value of a key, if the store holds it.
    pub fn get(&self, key: &str) -> (r: Option<String>)
        requires
            self.wf(),
        ensures
            r is Some <==> self.values().contains_key(key@),
            r matches Some(t) ==> is_int_text(t@) && text_int(t@) == self.values()[key@],
    {
        match find_entry(&self.entries, key) {
            Some(i) => {
                proof {
                    assert(is_int_text(self.entries@[i as int].value@));
                }
                Some(self.entries[i].value.clone())
            },
            None => {
                proof {
                    if self.model@.contains_key(key@) {
                        let i = choose|i: int|
                            0 <= i < self.entries@.len() && (#[trigger] self.entries@[i]).key@ == key@;
                    }
                }
                None
            },
        }
    }

    /// The value of a key, zero where it is absent.
    pub fn get_or_zero(&self, key: &str) -> (r: String)
        requires
            self.wf(),
        ensures
            is_int_text(r@),
            text_int(r@) == value_or_zero(self.values(), key@),
    {
        match self.get(key) {
            Some(t) => t,
            None => zero_text(),
        }
    }

    /// The deltas logged since the log was last cleared.
    pub fn deltas(&self) -> (r: &Vec<Delta>)
        ensures
            r@ == self.log(),
    {
        &self.log
    }

    /// Adds an amount to a key and logs the change.
    #[verifier::spinoff_prover]
    #[verifier::rlimit(40)]
    pub fn add(&mut self, key: &str, amount: &String)
        requires
            old(self).wf(),
            is_int_text(amount@),
        ensures
            final(self).wf(),
            final(self).values() == old(self).values().insert(
                key@,
                value_or_zero(old(self).values(), key@) + text_int(amount@),
            ),
            final(self).base() == old(self).base(),
            final(self).log().len() == old(self).log().len() + 1,
            final(self).log().drop_last() == old(self).log(),
            final(self).log().last().key@ == key@,
            delta_triple(final(self).log().last()) == (
                key@,
                value_or_zero(old(self).values(), key@),
                value_or_zero(old(self).values(), key@) + text_int(amount@),
            ),
    {
        let ghost before = self.model@;
        let ghost prev = value_or_zero(before, key@);
        let found = find_entry(&self.entries, key);
        let old_text = match found {
            Some(i) => {
                proof {
                    assert(is_int_text(self.entries@[i as int].value@));
                }
                self.entries[i].value.clone()
            },
            None => {
                proof {
                    if before.contains_key(key@) {
                        let i = choose|i: int|
                            0 <= i < self.entries@.len() && (#[trigger] self.entries@[i]).key@ == key@;
                    }
                }
                zero_text()
            },
        };
        assert(text_int(old_text@) == prev);
        let new_text = bigint_sum(&old_text, amount);
        proof {
            lemma_text_int(prev + text_int(amount@));
        }
        let d = Delta { key: key.to_string(), old_value: old_text, new_value: new_text.clone() };
        let ghost old_log = self.log@;
        self.log.push(d);
        let entry = Entry { key: key.to_string(), value: new_text };
        match found {
            Some(i) => {
                self.entries.set(i, entry);
            },
            None => {
                self.entries.push(entry);
            },
        }
        self.model = Ghost(before.insert(key@, prev + text_int(amount@)));
        proof {
            let n = self.entries@.len();
            assert forall|k: Seq<char>| self.model@.contains_key(k) implies exists|i: int|
                0 <= i < self.entries@.len() && (#[trigger] self.entries@[i]).key@ == k by {
                if k == key@ {
                    match found {
                        Some(i) => assert(self.entries@[i as int].key@ == k),
                        None => assert(self.entries@[n - 1].key@ == k),
                    }
                } else {
                    let i = choose|i: int|
                        0 <= i < old(self).entries@.len() && (#[trigger] old(self).entries@[i]).key@ == k;
                    assert(self.entries@[i].key@ == k);
                }
            }
            assert(log_triples(self.log@).drop_last() =~= log_triples(old_log));
            assert(self.log@.last() == d);
            assert(delta_wf(d));
            assert forall|j: int| 0 <= j < self.log@.len() implies delta_wf(#[trigger] self.log@[j]) by {
                if j < old_log.len() {
                    assert(self.log@[j] == old_log[j]);
                }
            }
            assert forall|i: int, j: int| 0 <= i < j < self.entries@.len() implies self.entries@[i].key@
                != self.entries@[j].key@ by {
                match found {
                    Some(f) => {
                        assert(old(self).entries@[i].key@ != old(self).entries@[j].key@);
                    },
                    None => {
                        if j == n - 1 {
                            assert(old(self).entries@[i].key@ != key@);
                        } else {
                            assert(old(self).entries@[i].key@ != old(self).entries@[j].key@);
                        }
                    },
                }
            }
            assert forall|i: int| 0 <= i < self.entries@.len() implies {
                &&& is_int_text(#[trigger] self.entries@[i].value@)
                &&& self.model@.contains_key(self.entries@[i].key@)
                &&& self.model@[self.entries@[i].key@] == text_int(self.entries@[i].value@)
            } by {
                let is_new = match found {
                    Some(f) => i == f as int,
                    None => i == n - 1,
                };
                if !is_new {
                    assert(self.entries@[i] == old(self).entries@[i]);
                    assert(is_int_text(old(self).entries@[i].value@));
                    match found {
                        Some(f) => assert(old(self).entries@[i].key@ != old(self).entries@[f as int].key@),
                        None => {},
                    }
                }
            }
            assert(log_triples(self.log@).last() == delta_triple(d));
            assert(self.model@ == replay(self.base@, log_triples(self.log@)));
            assert(self.wf());
        }
    }

    /// Hands out the deltas of the block and clears the log; the values
    /// reached become the new base.
    pub fn end_block(&mut self) -> (r: Vec<Delta>)
        requires
            old(self).wf(),
        ensures
            final(self).wf(),
            r@ == old(self).log(),
            final(self).values() == old(self).values(),
            final(self).base() == old(self).values(),
            final(self).log() == Seq::<Delta>::empty(),
    {
        let r = self.log.split_off(0);
        self.base = Ghost(self.model@);
        proof {
            assert(r@ =~= old(self).log@);
            assert(self.log@ =~= Seq::<Delta>::empty());
            assert(log_triples(self.log@) =~= Seq::empty());
            assert(replay(self.base@, log_triples(self.log@)) == self.base@);
            assert(self.entries@ == old(self).entries@);
            assert(self.model@ == old(self).model@);
        }
        r
    }
}

/// Every value of an additive store is its base value plus the changes of
/// all deltas logged since, replayed in order.
pub proof fn lemma_add_store_conservation(s: &AddStore)
    requires
        s.wf(),
    ensures
        s.values() == replay(s.base(), log_triples(s.log())),
        forall|j: int| 0 <= j < s.log().len() ==> delta_wf(#[trigger] s.log()[j]),
{
}

/// A last-write store: each write replaces the key's value.
pub struct SetStore {
    entries: Vec<Entry>,
    model: Ghost<Map<Seq<char>, Seq<char>>>,
}

impl SetStore {
    /// The value text of each key.
    pub closed spec fn values(&self) -> Map<Seq<char>, Seq<char>> {
        self.model@
    }

    /// Entries and values agree, keys unique.
    pub closed spec fn wf(&self) -> bool {
        &&& forall|i: int, j: int|
            0 <= i < j < self.entries@.len() ==> self.entries@[i].key@ != self.entries@[j].key@
        &&& forall|i: int|
            0 <= i < self.entries@.len() ==> {
                &&& self.model@.contains_key(#[trigger] self.entries@[i].key@)
                &&& self.model@[self.entries@[i].key@] == self.entries@[i].value@
            }
        &&& forall|k: Seq<char>|
            self.model@.contains_key(k) ==> exists|i: int|
                0 <= i < self.entries@.len() && (#[trigger] self.entries@[i]).key@ == k
    }

    /// An empty store.
    pub fn new() -> (r: SetStore)
        ensures
            r.wf(),
            r.values() == Map::<Seq<char>, Seq<char>>::empty(),
    {
        SetStore { entries: Vec::new(), model: Ghost(Map::empty()) }
    }

    /// The value of a key, if the store holds it.
    pub fn get(&self, key: &str) -> (r: Option<String>)
        requires
            self.wf(),
        ensures
            r is Some <==> self.values().contains_key(key@),
            r matches Some(t) ==> t@ == self.values()[key@],
    {
        match find_entry(&self.entries, key) {
            Some(i) => Some(self.entries[i].value.clone()),
            None => {
                proof {
                    if self.model@.contains_key(key@) {
                        let i = choose|i: int|
                            0 <= i < self.entries@.len() && (#[trigger] self.entries@[i]).key@ == key@;
                    }
                }
                None
            },
        }
    }

    /// Sets a key to a value, whatever it held.
    pub fn set(&mut self, key: &str, value: &str)
        requires
            old(self).wf(),
        ensures
            final(self).wf(),
            final(self).values() == old(self).values().insert(key@, value@),
    {
        let found = find_entry(&self.entries, key);
        let entry = Entry { key: key.to_string(), value: value.to_string() };
        match found {
            Some(i) => {
                self.entries.set(i, entry);
            },
            None => {
                self.entries.push(entry);
            },
        }
        let ghost before = self.model@;
        self.model = Ghost(before.insert(key@, value@));
        proof {
            let n = self.entries@.len();
            assert forall|k: Seq<char>| self.model@.contains_key(k) implies exists|i: int|
                0 <= i < self.entries@.len() && (#[trigger] self.entries@[i]).key@ == k by {
                if k == key@ {
                    match found {
                        Some(i) => assert(self.entries@[i as int].key@ == k),
                        None => assert(self.entries@[n - 1].key@ == k),
                    }
                } else {
                    let i = choose|i: int|
                        0 <= i < old(self).entries@.len() && (#[trigger] old(self).entries@[i]).key@ == k;
                    assert(self.entries@[i].key@ == k);
                }
            }
        }
    }
}

/// One additive write: a key and a canonical amount text.
pub struct StoreOp {
    pub key: String,
    pub amount: String,
}

/// An additive write as key and amount.
pub open spec fn op_pair(o: StoreOp) -> (Seq<char>, int) {
    (o.key@, text_int(o.amount@))
}

/// A list of writes as keys and amounts.
pub open spec fn op_pairs(ops: Seq<StoreOp>) -> Seq<(Seq<char>, int)> {
    ops.map_values(|o: StoreOp| op_pair(o))
}

/// Whether every amount of a list of writes is canonical.
pub open spec fn ops_wf(ops: Seq<StoreOp>) -> bool {
    forall|j: int| 0 <= j < ops.len() ==> is_int_text(#[trigger] ops[j].amount@)
}

/// The delta that write `j` of a list logs: its key, the key's value before
/// the write, and that value plus the amount.
pub open spec fn write_delta(m: Map<Seq<char>, int>, ops: Seq<(Seq<char>, int)>, j: int) -> (Seq<char>, int, int) {
    (
        ops[j].0,
        value_or_zero(apply_ops(m, ops.take(j)), ops[j].0),
        value_or_zero(apply_ops(m, ops.take(j)), ops[j].0) + ops[j].1,
    )
}

/// The values after adding each amount to its key, in order.
pub open spec fn apply_ops(m: Map<Seq<char>, int>, ops: Seq<(Seq<char>, int)>) -> Map<Seq<char>, int>
    decreases ops.len(),
{
    if ops.len() == 0 {
        m
    } else {
        let before = apply_ops(m, ops.drop_last());
        before.insert(ops.last().0, value_or_zero(before, ops.last().0) + ops.last().1)
    }
}

impl AddStore {
    /// Adds each amount to its key, in order, logging one delta per write.
    pub fn add_all(&mut self, ops: &Vec<StoreOp>)
        requires
            old(self).wf(),
            ops_wf(ops@),
        ensures
            final(self).wf(),
            final(self).values() == apply_ops(old(self).values(), op_pairs(ops@)),
            final(self).base() == old(self).base(),
            final(self).log().len() == old(self).log().len() + ops@.len(),
            final(self).log().take(old(self).log().len() as int) == old(self).log(),
            forall|j: int| 0 <= j < ops@.len() ==> (#[trigger] final(self).log()[old(self).log().len() + j]).key@
                == ops@[j].key@,
            forall|j: int| 0 <= j < ops@.len() ==> delta_wf(#[trigger] final(self).log()[old(self).log().len() + j])
                && delta_triple(final(self).log()[old(self).log().len() + j]) == write_delta(
                    old(self).values(),
                    op_pairs(ops@),
                    j,
                ),
    {
        let ghost start = *self;
        let mut i: usize = 0;
        proof {
            assert(op_pairs(ops@).take(0) =~= Seq::<(Seq<char>, int)>::empty());
            assert(self.log@.take(self.log@.len() as int) =~= self.log@);
        }
        while i < ops.len()
            invariant
                i <= ops@.len(),
                ops_wf(ops@),
                self.wf(),
                self.values() == apply_ops(start.values(), op_pairs(ops@).take(i as int)),
                self.base() == start.base(),
                self.log().len() == start.log().len() + i,
                self.log().take(start.log().len() as int) == start.log(),
                forall|j: int| 0 <= j < i ==> (#[trigger] self.log()[start.log().len() + j]).key@
                    == ops@[j].key@,
                forall|j: int| 0 <= j < i ==> delta_wf(#[trigger] self.log()[start.log().len() + j])
                    && delta_triple(self.log()[start.log().len() + j]) == write_delta(
                        start.values(),
                        op_pairs(ops@),
                        j,
                    ),
            decreases ops@.len() - i,
        {
            let ghost prev = *self;
            proof {
                assert(is_int_text(ops@[i as int].amount@));
            }
            self.add(ops[i].key.as_str(), &ops[i].amount);
            proof {
                let p = op_pairs(ops@);
                assert(p.take(i as int + 1).drop_last() =~= p.take(i as int));
                assert(p.take(i as int + 1).last() == op_pair(ops@[i as int]));
                assert(self.log().take(start.log().len() as int) =~= prev.log().take(start.log().len() as int));
                assert forall|j: int| 0 <= j < i + 1 implies (#[trigger] self.log()[start.log().len() + j]).key@
                    == ops@[j].key@ by {
                    if j < i {
                        assert(self.log()[start.log().len() + j] == prev.log()[start.log().len() + j]);
                    }
                }
                assert(self.log()[start.log().len() + i] == self.log().last());
                assert(p[i as int] == op_pair(ops@[i as int]));
                assert forall|j: int| 0 <= j < i + 1 implies delta_wf(#[trigger] self.log()[start.log().len() + j])
                    && delta_triple(self.log()[start.log().len() + j]) == write_delta(start.values(), p, j) by {
                    if j < i {
                        assert(self.log()[start.log().len() + j] == prev.log()[start.log().len() + j]);
                    } else {
                        assert(delta_wf(self.log()[self.log().len() - 1]));
                    }
                }
            }
            i = i + 1;
        }
        proof {
            assert(op_pairs(ops@).take(ops@.len() as int) =~= op_pairs(ops@));
        }
    }
}

/// An entry as key and value.
pub open spec fn entry_pair(e: Entry) -> (Seq<char>, Seq<char>) {
    (e.key@, e.value@)
}

/// The values after setting each key to its value, in order.
pub open spec fn apply_sets(
    m: Map<Seq<char>, Seq<char>>,
    sets: Seq<(Seq<char>, Seq<char>)>,
) -> Map<Seq<char>, Seq<char>>
    decreases sets.len(),
{
    if sets.len() == 0 {
        m
    } else {
        apply_sets(m, sets.drop_last()).insert(sets.last().0, sets.last().1)
    }
}

impl SetStore {
    /// Sets each key to its value, in order.
    pub fn set_all(&mut self, sets: &Vec<Entry>)
        requires
            old(self).wf(),
        ensures
            final(self).wf(),
            final(self).values() == apply_sets(
                old(self).values(),
                sets@.map_values(|e: Entry| entry_pair(e)),
            ),
    {
        let ghost start = self.values();
        let ghost pairs = sets@.map_values(|e: Entry| entry_pair(e));
        let mut i: usize = 0;
        proof {
            assert(pairs.take(0) =~= Seq::<(Seq<char>, Seq<char>)>::empty());
        }
        while i < sets.len()
            invariant
                i <= sets@.len(),
                pairs == sets@.map_values(|e: Entry| entry_pair(e)),
                self.wf(),
                self.values() == apply_sets(start, pairs.take(i as int)),
            decreases sets@.len() - i,
        {
            self.set(sets[i].key.as_str(), sets[i].value.as_str());
            proof {
                assert(pairs.take(i as int + 1).drop_last() =~= pairs.take(i as int));
                assert(pairs.take(i as int + 1).last() == entry_pair(sets@[i as int]));
            }
            i = i + 1;
        }
        proof {
            assert(pairs.take(sets@.len() as int) =~= pairs);
        }
    }
}

/// The sum of the amounts a list of writes adds to one key.
pub open spec fn sum_for(ops: Seq<(Seq<char>, int)>, k: Seq<char>) -> int
    decreases ops.len(),
{
    if ops.len() == 0 {
        0
    } else {
        sum_for(ops.drop_last(), k) + if ops.last().0 == k {
            ops.last().1
        } else {
            0
        }
    }
}

/// The sum of the changes (new minus old) a delta log records for one key.
pub open spec fn change_for(log: Seq<(Seq<char>, int, int)>, k: Seq<char>) -> int
    decreases log.len(),
{
    if log.len() == 0 {
        0
    } else {
        change_for(log.drop_last(), k) + if log.last().0 == k {
            log.last().2 - log.last().1
        } else {
            0
        }
    }
}

/// Additive conservation per key: after a list of writes, each key holds
/// its value before plus the sum of the amounts written to it, whatever the
/// other keys and however the writes were batched.
pub proof fn lemma_apply_ops_sum(m: Map<Seq<char>, int>, ops: Seq<(Seq<char>, int)>, k: Seq<char>)
    ensures
        value_or_zero(apply_ops(m, ops), k) == value_or_zero(m, k) + sum_for(ops, k),
    decreases ops.len(),
{
    if ops.len() > 0 {
        lemma_apply_ops_sum(m, ops.drop_last(), k);
    }
}

/// Additive conservation per key: replaying a delta log leaves each key at
/// its value before plus the sum of the changes the log records for it.
pub proof fn lemma_replay_sum(m: Map<Seq<char>, int>, log: Seq<(Seq<char>, int, int)>, k: Seq<char>)
    ensures
        value_or_zero(replay(m, log), k) == value_or_zero(m, k) + change_for(log, k),
    decreases log.len(),
{
    if log.len() > 0 {
        lemma_replay_sum(m, log.drop_last(), k);
    }
}

} // verus!
