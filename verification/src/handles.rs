//! Per-client handle state: a table from opaque string handles to open
//! backend resources, with collision-free allocation.
//!
//! The table's mathematical view is a `Map<Seq<char>, FsHandle<F, D>>`; all
//! engine contracts speak of that map. The same association-list machinery
//! serves the session registry, which maps session-handle strings to
//! sessions.
//!
//! Allocation follows the fixed policy: the requested prefix plus the
//! smallest decimal suffix, starting at zero, that is not already a key —
//! stated by [`picked_key`] and proved total: among one more candidate than
//! the table has keys, all pairwise distinct, one must be free.

use vstd::prelude::*;
use vstd::seq_lib::group_seq_properties;
use vstd::set_lib::lemma_len_subset;

verus! {

/// An open backend resource: exactly two shapes, a file or a directory, as
/// the backend's open and opendir return them. The engine holds these
/// opaquely and never looks inside.
pub enum FsHandle<F, D> {
    File(F),
    Dir(D),
}

/// The handle table of one client session: one entry per open handle,
/// keyed by the handle string, every key distinct.
pub struct ClientSession<F, D> {
    entries: Vec<(String, FsHandle<F, D>)>,
}

/// The map an entry sequence denotes, later entries winning (the invariant
/// keeps keys distinct, so no entry shadows another).
pub open spec fn assoc_map<V>(entries: Seq<(String, V)>) -> Map<Seq<char>, V>
    decreases entries.len(),
{
    if entries.len() == 0 {
        Map::empty()
    } else {
        assoc_map(entries.drop_last()).insert(entries.last().0@, entries.last().1)
    }
}

/// Key distinctness of an entry sequence.
pub open spec fn distinct_keys<V>(entries: Seq<(String, V)>) -> bool {
    forall|i: int, j: int|
        0 <= i < j < entries.len() ==> (#[trigger] entries[i]).0@ != (#[trigger] entries[j]).0@
}

/// The map contains a key exactly when some entry carries it.
pub(crate) proof fn lemma_assoc_contains<V>(entries: Seq<(String, V)>, k: Seq<char>)
    ensures
        assoc_map(entries).contains_key(k) <==> exists|i: int|
            0 <= i < entries.len() && (#[trigger] entries[i]).0@ == k,
    decreases entries.len(),
{
    if entries.len() == 0 {
    } else {
        lemma_assoc_contains(entries.drop_last(), k);
        if entries.last().0@ == k {
            assert(entries[entries.len() - 1].0@ == k);
        } else {
            if assoc_map(entries).contains_key(k) {
                let i = choose|i: int|
                    0 <= i < entries.drop_last().len() && (#[trigger] entries.drop_last()[i]).0@
                        == k;
                assert(entries[i].0@ == k);
            }
            if exists|i: int| 0 <= i < entries.len() && (#[trigger] entries[i]).0@ == k {
                let i = choose|i: int| 0 <= i < entries.len() && (#[trigger] entries[i]).0@ == k;
                assert(entries.drop_last()[i].0@ == k);
            }
        }
    }
}

/// Under distinct keys, the map sends each entry's key to its value.
pub(crate) proof fn lemma_assoc_index<V>(entries: Seq<(String, V)>, i: int)
    requires
        distinct_keys(entries),
        0 <= i < entries.len(),
    ensures
        assoc_map(entries).contains_key(entries[i].0@),
        assoc_map(entries)[entries[i].0@] == entries[i].1,
    decreases entries.len(),
{
    if i == entries.len() - 1 {
    } else {
        assert(distinct_keys(entries.drop_last()));
        lemma_assoc_index(entries.drop_last(), i);
        assert(entries[i].0@ != entries.last().0@);
    }
}

/// Removing entry `i` removes exactly its key from the map.
pub(crate) proof fn lemma_assoc_remove<V>(entries: Seq<(String, V)>, i: int)
    requires
        distinct_keys(entries),
        0 <= i < entries.len(),
    ensures
        distinct_keys(entries.remove(i)),
        assoc_map(entries.remove(i)) == assoc_map(entries).remove(entries[i].0@),
    decreases entries.len(),
{
    broadcast use group_seq_properties;

    let k = entries[i].0@;
    if i == entries.len() - 1 {
        assert(entries.remove(i) =~= entries.drop_last());
        lemma_assoc_contains(entries.drop_last(), k);
        assert(!assoc_map(entries.drop_last()).contains_key(k)) by {
            if assoc_map(entries.drop_last()).contains_key(k) {
                let j = choose|j: int|
                    0 <= j < entries.drop_last().len() && (#[trigger] entries.drop_last()[j]).0@
                        == k;
                assert(entries[j].0@ == entries[i].0@);
            }
        }
        assert(assoc_map(entries.drop_last()) =~= assoc_map(entries).remove(k));
    } else {
        let shorter = entries.drop_last();
        let last = entries.last();
        assert(distinct_keys(shorter));
        lemma_assoc_remove(shorter, i);
        assert(entries.remove(i) =~= shorter.remove(i).push(last));
        assert(entries.remove(i).drop_last() =~= shorter.remove(i));
        assert(assoc_map(entries.remove(i)) == assoc_map(shorter.remove(i)).insert(
            last.0@,
            last.1,
        ));
        assert(k != last.0@);
        assert(assoc_map(shorter.remove(i)).insert(last.0@, last.1) =~= assoc_map(entries).remove(
            k,
        ));
        assert(distinct_keys(entries.remove(i))) by {
            assert(forall|a: int|
                0 <= a < entries.remove(i).len() ==> (#[trigger] entries.remove(i)[a]) == (
                if a < i {
                    entries[a]
                } else {
                    entries[a + 1]
                }));
        }
    }
}

/// The map has at most one key per entry.
pub(crate) proof fn lemma_assoc_dom_len<V>(entries: Seq<(String, V)>)
    ensures
        assoc_map(entries).dom().finite(),
        assoc_map(entries).dom().len() <= entries.len(),
    decreases entries.len(),
{
    broadcast use vstd::set::group_set_axioms, vstd::map::group_map_axioms;

    if entries.len() == 0 {
        assert(assoc_map::<V>(entries).dom() =~= Set::<Seq<char>>::empty());
    } else {
        lemma_assoc_dom_len(entries.drop_last());
        assert(assoc_map(entries).dom() =~= assoc_map(entries.drop_last()).dom().insert(
            entries.last().0@,
        ));
    }
}

/// Whether some entry carries this key; a linear scan.
fn assoc_contains<V>(entries: &Vec<(String, V)>, key: &String) -> (r: bool)
    ensures
        r == assoc_map(entries@).contains_key(key@),
{
    let mut i: usize = 0;
    while i < entries.len()
        invariant
            i <= entries@.len(),
            forall|j: int| 0 <= j < i ==> (#[trigger] entries@[j]).0@ != key@,
        decreases entries@.len() - i,
    {
        if entries[i].0.eq(key) {
            proof {
                lemma_assoc_contains(entries@, key@);
            }
            return true;
        }
        i = i + 1;
    }
    proof {
        lemma_assoc_contains(entries@, key@);
    }
    false
}

// ----------------------------------------------------------------------
// Decimal suffixes.

/// The decimal digit character of a value below ten.
pub open spec fn spec_digit(d: int) -> char {
    if d == 0 {
        '0'
    } else if d == 1 {
        '1'
    } else if d == 2 {
        '2'
    } else if d == 3 {
        '3'
    } else if d == 4 {
        '4'
    } else if d == 5 {
        '5'
    } else if d == 6 {
        '6'
    } else if d == 7 {
        '7'
    } else if d == 8 {
        '8'
    } else {
        '9'
    }
}

/// The decimal representation of a number, most significant digit first,
/// with no leading zero except for zero itself.
pub open spec fn spec_dec(n: int) -> Seq<char>
    decreases n,
{
    if n < 10 {
        seq![spec_digit(n)]
    } else {
        spec_dec(n / 10) + seq![spec_digit(n % 10)]
    }
}

/// One decimal digit as a string slice.
fn digit_str(d: u64) -> (r: &'static str)
    requires
        d < 10,
    ensures
        r@ == seq![spec_digit(d as int)],
{
    proof {
        reveal_strlit("0");
        reveal_strlit("1");
        reveal_strlit("2");
        reveal_strlit("3");
        reveal_strlit("4");
        reveal_strlit("5");
        reveal_strlit("6");
        reveal_strlit("7");
        reveal_strlit("8");
        reveal_strlit("9");
    }
    let r: &'static str = if d == 0 {
        "0"
    } else if d == 1 {
        "1"
    } else if d == 2 {
        "2"
    } else if d == 3 {
        "3"
    } else if d == 4 {
        "4"
    } else if d == 5 {
        "5"
    } else if d == 6 {
        "6"
    } else if d == 7 {
        "7"
    } else if d == 8 {
        "8"
    } else {
        "9"
    };
    proof {
        assert(r@ =~= seq![spec_digit(d as int)]);
    }
    r
}

/// Writes a number in decimal.
pub fn u64_to_dec(n: u64) -> (s: String)
    ensures
        s@ == spec_dec(n as int),
    decreases n,
{
    if n < 10 {
        digit_str(n).to_owned()
    } else {
        let mut s = u64_to_dec(n / 10);
        s.append(digit_str(n % 10));
        s
    }
}

/// The shape of a decimal representation: never empty, its last character
/// the last digit, the rest the representation of the leading digits.
proof fn lemma_spec_dec_shape(n: int)
    requires
        n >= 0,
    ensures
        spec_dec(n).len() >= 1,
        spec_dec(n).last() == spec_digit(n % 10),
        spec_dec(n).drop_last() == if n < 10 {
            Seq::<char>::empty()
        } else {
            spec_dec(n / 10)
        },
    decreases n,
{
    if n < 10 {
        assert(n % 10 == n);
        assert(spec_dec(n).drop_last() =~= Seq::<char>::empty());
    } else {
        lemma_spec_dec_shape(n / 10);
        assert(spec_dec(n).drop_last() =~= spec_dec(n / 10));
    }
}

/// Two distinct numbers have distinct decimal representations.
proof fn lemma_spec_dec_injective(a: int, b: int)
    requires
        a >= 0,
        b >= 0,
        spec_dec(a) == spec_dec(b),
    ensures
        a == b,
    decreases a,
{
    lemma_spec_dec_shape(a);
    lemma_spec_dec_shape(b);
    assert(spec_digit(a % 10) == spec_digit(b % 10));
    assert(a % 10 == b % 10);
    if a < 10 && b < 10 {
    } else if a >= 10 && b >= 10 {
        assert(spec_dec(a / 10) == spec_dec(b / 10));
        lemma_spec_dec_injective(a / 10, b / 10);
    } else {
        // One representation has leading digits, the other does not.
        assert(false);
    }
}

/// Appending distinct decimal suffixes to one prefix gives distinct keys.
proof fn lemma_candidates_distinct(prefix: Seq<char>, i: int, j: int)
    requires
        0 <= i,
        0 <= j,
        i != j,
    ensures
        prefix + spec_dec(i) != prefix + spec_dec(j),
{
    if prefix + spec_dec(i) == prefix + spec_dec(j) {
        assert(spec_dec(i) =~= (prefix + spec_dec(i)).skip(prefix.len() as int));
        assert(spec_dec(j) =~= (prefix + spec_dec(j)).skip(prefix.len() as int));
        lemma_spec_dec_injective(i, j);
    }
}

// ----------------------------------------------------------------------
// Key allocation.

/// The allocation policy: `h` is the prefix with the smallest decimal
/// suffix, starting at zero, that is not already a key of `m`.
pub open spec fn picked_key<V>(m: Map<Seq<char>, V>, prefix: Seq<char>, h: Seq<char>) -> bool {
    &&& !m.contains_key(h)
    &&& exists|n: int|
        0 <= n && h == prefix + spec_dec(n) && (forall|k: int|
            0 <= k < n ==> m.contains_key(#[trigger] (prefix + spec_dec(k))))
}

/// Allocates per the policy. Total: the map has at most one key per entry,
/// the candidates `prefix + decimal(0 ..= entries.len())` are pairwise
/// distinct, so at least one candidate is free.
pub(crate) fn alloc_key<V>(entries: &Vec<(String, V)>, prefix: &String) -> (h: String)
    ensures
        picked_key(assoc_map(entries@), prefix@, h@),
{
    let ghost m = assoc_map(entries@);
    let n_entries = entries.len();
    let mut num: usize = 0;
    let ghost mut seen: Set<Seq<char>> = Set::empty();
    loop
        invariant
            m == assoc_map(entries@),
            n_entries == entries@.len(),
            num <= n_entries,
            seen.finite(),
            seen.len() == num,
            seen.subset_of(m.dom()),
            forall|k: Seq<char>|
                #[trigger] seen.contains(k) <==> exists|j: int|
                    0 <= j < num && k == prefix@ + #[trigger] spec_dec(j),
            forall|j: int| 0 <= j < num ==> m.contains_key(#[trigger] (prefix@ + spec_dec(j))),
        decreases n_entries - num,
    {
        let mut candidate = prefix.clone();
        candidate.append(u64_to_dec(num as u64).as_str());
        proof {
            assert(candidate@ == prefix@ + spec_dec(num as int));
        }
        if !assoc_contains(entries, &candidate) {
            return candidate;
        }
        proof {
            broadcast use vstd::set::group_set_axioms;

            assert(!seen.contains(candidate@)) by {
                if seen.contains(candidate@) {
                    let j = choose|j: int|
                        0 <= j < num && candidate@ == prefix@ + #[trigger] spec_dec(j);
                    lemma_candidates_distinct(prefix@, j, num as int);
                }
            }
            let ghost seen_pre = seen;
            seen = seen.insert(candidate@);
            assert forall|k: Seq<char>| #[trigger] seen.contains(k) implies exists|j: int|
                0 <= j < num + 1 && k == prefix@ + #[trigger] spec_dec(j) by {
                if k == candidate@ {
                    assert(k == prefix@ + spec_dec(num as int) && 0 <= num as int && (num as int) < num + 1);
                } else {
                    let j = choose|j: int|
                        0 <= j < num && k == prefix@ + #[trigger] spec_dec(j);
                    assert(0 <= j < num + 1 && k == prefix@ + spec_dec(j));
                }
            }
            assert forall|k: Seq<char>|
                (exists|j: int|
                    0 <= j < num + 1 && k == prefix@ + #[trigger] spec_dec(j)) implies #[trigger] seen.contains(
                k,
            ) by {
                let j = choose|j: int| 0 <= j < num + 1 && k == prefix@ + #[trigger] spec_dec(j);
                if j == num as int {
                    assert(k == candidate@);
                } else {
                    assert(seen_pre.contains(k));
                }
            }
        }
        if num == n_entries {
            proof {
                lemma_assoc_dom_len(entries@);
                lemma_len_subset(seen, m.dom());
                assert(false);
            }
            return vstd::pervasive::unreached();
        }
        num = num + 1;
    }
}

// ----------------------------------------------------------------------
// The session's handle table.

impl<F, D> ClientSession<F, D> {
    /// The map from handle strings to open resources.
    pub closed spec fn table(&self) -> Map<Seq<char>, FsHandle<F, D>> {
        assoc_map(self.entries@)
    }

    /// Every key occurs once.
    pub closed spec fn wf(&self) -> bool {
        distinct_keys(self.entries@)
    }

    /// The number of open handles.
    pub closed spec fn spec_len(&self) -> nat {
        self.entries@.len()
    }

    /// How many handles are open.
    pub fn len(&self) -> (n: usize)
        ensures
            n == self.spec_len(),
    {
        self.entries.len()
    }

    /// A session with no open handles.
    pub fn new() -> (s: Self)
        ensures
            s.wf(),
            s.table() == Map::<Seq<char>, FsHandle<F, D>>::empty(),
    {
        ClientSession { entries: Vec::new() }
    }

    /// Whether the table holds this handle.
    pub fn contains(&self, h: &String) -> (r: bool)
        ensures
            r == self.table().contains_key(h@),
    {
        assoc_contains(&self.entries, h)
    }

    /// Picks the handle string for a new resource: the requested path with
    /// the smallest decimal suffix, starting at zero, that is not already a
    /// live handle of this client.
    pub fn alloc_handle(&self, prefix: &String) -> (h: String)
        ensures
            picked_key(self.table(), prefix@, h@),
    {
        alloc_key(&self.entries, prefix)
    }

    /// Inserts a handle not yet present.
    pub fn insert(&mut self, h: String, v: FsHandle<F, D>)
        requires
            old(self).wf(),
            !old(self).table().contains_key(h@),
        ensures
            final(self).wf(),
            final(self).table() == old(self).table().insert(h@, v),
    {
        proof {
            lemma_assoc_contains(self.entries@, h@);
        }
        let ghost pre = self.entries@;
        self.entries.push((h, v));
        proof {
            assert(self.entries@.drop_last() =~= pre);
        }
    }

    /// Removes a handle and hands back its resource; `None`, with the table
    /// unchanged, when the handle is not present.
    pub fn remove(&mut self, h: &String) -> (r: Option<FsHandle<F, D>>)
        requires
            old(self).wf(),
        ensures
            final(self).wf(),
            match r {
                Some(v) => old(self).table().contains_key(h@) && v == old(self).table()[h@]
                    && final(self).table() == old(self).table().remove(h@),
                None => !old(self).table().contains_key(h@) && *final(self) == *old(self),
            },
    {
        let mut i: usize = 0;
        while i < self.entries.len()
            invariant
                *self == *old(self),
                old(self).wf(),
                i <= self.entries@.len(),
                forall|j: int| 0 <= j < i ==> (#[trigger] self.entries@[j]).0@ != h@,
            decreases self.entries@.len() - i,
        {
            if self.entries[i].0.eq(h) {
                proof {
                    lemma_assoc_index(self.entries@, i as int);
                    lemma_assoc_remove(self.entries@, i as int);
                }
                let (_, v) = self.entries.remove(i);
                return Some(v);
            }
            i = i + 1;
        }
        proof {
            lemma_assoc_contains(self.entries@, h@);
        }
        None
    }
}

} // verus!
