use std::collections::HashSet;
use vstd::prelude::*;

verus! {

broadcast use vstd::std_specs::hash::group_hash_axioms;

/// The set after one toggle of `channel`: removed if present, added if not.
pub open spec fn toggled(s: Set<u64>, channel: u64) -> Set<u64> {
    if s.contains(channel) {
        s.remove(channel)
    } else {
        s.insert(channel)
    }
}

/// The set after toggling each channel of `ops` in turn.
pub open spec fn toggled_all(s: Set<u64>, ops: Seq<u64>) -> Set<u64>
    decreases ops.len(),
{
    if ops.len() == 0 {
        s
    } else {
        toggled(toggled_all(s, ops.drop_last()), ops.last())
    }
}

/// How many times `channel` occurs in `ops`.
pub open spec fn occurrences(ops: Seq<u64>, channel: u64) -> nat
    decreases ops.len(),
{
    if ops.len() == 0 {
        0
    } else {
        occurrences(ops.drop_last(), channel) + if ops.last() == channel {
            1nat
        } else {
            0nat
        }
    }
}

/// One change to the durable record, which holds one row per enforced
/// channel.
#[derive(Clone, Copy, Debug, PartialEq, Eq, Structural)]
pub enum StorageWrite {
    /// Add a row for the channel.
    Insert(u64),
    /// Delete every row for the channel.
    Delete(u64),
}

/// The rows of the durable record after `w`.
pub open spec fn after_write(rows: Seq<u64>, w: StorageWrite) -> Seq<u64> {
    match w {
        StorageWrite::Insert(c) => rows.push(c),
        StorageWrite::Delete(c) => rows.filter(|r: u64| r != c),
    }
}

/// The one write that toggling `channel` makes to a record holding `s`.
pub open spec fn write_for(s: Set<u64>, channel: u64) -> StorageWrite {
    if s.contains(channel) {
        StorageWrite::Delete(channel)
    } else {
        StorageWrite::Insert(channel)
    }
}

/// Why a toggle was given up.
#[derive(Clone, Copy, Debug, PartialEq, Eq, Structural)]
pub enum ToggleError {
    /// The durable record could not be written; nothing was changed.
    StorageWriteFailed,
}

/// The channels under enforcement. One instance is shared by every handler;
/// writers hold it exclusively while the durable record is updated too.
pub struct ChannelPolicyStore {
    channels: HashSet<u64>,
}

impl View for ChannelPolicyStore {
    type V = Set<u64>;

    closed spec fn view(&self) -> Set<u64> {
        self.channels@
    }
}

impl ChannelPolicyStore {
    /// A store with no channel under enforcement.
    pub fn new() -> (r: Self)
        ensures
            r@ == Set::<u64>::empty(),
    {
        ChannelPolicyStore { channels: HashSet::new() }
    }

    /// The store for the rows read back from the durable record. The record
    /// may hold a channel more than once; it is enforced all the same.
    pub fn from_rows(rows: &Vec<u64>) -> (r: Self)
        ensures
            r@ == rows@.to_set(),
    {
        let mut channels: HashSet<u64> = HashSet::new();
        let mut i: usize = 0;
        while i < rows.len()
            invariant
                i <= rows.len(),
                channels@ == rows@.subrange(0, i as int).to_set(),
            decreases rows.len() - i,
        {
            proof {
                let pre = rows@.subrange(0, i as int);
                assert(rows@.subrange(0, i + 1) == pre + seq![rows@[i as int]]);
                Seq::lemma_to_set_insert_commutes(pre, rows@[i as int]);
            }
            channels.insert(rows[i]);
            i = i + 1;
        }
        assert(rows@.subrange(0, rows.len() as int) == rows@);
        ChannelPolicyStore { channels }
    }

    /// Whether messages in `channel` are moderated.
    pub fn is_enforced(&self, channel: u64) -> (r: bool)
        ensures
            r == self@.contains(channel),
    {
        self.channels.contains(&channel)
    }

    /// Flips `channel` between enforced and not enforced. Returns whether it
    /// was enforced before the call.
    pub fn toggle(&mut self, channel: u64) -> (was_enforced: bool)
        ensures
            was_enforced == old(self)@.contains(channel),
            final(self)@ == toggled(old(self)@, channel),
    {
        if self.channels.remove(&channel) {
            true
        } else {
            self.channels.insert(channel);
            false
        }
    }

    /// The write to the durable record that toggling `channel` needs. It is
    /// made, under the same exclusive hold of the store, before
    /// `commit_toggle`.
    pub fn pending_write(&self, channel: u64) -> (w: StorageWrite)
        ensures
            w == write_for(self@, channel),
    {
        if self.channels.contains(&channel) {
            StorageWrite::Delete(channel)
        } else {
            StorageWrite::Insert(channel)
        }
    }

    /// Finishes a toggle of `channel` once its durable write was attempted.
    /// A failed write leaves the store as it was, so that it never departs
    /// from the record; otherwise returns whether the channel was enforced.
    pub fn commit_toggle(&mut self, channel: u64, write_succeeded: bool) -> (r: Result<
        bool,
        ToggleError,
    >)
        ensures
            write_succeeded ==> r == Ok::<bool, ToggleError>(old(self)@.contains(channel)),
            write_succeeded ==> final(self)@ == toggled(old(self)@, channel),
            !write_succeeded ==> r == Err::<bool, ToggleError>(ToggleError::StorageWriteFailed),
            !write_succeeded ==> final(self)@ == old(self)@,
    {
        if write_succeeded {
            Ok(self.toggle(channel))
        } else {
            Err(ToggleError::StorageWriteFailed)
        }
    }
}

/// Toggling a channel twice restores the set it started from.
pub proof fn lemma_toggle_twice(s: Set<u64>, channel: u64)
    ensures
        toggled(toggled(s, channel), channel) == s,
{
    assert(toggled(toggled(s, channel), channel) =~= s);
}

/// When the durable record holds exactly the enforced channels, the write
/// that a toggle makes leaves it holding exactly the toggled set, and a
/// record without repeated rows stays without them.
pub proof fn lemma_record_follows_toggle(rows: Seq<u64>, s: Set<u64>, channel: u64)
    requires
        rows.to_set() == s,
    ensures
        after_write(rows, write_for(s, channel)).to_set() == toggled(s, channel),
        rows.no_duplicates() ==> after_write(rows, write_for(s, channel)).no_duplicates(),
{
    broadcast use vstd::seq_lib::group_filter_ensures;

    let after = after_write(rows, write_for(s, channel));
    if s.contains(channel) {
        let pred = |r: u64| r != channel;
        assert forall|x: u64| after.to_set().contains(x) <==> toggled(s, channel).contains(x) by {
            if after.contains(x) {
                rows.lemma_filter_contains_rev(pred, x);
            }
            if rows.contains(x) && x != channel {
                let i = choose|i: int| 0 <= i < rows.len() && rows[i] == x;
                rows.lemma_filter_contains(pred, i);
            }
        }
        assert(after.to_set() =~= toggled(s, channel));
        if rows.no_duplicates() {
            lemma_filter_keeps_distinct(rows, channel);
        }
    } else {
        assert(rows.push(channel) == rows + seq![channel]);
        Seq::lemma_to_set_insert_commutes(rows, channel);
        if rows.no_duplicates() {
            assert forall|i: int, j: int|
                0 <= i < after.len() && 0 <= j < after.len() && i != j implies after[i]
                != after[j] by {
                if i == rows.len() {
                    assert(rows.contains(after[j]));
                } else if j == rows.len() {
                    assert(rows.contains(after[i]));
                }
            }
        }
    }
}

proof fn lemma_filter_keeps_distinct(rows: Seq<u64>, channel: u64)
    requires
        rows.no_duplicates(),
    ensures
        rows.filter(|r: u64| r != channel).no_duplicates(),
    decreases rows.len(),
{
    let pred = |r: u64| r != channel;
    if rows.len() > 0 {
        let init = rows.drop_last();
        assert(init.no_duplicates());
        lemma_filter_keeps_distinct(init, channel);
        assert(rows == init.push(rows.last()));
        init.lemma_filter_push(rows.last(), pred);
        if pred(rows.last()) {
            let f = init.filter(pred);
            assert forall|x: u64| f.contains(x) implies x != rows.last() by {
                init.lemma_filter_contains_rev(pred, x);
            }
            assert(f.push(rows.last()).no_duplicates()) by {
                assert forall|i: int, j: int|
                    0 <= i < f.len() + 1 && 0 <= j < f.len() + 1 && i != j implies f.push(
                    rows.last(),
                )[i] != f.push(rows.last())[j] by {
                    if i == f.len() {
                        assert(f.contains(f[j]));
                    } else if j == f.len() {
                        assert(f.contains(f[i]));
                    }
                }
            }
        }
    }
}

/// Whatever order a series of toggles is applied in, one at a time, a
/// channel ends up enforced exactly when it started enforced and was toggled
/// an even number of times, or started free and was toggled an odd number.
pub proof fn lemma_toggle_parity(s: Set<u64>, ops: Seq<u64>, channel: u64)
    ensures
        toggled_all(s, ops).contains(channel) == (s.contains(channel) != (occurrences(ops, channel)
            % 2 == 1)),
    decreases ops.len(),
{
    if ops.len() > 0 {
        lemma_toggle_parity(s, ops.drop_last(), channel);
    }
}

/// Starting from an empty store, a channel that no toggle named is not
/// enforced.
pub proof fn lemma_untoggled_not_enforced(ops: Seq<u64>, channel: u64)
    requires
        !ops.contains(channel),
    ensures
        !toggled_all(Set::<u64>::empty(), ops).contains(channel),
{
    lemma_no_occurrences(ops, channel);
    lemma_toggle_parity(Set::<u64>::empty(), ops, channel);
}

proof fn lemma_no_occurrences(ops: Seq<u64>, channel: u64)
    requires
        !ops.contains(channel),
    ensures
        occurrences(ops, channel) == 0,
    decreases ops.len(),
{
    if ops.len() > 0 {
        assert(!ops.drop_last().contains(channel)) by {
            if ops.drop_last().contains(channel) {
                let i = choose|i: int| 0 <= i < ops.len() - 1 && ops.drop_last()[i] == channel;
                assert(ops[i] == channel);
            }
        }
        assert(ops[ops.len() - 1] != channel);
        lemma_no_occurrences(ops.drop_last(), channel);
    }
}

} // verus!
