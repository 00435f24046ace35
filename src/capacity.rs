//! First-in, first-out capacity limits on a collection kept in insertion order.
use vstd::prelude::*;

verus! {

/// The newest `cap` entries of `s`, in their order: all of `s` when it fits.
pub open spec fn keep_newest<T>(s: Seq<T>, cap: nat) -> Seq<T> {
    if s.len() > cap {
        s.subrange(s.len() - cap, s.len() as int)
    } else {
        s
    }
}

/// Drops the oldest entries until at most `cap` remain.
pub fn evict_oldest<T>(v: &mut Vec<T>, cap: usize)
    ensures
        final(v)@ == keep_newest(old(v)@, cap as nat),
{
    if v.len() > cap {
        let excess = v.len() - cap;
        let kept = v.split_off(excess);
        *v = kept;
    }
}

/// How many entries of each group fit, in order, into `capacity` slots:
/// each group takes what it has or what room is left, whichever is less.
pub open spec fn fill_counts(capacity: nat, groups: Seq<usize>) -> Seq<nat>
    decreases groups.len(),
{
    if groups.len() == 0 {
        Seq::empty()
    } else {
        let prev = fill_counts(capacity, groups.drop_last());
        let room = capacity - seq_sum(prev);
        let want = groups.last() as nat;
        prev.push(if want < room { want } else { room as nat })
    }
}

pub open spec fn seq_sum(s: Seq<nat>) -> int
    decreases s.len(),
{
    if s.len() == 0 {
        0
    } else {
        seq_sum(s.drop_last()) + s.last()
    }
}

proof fn lemma_fill_within(capacity: nat, groups: Seq<usize>)
    ensures
        fill_counts(capacity, groups).len() == groups.len(),
        0 <= seq_sum(fill_counts(capacity, groups)) <= capacity,
    decreases groups.len(),
{
    if groups.len() > 0 {
        lemma_fill_within(capacity, groups.drop_last());
        let prev = fill_counts(capacity, groups.drop_last());
        assert(fill_counts(capacity, groups).drop_last() =~= prev);
    }
}

/// Lays out a snapshot of several groups into a buffer of `capacity`
/// entries, truncating rather than overflowing: returns how many of each
/// group are written.
pub fn fill_budget(capacity: usize, groups: &Vec<usize>) -> (r: Vec<usize>)
    ensures
        r@.len() == groups@.len(),
        forall|i: int| 0 <= i < r@.len() ==> r@[i] as nat == #[trigger] fill_counts(
            capacity as nat,
            groups@,
        )[i],
{
    let mut r: Vec<usize> = Vec::new();
    let mut used: usize = 0;
    let mut i: usize = 0;
    while i < groups.len()
        invariant
            i <= groups@.len(),
            r@.len() == i,
            fill_counts(capacity as nat, groups@.subrange(0, i as int)) == r@.map_values(
                |x: usize| x as nat,
            ),
            used == seq_sum(fill_counts(capacity as nat, groups@.subrange(0, i as int))),
            used <= capacity,
        decreases groups@.len() - i,
    {
        proof {
            lemma_fill_within(capacity as nat, groups@.subrange(0, i as int));
            assert(groups@.subrange(0, i + 1).drop_last() =~= groups@.subrange(0, i as int));
        }
        let room = capacity - used;
        let take = if groups[i] < room {
            groups[i]
        } else {
            room
        };
        let ghost before = r@;
        r.push(take);
        assert(r@.map_values(|x: usize| x as nat) =~= before.map_values(|x: usize| x as nat).push(
            take as nat,
        ));
        assert(fill_counts(capacity as nat, groups@.subrange(0, i + 1)).drop_last() =~= fill_counts(
            capacity as nat,
            groups@.subrange(0, i as int),
        ));
        used = used + take;
        i = i + 1;
    }
    assert(groups@.subrange(0, i as int) =~= groups@);
    r
}

/// The same entries, last first.
pub fn reversed<T>(v: Vec<T>) -> (r: Vec<T>)
    ensures
        r@.len() == v@.len(),
        forall|i: int| 0 <= i < v@.len() ==> #[trigger] r@[i] == v@[v@.len() - 1 - i],
{
    let ghost s = v@;
    let mut v = v;
    let mut r: Vec<T> = Vec::new();
    while v.len() > 0
        invariant
            v@ == s.subrange(0, s.len() - r@.len()),
            r@.len() <= s.len(),
            forall|i: int| 0 <= i < r@.len() ==> #[trigger] r@[i] == s[s.len() - 1 - i],
        decreases v@.len(),
    {
        match v.pop() {
            Some(x) => {
                r.push(x);
            },
            None => {},
        }
    }
    r
}

/// Eviction is by insertion order alone: when entries added to a collection
/// that was within its capacity push it over, exactly the oldest surplus is
/// dropped, and the newest `cap` entries stay in their order.
pub proof fn law_fifo_eviction<T>(before: Seq<T>, added: Seq<T>, cap: nat)
    requires
        before.len() <= cap,
        before.len() + added.len() > cap,
    ensures
        keep_newest(before + added, cap).len() == cap,
        forall|i: int|
            0 <= i < cap ==> #[trigger] keep_newest(before + added, cap)[i] == (before
                + added)[before.len() + added.len() - cap + i],
{
}

} // verus!
