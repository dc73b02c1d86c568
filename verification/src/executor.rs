//! Execution bookkeeping: what to do with a decision, and the bounded
//! execution log with its queries.
use vstd::prelude::*;

use crate::brain::Action;

verus! {

/// How an execution attempt ended.
#[derive(Clone, Copy, Debug, PartialEq, Eq, Structural)]
pub enum ExecResult {
    Succeeded,
    Skipped,
    Failed,
}

impl ExecResult {
    pub open spec fn spec_label(self) -> Seq<char> {
        match self {
            ExecResult::Succeeded => "ok"@,
            ExecResult::Skipped => "skipped"@,
            ExecResult::Failed => "error"@,
        }
    }

    pub fn label(&self) -> (s: &'static str)
        ensures
            s@ == self.spec_label(),
    {
        match self {
            ExecResult::Succeeded => "ok",
            ExecResult::Skipped => "skipped",
            ExecResult::Failed => "error",
        }
    }
}

/// One entry of the execution log.  `detail` carries what the journal itself
/// never reads (time stamp, volume, price).
#[derive(Clone, Debug)]
pub struct ExecLog<D> {
    pub pair: String,
    pub action: Action,
    pub reason: String,
    pub result: ExecResult,
    pub error: String,
    pub detail: D,
}

/// Why a decision is logged without any order being sent.
#[derive(Clone, Copy, Debug, PartialEq, Eq, Structural)]
pub enum SkipNote {
    /// The decision was to hold.
    Holding,
    /// A buy for a pair that already has an open position.
    AlreadyOpen,
    /// A sell for a pair without an open position.
    NothingToSell,
}

/// The next step for a decision.
#[derive(Clone, Copy, Debug, PartialEq, Eq, Structural)]
pub enum ExecutionStep {
    /// Log the decision as skipped.
    Skip { action: Action, note: SkipNote },
    /// Size and send a buy order.
    Open,
    /// Sell the open position.
    Close,
}

pub open spec fn spec_plan_execution(action: Action, has_open_position: bool) -> ExecutionStep {
    match action {
        Action::Hold => ExecutionStep::Skip { action: Action::Hold, note: SkipNote::Holding },
        Action::Buy => if has_open_position {
            ExecutionStep::Skip { action: Action::Buy, note: SkipNote::AlreadyOpen }
        } else {
            ExecutionStep::Open
        },
        Action::Sell => if has_open_position {
            ExecutionStep::Close
        } else {
            ExecutionStep::Skip { action: Action::Sell, note: SkipNote::NothingToSell }
        },
    }
}

/// What a decision leads to, given whether the pair has an open position:
/// at most one position per pair, and only an open position can be sold.
pub fn plan_execution(action: Action, has_open_position: bool) -> (step: ExecutionStep)
    ensures
        step == spec_plan_execution(action, has_open_position),
{
    match action {
        Action::Hold => ExecutionStep::Skip { action: Action::Hold, note: SkipNote::Holding },
        Action::Buy => if has_open_position {
            ExecutionStep::Skip { action: Action::Buy, note: SkipNote::AlreadyOpen }
        } else {
            ExecutionStep::Open
        },
        Action::Sell => if has_open_position {
            ExecutionStep::Close
        } else {
            ExecutionStep::Skip { action: Action::Sell, note: SkipNote::NothingToSell }
        },
    }
}

/// An open position of one pair.
#[derive(Clone, Debug)]
pub struct OpenPosition<P> {
    pub pair: String,
    pub position: P,
}

/// `k` is the pair of some slot.
pub open spec fn has_pair<P>(slots: Seq<OpenPosition<P>>, k: Seq<char>) -> bool {
    exists|i: int| 0 <= i < slots.len() && #[trigger] slots[i].pair@ == k
}

/// The positions held in `slots`, by pair.
pub open spec fn book_map<P>(slots: Seq<OpenPosition<P>>) -> Map<Seq<char>, P> {
    Map::new(
        |k: Seq<char>| has_pair(slots, k),
        |k: Seq<char>| slots[choose|i: int| 0 <= i < slots.len() && #[trigger] slots[i].pair@ == k].position,
    )
}

/// No pair has two slots.
pub open spec fn distinct_pairs<P>(slots: Seq<OpenPosition<P>>) -> bool {
    forall|i: int, j: int|
        0 <= i < slots.len() && 0 <= j < slots.len() && i != j ==> #[trigger] slots[i].pair@
            != #[trigger] slots[j].pair@
}

proof fn lemma_book_at<P>(slots: Seq<OpenPosition<P>>, i: int)
    requires
        distinct_pairs(slots),
        0 <= i < slots.len(),
    ensures
        book_map(slots).dom().contains(slots[i].pair@),
        book_map(slots)[slots[i].pair@] == slots[i].position,
{
    let k = slots[i].pair@;
    assert(has_pair(slots, k));
    let c = choose|c: int| 0 <= c < slots.len() && #[trigger] slots[c].pair@ == k;
    if c != i {
        assert(slots[c].pair@ != slots[i].pair@);
    }
}

/// The open positions, at most one per pair.
pub struct PositionBook<P> {
    slots: Vec<OpenPosition<P>>,
}

impl<P> PositionBook<P> {
    #[verifier::type_invariant]
    spec fn one_per_pair(self) -> bool {
        distinct_pairs(self.slots@)
    }

    /// The open positions by pair.
    pub closed spec fn view(self) -> Map<Seq<char>, P> {
        book_map(self.slots@)
    }

    pub fn new() -> (b: Self)
        ensures
            b.view() == Map::<Seq<char>, P>::empty(),
    {
        let b = PositionBook { slots: Vec::new() };
        proof {
            assert(b.view() =~= Map::<Seq<char>, P>::empty());
        }
        b
    }

    fn find(&self, pair: &String) -> (r: Option<usize>)
        ensures
            r matches Some(i) ==> i < self.slots@.len() && self.slots@[i as int].pair@ == pair@,
            r is None ==> !has_pair(self.slots@, pair@),
    {
        let mut i: usize = 0;
        while i < self.slots.len()
            invariant
                i <= self.slots.len(),
                forall|j: int| 0 <= j < i ==> self.slots@[j].pair@ != pair@,
            decreases self.slots.len() - i,
        {
            if self.slots[i].pair == *pair {
                return Some(i);
            }
            i = i + 1;
        }
        None
    }

    /// Whether `pair` has an open position.
    pub fn contains(&self, pair: &str) -> (b: bool)
        ensures
            b == self.view().dom().contains(pair@),
    {
        let key = String::from_str(pair);
        self.find(&key).is_some()
    }

    /// The open position of `pair`, if any.
    pub fn get(&self, pair: &str) -> (r: Option<&P>)
        ensures
            r matches Some(p) ==> self.view().dom().contains(pair@) && self.view()[pair@] == *p,
            r is None ==> !self.view().dom().contains(pair@),
    {
        proof {
            use_type_invariant(self);
        }
        let key = String::from_str(pair);
        match self.find(&key) {
            Some(i) => {
                proof {
                    lemma_book_at(self.slots@, i as int);
                }
                Some(&self.slots[i].position)
            },
            None => None,
        }
    }

    /// Opens (or replaces) the position of `pair`.
    pub fn insert(&mut self, pair: &str, position: P)
        ensures
            final(self).view() == old(self).view().insert(pair@, position),
    {
        proof {
            use_type_invariant(&*self);
        }
        let key = String::from_str(pair);
        let found = self.find(&key);
        let mut slots: Vec<OpenPosition<P>> = Vec::new();
        std::mem::swap(&mut slots, &mut self.slots);
        let ghost old_slots = slots@;
        let ghost k = key@;
        let slot = OpenPosition { pair: key, position };
        match found {
            Some(i) => {
                slots.set(i, slot);
                proof {
                    let new = slots@;
                    assert(distinct_pairs(new)) by {
                        assert forall|a: int, b: int|
                            0 <= a < new.len() && 0 <= b < new.len() && a != b implies #[trigger] new[a].pair@
                                != #[trigger] new[b].pair@ by {
                            if a != i && b != i {
                                assert(new[a] == old_slots[a] && new[b] == old_slots[b]);
                            } else if a == i {
                                assert(new[b] == old_slots[b]);
                                assert(old_slots[b].pair@ != old_slots[i as int].pair@);
                            } else {
                                assert(new[a] == old_slots[a]);
                                assert(old_slots[a].pair@ != old_slots[i as int].pair@);
                            }
                        }
                    }
                    lemma_book_replace(old_slots, i as int, slot);
                }
            },
            None => {
                slots.push(slot);
                proof {
                    let new = slots@;
                    assert(distinct_pairs(new)) by {
                        assert forall|a: int, b: int|
                            0 <= a < new.len() && 0 <= b < new.len() && a != b implies #[trigger] new[a].pair@
                                != #[trigger] new[b].pair@ by {
                            if a < old_slots.len() && b < old_slots.len() {
                                assert(new[a] == old_slots[a] && new[b] == old_slots[b]);
                            } else if a < old_slots.len() {
                                assert(new[a] == old_slots[a]);
                                assert(!(old_slots[a].pair@ == k));
                            } else {
                                assert(new[b] == old_slots[b]);
                                assert(!(old_slots[b].pair@ == k));
                            }
                        }
                    }
                    lemma_book_push(old_slots, slot);
                }
            },
        }
        self.slots = slots;
    }

    /// Closes the position of `pair`, giving it back if there was one.
    pub fn remove(&mut self, pair: &str) -> (r: Option<P>)
        ensures
            final(self).view() == old(self).view().remove(pair@),
            r matches Some(p) ==> old(self).view().dom().contains(pair@) && old(self).view()[pair@] == p,
            r is None ==> !old(self).view().dom().contains(pair@),
    {
        proof {
            use_type_invariant(&*self);
        }
        let key = String::from_str(pair);
        match self.find(&key) {
            None => {
                proof {
                    assert(old(self).view().remove(pair@) =~= old(self).view());
                }
                None
            },
            Some(i) => {
                let mut slots: Vec<OpenPosition<P>> = Vec::new();
                std::mem::swap(&mut slots, &mut self.slots);
                let ghost old_slots = slots@;
                proof {
                    lemma_book_at(old_slots, i as int);
                }
                let removed = slots.remove(i);
                proof {
                    let new = slots@;
                    assert(distinct_pairs(new)) by {
                        assert forall|a: int, b: int|
                            0 <= a < new.len() && 0 <= b < new.len() && a != b implies #[trigger] new[a].pair@
                                != #[trigger] new[b].pair@ by {
                            let oa = if a < i { a } else { a + 1 };
                            let ob = if b < i { b } else { b + 1 };
                            assert(new[a] == old_slots[oa] && new[b] == old_slots[ob]);
                        }
                    }
                    lemma_book_remove(old_slots, i as int);
                }
                self.slots = slots;
                Some(removed.position)
            },
        }
    }

    pub fn len(&self) -> (n: usize)
        ensures
            n == self.view().dom().len(),
    {
        proof {
            use_type_invariant(self);
            lemma_book_len(self.slots@);
        }
        self.slots.len()
    }

    pub fn is_empty(&self) -> (b: bool)
        ensures
            b == (self.view().dom().len() == 0),
    {
        self.len() == 0
    }

    /// The open positions, one per pair.
    pub fn entries(&self) -> (es: &Vec<OpenPosition<P>>)
        ensures
            es@.len() == self.view().dom().len(),
            distinct_pairs(es@),
            forall|i: int|
                0 <= i < es@.len() ==> self.view().dom().contains(#[trigger] es@[i].pair@)
                    && self.view()[es@[i].pair@] == es@[i].position,
    {
        proof {
            use_type_invariant(self);
            lemma_book_len(self.slots@);
            assert forall|i: int| 0 <= i < self.slots@.len() implies self.view().dom().contains(
                #[trigger] self.slots@[i].pair@,
            ) && self.view()[self.slots@[i].pair@] == self.slots@[i].position by {
                lemma_book_at(self.slots@, i);
            }
        }
        &self.slots
    }
}

proof fn lemma_book_replace<P>(slots: Seq<OpenPosition<P>>, i: int, slot: OpenPosition<P>)
    requires
        distinct_pairs(slots),
        distinct_pairs(slots.update(i, slot)),
        0 <= i < slots.len(),
        slots[i].pair@ == slot.pair@,
    ensures
        book_map(slots.update(i, slot)) == book_map(slots).insert(slot.pair@, slot.position),
{
    let new = slots.update(i, slot);
    let k = slot.pair@;
    assert forall|k2: Seq<char>| has_pair(new, k2) <==> has_pair(slots, k2) || k2 == k by {
        if has_pair(new, k2) {
            let j = choose|j: int| 0 <= j < new.len() && #[trigger] new[j].pair@ == k2;
            if j != i {
                assert(slots[j].pair@ == k2);
            }
        }
        if has_pair(slots, k2) {
            let j = choose|j: int| 0 <= j < slots.len() && #[trigger] slots[j].pair@ == k2;
            assert(new[j].pair@ == k2);
        }
        if k2 == k {
            assert(new[i].pair@ == k2);
        }
    }
    assert forall|k2: Seq<char>| #[trigger] book_map(new).dom().contains(k2) implies book_map(new)[k2]
        == book_map(slots).insert(k, slot.position)[k2] by {
        let j = choose|j: int| 0 <= j < new.len() && #[trigger] new[j].pair@ == k2;
        lemma_book_at(new, j);
        if j != i {
            assert(new[j] == slots[j]);
            lemma_book_at(slots, j);
        }
    }
    assert(book_map(new) =~= book_map(slots).insert(k, slot.position));
}

proof fn lemma_book_push<P>(slots: Seq<OpenPosition<P>>, slot: OpenPosition<P>)
    requires
        distinct_pairs(slots),
        distinct_pairs(slots.push(slot)),
        !has_pair(slots, slot.pair@),
    ensures
        book_map(slots.push(slot)) == book_map(slots).insert(slot.pair@, slot.position),
{
    let new = slots.push(slot);
    let k = slot.pair@;
    let n = slots.len() as int;
    assert forall|k2: Seq<char>| has_pair(new, k2) <==> has_pair(slots, k2) || k2 == k by {
        if has_pair(new, k2) {
            let j = choose|j: int| 0 <= j < new.len() && #[trigger] new[j].pair@ == k2;
            if j != n {
                assert(slots[j].pair@ == k2);
            }
        }
        if has_pair(slots, k2) {
            let j = choose|j: int| 0 <= j < slots.len() && #[trigger] slots[j].pair@ == k2;
            assert(new[j].pair@ == k2);
        }
        if k2 == k {
            assert(new[n].pair@ == k2);
        }
    }
    assert forall|k2: Seq<char>| #[trigger] book_map(new).dom().contains(k2) implies book_map(new)[k2]
        == book_map(slots).insert(k, slot.position)[k2] by {
        let j = choose|j: int| 0 <= j < new.len() && #[trigger] new[j].pair@ == k2;
        lemma_book_at(new, j);
        if j != n {
            assert(new[j] == slots[j]);
            lemma_book_at(slots, j);
        }
    }
    assert(book_map(new) =~= book_map(slots).insert(k, slot.position));
}

proof fn lemma_book_remove<P>(slots: Seq<OpenPosition<P>>, i: int)
    requires
        distinct_pairs(slots),
        distinct_pairs(slots.remove(i)),
        0 <= i < slots.len(),
    ensures
        book_map(slots.remove(i)) == book_map(slots).remove(slots[i].pair@),
{
    let new = slots.remove(i);
    let k = slots[i].pair@;
    assert forall|k2: Seq<char>| has_pair(new, k2) <==> has_pair(slots, k2) && k2 != k by {
        if has_pair(new, k2) {
            let j = choose|j: int| 0 <= j < new.len() && #[trigger] new[j].pair@ == k2;
            let oj = if j < i { j } else { j + 1 };
            assert(new[j] == slots[oj]);
            assert(slots[oj].pair@ == k2);
        }
        if has_pair(slots, k2) && k2 != k {
            let j = choose|j: int| 0 <= j < slots.len() && #[trigger] slots[j].pair@ == k2;
            assert(j != i);
            let nj = if j < i { j } else { j - 1 };
            assert(new[nj] == slots[j]);
            assert(new[nj].pair@ == k2);
        }
    }
    assert forall|k2: Seq<char>| #[trigger] book_map(new).dom().contains(k2) implies book_map(new)[k2]
        == book_map(slots).remove(k)[k2] by {
        let j = choose|j: int| 0 <= j < new.len() && #[trigger] new[j].pair@ == k2;
        lemma_book_at(new, j);
        let oj = if j < i { j } else { j + 1 };
        assert(new[j] == slots[oj]);
        lemma_book_at(slots, oj);
    }
    assert(book_map(new) =~= book_map(slots).remove(k));
}

proof fn lemma_book_len<P>(slots: Seq<OpenPosition<P>>)
    requires
        distinct_pairs(slots),
    ensures
        book_map(slots).dom().finite(),
        book_map(slots).dom().len() == slots.len(),
    decreases slots.len(),
{
    if slots.len() == 0 {
        assert(book_map(slots).dom() =~= Set::<Seq<char>>::empty());
    } else {
        let init = slots.drop_last();
        assert(distinct_pairs(init)) by {
            assert forall|a: int, b: int|
                0 <= a < init.len() && 0 <= b < init.len() && a != b implies #[trigger] init[a].pair@
                    != #[trigger] init[b].pair@ by {
                assert(init[a] == slots[a] && init[b] == slots[b]);
            }
        }
        lemma_book_len(init);
        assert(!has_pair(init, slots.last().pair@)) by {
            if has_pair(init, slots.last().pair@) {
                let j = choose|j: int| 0 <= j < init.len() && #[trigger] init[j].pair@ == slots.last().pair@;
                assert(slots[j].pair@ == slots[slots.len() - 1].pair@);
            }
        }
        assert(slots =~= init.push(slots.last()));
        lemma_book_push(init, slots.last());
        assert(book_map(slots).dom() =~= book_map(init).dom().insert(slots.last().pair@));
    }
}

/// The log keeps at most this many entries.
pub const EXEC_LOG_CAPACITY: usize = 500;

/// How many of the oldest entries go when the log overflows.
pub const EXEC_LOG_TRIM: usize = 100;

/// The log after appending `e` to `s`: past the capacity, the oldest
/// `EXEC_LOG_TRIM` entries are dropped.
pub open spec fn spec_after_push<D>(s: Seq<ExecLog<D>>, e: ExecLog<D>) -> Seq<ExecLog<D>> {
    let grown = s.push(e);
    if grown.len() > EXEC_LOG_CAPACITY {
        grown.subrange(EXEC_LOG_TRIM as int, grown.len() as int)
    } else {
        grown
    }
}

/// The newest `n` entries that are not holds, newest first.
pub open spec fn recent_from<D>(s: Seq<ExecLog<D>>, n: nat) -> Seq<ExecLog<D>>
    decreases s.len(),
{
    if s.len() == 0 || n == 0 {
        Seq::empty()
    } else if s.last().action is Hold {
        recent_from(s.drop_last(), n)
    } else {
        seq![s.last()] + recent_from(s.drop_last(), (n - 1) as nat)
    }
}

/// Number of entries that are trades (not holds).
pub open spec fn count_trades<D>(s: Seq<ExecLog<D>>) -> nat
    decreases s.len(),
{
    if s.len() == 0 {
        0
    } else {
        count_trades(s.drop_last()) + if s.last().action is Hold {
            0nat
        } else {
            1nat
        }
    }
}

/// Number of trades (not holds) that went through.
pub open spec fn count_ok_trades<D>(s: Seq<ExecLog<D>>) -> nat
    decreases s.len(),
{
    if s.len() == 0 {
        0
    } else {
        count_ok_trades(s.drop_last()) + if !(s.last().action is Hold) && s.last().result
            is Succeeded {
            1nat
        } else {
            0nat
        }
    }
}

proof fn lemma_counts_bounded<D>(s: Seq<ExecLog<D>>)
    ensures
        count_ok_trades(s) <= count_trades(s) <= s.len(),
    decreases s.len(),
{
    if s.len() > 0 {
        lemma_counts_bounded(s.drop_last());
    }
}

proof fn lemma_recent_split<D>(s: Seq<ExecLog<D>>, i: int, n: nat)
    requires
        0 < i <= s.len(),
        n > 0,
    ensures
        recent_from(s.subrange(0, i), n) == if s[i - 1].action is Hold {
            recent_from(s.subrange(0, i - 1), n)
        } else {
            seq![s[i - 1]] + recent_from(s.subrange(0, i - 1), (n - 1) as nat)
        },
{
    assert(s.subrange(0, i).drop_last() =~= s.subrange(0, i - 1));
}

/// The execution log, bounded to `EXEC_LOG_CAPACITY` entries.
pub struct ExecJournal<D> {
    entries: Vec<ExecLog<D>>,
}

impl<D> ExecJournal<D> {
    #[verifier::type_invariant]
    spec fn bounded(self) -> bool {
        self.entries@.len() <= EXEC_LOG_CAPACITY
    }

    /// The entries, oldest first.
    pub closed spec fn view(self) -> Seq<ExecLog<D>> {
        self.entries@
    }

    pub fn new() -> (j: Self)
        ensures
            j.view() == Seq::<ExecLog<D>>::empty(),
    {
        ExecJournal { entries: Vec::new() }
    }

    /// The entries, oldest first.
    pub fn entries(&self) -> (es: &Vec<ExecLog<D>>)
        ensures
            es@ == self.view(),
            es@.len() <= EXEC_LOG_CAPACITY,
    {
        proof {
            use_type_invariant(self);
        }
        &self.entries
    }

    pub fn len(&self) -> (n: usize)
        ensures
            n == self.view().len(),
            n <= EXEC_LOG_CAPACITY,
    {
        proof {
            use_type_invariant(self);
        }
        self.entries.len()
    }

    /// Appends an entry; when the log grows past its capacity the oldest
    /// `EXEC_LOG_TRIM` entries are dropped.
    pub fn push(&mut self, entry: ExecLog<D>)
        ensures
            final(self).view() == spec_after_push(old(self).view(), entry),
            final(self).view().len() <= EXEC_LOG_CAPACITY,
            final(self).view().last() == entry,
    {
        proof {
            use_type_invariant(&*self);
        }
        let ghost old_view = self.entries@;
        let mut entries: Vec<ExecLog<D>> = Vec::new();
        std::mem::swap(&mut entries, &mut self.entries);
        entries.push(entry);
        if entries.len() > EXEC_LOG_CAPACITY {
            let tail = entries.split_off(EXEC_LOG_TRIM);
            entries = tail;
        }
        proof {
            assert(entries@.last() == entry);
        }
        self.entries = entries;
    }

    /// The newest `n` trades (holds left out), newest first.
    pub fn recent_trades(&self, n: usize) -> (res: Vec<&ExecLog<D>>)
        ensures
            res@.map_values(|e: &ExecLog<D>| *e) == recent_from(self.view(), n as nat),
    {
        let mut res: Vec<&ExecLog<D>> = Vec::new();
        let mut i: usize = self.entries.len();
        let ghost s = self.entries@;
        proof {
            assert(s.subrange(0, s.len() as int) =~= s);
        }
        while i > 0 && res.len() < n
            invariant
                i <= s.len(),
                s == self.entries@,
                res.len() <= n,
                recent_from(s, n as nat) == res@.map_values(|e: &ExecLog<D>| *e) + recent_from(
                    s.subrange(0, i as int),
                    (n - res.len()) as nat,
                ),
            decreases i,
        {
            proof {
                lemma_recent_split(s, i as int, (n - res.len()) as nat);
            }
            let e = &self.entries[i - 1];
            match e.action {
                Action::Hold => {},
                _ => {
                    let ghost before = res@.map_values(|e: &ExecLog<D>| *e);
                    res.push(e);
                    proof {
                        assert(res@.map_values(|e: &ExecLog<D>| *e) =~= before + seq![s[i - 1]]);
                        assert(before + seq![s[i - 1]] + recent_from(
                            s.subrange(0, i - 1),
                            (n - res.len()) as nat,
                        ) =~= before + (seq![s[i - 1]] + recent_from(
                            s.subrange(0, i - 1),
                            (n - res.len()) as nat,
                        )));
                    }
                },
            }
            i = i - 1;
        }
        proof {
            assert(recent_from(s.subrange(0, i as int), (n - res.len()) as nat) =~= Seq::<
                ExecLog<D>,
            >::empty());
            assert(res@.map_values(|e: &ExecLog<D>| *e) + Seq::<ExecLog<D>>::empty() =~= res@.map_values(
                |e: &ExecLog<D>| *e,
            ));
        }
        res
    }

    /// How many trades (not holds) the log holds, and how many of them went through.
    pub fn trade_counts(&self) -> (c: (usize, usize))
        ensures
            c.0 == count_trades(self.view()),
            c.1 == count_ok_trades(self.view()),
    {
        let mut total: usize = 0;
        let mut ok: usize = 0;
        let mut i: usize = 0;
        while i < self.entries.len()
            invariant
                i <= self.entries.len(),
                total == count_trades(self.entries@.subrange(0, i as int)),
                ok == count_ok_trades(self.entries@.subrange(0, i as int)),
            decreases self.entries.len() - i,
        {
            proof {
                assert(self.entries@.subrange(0, i + 1).drop_last() =~= self.entries@.subrange(
                    0,
                    i as int,
                ));
                lemma_counts_bounded(self.entries@.subrange(0, i as int));
            }
            let e = &self.entries[i];
            match e.action {
                Action::Hold => {},
                _ => {
                    total = total + 1;
                    match e.result {
                        ExecResult::Succeeded => {
                            ok = ok + 1;
                        },
                        _ => {},
                    }
                },
            }
            i = i + 1;
        }
        proof {
            assert(self.entries@.subrange(0, self.entries@.len() as int) =~= self.entries@);
        }
        (total, ok)
    }
}

/// Appending keeps the log within its capacity, keeps the new entry as the
/// newest one and keeps the order of what remains; below capacity nothing is
/// dropped.
pub proof fn law_push_keeps_newest<D>(s: Seq<ExecLog<D>>, e: ExecLog<D>)
    requires
        s.len() <= EXEC_LOG_CAPACITY,
    ensures
        spec_after_push(s, e).len() <= EXEC_LOG_CAPACITY,
        spec_after_push(s, e).last() == e,
        exists|k: int|
            0 <= k <= s.len() && spec_after_push(s, e) == #[trigger] s.push(e).subrange(k, s.len() as int + 1),
        s.len() < EXEC_LOG_CAPACITY ==> spec_after_push(s, e) == s.push(e),
{
    let grown = s.push(e);
    if grown.len() > EXEC_LOG_CAPACITY {
        assert(spec_after_push(s, e) == grown.subrange(EXEC_LOG_TRIM as int, s.len() as int + 1));
    } else {
        assert(grown.subrange(0, s.len() as int + 1) =~= grown);
        assert(spec_after_push(s, e) == grown.subrange(0, s.len() as int + 1));
    }
}

/// The recent trades are trades (never holds), at most `n` of them, and
/// exactly `n` when the log holds at least `n` trades.
pub proof fn law_recent_trades<D>(s: Seq<ExecLog<D>>, n: nat)
    ensures
        recent_from(s, n).len() <= n,
        recent_from(s, n).len() == if count_trades(s) < n { count_trades(s) } else { n },
        forall|i: int| 0 <= i < recent_from(s, n).len() ==> !(#[trigger] recent_from(s, n)[i].action is Hold),
    decreases s.len(),
{
    if s.len() > 0 && n > 0 {
        if s.last().action is Hold {
            law_recent_trades(s.drop_last(), n);
        } else {
            let rest = recent_from(s.drop_last(), (n - 1) as nat);
            law_recent_trades(s.drop_last(), (n - 1) as nat);
            assert forall|i: int| 0 <= i < recent_from(s, n).len() implies !(#[trigger] recent_from(s, n)[i].action is Hold) by {
                if i > 0 {
                    assert(recent_from(s, n)[i] == rest[i - 1]);
                }
            }
        }
    }
}

/// Trades that went through never outnumber the trades in the log.
pub proof fn law_ok_trades_within_trades<D>(s: Seq<ExecLog<D>>)
    ensures
        count_ok_trades(s) <= count_trades(s) <= s.len(),
{
    lemma_counts_bounded(s);
}

/// A buy is only sent for a pair without an open position, and a sell only
/// for a pair with one; so the book never holds two positions for a pair.
pub proof fn law_plan_respects_book<P>(book: Map<Seq<char>, P>, pair: Seq<char>, action: Action)
    ensures
        spec_plan_execution(action, book.dom().contains(pair)) is Open ==> !book.dom().contains(pair)
            && action is Buy,
        spec_plan_execution(action, book.dom().contains(pair)) is Close ==> book.dom().contains(pair)
            && action is Sell,
        action is Hold ==> spec_plan_execution(action, book.dom().contains(pair)) is Skip,
{
}

/// Appending an entry adds one trade for every buy or sell, whatever its
/// result, and one succeeded trade for every buy or sell whose result is a
/// success; holds count for neither.
pub proof fn law_counts_grow_by_entry<D>(s: Seq<ExecLog<D>>, e: ExecLog<D>)
    ensures
        count_trades(s.push(e)) == count_trades(s) + if e.action == Action::Buy || e.action
            == Action::Sell {
            1nat
        } else {
            0nat
        },
        count_ok_trades(s.push(e)) == count_ok_trades(s) + if (e.action == Action::Buy || e.action
            == Action::Sell) && e.result == ExecResult::Succeeded {
            1nat
        } else {
            0nat
        },
{
    assert(s.push(e).drop_last() =~= s);
}

} // verus!
