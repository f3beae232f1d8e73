//! Rolling the tray, and the record a roll leaves behind.

use rand::rngs::ThreadRng;
use vstd::prelude::*;

use crate::clock::RollTime;
use crate::dice::{ceiling, die_faces, faces, ints, DiceView, DicesState, COUNT_MAX, DICE_NUM};
use crate::random::draw_inclusive;

verus! {

/// The sum of a sequence of outcomes.
pub open spec fn seq_sum(s: Seq<int>) -> int
    decreases s.len(),
{
    if s.len() == 0 {
        0
    } else {
        seq_sum(s.drop_last()) + s.last()
    }
}

/// The sum of every outcome of every kind.
pub open spec fn grand_sum(outcomes: Seq<Seq<int>>) -> int
    decreases outcomes.len(),
{
    if outcomes.len() == 0 {
        0
    } else {
        grand_sum(outcomes.drop_last()) + seq_sum(outcomes.last())
    }
}

/// `drawn` is a possible result of rolling `count` dice of kind `kind`: one
/// outcome per die, each between 1 and the kind's face count.
pub open spec fn kind_fits(count: int, kind: int, drawn: Seq<int>) -> bool {
    &&& drawn.len() == count
    &&& forall|j: int| 0 <= j < drawn.len() ==> 1 <= #[trigger] drawn[j] <= faces(kind)
}

/// `outcomes` is a possible result of rolling a tray with these counts.
pub open spec fn outcomes_fit(counts: Seq<int>, outcomes: Seq<Seq<int>>) -> bool {
    &&& outcomes.len() == counts.len()
    &&& forall|k: int| 0 <= k < outcomes.len() ==> kind_fits(counts[k], k, #[trigger] outcomes[k])
}

/// The outcome sequences held in `records`, as mathematical integers.
pub open spec fn tally(records: Seq<Vec<i32>>) -> Seq<Seq<int>> {
    Seq::new(records.len(), |k: int| ints(records[k]@))
}

/// What a record holds.
pub struct RecordView {
    /// For each die kind, the outcomes in the order they were drawn.
    pub outcomes: Seq<Seq<int>>,
    /// The tray that was rolled.
    pub dice: DiceView,
    /// When the roll was made.
    pub time: RollTime,
    /// The description of the tray.
    pub description: Seq<char>,
    /// The sum of all outcomes plus the modifier.
    pub total: int,
}

impl RecordView {
    /// The record is a faithful account of one roll of its tray.
    pub open spec fn sound(self) -> bool {
        &&& self.dice.rollable()
        &&& outcomes_fit(self.dice.counts, self.outcomes)
        &&& self.total == grand_sum(self.outcomes) + self.dice.modifier
        &&& self.description == self.dice.description()
    }
}

/// The result of one roll. A record is made by rolling and never changes.
pub struct RollRecord<const N: usize> {
    records: Vec<Vec<i32>>,
    state: DicesState<N>,
    time: RollTime,
    description: String,
    total: i32,
}

impl<const N: usize> View for RollRecord<N> {
    type V = RecordView;

    closed spec fn view(&self) -> RecordView {
        RecordView {
            outcomes: tally(self.records@),
            dice: self.state@,
            time: self.time,
            description: self.description@,
            total: self.total as int,
        }
    }
}

/// A sequence of outcomes sums to at least its length and at most its
/// length times the face count.
pub proof fn lemma_sum_bounds(drawn: Seq<int>, top: int)
    requires
        forall|j: int| 0 <= j < drawn.len() ==> 1 <= #[trigger] drawn[j] <= top,
    ensures
        drawn.len() <= seq_sum(drawn) <= drawn.len() * top,
    decreases drawn.len(),
{
    if drawn.len() > 0 {
        let front = drawn.drop_last();
        assert forall|j: int| 0 <= j < front.len() implies 1 <= #[trigger] front[j] <= top by {
            assert(front[j] == drawn[j]);
        }
        lemma_sum_bounds(front, top);
        assert(drawn.len() * top == front.len() * top + top) by (nonlinear_arith)
            requires
                drawn.len() == front.len() + 1,
        ;
    } else {
        assert(drawn.len() * top == 0) by (nonlinear_arith)
            requires
                drawn.len() == 0,
        ;
    }
}

/// Outcomes that fit a tray sum to at least zero and at most the tray's
/// ceiling.
pub proof fn lemma_grand_bounds(counts: Seq<int>, outcomes: Seq<Seq<int>>)
    requires
        outcomes_fit(counts, outcomes),
    ensures
        0 <= grand_sum(outcomes) <= ceiling(counts),
    decreases counts.len(),
{
    if counts.len() > 0 {
        let k = counts.len() - 1;
        let fewer = counts.drop_last();
        let front = outcomes.drop_last();
        assert forall|i: int| 0 <= i < front.len() implies kind_fits(
            fewer[i],
            i,
            #[trigger] front[i],
        ) by {
            assert(front[i] == outcomes[i]);
        }
        lemma_grand_bounds(fewer, front);
        assert(kind_fits(counts[k], k, outcomes[k]));
        lemma_sum_bounds(outcomes[k], faces(k));
    }
}

/// How many of the first `len` kinds have a face count.
pub open spec fn kinds_with_faces(len: int) -> int {
    if len <= DICE_NUM {
        len
    } else {
        DICE_NUM as int
    }
}

/// A tray in the setters' range that uses only kinds with faces has a
/// ceiling of at most `COUNT_MAX` dice of a hundred faces on each of the
/// `DICE_NUM` kinds.
pub proof fn lemma_ceiling_in_range(dice: DiceView)
    requires
        dice.in_range(),
        dice.supported(),
    ensures
        0 <= ceiling(dice.counts) <= 50_000,
{
    lemma_ceiling_prefix(dice);
}

/// The ceiling of a supported tray in the setters' range grows by at most
/// `100 * COUNT_MAX` with each kind that has faces.
proof fn lemma_ceiling_prefix(dice: DiceView)
    requires
        dice.in_range(),
        dice.supported(),
    ensures
        0 <= ceiling(dice.counts) <= 10_000 * kinds_with_faces(dice.counts.len() as int),
    decreases dice.counts.len(),
{
    if dice.counts.len() > 0 {
        let k = dice.counts.len() - 1;
        let fewer = DiceView { counts: dice.counts.drop_last(), modifier: dice.modifier };
        assert forall|i: int| 0 <= i < fewer.counts.len() implies 0 <= #[trigger] fewer.counts[i]
            <= COUNT_MAX by {
            assert(fewer.counts[i] == dice.counts[i]);
        }
        assert forall|i: int| DICE_NUM <= i < fewer.counts.len() implies fewer.counts[i] == 0 by {
            assert(fewer.counts[i] == dice.counts[i]);
        }
        lemma_ceiling_prefix(fewer);
        let count = dice.counts[k];
        assert(0 <= count <= COUNT_MAX);
        if k >= DICE_NUM {
            assert(count == 0);
            assert(count * faces(k) == 0) by (nonlinear_arith)
                requires
                    count == 0,
            ;
        } else {
            assert(0 <= count * faces(k) <= 10_000) by (nonlinear_arith)
                requires
                    0 <= count <= 100,
                    0 <= faces(k) <= 100,
            ;
        }
    }
}

/// A valid tray in the setters' range that uses only kinds with faces can
/// be rolled.
pub proof fn lemma_in_range_rollable(dice: DiceView)
    requires
        dice.in_range(),
        dice.supported(),
        dice.is_valid(),
    ensures
        dice.rollable(),
{
    lemma_ceiling_in_range(dice);
}

/// The sum of the values of `drawn`.
fn sum_of(drawn: &Vec<i32>) -> (sum: i64)
    requires
        drawn.len() <= i32::MAX,
    ensures
        sum == seq_sum(ints(drawn@)),
{
    let ghost all = ints(drawn@);
    let mut sum: i64 = 0;
    let mut j: usize = 0;
    assert(all.take(0) =~= Seq::<int>::empty());
    while j < drawn.len()
        invariant
            j <= drawn.len() <= i32::MAX,
            all == ints(drawn@),
            sum == seq_sum(all.take(j as int)),
            -0x8000_0000 * j <= sum <= 0x8000_0000 * j,
        decreases drawn.len() - j,
    {
        proof {
            assert(all.take(j + 1).drop_last() =~= all.take(j as int));
            assert(all.take(j + 1).last() == drawn[j as int]);
        }
        sum = sum + drawn[j] as i64;
        j += 1;
    }
    assert(all.take(drawn.len() as int) =~= all);
    sum
}

impl<const N: usize> RollRecord<N> {
    #[verifier::type_invariant]
    spec fn faithful(self) -> bool {
        self@.sound()
    }

    /// The outcomes of die kind `kind`, in the order they were drawn.
    pub fn outcomes(&self, kind: usize) -> (drawn: &Vec<i32>)
        requires
            kind < N,
        ensures
            ints(drawn@) == self@.outcomes[kind as int],
            self@.sound(),
    {
        proof {
            use_type_invariant(self);
        }
        &self.records[kind]
    }

    /// The tray that was rolled.
    pub fn state(&self) -> (state: &DicesState<N>)
        ensures
            state@ == self@.dice,
            self@.sound(),
    {
        proof {
            use_type_invariant(self);
        }
        &self.state
    }

    /// When the roll was made.
    pub fn time(&self) -> (time: RollTime)
        ensures
            time == self@.time,
    {
        self.time
    }

    /// The description of the tray that was rolled.
    pub fn description(&self) -> (text: &String)
        ensures
            text@ == self@.description,
            self@.sound(),
    {
        proof {
            use_type_invariant(self);
        }
        &self.description
    }

    /// The sum of all outcomes plus the modifier.
    pub fn total(&self) -> (total: i32)
        ensures
            total == self@.total,
            self@.sound(),
    {
        proof {
            use_type_invariant(self);
        }
        self.total
    }

    /// Puts a record together from outcomes that fit the tray.
    fn assemble(state: &DicesState<N>, records: Vec<Vec<i32>>, time: RollTime) -> (record: Box<
        RollRecord<N>,
    >)
        requires
            state@.rollable(),
            outcomes_fit(state@.counts, tally(records@)),
        ensures
            record@.outcomes == tally(records@),
            record@.dice == state@,
            record@.time == time,
            record@.sound(),
    {
        let ghost all = tally(records@);
        let ghost counts = state@.counts;
        let mut sum: i64 = 0;
        let mut k: usize = 0;
        assert(all.take(0) =~= Seq::<Seq<int>>::empty());
        while k < N
            invariant
                k <= N,
                records.len() == N,
                all == tally(records@),
                counts == state@.counts,
                state@.rollable(),
                outcomes_fit(counts, all),
                sum == grand_sum(all.take(k as int)),
                0 <= sum <= 214_748_364_800 * kinds_with_faces(k as int),
            decreases N - k,
        {
            proof {
                assert(all.take(k + 1).drop_last() =~= all.take(k as int));
                assert(all.take(k + 1).last() == all[k as int]);
                assert(kind_fits(counts[k as int], k as int, all[k as int]));
                assert(0 <= counts[k as int]);
                lemma_sum_bounds(all[k as int], faces(k as int));
                let count = counts[k as int];
                if k >= DICE_NUM {
                    assert(count == 0);
                    assert(count * faces(k as int) == 0) by (nonlinear_arith)
                        requires
                            count == 0,
                    ;
                } else {
                    assert(count * faces(k as int) <= 214_748_364_800) by (nonlinear_arith)
                        requires
                            0 <= count <= 0x8000_0000,
                            0 <= faces(k as int) <= 100,
                    ;
                }
            }
            let part: i64 = sum_of(&records[k]);
            sum = sum + part;
            k += 1;
        }
        proof {
            assert(all.take(N as int) =~= all);
            lemma_grand_bounds(counts, all);
        }
        let total: i32 = (sum + state.constant as i64) as i32;
        let description = state.gen_description();
        Box::new(RollRecord { records, state: *state, time, description, total })
    }
}

impl<const N: usize> DicesState<N> {
    /// Whether the tray can be rolled.
    pub fn rollable(&self) -> (b: bool)
        ensures
            b == self@.rollable(),
    {
        let ghost counts = self@.counts;
        let mut top: i64 = 0;
        let mut k: usize = 0;
        assert(counts.take(0) =~= Seq::<int>::empty());
        while k < N
            invariant
                k <= N,
                counts == self@.counts,
                forall|i: int| 0 <= i < k ==> 0 <= #[trigger] counts[i],
                forall|i: int| DICE_NUM <= i < k ==> counts[i] == 0,
                top == ceiling(counts.take(k as int)),
                0 <= top <= 214_748_364_800 * kinds_with_faces(k as int),
            decreases N - k,
        {
            let count: i32 = self.dice_num[k];
            if count < 0 {
                assert(counts[k as int] < 0);
                return false;
            }
            proof {
                assert(counts.take(k + 1).drop_last() =~= counts.take(k as int));
                assert(counts.take(k + 1).last() == count);
            }
            if k >= DICE_NUM {
                if count != 0 {
                    assert(counts[k as int] != 0);
                    return false;
                }
                assert(count * faces(k as int) == 0) by (nonlinear_arith)
                    requires
                        count == 0,
                ;
            } else {
                let sides: i32 = die_faces(k);
                assert(0 <= count * sides <= 214_748_364_800) by (nonlinear_arith)
                    requires
                        0 <= count <= 0x8000_0000,
                        0 <= sides <= 100,
                ;
                top = top + (count as i64) * (sides as i64);
            }
            k += 1;
        }
        assert(counts.take(N as int) =~= counts);
        self.valid() && top + self.constant as i64 <= i32::MAX as i64
    }

    /// Whether `outcomes` is a possible result of rolling this tray.
    pub fn fits(&self, outcomes: &Vec<Vec<i32>>) -> (b: bool)
        ensures
            b == outcomes_fit(self@.counts, tally(outcomes@)),
    {
        if outcomes.len() != N {
            return false;
        }
        let ghost all = tally(outcomes@);
        let mut k: usize = 0;
        while k < N
            invariant
                k <= N,
                outcomes.len() == N,
                all == tally(outcomes@),
                forall|i: int| 0 <= i < k ==> kind_fits(self@.counts[i], i, #[trigger] all[i]),
            decreases N - k,
        {
            let drawn = &outcomes[k];
            let count: i32 = self.dice_num[k];
            if count < 0 || drawn.len() != count as usize {
                assert(!kind_fits(self@.counts[k as int], k as int, all[k as int]));
                return false;
            }
            let sides: i32 = if k < DICE_NUM {
                die_faces(k)
            } else {
                0
            };
            let mut j: usize = 0;
            while j < drawn.len()
                invariant
                    j <= drawn.len(),
                    k < N,
                    drawn == &outcomes[k as int],
                    all == tally(outcomes@),
                    outcomes.len() == N,
                    sides == faces(k as int),
                    forall|i: int| 0 <= i < j ==> 1 <= #[trigger] all[k as int][i] <= sides,
                decreases drawn.len() - j,
            {
                if drawn[j] < 1 || drawn[j] > sides {
                    assert(all[k as int][j as int] == drawn[j as int]);
                    assert(!kind_fits(self@.counts[k as int], k as int, all[k as int]));
                    return false;
                }
                j += 1;
            }
            k += 1;
        }
        true
    }

    /// The record of a roll of this tray that showed `outcomes` at `time`, or
    /// `None` when the tray cannot be rolled or the outcomes are not a
    /// possible result of rolling it.
    pub fn record_of(&self, outcomes: Vec<Vec<i32>>, time: RollTime) -> (record: Option<
        Box<RollRecord<N>>,
    >)
        ensures
            record.is_some() <==> self@.rollable() && outcomes_fit(self@.counts, tally(outcomes@)),
            record matches Some(r) ==> {
                &&& r@.outcomes == tally(outcomes@)
                &&& r@.dice == self@
                &&& r@.time == time
                &&& r@.description == self@.description()
                &&& r@.total == grand_sum(tally(outcomes@)) + self@.modifier
            },
    {
        if self.rollable() && self.fits(&outcomes) {
            Some(RollRecord::assemble(self, outcomes, time))
        } else {
            None
        }
    }

    /// Rolls the tray: draws, for each kind, as many outcomes as the kind's
    /// count, each between 1 and the kind's face count, and records them with
    /// their total, the tray's description and the current time.
    pub fn roll(&self, rd: &mut ThreadRng) -> (record: Box<RollRecord<N>>)
        requires
            self@.rollable(),
        ensures
            record@.dice == self@,
            outcomes_fit(self@.counts, record@.outcomes),
            record@.total == grand_sum(record@.outcomes) + self@.modifier,
            record@.description == self@.description(),
            record@.sound(),
    {
        let mut records: Vec<Vec<i32>> = Vec::new();
        let mut k: usize = 0;
        while k < N
            invariant
                k <= N,
                records.len() == k,
                self@.rollable(),
                forall|i: int|
                    0 <= i < k ==> kind_fits(self@.counts[i], i, #[trigger] tally(records@)[i]),
            decreases N - k,
        {
            let count: i32 = self.dice_num[k];
            assert(0 <= self@.counts[k as int]);
            let mut drawn: Vec<i32> = Vec::new();
            if count > 0 {
                assert(self@.counts[k as int] != 0);
                let sides: i32 = die_faces(k);
                let mut j: i32 = 0;
                while j < count
                    invariant
                        0 <= j <= count,
                        drawn.len() == j,
                        sides == faces(k as int),
                        1 <= sides,
                        forall|i: int| 0 <= i < j ==> 1 <= #[trigger] drawn[i] <= sides,
                    decreases count - j,
                {
                    let outcome: i32 = draw_inclusive(rd, 1, sides);
                    drawn.push(outcome);
                    j += 1;
                }
            }
            let ghost before = tally(records@);
            records.push(drawn);
            proof {
                let after = tally(records@);
                assert forall|i: int| 0 <= i < k + 1 implies kind_fits(
                    self@.counts[i],
                    i,
                    #[trigger] after[i],
                ) by {
                    if i < k {
                        assert(after[i] == before[i]);
                    } else {
                        assert(after[i] =~= ints(drawn@));
                    }
                }
            }
            k += 1;
        }
        let time = RollTime::now();
        RollRecord::assemble(self, records, time)
    }
}

} // verus!
