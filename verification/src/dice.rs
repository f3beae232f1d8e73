//! The dice tray: how many dice of each kind are set out, and the flat
//! modifier added to every roll.

use vstd::prelude::*;
use vstd::string::*;

use crate::tools::{
    decimal, joined, lemma_decimal_nonempty, lemma_joined_empty, lemma_joined_push, push_int,
};

verus! {

/// Number of die kinds with a face count.
pub const DICE_NUM: usize = 5;

/// Largest count of one kind, and largest modifier, that the tray's setters keep.
pub const COUNT_MAX: i32 = 100;

/// Face count of each die kind, in canonical order: D4, D6, D12, D20, D100.
/// A kind outside the table has no faces.
pub open spec fn faces(kind: int) -> int {
    if kind == 0 {
        4
    } else if kind == 1 {
        6
    } else if kind == 2 {
        12
    } else if kind == 3 {
        20
    } else if kind == 4 {
        100
    } else {
        0
    }
}

/// Face count of die kind `kind`.
pub fn die_faces(kind: usize) -> (f: i32)
    requires
        kind < DICE_NUM,
    ensures
        f == faces(kind as int),
        1 <= f <= 100,
{
    if kind == 0 {
        4
    } else if kind == 1 {
        6
    } else if kind == 2 {
        12
    } else if kind == 3 {
        20
    } else {
        100
    }
}

/// `n` held to the closed range `[low, high]`.
pub open spec fn clamped(n: int, low: int, high: int) -> int {
    if n < low {
        low
    } else if n > high {
        high
    } else {
        n
    }
}

/// The separator between the terms of a description.
pub open spec fn plus_sign() -> Seq<char> {
    seq![' ', '+', ' ']
}

/// The term for `count` dice of kind `kind`, as in `2D6`.
pub open spec fn die_term(count: int, kind: int) -> Seq<char> {
    decimal(count) + seq!['D'] + decimal(faces(kind))
}

/// The terms of the kinds with a non-zero count, in canonical kind order.
pub open spec fn dice_terms(counts: Seq<int>) -> Seq<Seq<char>>
    decreases counts.len(),
{
    if counts.len() == 0 {
        Seq::empty()
    } else if counts.last() != 0 {
        dice_terms(counts.drop_last()).push(die_term(counts.last(), counts.len() - 1))
    } else {
        dice_terms(counts.drop_last())
    }
}

/// The largest sum the dice alone can show: every die on its highest face.
pub open spec fn ceiling(counts: Seq<int>) -> int
    decreases counts.len(),
{
    if counts.len() == 0 {
        0
    } else {
        ceiling(counts.drop_last()) + counts.last() * faces(counts.len() - 1)
    }
}

/// What a tray holds: the count of each die kind and the modifier.
pub struct DiceView {
    pub counts: Seq<int>,
    pub modifier: int,
}

impl DiceView {
    /// At least one kind has a non-zero count: a roll of the modifier alone
    /// is not a roll.
    pub open spec fn is_valid(self) -> bool {
        exists|k: int| 0 <= k < self.counts.len() && self.counts[k] != 0
    }

    /// Every count and the modifier are zero.
    pub open spec fn is_blank(self) -> bool {
        &&& self.modifier == 0
        &&& forall|k: int| 0 <= k < self.counts.len() ==> self.counts[k] == 0
    }

    /// Only kinds with a face count are in use.
    pub open spec fn supported(self) -> bool {
        forall|k: int| DICE_NUM <= k < self.counts.len() ==> self.counts[k] == 0
    }

    /// Every count and the modifier lie in the range the setters keep.
    pub open spec fn in_range(self) -> bool {
        &&& 0 <= self.modifier <= COUNT_MAX
        &&& forall|k: int| 0 <= k < self.counts.len() ==> 0 <= #[trigger] self.counts[k] <= COUNT_MAX
    }

    /// The terms of the description: one per kind in use, then the modifier
    /// if it is non-zero.
    pub open spec fn terms(self) -> Seq<Seq<char>> {
        if self.modifier != 0 {
            dice_terms(self.counts).push(decimal(self.modifier))
        } else {
            dice_terms(self.counts)
        }
    }

    /// The description, as in `2D6 + 1D20 + 3`.
    pub open spec fn description(self) -> Seq<char> {
        joined(self.terms(), plus_sign())
    }

    /// The largest total a roll can reach.
    pub open spec fn most(self) -> int {
        ceiling(self.counts) + self.modifier
    }

    /// The tray can be rolled: it is valid, uses only kinds with faces, has
    /// no negative count, and no outcome can push the total past `i32::MAX`.
    pub open spec fn rollable(self) -> bool {
        &&& self.is_valid()
        &&& self.supported()
        &&& forall|k: int| 0 <= k < self.counts.len() ==> 0 <= #[trigger] self.counts[k]
        &&& self.most() <= i32::MAX
    }
}

/// The dice set out for the next roll: a count per die kind, and a modifier.
#[derive(Clone, Copy, Debug)]
pub struct DicesState<const N: usize> {
    pub dice_num: [i32; N],
    pub constant: i32,
}

/// The values of `s` as mathematical integers.
pub open spec fn ints(s: Seq<i32>) -> Seq<int> {
    s.map_values(|x: i32| x as int)
}

impl<const N: usize> View for DicesState<N> {
    type V = DiceView;

    open spec fn view(&self) -> DiceView {
        DiceView { counts: ints(self.dice_num@), modifier: self.constant as int }
    }
}

impl<const N: usize> DicesState<N> {
    /// A tray with the given counts and modifier.
    pub fn new(state: [i32; N], constant: i32) -> (s: DicesState<N>)
        ensures
            s.dice_num == state,
            s.constant == constant,
            s@.counts == ints(state@),
            s@.modifier == constant,
    {
        DicesState { dice_num: state, constant }
    }

    /// Whether at least one kind has a non-zero count.
    pub fn valid(&self) -> (b: bool)
        ensures
            b == self@.is_valid(),
    {
        let mut i: usize = 0;
        while i < N
            invariant
                i <= N,
                forall|k: int| 0 <= k < i ==> self@.counts[k] == 0,
            decreases N - i,
        {
            if self.dice_num[i] != 0 {
                assert(self@.counts[i as int] != 0);
                return true;
            }
            i += 1;
        }
        false
    }

    /// Sets every count and the modifier to zero.
    pub fn reset(&mut self)
        ensures
            final(self)@.is_blank(),
            final(self)@.counts.len() == N,
    {
        let mut i: usize = 0;
        while i < N
            invariant
                i <= N,
                forall|k: int| 0 <= k < i ==> self.dice_num@[k] == 0,
            decreases N - i,
        {
            self.dice_num[i] = 0;
            i += 1;
        }
        self.constant = 0;
    }

    /// Sets the count of kind `kind` to `n`, held to `[0, COUNT_MAX]`.
    pub fn set_count(&mut self, kind: usize, n: i32)
        requires
            kind < N,
        ensures
            final(self)@.counts == old(self)@.counts.update(
                kind as int,
                clamped(n as int, 0, COUNT_MAX as int),
            ),
            final(self)@.modifier == old(self)@.modifier,
    {
        let held: i32 = if n < 0 {
            0
        } else if n > COUNT_MAX {
            COUNT_MAX
        } else {
            n
        };
        self.dice_num[kind] = held;
        assert(self@.counts =~= old(self)@.counts.update(
            kind as int,
            clamped(n as int, 0, COUNT_MAX as int),
        ));
    }

    /// Sets the modifier to `n`, held to `[0, COUNT_MAX]`.
    pub fn set_constant(&mut self, n: i32)
        ensures
            final(self)@.counts == old(self)@.counts,
            final(self)@.modifier == clamped(n as int, 0, COUNT_MAX as int),
    {
        self.constant = if n < 0 {
            0
        } else if n > COUNT_MAX {
            COUNT_MAX
        } else {
            n
        };
    }

    /// The heading of kind `kind` in the tray panel: the kind's term, shown
    /// even while its count is zero.
    pub fn heading(&self, kind: usize) -> (s: String)
        requires
            kind < N,
            kind < DICE_NUM,
        ensures
            s@ == die_term(self@.counts[kind as int], kind as int),
    {
        let mut s = String::new();
        proof {
            reveal_strlit("D");
        }
        push_int(&mut s, self.dice_num[kind]);
        s.append("D");
        push_int(&mut s, die_faces(kind));
        assert(s@ =~= die_term(self@.counts[kind as int], kind as int));
        s
    }

    /// The description of the tray: a term `{count}D{faces}` for every kind
    /// with a non-zero count, in canonical kind order, then the modifier if it
    /// is non-zero, all joined by `" + "`.
    pub fn gen_description(&self) -> (s: String)
        requires
            self@.supported(),
        ensures
            s@ == self@.description(),
    {
        let mut s = String::new();
        let mut plus = false;
        let ghost counts = self@.counts;
        assert(counts.take(0) =~= Seq::<int>::empty());
        let mut i: usize = 0;
        while i < N
            invariant
                i <= N,
                counts == self@.counts,
                counts.len() == N,
                self@.supported(),
                s@ == joined(dice_terms(counts.take(i as int)), plus_sign()),
                plus == (dice_terms(counts.take(i as int)).len() > 0),
            decreases N - i,
        {
            let ghost before = dice_terms(counts.take(i as int));
            proof {
                assert(counts.take(i + 1).drop_last() =~= counts.take(i as int));
                assert(counts.take(i + 1).last() == counts[i as int]);
            }
            if self.dice_num[i] != 0 {
                assert(counts[i as int] != 0);
                if plus {
                    proof {
                        reveal_strlit(" + ");
                    }
                    s.append(" + ");
                    assert(" + "@ =~= plus_sign());
                } else {
                    plus = true;
                }
                proof {
                    reveal_strlit("D");
                }
                push_int(&mut s, self.dice_num[i]);
                s.append("D");
                push_int(&mut s, die_faces(i));
                proof {
                    let term = die_term(counts[i as int], i as int);
                    lemma_joined_push(before, plus_sign(), term);
                    assert(dice_terms(counts.take(i + 1)) == before.push(term));
                    if before.len() == 0 {
                        assert(joined(before, plus_sign()) =~= Seq::<char>::empty());
                        assert(s@ =~= term);
                    } else {
                        assert(s@ =~= joined(before, plus_sign()) + plus_sign() + term);
                    }
                }
            }
            i += 1;
        }
        assert(counts.take(N as int) =~= counts);
        if self.constant != 0 {
            if plus {
                proof {
                    reveal_strlit(" + ");
                }
                s.append(" + ");
                assert(" + "@ =~= plus_sign());
            }
            let ghost before = s@;
            push_int(&mut s, self.constant);
            proof {
                let dice = dice_terms(counts);
                lemma_joined_push(dice, plus_sign(), decimal(self.constant as int));
                if dice.len() == 0 {
                    assert(joined(dice, plus_sign()) =~= Seq::<char>::empty());
                    assert(s@ =~= decimal(self.constant as int));
                }
            }
        }
        s
    }
}

/// Every die term is non-empty, and there is none only if every count is zero.
pub proof fn lemma_dice_terms(counts: Seq<int>)
    ensures
        forall|i: int| 0 <= i < dice_terms(counts).len() ==> (#[trigger] dice_terms(counts)[i]).len() > 0,
        dice_terms(counts).len() == 0 <==> forall|k: int| 0 <= k < counts.len() ==> counts[k] == 0,
    decreases counts.len(),
{
    if counts.len() > 0 {
        let fewer = counts.drop_last();
        lemma_dice_terms(fewer);
        assert forall|k: int| 0 <= k < fewer.len() implies fewer[k] == counts[k] by {}
        if counts.last() != 0 {
            assert(counts[counts.len() - 1] != 0);
        } else {
            if forall|k: int| 0 <= k < fewer.len() ==> fewer[k] == 0 {
                assert forall|k: int| 0 <= k < counts.len() implies counts[k] == 0 by {
                    if k < fewer.len() {
                        assert(fewer[k] == 0);
                    }
                }
            } else {
                let k = choose|k: int| 0 <= k < fewer.len() && fewer[k] != 0;
                assert(counts[k] != 0);
            }
        }
    }
}

/// The description is empty exactly when the tray is blank.
pub proof fn lemma_description_empty(dice: DiceView)
    ensures
        dice.description().len() == 0 <==> dice.is_blank(),
{
    lemma_dice_terms(dice.counts);
    lemma_decimal_nonempty(dice.modifier);
    let terms = dice.terms();
    assert forall|i: int| 0 <= i < terms.len() implies (#[trigger] terms[i]).len() > 0 by {
        if i < dice_terms(dice.counts).len() {
            assert(terms[i] == dice_terms(dice.counts)[i]);
        }
    }
    lemma_joined_empty(terms, plus_sign());
}

/// A blank tray is not valid: there is nothing to roll.
pub proof fn lemma_blank_not_valid(dice: DiceView)
    requires
        dice.is_blank(),
    ensures
        !dice.is_valid(),
{
}

} // verus!
