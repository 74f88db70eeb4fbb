//! Combining dice values: adding a number or another dice value to a
//! [`DiceValue`] merges dice sets that share sides and modifiers and sums
//! the bonuses; subtracting drops dice sets whose amount falls to zero or
//! below.

use vstd::prelude::*;

use crate::character_sheet_collection::{DiceValueView, DiceView, StaticValueType, ValueView};

verus! {

/// Whether two dice sets merge: they share the side count and the modifier
/// list.
pub open spec fn dice_matches(a: DiceView, b: DiceView) -> bool {
    a.sides == b.sides && a.modifiers == b.modifiers
}

/// The position of the first dice set in `dice` that merges with `d`, or a
/// negative number if there is none.
pub open spec fn first_match(dice: Seq<DiceView>, d: DiceView) -> int
    decreases dice.len(),
{
    if dice.len() == 0 {
        -1
    } else if dice_matches(dice[0], d) {
        0int
    } else {
        let r = first_match(dice.drop_first(), d);
        if r < 0 {
            -1
        } else {
            r + 1
        }
    }
}

/// `first_match` finds the first matching position.
pub proof fn lemma_first_match_at(dice: Seq<DiceView>, d: DiceView, i: int)
    requires
        0 <= i < dice.len(),
        dice_matches(dice[i], d),
        forall|j: int| 0 <= j < i ==> !dice_matches(#[trigger] dice[j], d),
    ensures
        first_match(dice, d) == i,
    decreases dice.len(),
{
    if i == 0 {
    } else {
        assert(!dice_matches(dice[0], d));
        let rest = dice.drop_first();
        assert(rest[i - 1] == dice[i]);
        assert(forall|j: int| 0 <= j < i - 1 ==> !dice_matches(#[trigger] rest[j], d)) by {
            assert(forall|j: int| 0 <= j < i - 1 ==> rest[j] == dice[j + 1]);
        }
        lemma_first_match_at(rest, d, i - 1);
    }
}

/// `first_match` reports absence when nothing matches.
pub proof fn lemma_first_match_none(dice: Seq<DiceView>, d: DiceView)
    requires
        forall|j: int| 0 <= j < dice.len() ==> !dice_matches(#[trigger] dice[j], d),
    ensures
        first_match(dice, d) < 0,
    decreases dice.len(),
{
    if dice.len() > 0 {
        let rest = dice.drop_first();
        assert(forall|j: int| 0 <= j < rest.len() ==> rest[j] == dice[j + 1]);
        lemma_first_match_none(rest, d);
    }
}

/// A found position is in range and matches.
pub proof fn lemma_first_match_found(dice: Seq<DiceView>, d: DiceView)
    requires
        first_match(dice, d) >= 0,
    ensures
        first_match(dice, d) < dice.len(),
        dice_matches(dice[first_match(dice, d)], d),
    decreases dice.len(),
{
    if dice.len() > 0 && !dice_matches(dice[0], d) {
        let rest = dice.drop_first();
        lemma_first_match_found(rest, d);
        assert(rest[first_match(rest, d)] == dice[first_match(dice, d)]);
    }
}

/// Merging one dice set into a collection when adding: the first matching
/// set absorbs the amount; without a match the set is appended.
pub open spec fn merge_one_add(dice: Seq<DiceView>, d: DiceView) -> Seq<DiceView> {
    let i = first_match(dice, d);
    if i < 0 {
        dice.push(d)
    } else {
        dice.update(
            i,
            DiceView {
                amount: (dice[i].amount + d.amount) as u32,
                sides: dice[i].sides,
                modifiers: dice[i].modifiers,
            },
        )
    }
}

/// Merging the first `upto` dice sets of `other` into `dice`, in order,
/// when adding.
pub open spec fn merge_all_add(dice: Seq<DiceView>, other: Seq<DiceView>, upto: int) -> Seq<
    DiceView,
>
    decreases upto,
{
    if upto <= 0 {
        dice
    } else {
        merge_one_add(merge_all_add(dice, other, upto - 1), other[upto - 1])
    }
}

/// Whether every amount produced while adding fits in a `u32`.
pub open spec fn merge_add_ok(dice: Seq<DiceView>, other: Seq<DiceView>, upto: int) -> bool
    decreases upto,
{
    if upto <= 0 {
        true
    } else {
        merge_add_ok(dice, other, upto - 1) && ({
            let acc = merge_all_add(dice, other, upto - 1);
            let i = first_match(acc, other[upto - 1]);
            i < 0 || acc[i].amount + other[upto - 1].amount <= u32::MAX
        })
    }
}

/// A merge that is in bounds for `upto` steps is in bounds for fewer.
pub proof fn lemma_merge_add_ok_prefix(dice: Seq<DiceView>, other: Seq<DiceView>, upto: int, j: int)
    requires
        merge_add_ok(dice, other, upto),
        0 <= j <= upto,
    ensures
        merge_add_ok(dice, other, j),
    decreases upto,
{
    if j < upto {
        lemma_merge_add_ok_prefix(dice, other, upto - 1, j);
    }
}

/// What adding a value to a dice value yields.
pub open spec fn dice_value_add(a: DiceValueView, b: ValueView) -> DiceValueView {
    match b {
        ValueView::Number(n) => DiceValueView { dice: a.dice, bonus: (a.bonus + n) as i32 },
        ValueView::Dice(o) => DiceValueView {
            dice: merge_all_add(a.dice, o.dice, o.dice.len() as int),
            bonus: (a.bonus + o.bonus) as i32,
        },
    }
}

/// Whether adding `b` to `a` stays within the machine bounds.
pub open spec fn dice_add_ok(a: DiceValueView, b: ValueView) -> bool {
    match b {
        ValueView::Number(n) => i32::MIN <= a.bonus + n <= i32::MAX,
        ValueView::Dice(o) => i32::MIN <= a.bonus + o.bonus <= i32::MAX && merge_add_ok(
            a.dice,
            o.dice,
            o.dice.len() as int,
        ),
    }
}

/// Merging one dice set into a collection when subtracting: the first
/// matching set loses the amount, not below zero; without a match nothing
/// changes.
pub open spec fn merge_one_minus(dice: Seq<DiceView>, d: DiceView) -> Seq<DiceView> {
    let i = first_match(dice, d);
    if i < 0 {
        dice
    } else {
        dice.update(
            i,
            DiceView {
                amount: if dice[i].amount > d.amount {
                    (dice[i].amount - d.amount) as u32
                } else {
                    0u32
                },
                sides: dice[i].sides,
                modifiers: dice[i].modifiers,
            },
        )
    }
}

/// Merging the first `upto` dice sets of `other` out of `dice`, in order.
pub open spec fn merge_all_minus(dice: Seq<DiceView>, other: Seq<DiceView>, upto: int) -> Seq<
    DiceView,
>
    decreases upto,
{
    if upto <= 0 {
        dice
    } else {
        merge_one_minus(merge_all_minus(dice, other, upto - 1), other[upto - 1])
    }
}

/// The dice sets whose amount is still positive.
pub open spec fn retain_positive(dice: Seq<DiceView>) -> Seq<DiceView>
    decreases dice.len(),
{
    if dice.len() == 0 {
        Seq::empty()
    } else {
        let rest = retain_positive(dice.drop_last());
        if dice.last().amount > 0 {
            rest.push(dice.last())
        } else {
            rest
        }
    }
}

/// What subtracting a value from a dice value yields: dice sets whose
/// amount falls to zero or below are dropped.
pub open spec fn dice_value_minus(a: DiceValueView, b: ValueView) -> DiceValueView {
    match b {
        ValueView::Number(n) => DiceValueView { dice: a.dice, bonus: (a.bonus - n) as i32 },
        ValueView::Dice(o) => DiceValueView {
            dice: retain_positive(merge_all_minus(a.dice, o.dice, o.dice.len() as int)),
            bonus: (a.bonus - o.bonus) as i32,
        },
    }
}

/// Whether subtracting `b` from `a` keeps the bonus within the machine
/// bounds.  Amounts cannot go out of bounds: they stop at zero.
pub open spec fn dice_minus_ok(a: DiceValueView, b: ValueView) -> bool {
    match b {
        ValueView::Number(n) => i32::MIN <= a.bonus - n <= i32::MAX,
        ValueView::Dice(o) => i32::MIN <= a.bonus - o.bonus <= i32::MAX,
    }
}

/// Compares two modifier lists.
fn modifiers_eq(
    a: &Vec<crate::character_sheet_collection::DiceModifier>,
    b: &Vec<crate::character_sheet_collection::DiceModifier>,
) -> (r: bool)
    ensures
        r == (a.deep_view() == b.deep_view()),
{
    if a.len() != b.len() {
        proof {
            assert(a.deep_view().len() != b.deep_view().len());
        }
        return false;
    }
    let mut i: usize = 0;
    while i < a.len()
        invariant
            i <= a@.len(),
            a@.len() == b@.len(),
            forall|j: int| 0 <= j < i ==> a.deep_view()[j] == b.deep_view()[j],
        decreases a@.len() - i,
    {
        if a[i] != b[i] {
            proof {
                assert(a.deep_view()[i as int] != b.deep_view()[i as int]);
            }
            return false;
        }
        i = i + 1;
    }
    proof {
        assert(a.deep_view() =~= b.deep_view());
    }
    true
}

/// The position of the first dice set of `dice` that merges with `other`.
fn find_match(
    dice: &Vec<crate::character_sheet_collection::Dice>,
    other: &crate::character_sheet_collection::Dice,
) -> (r: Option<usize>)
    ensures
        match r {
            Some(i) => i < dice@.len() && first_match(dice.deep_view(), other.deep_view())
                == i as int,
            None => first_match(dice.deep_view(), other.deep_view()) < 0,
        },
{
    let ghost dv = dice.deep_view();
    let ghost ov = other.deep_view();
    let mut i: usize = 0;
    while i < dice.len()
        invariant
            i <= dice@.len(),
            dv == dice.deep_view(),
            ov == other.deep_view(),
            dv.len() == dice@.len(),
            forall|j: int| 0 <= j < i ==> !dice_matches(#[trigger] dv[j], ov),
        decreases dice@.len() - i,
    {
        let candidate = &dice[i];
        proof {
            assert(candidate.deep_view() == dv[i as int]);
        }
        if candidate.sides == other.sides && modifiers_eq(&candidate.modifiers, &other.modifiers) {
            proof {
                assert(dice_matches(dv[i as int], ov));
                lemma_first_match_at(dv, ov, i as int);
            }
            return Some(i);
        }
        i = i + 1;
    }
    proof {
        lemma_first_match_none(dv, ov);
    }
    None
}

impl crate::character_sheet_collection::DiceValue {
    /// Adds a value to this dice value: a number raises the bonus; the
    /// dice of another dice value are merged into sets sharing sides and
    /// modifiers, and the bonuses are summed.
    pub fn add(&self, other: &StaticValueType) -> (res: Self)
        requires
            dice_add_ok(self.deep_view(), other.deep_view()),
        ensures
            res.deep_view() == dice_value_add(self.deep_view(), other.deep_view()),
    {
        match other {
            StaticValueType::Number(n) => {
                let res = crate::character_sheet_collection::DiceValue {
                    dice: self.dice.clone(),
                    bonus: self.bonus + *n,
                };
                proof {
                    assert(res.dice.deep_view() =~= self.dice.deep_view());
                    assert(res.deep_view() =~= dice_value_add(self.deep_view(), other.deep_view()));
                }
                res
            },
            StaticValueType::Dice(other_dice_set) => {
                let ghost sv = self.dice.deep_view();
                let ghost ov = other_dice_set.dice.deep_view();
                let ghost total = ov.len() as int;
                let mut dice = self.dice.clone();
                proof {
                    assert(dice.deep_view() =~= sv);
                    assert(dice.deep_view() =~= merge_all_add(sv, ov, 0));
                }
                let mut oi: usize = 0;
                while oi < other_dice_set.dice.len()
                    invariant
                        oi <= other_dice_set.dice@.len(),
                        sv == self.dice.deep_view(),
                        ov == other_dice_set.dice.deep_view(),
                        ov.len() == other_dice_set.dice@.len(),
                        merge_add_ok(sv, ov, ov.len() as int),
                        dice.deep_view() == merge_all_add(sv, ov, oi as int),
                    decreases other_dice_set.dice@.len() - oi,
                {
                    let other_dice = &other_dice_set.dice[oi];
                    let ghost acc = dice.deep_view();
                    proof {
                        assert(other_dice.deep_view() == ov[oi as int]);
                        lemma_merge_add_ok_prefix(sv, ov, ov.len() as int, oi + 1);
                    }
                    match find_match(&dice, other_dice) {
                        Some(i) => {
                            proof {
                                lemma_first_match_found(acc, ov[oi as int]);
                            }
                            let merged = crate::character_sheet_collection::Dice {
                                amount: dice[i].amount + other_dice.amount,
                                sides: dice[i].sides,
                                modifiers: dice[i].modifiers.clone(),
                            };
                            proof {
                                assert(dice@[i as int].deep_view() == acc[i as int]);
                                assert(merged.deep_view().modifiers =~= acc[i as int].modifiers);
                            }
                            dice.set(i, merged);
                            proof {
                                assert(dice.deep_view() =~= acc.update(
                                    i as int,
                                    merged.deep_view(),
                                ));
                                assert(merged.deep_view() =~= DiceView {
                                    amount: (acc[i as int].amount + ov[oi as int].amount) as u32,
                                    sides: acc[i as int].sides,
                                    modifiers: acc[i as int].modifiers,
                                });
                                assert(dice.deep_view() =~= merge_one_add(acc, ov[oi as int]));
                            }
                        },
                        None => {
                            let appended = other_dice.clone();
                            dice.push(appended);
                            proof {
                                assert(dice.deep_view() =~= acc.push(ov[oi as int]));
                                assert(dice.deep_view() =~= merge_one_add(acc, ov[oi as int]));
                            }
                        },
                    }
                    proof {
                        assert(dice.deep_view() == merge_all_add(sv, ov, oi + 1 as int));
                    }
                    oi = oi + 1;
                }
                proof {
                    assert(dice.deep_view() == merge_all_add(sv, ov, total));
                }
                let res = crate::character_sheet_collection::DiceValue {
                    dice,
                    bonus: self.bonus + other_dice_set.bonus,
                };
                proof {
                    assert(res.deep_view() =~= dice_value_add(self.deep_view(), other.deep_view()));
                }
                res
            },
        }
    }

    /// Subtracts a value from this dice value: a number lowers the bonus;
    /// the dice of another dice value are taken out of matching sets, and
    /// sets whose amount falls to zero or below are dropped.
    pub fn minus(&self, other: &StaticValueType) -> (res: Self)
        requires
            dice_minus_ok(self.deep_view(), other.deep_view()),
        ensures
            res.deep_view() == dice_value_minus(self.deep_view(), other.deep_view()),
    {
        match other {
            StaticValueType::Number(n) => {
                let res = crate::character_sheet_collection::DiceValue {
                    dice: self.dice.clone(),
                    bonus: self.bonus - *n,
                };
                proof {
                    assert(res.dice.deep_view() =~= self.dice.deep_view());
                    assert(res.deep_view() =~= dice_value_minus(
                        self.deep_view(),
                        other.deep_view(),
                    ));
                }
                res
            },
            StaticValueType::Dice(other_dice_set) => {
                let ghost sv = self.dice.deep_view();
                let ghost ov = other_dice_set.dice.deep_view();
                let ghost total = ov.len() as int;
                let mut dice = self.dice.clone();
                proof {
                    assert(dice.deep_view() =~= sv);
                    assert(dice.deep_view() =~= merge_all_minus(sv, ov, 0));
                }
                let mut oi: usize = 0;
                while oi < other_dice_set.dice.len()
                    invariant
                        oi <= other_dice_set.dice@.len(),
                        sv == self.dice.deep_view(),
                        ov == other_dice_set.dice.deep_view(),
                        ov.len() == other_dice_set.dice@.len(),
                        dice.deep_view() == merge_all_minus(sv, ov, oi as int),
                    decreases other_dice_set.dice@.len() - oi,
                {
                    let other_dice = &other_dice_set.dice[oi];
                    let ghost acc = dice.deep_view();
                    proof {
                        assert(other_dice.deep_view() == ov[oi as int]);
                    }
                    match find_match(&dice, other_dice) {
                        Some(i) => {
                            proof {
                                lemma_first_match_found(acc, ov[oi as int]);
                            }
                            let new_amount = if dice[i].amount > other_dice.amount {
                                dice[i].amount - other_dice.amount
                            } else {
                                0
                            };
                            let merged = crate::character_sheet_collection::Dice {
                                amount: new_amount,
                                sides: dice[i].sides,
                                modifiers: dice[i].modifiers.clone(),
                            };
                            proof {
                                assert(dice@[i as int].deep_view() == acc[i as int]);
                                assert(merged.deep_view().modifiers =~= acc[i as int].modifiers);
                            }
                            dice.set(i, merged);
                            proof {
                                assert(dice.deep_view() =~= acc.update(
                                    i as int,
                                    merged.deep_view(),
                                ));
                                assert(dice.deep_view() =~= merge_one_minus(acc, ov[oi as int]));
                            }
                        },
                        None => {
                            proof {
                                assert(dice.deep_view() =~= merge_one_minus(acc, ov[oi as int]));
                            }
                        },
                    }
                    proof {
                        assert(dice.deep_view() == merge_all_minus(sv, ov, oi + 1 as int));
                    }
                    oi = oi + 1;
                }
                let ghost merged_all = dice.deep_view();
                proof {
                    assert(merged_all == merge_all_minus(sv, ov, total));
                }
                let mut kept: Vec<crate::character_sheet_collection::Dice> = Vec::new();
                proof {
                    assert(kept.deep_view() =~= retain_positive(merged_all.subrange(0, 0)));
                }
                let mut ki: usize = 0;
                while ki < dice.len()
                    invariant
                        ki <= dice@.len(),
                        merged_all == dice.deep_view(),
                        merged_all.len() == dice@.len(),
                        kept.deep_view() == retain_positive(merged_all.subrange(0, ki as int)),
                    decreases dice@.len() - ki,
                {
                    let ghost prefix2 = merged_all.subrange(0, ki + 1 as int);
                    proof {
                        assert(prefix2.drop_last() =~= merged_all.subrange(0, ki as int));
                        assert(prefix2.last() == merged_all[ki as int]);
                        assert(dice@[ki as int].deep_view() == merged_all[ki as int]);
                    }
                    if dice[ki].amount > 0 {
                        let ghost kept_before = kept.deep_view();
                        let kept_dice = dice[ki].clone();
                        kept.push(kept_dice);
                        proof {
                            assert(kept.deep_view() =~= kept_before.push(merged_all[ki as int]));
                            assert(kept.deep_view() =~= retain_positive(prefix2));
                        }
                    } else {
                        proof {
                            assert(kept.deep_view() =~= retain_positive(prefix2));
                        }
                    }
                    ki = ki + 1;
                }
                proof {
                    assert(merged_all.subrange(0, merged_all.len() as int) =~= merged_all);
                }
                let res = crate::character_sheet_collection::DiceValue {
                    dice: kept,
                    bonus: self.bonus - other_dice_set.bonus,
                };
                proof {
                    assert(res.deep_view() =~= dice_value_minus(
                        self.deep_view(),
                        other.deep_view(),
                    ));
                }
                res
            },
        }
    }
}

} // verus!
