//! The standard calculator functions.  Only addition is implemented; the
//! other arithmetic functions report themselves as unimplemented, as the
//! calculator does not use them yet.

use vstd::prelude::*;
use vstd::string::StringExecFns;

use crate::character_sheet::{CalculatedValue, CalculatorError, FunctionArgs};
use crate::character_sheet_collection::{StaticValueType, ValueView};
use crate::dice_arith::{dice_add_ok, dice_value_add};

verus! {

/// One step of summing values: numbers add; a dice value absorbs the other
/// operand by dice addition.
pub open spec fn value_add_step(acc: ValueView, v: ValueView) -> ValueView {
    match (acc, v) {
        (ValueView::Number(x), ValueView::Number(y)) => ValueView::Number((x + y) as i32),
        (ValueView::Dice(x), y) => ValueView::Dice(dice_value_add(x, y)),
        (x, ValueView::Dice(y)) => ValueView::Dice(dice_value_add(y, x)),
    }
}

/// Whether one summing step stays within the machine bounds.
pub open spec fn value_add_step_ok(acc: ValueView, v: ValueView) -> bool {
    match (acc, v) {
        (ValueView::Number(x), ValueView::Number(y)) => i32::MIN <= x + y <= i32::MAX,
        (ValueView::Dice(x), y) => dice_add_ok(x, y),
        (x, ValueView::Dice(y)) => dice_add_ok(y, x),
    }
}

/// The sum of the first `i` arguments, starting from the number zero.
pub open spec fn values_sum_upto(args: Seq<ValueView>, i: int) -> ValueView
    decreases i,
{
    if i <= 0 {
        ValueView::Number(0)
    } else {
        value_add_step(values_sum_upto(args, i - 1), args[i - 1])
    }
}

/// Whether every summing step stays within the machine bounds.
pub open spec fn values_sum_ok(args: Seq<ValueView>, i: int) -> bool
    decreases i,
{
    if i <= 0 {
        true
    } else {
        values_sum_ok(args, i - 1) && value_add_step_ok(values_sum_upto(args, i - 1), args[i - 1])
    }
}

/// Sums the arguments: numbers add, dice values merge.
pub fn add(args: FunctionArgs) -> (r: Result<StaticValueType, CalculatorError>)
    requires
        values_sum_ok(args.deep_view(), args.deep_view().len() as int),
    ensures
        r matches Ok(v) && v.deep_view() == values_sum_upto(
            args.deep_view(),
            args.deep_view().len() as int,
        ),
{
    let ghost argv = args.deep_view();
    let mut acc = StaticValueType::Number(0);
    let mut i: usize = 0;
    while i < args.len()
        invariant
            i <= args@.len(),
            argv == args.deep_view(),
            argv.len() == args@.len(),
            values_sum_ok(argv, argv.len() as int),
            acc.deep_view() == values_sum_upto(argv, i as int),
        decreases args@.len() - i,
    {
        let arg = &args[i];
        proof {
            assert(arg.deep_view() == argv[i as int]);
            lemma_values_sum_ok_prefix(argv, argv.len() as int, i + 1 as int);
        }
        acc = match (&acc, arg) {
            (StaticValueType::Number(x), StaticValueType::Number(y)) => {
                StaticValueType::Number(*x + *y)
            },
            (StaticValueType::Dice(x), y) => StaticValueType::Dice(x.add(y)),
            (StaticValueType::Number(x), StaticValueType::Dice(y)) => {
                let operand = StaticValueType::Number(*x);
                StaticValueType::Dice(y.add(&operand))
            },
        };
        i = i + 1;
    }
    proof {
        assert(acc.deep_view() == values_sum_upto(argv, argv.len() as int));
    }
    Ok(acc)
}

/// Every prefix of an in-bounds sum is in bounds.
proof fn lemma_values_sum_ok_prefix(args: Seq<ValueView>, n: int, j: int)
    requires
        values_sum_ok(args, n),
        0 <= j <= n,
    ensures
        values_sum_ok(args, j),
    decreases n,
{
    if j < n {
        lemma_values_sum_ok_prefix(args, n - 1, j);
    }
}

/// Subtraction of calculated values is not implemented yet.
pub fn substract(args: Vec<CalculatedValue>) -> (r: Result<StaticValueType, CalculatorError>)
    ensures
        r matches Err(e) && e.internal_message@ == "unimplemented function 'add'"@
            && e.public_message@ == "unimplemented function 'add'"@,
{
    Err(CalculatorError::new_public(String::from_str("unimplemented function 'add'")))
}

/// Division of calculated values is not implemented yet.
pub fn divide(args: Vec<CalculatedValue>) -> (r: Result<StaticValueType, CalculatorError>)
    ensures
        r matches Err(e) && e.internal_message@ == "unimplemented function 'add'"@
            && e.public_message@ == "unimplemented function 'add'"@,
{
    Err(CalculatorError::new_public(String::from_str("unimplemented function 'add'")))
}

/// Multiplication of calculated values is not implemented yet.
pub fn multiply(args: Vec<CalculatedValue>) -> (r: Result<StaticValueType, CalculatorError>)
    ensures
        r matches Err(e) && e.internal_message@ == "unimplemented function 'add'"@
            && e.public_message@ == "unimplemented function 'add'"@,
{
    Err(CalculatorError::new_public(String::from_str("unimplemented function 'add'")))
}

} // verus!
