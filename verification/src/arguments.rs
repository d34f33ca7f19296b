use vstd::prelude::*;
use crate::decimal::{parse_i32, parsed_i32};
use crate::generation_rule::GenerationRule;
use crate::simple_step_range::SimpleStepRange;

verus! {

/// Why a command line was not understood.
#[derive(Clone, Copy, Debug, PartialEq, Eq, Structural)]
pub enum ArgumentError {
    /// The number of arguments is not that of a size, a fill percentage and
    /// one or more rules of three numbers each.
    Usage,
    /// The argument at this position is not an `i32` written in base ten.
    NotAnInteger(usize),
}

/// The number of arguments, the program's name included, that stands for
/// two sizes, a fill percentage and at least one rule of three numbers.
pub open spec fn has_usage(count: int) -> bool {
    count >= 6 && (count - 4) % 3 == 0
}

/// The number that the argument at a position denotes, if it denotes one.
pub open spec fn argument(args: Seq<String>, position: int) -> Option<i32> {
    parsed_i32(args[position]@)
}

/// The position of the first argument after the program's name that
/// denotes no number.
pub open spec fn is_first_bad(args: Seq<String>, position: int) -> bool {
    &&& 1 <= position < args.len()
    &&& argument(args, position) is None
    &&& forall|j: int| 1 <= j < position ==> (#[trigger] argument(args, j)) is Some
}

/// Every argument after the program's name denotes a number.
pub open spec fn all_numbers(args: Seq<String>) -> bool {
    forall|j: int| 1 <= j < args.len() ==> (#[trigger] argument(args, j)) is Some
}

/// The rules are those that the arguments spell out, one for each group of
/// three after the first four arguments, in the same order.
pub open spec fn spells_rules(args: Seq<String>, rules: Seq<GenerationRule>) -> bool {
    &&& rules.len() == (args.len() - 4) / 3
    &&& forall|k: int| 0 <= k < rules.len() ==> #[trigger] rules[k] == rule_at(args, k)
}

/// The rule that the arguments spell out as their `k`-th group of three.
pub open spec fn rule_at(args: Seq<String>, k: int) -> GenerationRule {
    GenerationRule {
        rule_1: argument(args, 4 + 3 * k).unwrap(),
        rule_2: argument(args, 5 + 3 * k).unwrap(),
        times_to_apply: argument(args, 6 + 3 * k).unwrap(),
    }
}

/// Turns the outcome of reading one argument into the number read, or into
/// the error that names the argument's position.
pub fn process_argument_result(position: usize, result: Option<i32>) -> (number: Result<
    i32,
    ArgumentError,
>)
    ensures
        number == match result {
            Some(n) => Ok::<i32, ArgumentError>(n),
            None => Err(ArgumentError::NotAnInteger(position)),
        },
{
    match result {
        Some(n) => Ok(n),
        None => Err(ArgumentError::NotAnInteger(position)),
    }
}

/// Reads a command line: the program's name, then `x_size`, `y_size` and
/// the fill percentage, then the rules, three numbers each. Returns the
/// three numbers and the rules in the order given. The count of arguments
/// is checked first; then the arguments are read from left to right, and
/// the first that is no number is reported.
pub fn process_args(args: &[String]) -> (result: Result<
    (i32, i32, i32, Vec<GenerationRule>),
    ArgumentError,
>)
    ensures
        match result {
            Ok((x_size, y_size, fill_percent, rules)) => has_usage(args@.len() as int)
                && all_numbers(args@)
                && argument(args@, 1) == Some(x_size)
                && argument(args@, 2) == Some(y_size)
                && argument(args@, 3) == Some(fill_percent)
                && spells_rules(args@, rules@),
            Err(ArgumentError::Usage) => !has_usage(args@.len() as int),
            Err(ArgumentError::NotAnInteger(position)) => has_usage(args@.len() as int)
                && is_first_bad(args@, position as int),
        },
{
    if args.len() < 6 || (args.len() - 4) % 3 != 0 {
        return Err(ArgumentError::Usage);
    }
    let arg1 = match process_argument_result(1, parse_i32(args[1].as_str())) {
        Ok(n) => n,
        Err(error) => {
            return Err(error);
        },
    };
    let arg2 = match process_argument_result(2, parse_i32(args[2].as_str())) {
        Ok(n) => n,
        Err(error) => {
            return Err(error);
        },
    };
    let arg3 = match process_argument_result(3, parse_i32(args[3].as_str())) {
        Ok(n) => n,
        Err(error) => {
            return Err(error);
        },
    };
    let mut rules: Vec<GenerationRule> = Vec::new();
    let mut range = SimpleStepRange::new(4, args.len(), 3);
    loop
        invariant
            has_usage(args@.len() as int),
            range.end() == args@.len(),
            range.step() == 3,
            4 <= range.start() <= args@.len(),
            (range.start() - 4) % 3 == 0,
            rules@.len() == (range.start() - 4) / 3,
            argument(args@, 1) == Some(arg1),
            argument(args@, 2) == Some(arg2),
            argument(args@, 3) == Some(arg3),
            forall|j: int| 1 <= j < range.start() ==> (#[trigger] argument(args@, j)) is Some,
            forall|k: int| 0 <= k < rules@.len() ==> #[trigger] rules@[k] == rule_at(args@, k),
        ensures
            range.start() == args@.len(),
        decreases args@.len() - range.start(),
    {
        let z = match range.next() {
            Some(z) => z,
            None => {
                break;
            },
        };
        let a1 = match process_argument_result(z, parse_i32(args[z].as_str())) {
            Ok(n) => n,
            Err(error) => {
                return Err(error);
            },
        };
        let a2 = match process_argument_result(z + 1, parse_i32(args[z + 1].as_str())) {
            Ok(n) => n,
            Err(error) => {
                return Err(error);
            },
        };
        let a3 = match process_argument_result(z + 2, parse_i32(args[z + 2].as_str())) {
            Ok(n) => n,
            Err(error) => {
                return Err(error);
            },
        };
        let ghost k = rules@.len() as int;
        let ghost known = rules@;
        let rule = GenerationRule::new(a1, a2, a3);
        rules.push(rule);
        proof {
            assert(z == 4 + 3 * k);
            assert(rule == rule_at(args@, k));
            assert forall|m: int| 0 <= m < rules@.len() implies #[trigger] rules@[m] == rule_at(
                args@,
                m,
            ) by {
                if m < k {
                    assert(rules@[m] == known[m]);
                }
            }
        }
    }
    Ok((arg1, arg2, arg3, rules))
}

} // verus!
