//! The eval command: evaluates its arguments as an expression with the
//! `eval` crate.
//!
//! The crate panics on some expressions (a remainder by zero, a number
//! above `i64::MAX` in a subtraction, unbalanced brackets, non-ASCII text,
//! among others), and no short statement separates those from the rest.
//! The library therefore evaluates only plain integer arithmetic, a class
//! on which the crate always returns, and reports every other expression
//! as not evaluated here.

use vstd::prelude::*;
use crate::text::{chars_of, join, join_spec, views};
use crate::plugins::EvalPlugin;

verus! {

/// What the `eval` crate gives for the expression `expr`: `Ok` with the
/// text of its value, or `Err` with the description of its error.
pub uninterp spec fn evaluation(expr: Seq<char>) -> Result<Seq<char>, Seq<char>>;

/// Whether `c` is an ASCII decimal digit.
pub open spec fn ascii_digit(c: char) -> bool {
    '0' <= c <= '9'
}

/// Whether `c` is one of the operators `+`, `-` and `*`.
pub open spec fn arithmetic_operator(c: char) -> bool {
    c == '+' || c == '-' || c == '*'
}

/// Where reading `s` as numbers joined by operators, with spaces anywhere
/// between them, has got to: 0 when a number is expected next, 1 inside a
/// number, 2 after a number and spaces, -1 when `s` does not have that
/// shape.
pub open spec fn arithmetic_state(s: Seq<char>) -> int
    decreases s.len(),
{
    if s.len() == 0 {
        0
    } else {
        let st = arithmetic_state(s.drop_last());
        let c = s.last();
        if st == -1 {
            -1
        } else if c == ' ' {
            if st == 1 {
                2
            } else {
                st
            }
        } else if ascii_digit(c) {
            if st == 0 || st == 1 {
                1
            } else {
                -1
            }
        } else if arithmetic_operator(c) {
            if st == 0 {
                -1
            } else {
                0
            }
        } else {
            -1
        }
    }
}

/// How many ASCII digits `s` holds.
pub open spec fn digit_count(s: Seq<char>) -> nat
    decreases s.len(),
{
    if s.len() == 0 {
        0
    } else {
        digit_count(s.drop_last()) + if ascii_digit(s.last()) {
            1nat
        } else {
            0nat
        }
    }
}

/// Plain integer arithmetic: unsigned decimal numbers joined by `+`, `-`
/// and `*`, with spaces around them, at most 18 digits in all, so that
/// every value on the way stays below 10^18 in size.
pub open spec fn plain_arithmetic(s: Seq<char>) -> bool {
    (arithmetic_state(s) == 1 || arithmetic_state(s) == 2) && digit_count(s) <= 18
}

/// Whether `s` is plain integer arithmetic.
pub fn is_plain_arithmetic(s: &str) -> (r: bool)
    ensures
        r == plain_arithmetic(s@),
{
    let cs = chars_of(s);
    let mut st: i8 = 0;
    let mut digits: usize = 0;
    let mut i: usize = 0;
    assert(cs@.take(0) =~= Seq::<char>::empty());
    while i < cs.len()
        invariant
            cs@ == s@,
            i <= cs.len(),
            st as int == arithmetic_state(cs@.take(i as int)),
            digits as nat == digit_count(cs@.take(i as int)),
            digits <= i,
        decreases cs.len() - i,
    {
        let c = cs[i];
        let ghost t = cs@.take(i + 1);
        assert(t.drop_last() =~= cs@.take(i as int));
        assert(t.last() == c);
        if st == -1 {
        } else if c == ' ' {
            if st == 1 {
                st = 2;
            }
        } else if '0' <= c && c <= '9' {
            if st == 0 || st == 1 {
                st = 1;
            } else {
                st = -1;
            }
        } else if c == '+' || c == '-' || c == '*' {
            if st == 0 {
                st = -1;
            } else {
                st = 0;
            }
        } else {
            st = -1;
        }
        if '0' <= c && c <= '9' {
            digits = digits + 1;
        }
        i += 1;
    }
    assert(cs@.take(cs.len() as int) =~= cs@);
    (st == 1 || st == 2) && digits <= 18
}

/// Calls `eval::eval` on plain integer arithmetic and writes the value with
/// `eval::to_value(..).to_string()`, or the error's `description()`. On
/// such an expression the crate parses a tree of `+`, `-` and `*` over
/// numbers that fit in `i64` and computes it in `i64` without overflow, so
/// it returns; on other expressions it can panic, which the `requires`
/// leaves out. The contract names the result `evaluation` of the
/// expression's characters; the evaluation itself is not stated.
#[verifier::external_body]
#[allow(deprecated)]
pub(crate) fn evaluate(expr: &str) -> (r: Result<String, String>)
    requires
        plain_arithmetic(expr@),
    ensures
        match r {
            Ok(v) => evaluation(expr@) == Ok::<Seq<char>, Seq<char>>(v@),
            Err(e) => evaluation(expr@) == Err::<Seq<char>, Seq<char>>(e@),
        },
{
    match eval::eval(expr) {
        Ok(val) => Ok(eval::to_value(val).to_string()),
        Err(why) => Err(std::error::Error::description(&why).to_string()),
    }
}

/// The characters of an evaluation outcome.
pub open spec fn outcome_view(outcome: Result<String, String>) -> Result<Seq<char>, Seq<char>> {
    match outcome {
        Ok(v) => Ok(v@),
        Err(e) => Err(e@),
    }
}

/// The answer for an expression whose evaluation gave `outcome`: the value
/// after `expression = ` when `with_expression` holds, else the value
/// alone; or the error's description.
pub open spec fn answer_spec(
    expr: Seq<char>,
    outcome: Result<Seq<char>, Seq<char>>,
    with_expression: bool,
) -> Seq<char> {
    match outcome {
        Ok(v) => if with_expression {
            expr + " = "@ + v
        } else {
            v
        },
        Err(e) => e,
    }
}

/// The answer of the eval command: `expression = value`, or the error's
/// description.
pub open spec fn eval_reply(expr: Seq<char>) -> Seq<char> {
    answer_spec(expr, evaluation(expr), true)
}

/// The answer of the stand-alone eval plugin: the value alone, or the
/// error's description.
pub open spec fn value_reply(expr: Seq<char>) -> Seq<char> {
    answer_spec(expr, evaluation(expr), false)
}

/// The answer for an expression whose evaluation gave `outcome`.
pub fn eval_answer(expr: &str, outcome: Result<String, String>, with_expression: bool) -> (r: String)
    ensures
        r@ == answer_spec(expr@, outcome_view(outcome), with_expression),
{
    match outcome {
        Ok(v) => if with_expression {
            let mut out = String::from_str(expr);
            out.append(" = ");
            out.append(v.as_str());
            out
        } else {
            v
        },
        Err(e) => e,
    }
}

impl EvalPlugin {
    /// The expression the eval command evaluates: the arguments joined by
    /// spaces.
    pub fn expression(&self, arguments: &Vec<String>) -> (r: String)
        ensures
            r@ == join_spec(views(arguments@), " "@),
    {
        join(arguments, " ")
    }

    /// Evaluates the arguments, joined by spaces, when they are plain
    /// integer arithmetic; `None` for any other expression.
    pub fn execute(&self, arguments: &Vec<String>) -> (r: Option<String>)
        ensures
            ({
                let text = join_spec(views(arguments@), " "@);
                &&& plain_arithmetic(text) ==> (r matches Some(a) && a@ == eval_reply(text))
                &&& !plain_arithmetic(text) ==> r is None
            }),
    {
        let text = join(arguments, " ");
        if !is_plain_arithmetic(text.as_str()) {
            return None;
        }
        let outcome = evaluate(text.as_str());
        Some(eval_answer(text.as_str(), outcome, true))
    }

    /// The answer of the eval command for its arguments, joined by spaces,
    /// when evaluating that expression gave `outcome`: `expression =
    /// value`, or the error's description.
    pub fn answer(&self, arguments: &Vec<String>, outcome: Result<String, String>) -> (r: String)
        ensures
            r@ == answer_spec(join_spec(views(arguments@), " "@), outcome_view(outcome), true),
    {
        let text = join(arguments, " ");
        eval_answer(text.as_str(), outcome, true)
    }
}

/// The answer of the stand-alone eval plugin for its arguments, joined by
/// spaces, when they are plain integer arithmetic: the value alone, or the
/// error's description; `None` for any other expression.
pub fn evaluate_arguments(arguments: &Vec<String>) -> (r: Option<String>)
    ensures
        ({
            let text = join_spec(views(arguments@), " "@);
            &&& plain_arithmetic(text) ==> (r matches Some(a) && a@ == value_reply(text))
            &&& !plain_arithmetic(text) ==> r is None
        }),
{
    let text = join(arguments, " ");
    if !is_plain_arithmetic(text.as_str()) {
        return None;
    }
    let outcome = evaluate(text.as_str());
    Some(eval_answer(text.as_str(), outcome, false))
}

} // verus!
