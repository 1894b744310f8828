//! A Lindenmayer system as a grammar, and the way from a grammar and an
//! order to a turtle plan.
use vstd::prelude::*;
use crate::actions::{minimized, rules_minimize, lemma_minimize_only_actions};
use crate::rules::{Rules, expand, generations, rules_apply_basic};
use crate::turtle::{
    Plan, TurtleError, Walk, run, all_actions, interpret, lemma_actions_fault_is_stack,
};

verus! {

/// The orders drawn when a grammar names none.
pub open spec fn default_orders() -> Seq<i32> {
    seq![1i32, 2i32, 3i32, 4i32]
}

/// The orders that a grammar draws, given the list it names.
pub open spec fn orders_or_default(order: Seq<i32>) -> Seq<i32> {
    if order.len() == 0 {
        default_orders()
    } else {
        order
    }
}

/// One curve's grammar: the axiom, the orders to draw, the rules applied
/// at each generation and the rules applied once at the end.
pub struct LSys {
    pub start: String,
    pub order: Vec<i32>,
    pub rules: Rules,
    pub post_rules: Rules,
}

impl LSys {
    /// A grammar; an empty list of orders stands for orders 1 to 4.
    pub fn new(start: String, order: Vec<i32>, rules: Rules, post_rules: Rules) -> (r: LSys)
        ensures
            r.start@ == start@,
            r.order@ == orders_or_default(order@),
            r.rules@ == rules@,
            r.post_rules@ == post_rules@,
    {
        let order = if order.len() == 0 {
            let mut d: Vec<i32> = Vec::new();
            d.push(1);
            d.push(2);
            d.push(3);
            d.push(4);
            proof {
                assert(d@ =~= default_orders());
            }
            d
        } else {
            order
        };
        LSys { start, order, rules, post_rules }
    }
}

/// The action string of a grammar at an order: the rules applied for the
/// order's generations, the post rules once, and everything but action
/// characters removed.
pub open spec fn actions_at(
    start: Seq<char>,
    rules: Map<char, Seq<char>>,
    post_rules: Map<char, Seq<char>>,
    order: i32,
) -> Seq<char> {
    minimized(expand(post_rules, expand(rules, start, generations(order)), 1))
}

/// Why a grammar could not be drawn at a requested order.
#[derive(Clone, Copy, Debug, PartialEq, Eq, Structural)]
pub enum DrawError {
    /// The grammar lists fewer orders than the index asked for.
    NoSuchOrder { index: usize },
    /// The action string could not be read.
    Turtle(TurtleError),
}

/// The action string of `lsys` at `order`.
pub fn lsys_apply_rules(lsys: &LSys, order: i32) -> (out: String)
    ensures
        out@ == actions_at(lsys.start@, lsys.rules@, lsys.post_rules@, order),
{
    let basic = rules_apply_basic(&lsys.rules, lsys.start.as_str(), order);
    let post = rules_apply_basic(&lsys.post_rules, basic.as_str(), 1);
    rules_minimize(post.as_str())
}

/// The turtle plan of `lsys` at the order listed at index `iorder`.
pub fn lsys_plan(lsys: &LSys, iorder: usize) -> (r: Result<Plan, DrawError>)
    ensures
        iorder >= lsys.order@.len() ==> r == Err::<Plan, DrawError>(
            DrawError::NoSuchOrder { index: iorder },
        ),
        iorder < lsys.order@.len() ==> {
            let s = actions_at(
                lsys.start@,
                lsys.rules@,
                lsys.post_rules@,
                lsys.order@[iorder as int],
            );
            match run(s) {
                Ok(w) => match r {
                    Ok(p) => p.segments@ == w.segments && p.cmds@ == w.cmds
                        && p.open_branches == w.stack.len(),
                    Err(_) => false,
                },
                Err(e) => r == Err::<Plan, DrawError>(DrawError::Turtle(e)),
            }
        },
        !(r matches Err(DrawError::Turtle(TurtleError::UnknownAction { .. }))),
{
    if iorder >= lsys.order.len() {
        return Err(DrawError::NoSuchOrder { index: iorder });
    }
    let actions = lsys_apply_rules(lsys, lsys.order[iorder]);
    proof {
        lemma_minimize_only_actions(
            expand(
                lsys.post_rules@,
                expand(lsys.rules@, lsys.start@, generations(lsys.order@[iorder as int])),
                1,
            ),
        );
        assert(all_actions(actions@));
    }
    match interpret(actions.as_str()) {
        Ok(p) => Ok(p),
        Err(e) => {
            proof {
                lemma_actions_fault_is_stack(actions@);
            }
            Err(DrawError::Turtle(e))
        },
    }
}

} // verus!
