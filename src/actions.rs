use vstd::prelude::*;
use crate::text::push_char;

verus! {

/// The seven characters that the turtle understands.
pub const ACTIONS: &'static str = "Ff+-[]|";

/// `c` is one of the action characters `F f + - [ ] |`.
pub open spec fn is_action(c: char) -> bool {
    c == 'F' || c == 'f' || c == '+' || c == '-' || c == '[' || c == ']' || c == '|'
}

/// The action characters of `s`, in their order.
pub open spec fn minimized(s: Seq<char>) -> Seq<char> {
    s.filter(|c: char| is_action(c))
}

/// Executable test for an action character.
pub fn is_action_char(c: char) -> (r: bool)
    ensures
        r == is_action(c),
{
    c == 'F' || c == 'f' || c == '+' || c == '-' || c == '[' || c == ']' || c == '|'
}

/// Removes every character that is not an action character.
pub fn rules_minimize(rules: &str) -> (out: String)
    ensures
        out@ == minimized(rules@),
{
    let mut out = String::new();
    for c in it: rules.chars()
        invariant
            it.seq() == rules@,
            out@ == minimized(rules@.take(it.index() as int)),
    {
        proof {
            let i = it.index() as int;
            let s = rules@.take(i + 1);
            assert(s.drop_last() =~= rules@.take(i));
            reveal(Seq::filter);
        }
        if is_action_char(c) {
            push_char(&mut out, c);
        }
    }
    proof {
        assert(rules@.take(rules@.len() as int) =~= rules@);
    }
    out
}


/// A string made only of action characters is its own minimization.
pub proof fn lemma_minimize_keeps_actions(s: Seq<char>)
    requires
        forall|i: int| 0 <= i < s.len() ==> is_action(#[trigger] s[i]),
    ensures
        minimized(s) == s,
    decreases s.len(),
{
    reveal(Seq::filter);
    if s.len() > 0 {
        let t = s.drop_last();
        assert forall|i: int| 0 <= i < t.len() implies is_action(#[trigger] t[i]) by {
            assert(t[i] == s[i]);
        }
        lemma_minimize_keeps_actions(t);
        assert(t.push(s.last()) =~= s);
    }
}

/// Every character of a minimized string is an action character.
pub proof fn lemma_minimize_only_actions(s: Seq<char>)
    ensures
        forall|i: int| 0 <= i < minimized(s).len() ==> is_action(#[trigger] minimized(s)[i]),
{
    assert forall|i: int| 0 <= i < minimized(s).len() implies is_action(
        #[trigger] minimized(s)[i],
    ) by {
        s.lemma_filter_pred(|c: char| is_action(c), i);
    }
}

/// Minimizing twice gives what minimizing once gives.
pub proof fn lemma_minimize_idempotent(s: Seq<char>)
    ensures
        minimized(minimized(s)) == minimized(s),
{
    lemma_minimize_only_actions(s);
    lemma_minimize_keeps_actions(minimized(s));
}

} // verus!
