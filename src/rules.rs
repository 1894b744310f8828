use vstd::prelude::*;
use crate::text::push_char;

verus! {

/// The map that a list of rule entries stands for: a later entry for a
/// symbol shadows an earlier one.
pub open spec fn entries_map(s: Seq<(char, String)>) -> Map<char, Seq<char>>
    decreases s.len(),
{
    if s.len() == 0 {
        Map::empty()
    } else {
        entries_map(s.drop_last()).insert(s.last().0, s.last().1@)
    }
}

/// Production rules: each symbol maps to its replacement.
pub struct Rules {
    entries: Vec<(char, String)>,
}

impl View for Rules {
    type V = Map<char, Seq<char>>;

    closed spec fn view(&self) -> Map<char, Seq<char>> {
        entries_map(self.entries@)
    }
}

impl Rules {
    /// A rule set with no rules.
    pub fn new() -> (r: Rules)
        ensures
            r@ == Map::<char, Seq<char>>::empty(),
    {
        Rules { entries: Vec::new() }
    }

    /// Sets the replacement of `symbol` to `replacement`.
    pub fn insert(&mut self, symbol: char, replacement: String)
        ensures
            final(self)@ == old(self)@.insert(symbol, replacement@),
    {
        let ghost before = self.entries@;
        self.entries.push((symbol, replacement));
        proof {
            assert(self.entries@.drop_last() =~= before);
        }
    }

    /// The replacement of `symbol`, if it has a rule.
    pub fn get(&self, symbol: char) -> (r: Option<&String>)
        ensures
            match r {
                Some(v) => self@.contains_key(symbol) && v@ == self@[symbol],
                None => !self@.contains_key(symbol),
            },
    {
        let mut i: usize = self.entries.len();
        proof {
            assert(self.entries@.take(i as int) =~= self.entries@);
        }
        while i > 0
            invariant
                i <= self.entries@.len(),
                entries_map(self.entries@.take(i as int)).contains_key(symbol)
                    == self@.contains_key(symbol),
                entries_map(self.entries@.take(i as int)).contains_key(symbol) ==>
                    entries_map(self.entries@.take(i as int))[symbol] == self@[symbol],
            decreases i,
        {
            proof {
                let t = self.entries@.take(i as int);
                assert(t.drop_last() =~= self.entries@.take(i - 1));
            }
            if self.entries[i - 1].0 == symbol {
                return Some(&self.entries[i - 1].1);
            }
            i = i - 1;
        }
        proof {
            assert(self.entries@.take(0) =~= Seq::<(char, String)>::empty());
        }
        None
    }
}

/// What one symbol becomes in a rewriting step.
pub open spec fn image(rules: Map<char, Seq<char>>, c: char) -> Seq<char> {
    if rules.contains_key(c) {
        rules[c]
    } else {
        seq![c]
    }
}

/// One generation: every symbol of `s` replaced by its image, in order.
pub open spec fn rewrite_once(rules: Map<char, Seq<char>>, s: Seq<char>) -> Seq<char>
    decreases s.len(),
{
    if s.len() == 0 {
        Seq::empty()
    } else {
        rewrite_once(rules, s.drop_last()) + image(rules, s.last())
    }
}

/// `n` generations of rewriting from `start`.
pub open spec fn expand(rules: Map<char, Seq<char>>, start: Seq<char>, n: nat) -> Seq<char>
    decreases n,
{
    if n == 0 {
        start
    } else {
        rewrite_once(rules, expand(rules, start, (n - 1) as nat))
    }
}

/// The number of generations that an order asks for: a negative order
/// asks for none.
pub open spec fn generations(order: i32) -> nat {
    if order <= 0 {
        0
    } else {
        order as nat
    }
}

/// One generation of rewriting.
pub fn rewrite(rules: &Rules, s: &str) -> (out: String)
    ensures
        out@ == rewrite_once(rules@, s@),
{
    let mut out = String::new();
    for c in it: s.chars()
        invariant
            it.seq() == s@,
            out@ == rewrite_once(rules@, s@.take(it.index() as int)),
    {
        proof {
            let i = it.index() as int;
            assert(s@.take(i + 1).drop_last() =~= s@.take(i));
        }
        match rules.get(c) {
            Some(r) => out.append(r.as_str()),
            None => push_char(&mut out, c),
        }
        proof {
            let i = it.index() as int;
            assert(s@.take(i + 1).last() == c);
        }
    }
    proof {
        assert(s@.take(s@.len() as int) =~= s@);
    }
    out
}

/// Rewrites `start` for `order` generations (none when `order` is not
/// positive).
pub fn rules_apply_basic(rules: &Rules, start: &str, order: i32) -> (out: String)
    ensures
        out@ == expand(rules@, start@, generations(order)),
{
    let n: i32 = if order < 0 { 0 } else { order };
    let mut cur = String::from_str(start);
    let mut k: i32 = 0;
    while k < n
        invariant
            0 <= k <= n,
            n as nat == generations(order),
            cur@ == expand(rules@, start@, k as nat),
        decreases n - k,
    {
        cur = rewrite(rules, cur.as_str());
        k = k + 1;
    }
    cur
}


/// Order zero gives back the start, whatever the rules.
pub proof fn lemma_expand_order_zero(rules: Map<char, Seq<char>>, start: Seq<char>)
    ensures
        expand(rules, start, 0) == start,
{
}

/// Expansion depends on the rules, the start and the order alone: two
/// results for the same three agree.
pub proof fn lemma_expand_deterministic(
    rules: Map<char, Seq<char>>,
    start: Seq<char>,
    n: nat,
    first: Seq<char>,
    second: Seq<char>,
)
    requires
        first == expand(rules, start, n),
        second == expand(rules, start, n),
    ensures
        first == second,
{
}

} // verus!
