//! The turtle reading of an action string.
//!
//! The turtle starts at the origin, point 0, heading along the x axis.
//! Each `F` or `f` moves it one unit along its heading to a new point;
//! `+` and `-` turn it by one angle step, `|` turns it half round, `[`
//! saves its heading and point and `]` takes back the last saved ones.
//! The plan produced here records every move by point index and every
//! heading by the turns that make it up, so that the coordinates follow
//! by trigonometry alone once an angle step is chosen.
use vstd::prelude::*;
use crate::actions::{is_action, is_action_char};

verus! {

/// A heading as the turns that make it up: `left` steps of `+`, `right`
/// steps of `-` and `half_turns` turns of `|`. Its angle is
/// `(left - right) * step + half_turns * pi`.
#[derive(Clone, Copy, Debug, PartialEq, Eq, Structural)]
pub struct Heading {
    pub left: usize,
    pub right: usize,
    pub half_turns: usize,
}

/// The point with index `k + 1` lies one unit from point `from` along
/// `heading`, for the segment at position `k` of a plan.
#[derive(Clone, Copy, Debug, PartialEq, Eq, Structural)]
pub struct Segment {
    pub from: usize,
    pub heading: Heading,
}

/// A path command that goes to the point with the given index, drawing a
/// line or not.
#[derive(Clone, Copy, Debug, PartialEq, Eq, Structural)]
pub enum PathCmd {
    MoveTo(usize),
    LineTo(usize),
}

/// Why an action string could not be read.
#[derive(Clone, Copy, Debug, PartialEq, Eq, Structural)]
pub enum TurtleError {
    /// The character at this index is not an action character.
    UnknownAction { at: usize, symbol: char },
    /// The `]` at this index has no saved state to go back to.
    EmptyStack { at: usize },
}

/// The outcome of reading an action string.
pub struct Plan {
    /// How each point after the origin is reached.
    pub segments: Vec<Segment>,
    /// The path, starting with a move to the origin.
    pub cmds: Vec<PathCmd>,
    /// How many saved states were never taken back.
    pub open_branches: usize,
}

/// The turtle part way through an action string.
pub struct Walk {
    pub heading: Heading,
    pub at: usize,
    pub stack: Seq<(Heading, usize)>,
    pub segments: Seq<Segment>,
    pub cmds: Seq<PathCmd>,
}

/// The heading before any turn: along the x axis.
pub open spec fn start_heading() -> Heading {
    Heading { left: 0, right: 0, half_turns: 0 }
}

/// The turtle before any action.
pub open spec fn initial_walk() -> Walk {
    Walk {
        heading: start_heading(),
        at: 0,
        stack: Seq::empty(),
        segments: Seq::empty(),
        cmds: seq![PathCmd::MoveTo(0)],
    }
}

/// What one action does to the turtle; meaningful for an action character
/// and, for `]`, a non-empty stack.
pub open spec fn step(w: Walk, c: char) -> Walk {
    if c == 'F' || c == 'f' {
        let to = (w.segments.len() + 1) as usize;
        Walk {
            at: to,
            segments: w.segments.push(Segment { from: w.at, heading: w.heading }),
            cmds: w.cmds.push(
                if c == 'F' {
                    PathCmd::LineTo(to)
                } else {
                    PathCmd::MoveTo(to)
                },
            ),
            ..w
        }
    } else if c == '+' {
        Walk { heading: Heading { left: (w.heading.left + 1) as usize, ..w.heading }, ..w }
    } else if c == '-' {
        Walk { heading: Heading { right: (w.heading.right + 1) as usize, ..w.heading }, ..w }
    } else if c == '|' {
        Walk {
            heading: Heading { half_turns: (w.heading.half_turns + 1) as usize, ..w.heading },
            ..w
        }
    } else if c == '[' {
        Walk { stack: w.stack.push((w.heading, w.at)), ..w }
    } else {
        let (h, p) = w.stack.last();
        Walk { heading: h, at: p, stack: w.stack.drop_last(), cmds: w.cmds.push(PathCmd::MoveTo(p)), ..w }
    }
}

/// Reading `s` from the left: the turtle after the whole string, or the
/// first fault met on the way.
pub open spec fn run(s: Seq<char>) -> Result<Walk, TurtleError>
    decreases s.len(),
{
    if s.len() == 0 {
        Ok(initial_walk())
    } else {
        match run(s.drop_last()) {
            Err(e) => Err(e),
            Ok(w) => {
                let c = s.last();
                let at = (s.len() - 1) as usize;
                if !is_action(c) {
                    Err(TurtleError::UnknownAction { at, symbol: c })
                } else if c == ']' && w.stack.len() == 0 {
                    Err(TurtleError::EmptyStack { at })
                } else {
                    Ok(step(w, c))
                }
            },
        }
    }
}

/// The number of `[` less the number of `]` in `s`.
pub open spec fn depth(s: Seq<char>) -> int
    decreases s.len(),
{
    if s.len() == 0 {
        0
    } else {
        depth(s.drop_last()) + if s.last() == '[' {
            1int
        } else if s.last() == ']' {
            -1int
        } else {
            0int
        }
    }
}

/// Every `]` of `s` closes an earlier `[`, and every `[` is closed.
pub open spec fn balanced(s: Seq<char>) -> bool {
    &&& depth(s) == 0
    &&& forall|j: int| 0 <= j <= s.len() ==> depth(#[trigger] s.take(j)) >= 0
}

/// Every character of `s` is an action character.
pub open spec fn all_actions(s: Seq<char>) -> bool {
    forall|i: int| 0 <= i < s.len() ==> is_action(#[trigger] s[i])
}

/// `h` is made of at most `n` turns in all.
pub open spec fn heading_within(h: Heading, n: int) -> bool {
    h.left + h.right + h.half_turns <= n
}

/// Once reading has met a fault, reading further meets the same one.
pub proof fn lemma_run_fault_persists(s: Seq<char>, k: int)
    requires
        0 <= k <= s.len(),
        run(s.take(k)) is Err,
    ensures
        run(s) == run(s.take(k)),
    decreases s.len(),
{
    if s.len() == k {
        assert(s.take(k) =~= s);
    } else {
        assert(s.drop_last().take(k) =~= s.take(k));
        lemma_run_fault_persists(s.drop_last(), k);
    }
}

/// Reading an action string none of whose prefixes closes more brackets
/// than it opens succeeds, with as many saved states as open brackets.
pub proof fn lemma_run_prefix(s: Seq<char>, k: int)
    requires
        0 <= k <= s.len(),
        all_actions(s),
        forall|j: int| 0 <= j <= k ==> depth(#[trigger] s.take(j)) >= 0,
    ensures
        run(s.take(k)) is Ok,
        run(s.take(k))->Ok_0.stack.len() == depth(s.take(k)),
    decreases k,
{
    if k == 0 {
        assert(s.take(0) =~= Seq::<char>::empty());
    } else {
        let t = s.take(k);
        assert(t.drop_last() =~= s.take(k - 1));
        lemma_run_prefix(s, k - 1);
        assert(t.last() == s[k - 1]);
        assert(depth(t) >= 0);
    }
}

/// An action string with balanced brackets is read without a fault, and
/// every saved state is taken back by the end.
pub proof fn lemma_balanced_runs(s: Seq<char>)
    requires
        all_actions(s),
        balanced(s),
    ensures
        run(s) is Ok,
        run(s)->Ok_0.stack.len() == 0,
{
    lemma_run_prefix(s, s.len() as int);
    assert(s.take(s.len() as int) =~= s);
}

/// In an action string, the first `]` that closes no open bracket is where
/// reading stops, with the empty-stack fault.
pub proof fn lemma_unmatched_close_fails(s: Seq<char>, i: int)
    requires
        all_actions(s),
        0 <= i < s.len(),
        forall|j: int| 0 <= j <= i ==> depth(#[trigger] s.take(j)) >= 0,
        depth(s.take(i + 1)) < 0,
    ensures
        run(s) == Err::<Walk, TurtleError>(TurtleError::EmptyStack { at: i as usize }),
{
    lemma_run_prefix(s, i);
    let t = s.take(i + 1);
    assert(t.drop_last() =~= s.take(i));
    assert(t.last() == s[i]);
    lemma_run_fault_persists(s, i + 1);
}

/// A string of action characters can fail to be read only at a `]` with
/// nothing saved.
pub proof fn lemma_actions_fault_is_stack(s: Seq<char>)
    requires
        all_actions(s),
        run(s) is Err,
    ensures
        run(s)->Err_0 is EmptyStack,
    decreases s.len(),
{
    if s.len() > 0 {
        let t = s.drop_last();
        assert(all_actions(t)) by {
            assert forall|i: int| 0 <= i < t.len() implies is_action(#[trigger] t[i]) by {
                assert(t[i] == s[i]);
            }
        }
        assert(is_action(s[s.len() - 1]));
        if run(t) is Err {
            lemma_actions_fault_is_stack(t);
        }
    }
}

/// The point a path command goes to.
pub open spec fn target(c: PathCmd) -> int {
    match c {
        PathCmd::MoveTo(p) => p as int,
        PathCmd::LineTo(p) => p as int,
    }
}

/// Every point index in `w` names a point already reached: segment `k`
/// starts from a point up to `k`, and the turtle, its saved states and the
/// path commands stay within the points so far.
pub open spec fn walk_wf(w: Walk) -> bool {
    &&& w.at <= w.segments.len()
    &&& forall|k: int| 0 <= k < w.segments.len() ==> (#[trigger] w.segments[k]).from <= k
    &&& forall|k: int| 0 <= k < w.stack.len() ==> (#[trigger] w.stack[k]).1 <= w.segments.len()
    &&& forall|j: int| 0 <= j < w.cmds.len() ==> target(#[trigger] w.cmds[j]) <= w.segments.len()
}

/// A plan only refers to points that it defines: each segment starts from
/// an earlier point and each path command goes to a defined one.
pub proof fn lemma_run_points_valid(s: Seq<char>)
    requires
        run(s) is Ok,
    ensures
        walk_wf(run(s)->Ok_0),
    decreases s.len(),
{
    if s.len() == 0 {
        assert(target(initial_walk().cmds[0]) == 0);
    } else {
        let t = s.drop_last();
        lemma_run_points_valid(t);
        let w = run(t)->Ok_0;
        let n = step(w, s.last());
        assert forall|k: int| 0 <= k < n.stack.len() implies (#[trigger] n.stack[k]).1
            <= n.segments.len() by {
            if k < w.stack.len() {
                assert(n.stack[k] == w.stack[k]);
            }
        }
        assert forall|j: int| 0 <= j < n.cmds.len() implies target(#[trigger] n.cmds[j])
            <= n.segments.len() by {
            if j < w.cmds.len() {
                assert(n.cmds[j] == w.cmds[j]);
            }
        }
        assert forall|k: int| 0 <= k < n.segments.len() implies (
        #[trigger] n.segments[k]).from <= k by {
            if k < w.segments.len() {
                assert(n.segments[k] == w.segments[k]);
            }
        }
    }
}

/// Reads an action string into a plan: the segments that reach each point
/// and the path over them.
pub fn interpret(actions: &str) -> (r: Result<Plan, TurtleError>)
    ensures
        match r {
            Ok(p) => {
                &&& run(actions@) is Ok
                &&& p.segments@ == run(actions@)->Ok_0.segments
                &&& p.cmds@ == run(actions@)->Ok_0.cmds
                &&& p.open_branches == run(actions@)->Ok_0.stack.len()
            },
            Err(e) => run(actions@) == Err::<Walk, TurtleError>(e),
        },
{
    let mut heading = Heading { left: 0, right: 0, half_turns: 0 };
    let mut at: usize = 0;
    let mut stack: Vec<(Heading, usize)> = Vec::new();
    let mut segments: Vec<Segment> = Vec::new();
    let mut cmds: Vec<PathCmd> = Vec::new();
    cmds.push(PathCmd::MoveTo(0));
    let mut i: usize = 0;
    // bounds every count below by a usize
    let len = actions.unicode_len();
    proof {
        assert(actions@.take(0) =~= Seq::<char>::empty());
        assert(cmds@ =~= seq![PathCmd::MoveTo(0)]);
    }
    for c in it: actions.chars()
        invariant
            it.seq() == actions@,
            i == it.index(),
            i <= actions@.len(),
            actions@.len() == len,
            run(actions@.take(i as int)) == Ok::<Walk, TurtleError>(
                Walk { heading, at, stack: stack@, segments: segments@, cmds: cmds@ },
            ),
            heading_within(heading, i as int),
            segments@.len() <= i,
            at <= segments@.len(),
            forall|k: int|
                0 <= k < stack@.len() ==> heading_within(#[trigger] stack@[k].0, i as int)
                    && stack@[k].1 <= segments@.len(),
    {
        let ghost before = Walk { heading, at, stack: stack@, segments: segments@, cmds: cmds@ };
        proof {
            let t = actions@.take(i + 1);
            assert(t.drop_last() =~= actions@.take(i as int));
            assert(t.last() == c);
            assert(i < actions@.len());
        }
        if !is_action_char(c) {
            proof {
                lemma_run_fault_persists(actions@, i + 1);
            }
            return Err(TurtleError::UnknownAction { at: i, symbol: c });
        }
        if c == 'F' || c == 'f' {
            let to = segments.len() + 1;
            segments.push(Segment { from: at, heading });
            if c == 'F' {
                cmds.push(PathCmd::LineTo(to));
            } else {
                cmds.push(PathCmd::MoveTo(to));
            }
            at = to;
        } else if c == '+' {
            heading = Heading { left: heading.left + 1, ..heading };
        } else if c == '-' {
            heading = Heading { right: heading.right + 1, ..heading };
        } else if c == '|' {
            heading = Heading { half_turns: heading.half_turns + 1, ..heading };
        } else if c == '[' {
            stack.push((heading, at));
        } else {
            match stack.pop() {
                None => {
                    proof {
                        lemma_run_fault_persists(actions@, i + 1);
                    }
                    return Err(TurtleError::EmptyStack { at: i });
                },
                Some((h, p)) => {
                    heading = h;
                    at = p;
                    cmds.push(PathCmd::MoveTo(p));
                },
            }
        }
        proof {
            assert(Walk { heading, at, stack: stack@, segments: segments@, cmds: cmds@ } == step(
                before,
                c,
            ));
            assert forall|k: int| 0 <= k < stack@.len() implies heading_within(
                #[trigger] stack@[k].0,
                i + 1,
            ) && stack@[k].1 <= segments@.len() by {
                if k < before.stack.len() {
                    assert(stack@[k] == before.stack[k]);
                    assert(heading_within(before.stack[k].0, i as int));
                } else {
                    assert(stack@[k] == (before.heading, before.at));
                }
            }
        }
        i = i + 1;
        proof {
            assert(forall|k: int|
                0 <= k < stack@.len() ==> heading_within(#[trigger] stack@[k].0, i as int)
                    && stack@[k].1 <= segments@.len());
        }
    }
    proof {
        assert(actions@.take(actions@.len() as int) =~= actions@);
    }
    Ok(Plan { segments, cmds, open_branches: stack.len() })
}

} // verus!
