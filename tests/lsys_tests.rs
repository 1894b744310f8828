use lsys::actions::{rules_minimize, ACTIONS};
use lsys::chunks::{json_to_chunks, split_lines};
use lsys::grammar::{lsys_apply_rules, lsys_plan, DrawError, LSys};
use lsys::rules::{rewrite, rules_apply_basic, Rules};
use lsys::turtle::{interpret, Heading, PathCmd, Segment, TurtleError};

fn rules_of(pairs: &[(char, &str)]) -> Rules {
    let mut rules = Rules::new();
    for (k, v) in pairs {
        rules.insert(*k, v.to_string());
    }
    rules
}

#[test]
fn test_rules_apply_basic() {
    let rules = rules_of(&[('A', "AB"), ('B', "A")]);
    let start: &str = "A";

    assert_eq!(rules_apply_basic(&rules, start, 0), "A");
    assert_eq!(rules_apply_basic(&rules, start, 1), "AB");
    assert_eq!(rules_apply_basic(&rules, start, 2), "ABA");
    assert_eq!(rules_apply_basic(&rules, start, 3), "ABAAB");
    assert_eq!(rules_apply_basic(&rules, start, 4), "ABAABABA");
}

#[test]
fn test_rules_minimize() {
    assert_eq!(rules_minimize("ABCD"), "");
    assert_eq!(rules_minimize(ACTIONS), ACTIONS);
    assert_eq!(rules_minimize("AFBfC+D-E[G]H|I"), ACTIONS);
}

#[test]
fn order_zero_returns_start() {
    let rules = rules_of(&[('F', "F+F")]);
    assert_eq!(rules_apply_basic(&rules, "F-X", 0), "F-X");
    assert_eq!(rules_apply_basic(&Rules::new(), "XYZ", 0), "XYZ");
}

#[test]
fn negative_order_returns_start() {
    let rules = rules_of(&[('A', "AB")]);
    assert_eq!(rules_apply_basic(&rules, "A", -3), "A");
}

#[test]
fn repeated_expansion_is_identical() {
    let rules = rules_of(&[('X', "-YF+XFX+FY-"), ('Y', "+XF-YFY-FX+")]);
    let a = rules_apply_basic(&rules, "X", 3);
    let b = rules_apply_basic(&rules, "X", 3);
    assert_eq!(a, b);
    assert_eq!(a.chars().count(), 211);
}

#[test]
fn rewrite_keeps_unknown_symbols() {
    let rules = rules_of(&[('a', "bc")]);
    assert_eq!(rewrite(&rules, "xay"), "xbcy");
    assert_eq!(rewrite(&rules, ""), "");
}

#[test]
fn later_insert_replaces_rule() {
    let mut rules = rules_of(&[('A', "B")]);
    rules.insert('A', "CC".to_string());
    assert_eq!(rules.get('A').map(|s| s.as_str()), Some("CC"));
    assert_eq!(rules.get('Z'), None);
    assert_eq!(rules_apply_basic(&rules, "AA", 1), "CCCC");
}

#[test]
fn minimize_is_idempotent() {
    let once = rules_minimize("aF+bq[x]-|zf");
    assert_eq!(once, "F+[]-|f");
    assert_eq!(rules_minimize(&once), once);
    assert_eq!(rules_minimize(""), "");
}

#[test]
fn minimize_keeps_multibyte_free_actions() {
    assert_eq!(rules_minimize("é[F]ß"), "[F]");
}

#[test]
fn interpret_line_and_turns() {
    let plan = interpret("F+F").ok().unwrap();
    let h0 = Heading { left: 0, right: 0, half_turns: 0 };
    let h1 = Heading { left: 1, right: 0, half_turns: 0 };
    assert_eq!(
        plan.segments,
        vec![Segment { from: 0, heading: h0 }, Segment { from: 1, heading: h1 }]
    );
    assert_eq!(plan.cmds, vec![PathCmd::MoveTo(0), PathCmd::LineTo(1), PathCmd::LineTo(2)]);
    assert_eq!(plan.open_branches, 0);
}

#[test]
fn interpret_branch_jumps_back() {
    let plan = interpret("F[-F]|f").ok().unwrap();
    assert_eq!(
        plan.cmds,
        vec![
            PathCmd::MoveTo(0),
            PathCmd::LineTo(1),
            PathCmd::LineTo(2),
            PathCmd::MoveTo(1),
            PathCmd::MoveTo(3),
        ]
    );
    assert_eq!(plan.segments[1].from, 1);
    assert_eq!(plan.segments[1].heading, Heading { left: 0, right: 1, half_turns: 0 });
    assert_eq!(plan.segments[2].from, 1);
    assert_eq!(plan.segments[2].heading, Heading { left: 0, right: 0, half_turns: 1 });
    assert_eq!(plan.open_branches, 0);
}

#[test]
fn balanced_brackets_close_every_branch() {
    let plan = interpret("[F[+F]-F][F]").ok().unwrap();
    assert_eq!(plan.open_branches, 0);
    let open = interpret("[[F]").ok().unwrap();
    assert_eq!(open.open_branches, 1);
}

#[test]
fn unmatched_close_fails_at_its_index() {
    assert_eq!(interpret("F[F]]F").err(), Some(TurtleError::EmptyStack { at: 4 }));
    assert_eq!(interpret("]").err(), Some(TurtleError::EmptyStack { at: 0 }));
}

#[test]
fn unknown_action_fails_at_its_index() {
    assert_eq!(
        interpret("F+X]").err(),
        Some(TurtleError::UnknownAction { at: 2, symbol: 'X' })
    );
}

#[test]
fn no_forward_moves_gives_only_the_origin() {
    let plan = interpret("+-").ok().unwrap();
    assert!(plan.segments.is_empty());
    assert_eq!(plan.cmds, vec![PathCmd::MoveTo(0)]);
    let empty = interpret("").ok().unwrap();
    assert_eq!(empty.cmds, vec![PathCmd::MoveTo(0)]);
}

#[test]
fn grammar_defaults_orders() {
    let lsys = LSys::new("F".to_string(), vec![], Rules::new(), Rules::new());
    assert_eq!(lsys.order, vec![1, 2, 3, 4]);
    let named = LSys::new("F".to_string(), vec![2, 5], Rules::new(), Rules::new());
    assert_eq!(named.order, vec![2, 5]);
}

#[test]
fn apply_rules_uses_post_rules_then_minimizes() {
    let rules = rules_of(&[('A', "A+B"), ('B', "A")]);
    let post = rules_of(&[('A', "F"), ('B', "G[F]")]);
    let lsys = LSys::new("A".to_string(), vec![1], rules, post);
    // order 1: A+B, post: F+G[F], minimized: F+[F]
    assert_eq!(lsys_apply_rules(&lsys, 1), "F+[F]");
    assert_eq!(lsys_apply_rules(&lsys, 0), "F");
}

#[test]
fn plan_rejects_missing_order() {
    let lsys = LSys::new("F".to_string(), vec![1], Rules::new(), Rules::new());
    assert_eq!(lsys_plan(&lsys, 1).err(), Some(DrawError::NoSuchOrder { index: 1 }));
    assert!(lsys_plan(&lsys, 0).is_ok());
}

#[test]
fn plan_reports_unbalanced_grammar() {
    let rules = rules_of(&[('F', "F]")]);
    let lsys = LSys::new("F".to_string(), vec![1], rules, Rules::new());
    assert_eq!(
        lsys_plan(&lsys, 0).err(),
        Some(DrawError::Turtle(TurtleError::EmptyStack { at: 1 }))
    );
}

#[test]
fn koch_plan_counts_segments() {
    let rules = rules_of(&[('F', "F+F--F+F")]);
    let lsys = LSys::new("+F--F--F".to_string(), vec![], rules, Rules::new());
    let plan = lsys_plan(&lsys, 1).ok().unwrap();
    // order 2: 3 * 4^2 forward moves
    assert_eq!(plan.segments.len(), 48);
    assert_eq!(plan.cmds.len(), 49);
}

#[test]
fn split_lines_follows_line_endings() {
    assert_eq!(split_lines("a\nb"), vec!["a", "b"]);
    assert_eq!(split_lines("a\r\nb\n"), vec!["a", "b"]);
    assert_eq!(split_lines("\n\nx"), vec!["", "", "x"]);
    assert_eq!(split_lines("x\r"), vec!["x\r"]);
    assert!(split_lines("").is_empty());
}

#[test]
fn chunks_of_two_objects() {
    let text = "{\n  \"a\": 1\n}\n\njunk\n{\n\"b\": 2\n}\n";
    assert_eq!(json_to_chunks(text), vec!["{\n  \"a\": 1\n}\n", "{\n\"b\": 2\n}\n"]);
}

#[test]
fn chunks_allow_trailing_white_space() {
    let text = "{ \t\n x\n}\u{3000}\r\n";
    assert_eq!(json_to_chunks(text), vec!["{ \t\n x\n}\u{3000}\n"]);
}

#[test]
fn chunks_need_a_lone_brace() {
    assert!(json_to_chunks(" {\nx\n}\n").is_empty());
    assert!(json_to_chunks("{x\n}\n").is_empty());
}

#[test]
fn chunks_restart_at_new_open_brace() {
    let text = "{\nlost\n{\nkept\n}\n";
    assert_eq!(json_to_chunks(text), vec!["{\nkept\n}\n"]);
    assert!(json_to_chunks("{\nnever closed\n").is_empty());
}

use lsys::doc::{doc, doc_new, DocAct, DocError, DocState, Emit};

#[test]
fn document_runs_through_two_pages() {
    let mut ds = doc_new();
    assert_eq!(doc(&mut ds, DocAct::Open), Ok(Emit::DocHead));
    assert_eq!(
        doc(&mut ds, DocAct::PageStart),
        Ok(Emit::PageHead { separator: false, page_no: 1 })
    );
    assert_eq!(
        doc(&mut ds, DocAct::AddFragment),
        Ok(Emit::FragmentHead { page_no: 1, frag_no: 1 })
    );
    assert_eq!(
        doc(&mut ds, DocAct::AddFragment),
        Ok(Emit::FragmentHead { page_no: 1, frag_no: 2 })
    );
    assert_eq!(doc(&mut ds, DocAct::PageEnd), Ok(Emit::PageFoot { page_no: 1 }));
    assert_eq!(
        doc(&mut ds, DocAct::PageStart),
        Ok(Emit::PageHead { separator: true, page_no: 2 })
    );
    assert_eq!(
        doc(&mut ds, DocAct::AddFragment),
        Ok(Emit::FragmentHead { page_no: 2, frag_no: 1 })
    );
    assert_eq!(doc(&mut ds, DocAct::PageEnd), Ok(Emit::PageFoot { page_no: 2 }));
    assert_eq!(doc(&mut ds, DocAct::Close), Ok(Emit::DocFoot));
    assert!(ds.closed);
}

#[test]
fn document_refuses_misplaced_actions() {
    let mut ds = doc_new();
    assert_eq!(
        doc(&mut ds, DocAct::PageStart),
        Err(DocError::Misplaced { act: DocAct::PageStart })
    );
    assert_eq!(ds, doc_new());
    doc(&mut ds, DocAct::Open).unwrap();
    assert_eq!(doc(&mut ds, DocAct::Close), Err(DocError::Misplaced { act: DocAct::Close }));
    doc(&mut ds, DocAct::PageStart).unwrap();
    assert_eq!(
        doc(&mut ds, DocAct::PageEnd),
        Err(DocError::Misplaced { act: DocAct::PageEnd })
    );
    doc(&mut ds, DocAct::AddFragment).unwrap();
    doc(&mut ds, DocAct::PageEnd).unwrap();
    doc(&mut ds, DocAct::Close).unwrap();
    for act in [DocAct::Open, DocAct::PageStart, DocAct::AddFragment, DocAct::PageEnd, DocAct::Close] {
        assert_eq!(doc(&mut ds, act), Err(DocError::Misplaced { act }));
    }
}

#[test]
fn document_page_number_cannot_overflow() {
    let mut ds = DocState { indoc: true, inpage: false, page_no: usize::MAX, frag_no: 0, closed: false };
    let before = ds;
    assert_eq!(doc(&mut ds, DocAct::PageStart), Err(DocError::TooMany));
    assert_eq!(ds, before);
}
