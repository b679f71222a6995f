use marty::error::MartyError;
use marty::marty::{classify_input, jump_target, traverse, History, Motion, ReplInput};

fn internal(r: &Result<String, MartyError>) -> String {
    match r {
        Err(MartyError::Internal(m)) => m.clone(),
        other => panic!("expected an internal error, got {:?}", other),
    }
}

#[test]
fn test_traverse_up() {
    let current = "/tmp/marty_up".to_string();
    let mut history = History::default();
    let t = traverse("^", current.clone(), false, &mut history);
    assert_eq!(t.outcome.unwrap(), "/tmp");
    assert_eq!(history.backward, vec![current]);
    assert!(history.forward.is_empty());
}

#[test]
fn test_traverse_back() {
    let parent = "/tmp".to_string();
    let current = "/tmp/marty_back".to_string();
    let mut history = History::default();
    history.backward.push(parent.clone());
    let t = traverse("<", current.clone(), false, &mut history);
    assert_eq!(t.outcome.unwrap(), parent);
    assert!(history.backward.is_empty());
    assert_eq!(history.forward, vec![current]);
}

#[test]
fn test_traverse_forward() {
    let current = "/tmp/marty_fwd".to_string();
    let forward_path = "/tmp/marty_fwd/forward".to_string();
    let mut history = History::default();
    history.forward.push(forward_path.clone());
    let t = traverse(">", current.clone(), false, &mut history);
    assert_eq!(t.outcome.unwrap(), forward_path);
    assert_eq!(history.backward, vec![current]);
}

#[test]
fn test_traverse_invalid() {
    let mut history = History::default();
    let t = traverse("x", "/tmp".to_string(), false, &mut history);
    assert_eq!(internal(&t.outcome), "Unrecognized traversal character 'x'");
    assert!(t.steps.is_empty());
}

#[test]
fn test_traverse_subdir() {
    let current = "/tmp/marty_sub".to_string();
    let subdir = "/tmp/marty_sub/subdir".to_string();
    let mut history = History::default();
    history.forward.push("/elsewhere".to_string());
    assert_eq!(jump_target("{subdir}", &current), Some(subdir.clone()));
    let t = traverse("{subdir}", current.clone(), true, &mut history);
    assert_eq!(t.outcome.unwrap(), subdir);
    assert_eq!(history.backward, vec![current.clone()]);
    assert!(history.forward.is_empty());
    assert_eq!(t.steps.len(), 1);
    assert_eq!(t.steps[0].motion, Motion::Jump);
    assert_eq!(t.steps[0].trail, vec![current, subdir]);
}

#[test]
fn subdir_that_does_not_exist_is_refused() {
    let mut history = History::default();
    let t = traverse("  {nope}  ", "/tmp".to_string(), false, &mut history);
    assert_eq!(internal(&t.outcome), "Target subdirectory 'nope' does not exist");
    assert!(history.backward.is_empty());
}

#[test]
fn back_without_history_is_refused() {
    let mut history = History::default();
    let t = traverse("<", "/tmp".to_string(), false, &mut history);
    assert_eq!(internal(&t.outcome), "No previous directory in history to go back to");
    assert_eq!(t.steps.len(), 1);
    assert_eq!(t.steps[0].reached, None);
}

#[test]
fn forward_without_history_is_refused() {
    let mut history = History::default();
    let t = traverse(">>", "/tmp".to_string(), false, &mut history);
    assert_eq!(internal(&t.outcome), "No forward directory in history to go to");
    assert_eq!(t.steps[0].count, 2);
}

#[test]
fn up_from_root_is_refused() {
    let mut history = History::default();
    let t = traverse("^", "/".to_string(), false, &mut history);
    assert_eq!(internal(&t.outcome), "No parent directory exists");
    assert!(history.backward.is_empty());
}

#[test]
fn moves_before_a_refusal_stay_made() {
    let mut history = History::default();
    history.backward.push("/a".to_string());
    let t = traverse("<<", "/a/b".to_string(), false, &mut history);
    assert!(t.outcome.is_err());
    assert!(history.backward.is_empty());
    assert_eq!(history.forward, vec!["/a/b".to_string()]);
}

#[test]
fn groups_run_in_order_until_an_unknown_character() {
    let mut history = History::default();
    let t = traverse("^^x", "/a/b/c".to_string(), false, &mut history);
    assert_eq!(internal(&t.outcome), "Unrecognized traversal character 'x'");
    assert_eq!(t.steps.len(), 1);
    assert_eq!(t.steps[0].motion, Motion::Up);
    assert_eq!(t.steps[0].count, 2);
    assert_eq!(t.steps[0].reached, Some("/a".to_string()));
    assert_eq!(history.backward, vec!["/a/b/c".to_string(), "/a/b".to_string()]);
}

#[test]
fn back_then_forward_returns() {
    let mut history = History::default();
    history.backward.push("/one".to_string());
    history.backward.push("/two".to_string());
    let t = traverse("<<", "/three".to_string(), false, &mut history);
    let there = t.outcome.unwrap();
    assert_eq!(there, "/one");
    let t2 = traverse(">>", there, false, &mut history);
    assert_eq!(t2.outcome.unwrap(), "/three");
    assert_eq!(history.backward, vec!["/one".to_string(), "/two".to_string()]);
    assert!(history.forward.is_empty());
}

#[test]
fn up_then_back_returns() {
    let mut history = History::default();
    let up = traverse("^", "/x/y".to_string(), false, &mut history).outcome.unwrap();
    assert_eq!(up, "/x");
    let back = traverse("<", up, false, &mut history).outcome.unwrap();
    assert_eq!(back, "/x/y");
    assert!(history.backward.is_empty());
    assert_eq!(history.forward, vec!["/x".to_string()]);
}

#[test]
fn breadcrumb_keeps_five_behind() {
    let mut history = History::default();
    let t = traverse("^^^^^^", "/a/b/c/d/e/f/g".to_string(), false, &mut history);
    assert_eq!(t.outcome.unwrap(), "/a");
    assert_eq!(history.backward.len(), 6);
    assert_eq!(
        t.steps[0].trail,
        vec!["/a/b/c/d/e/f", "/a/b/c/d/e", "/a/b/c/d", "/a/b/c", "/a/b", "/a"]
    );
}

#[test]
fn empty_command_stays() {
    let mut history = History::default();
    let t = traverse("   ", "/tmp".to_string(), false, &mut history);
    assert_eq!(t.outcome.unwrap(), "/tmp");
    assert!(t.steps.is_empty());
}

#[test]
fn starting_history_holds_the_start() {
    let h = History::starting_at("/home".to_string());
    assert_eq!(h.backward, vec!["/home".to_string()]);
    assert!(h.forward.is_empty());
}

#[test]
fn jump_target_only_for_braces() {
    assert_eq!(jump_target("<", "/tmp"), None);
    assert_eq!(jump_target("{", "/tmp"), None);
    assert_eq!(jump_target(" {a b} ", "/tmp"), Some("/tmp/a b".to_string()));
}

#[test]
fn prompt_lines_are_classified() {
    assert!(matches!(classify_input("   "), ReplInput::Empty));
    assert!(matches!(classify_input(" ExIt "), ReplInput::Exit));
    match classify_input("  ^^ ") {
        ReplInput::Command(c) => assert_eq!(c, "^^"),
        other => panic!("unexpected {:?}", other),
    }
    assert!(matches!(classify_input("exits"), ReplInput::Command(_)));
}

#[test]
fn jump_then_back_returns() {
    let mut history = History::default();
    history.backward.push("/earlier".to_string());
    let there = traverse("{kid}", "/p".to_string(), true, &mut history).outcome.unwrap();
    assert_eq!(there, "/p/kid");
    let back = traverse("<", there, false, &mut history).outcome.unwrap();
    assert_eq!(back, "/p");
    assert_eq!(history.backward, vec!["/earlier".to_string()]);
    assert_eq!(history.forward, vec!["/p/kid".to_string()]);
}
