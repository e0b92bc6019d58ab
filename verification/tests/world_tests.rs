use sutra::ast::Path;
use sutra::world::{StateValue, WorldState};

fn path(keys: &[&str]) -> Path {
    Path(keys.iter().map(|k| k.to_string()).collect())
}

fn leaf(w: &WorldState<i64>, keys: &[&str]) -> Option<i64> {
    match w.get(&path(keys)) {
        Some(StateValue::Leaf(v)) => Some(*v),
        _ => None,
    }
}

#[test]
fn a_read_returns_the_last_write() {
    let mut w: WorldState<i64> = WorldState::new();
    w.set(&path(&["player", "hp"]), StateValue::Leaf(10));
    assert_eq!(leaf(&w, &["player", "hp"]), Some(10));
    w.set(&path(&["player", "hp"]), StateValue::Leaf(7));
    assert_eq!(leaf(&w, &["player", "hp"]), Some(7));
}

#[test]
fn writes_leave_other_paths_alone() {
    let mut w: WorldState<i64> = WorldState::new();
    w.set(&path(&["a", "x"]), StateValue::Leaf(1));
    w.set(&path(&["a", "y"]), StateValue::Leaf(2));
    w.set(&path(&["b"]), StateValue::Leaf(3));
    assert_eq!(leaf(&w, &["a", "x"]), Some(1));
    assert_eq!(leaf(&w, &["a", "y"]), Some(2));
    assert_eq!(leaf(&w, &["b"]), Some(3));
    assert!(w.has_path(&path(&["a"])));
    assert!(!w.has_path(&path(&["c"])));
}

#[test]
fn writing_through_a_leaf_replaces_it_by_a_map() {
    let mut w: WorldState<i64> = WorldState::new();
    w.set(&path(&["a"]), StateValue::Leaf(1));
    w.set(&path(&["a", "b"]), StateValue::Leaf(2));
    assert_eq!(leaf(&w, &["a", "b"]), Some(2));
    assert_eq!(leaf(&w, &["a"]), None);
}

#[test]
fn deleting_removes_the_value_and_empty_parents() {
    let mut w: WorldState<i64> = WorldState::new();
    w.set(&path(&["a", "b", "c"]), StateValue::Leaf(1));
    w.set(&path(&["d"]), StateValue::Leaf(4));
    w.del(&path(&["a", "b", "c"]));
    assert!(!w.has_path(&path(&["a", "b", "c"])));
    assert!(!w.has_path(&path(&["a"])));
    assert_eq!(leaf(&w, &["d"]), Some(4));
}

#[test]
fn deleting_keeps_non_empty_parents() {
    let mut w: WorldState<i64> = WorldState::new();
    w.set(&path(&["a", "x"]), StateValue::Leaf(1));
    w.set(&path(&["a", "y"]), StateValue::Leaf(2));
    w.del(&path(&["a", "x"]));
    assert!(w.has_path(&path(&["a"])));
    assert_eq!(leaf(&w, &["a", "y"]), Some(2));
    assert_eq!(leaf(&w, &["a", "x"]), None);
}

#[test]
fn empty_paths_change_nothing() {
    let mut w: WorldState<i64> = WorldState::new();
    w.set(&path(&[]), StateValue::Leaf(1));
    w.del(&path(&[]));
    assert!(w.has_path(&path(&[])));
    assert!(!w.has_path(&path(&["x"])));
}
