use diet_manager::catalog::FoodCatalog;
use diet_manager::database::Database;
use diet_manager::history::UndoManager;
use diet_manager::models::BasicFood;

fn state(n: u64) -> Database {
    let mut db = Database::new();
    let mut c = FoodCatalog::new();
    for i in 0..n {
        c.add_basic_food(BasicFood {
            id: format!("food{}", i),
            name: format!("food{}", i),
            keywords: vec![],
            calories_per_serving: i,
        })
        .unwrap();
    }
    db.foods = c;
    db
}

fn food_count(db: &Database) -> usize {
    db.foods.len()
}

#[test]
fn record_then_undo_restores_previous_state() {
    let mut h = UndoManager::new(10);
    h.initialize(state(0));
    assert!(!h.can_undo());
    h.record_action(state(1), "Add food0");
    assert!(h.can_undo());
    let (db, what) = h.undo().unwrap();
    assert_eq!(food_count(&db), 0);
    assert_eq!(what, "Add food0");
    assert!(!h.can_undo());
}

#[test]
fn undo_with_nothing_recorded() {
    let mut h = UndoManager::new(3);
    assert!(h.undo().is_none());
    h.initialize(state(0));
    assert!(h.undo().is_none());
    assert_eq!(h.last_action_description(), None);
}

#[test]
fn capacity_evicts_oldest_snapshot() {
    let cap: usize = 3;
    let mut h = UndoManager::new(cap);
    h.initialize(state(0));
    for i in 1..=(cap as u64 + 1) {
        h.record_action(state(i), &format!("step {}", i));
        assert!(h.history.len() <= cap);
        assert_eq!(h.current_index, h.history.len() - 1);
    }
    assert_eq!(h.history.len(), cap);
    assert_eq!(h.history[0].1, "step 2");
    assert_eq!(h.last_action_description(), Some("step 4".to_string()));
    let mut undone = 0;
    while let Some(_) = h.undo() {
        undone += 1;
    }
    assert_eq!(undone, cap - 1);
    assert_eq!(h.current_index, 0);
    assert!(h.undo().is_none());
    assert_eq!(h.current_index, 0);
}

#[test]
fn new_action_discards_redo_branch() {
    let mut h = UndoManager::new(10);
    h.initialize(state(0));
    h.record_action(state(1), "one");
    h.record_action(state(2), "two");
    h.undo().unwrap();
    assert!(h.can_redo());
    h.record_action(state(5), "five");
    assert!(!h.can_redo());
    assert_eq!(h.history.len(), 3);
    let (db, what) = h.undo().unwrap();
    assert_eq!(what, "five");
    assert_eq!(food_count(&db), 1);
}

#[test]
fn redo_mirrors_undo() {
    let mut h = UndoManager::new(10);
    h.initialize(state(0));
    h.record_action(state(1), "one");
    assert!(h.redo().is_none());
    h.undo().unwrap();
    let (db, what) = h.redo().unwrap();
    assert_eq!(what, "one");
    assert_eq!(food_count(&db), 1);
    assert!(h.redo().is_none());
}

#[test]
fn clear_forgets_everything() {
    let mut h = UndoManager::new(4);
    h.initialize(state(0));
    h.record_action(state(1), "one");
    h.clear();
    assert!(h.history.is_empty());
    assert!(!h.can_undo());
}

#[test]
fn snapshot_is_independent_of_live_state() {
    let mut h = UndoManager::new(4);
    let mut live = state(1);
    h.initialize(live.clone());
    live.foods.add_basic_food(BasicFood { id: "x".to_string(), name: "x".to_string(), keywords: vec![], calories_per_serving: 1 }).unwrap();
    h.record_action(live.clone(), "add x");
    let (db, _) = h.undo().unwrap();
    assert_eq!(food_count(&db), 1);
    assert_eq!(food_count(&live), 2);
}
