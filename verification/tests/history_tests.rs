use rcad::history::{Action, Command, History, Transaction, DocumentMemento};
use rcad::ids::FeatureId;

fn set_param(name: &str, value: Vec<u8>) -> Command {
    Command::new(
        Action::SetParameter { name: name.to_string(), value },
        Action::RemoveParameter { name: name.to_string() },
    )
}

#[test]
fn test_history_basic() {
    let mut history = History::new();

    assert!(!history.can_undo());
    assert!(!history.can_redo());

    history.begin_transaction("Test Action");
    history.add_command(set_param("test", vec![1, 2, 3]));
    history.commit_transaction();

    assert!(history.can_undo());
    assert!(!history.can_redo());
    assert_eq!(history.undo_name(), Some("Test Action"));
}

#[test]
fn test_undo_redo() {
    let mut history = History::new();

    history.begin_transaction("Action 1");
    history.add_command(Command::add_feature(FeatureId::new(), vec![1]));
    history.commit_transaction();

    history.begin_transaction("Action 2");
    history.add_command(Command::add_feature(FeatureId::new(), vec![2]));
    history.commit_transaction();

    assert_eq!(history.undo_count(), 2);
    assert_eq!(history.redo_count(), 0);

    let undone = history.pop_undo();
    assert!(undone.is_some());
    assert_eq!(undone.unwrap().name, "Action 2");
    assert_eq!(history.undo_count(), 1);
    assert_eq!(history.redo_count(), 1);

    let redone = history.pop_redo();
    assert!(redone.is_some());
    assert_eq!(redone.unwrap().name, "Action 2");
    assert_eq!(history.undo_count(), 2);
    assert_eq!(history.redo_count(), 0);
}

#[test]
fn test_clear_redo_on_new_action() {
    let mut history = History::new();

    history.begin_transaction("Action 1");
    history.add_command(Command::add_feature(FeatureId::new(), vec![1]));
    history.commit_transaction();

    history.pop_undo();

    history.begin_transaction("Action 2");
    history.add_command(Command::add_feature(FeatureId::new(), vec![2]));
    history.commit_transaction();

    assert_eq!(history.redo_count(), 0);
}

#[test]
fn command_outside_transaction_is_committed_as_auto() {
    let mut history = History::new();
    history.add_command(set_param("x", vec![9]));
    assert_eq!(history.undo_count(), 1);
    assert_eq!(history.undo_name(), Some("Auto"));
}

#[test]
fn nested_begin_keeps_outer_name() {
    let mut history = History::new();
    history.begin_transaction("Outer");
    history.begin_transaction("Inner");
    history.add_command(set_param("a", vec![1]));
    history.add_command(set_param("b", vec![2]));
    history.commit_transaction();
    assert_eq!(history.undo_count(), 1);
    assert_eq!(history.undo_name(), Some("Outer"));
    let t = history.pop_undo().unwrap();
    assert_eq!(t.commands.len(), 2);
}

#[test]
fn empty_transaction_is_not_recorded() {
    let mut history = History::new();
    history.begin_transaction("Nothing");
    history.commit_transaction();
    assert!(!history.can_undo());
    history.commit_transaction();
    assert!(!history.can_undo());
}

#[test]
fn cancel_discards_open_transaction() {
    let mut history = History::new();
    history.begin_transaction("Dropped");
    history.add_command(set_param("a", vec![1]));
    history.cancel_transaction();
    history.commit_transaction();
    assert!(!history.can_undo());
    assert_eq!(history.undo_name(), None);
}

#[test]
fn history_keeps_at_most_max_steps() {
    let mut history = History::new();
    for i in 0..105u8 {
        history.begin_transaction(&format!("Step {}", i));
        history.add_command(set_param("p", vec![i]));
        history.commit_transaction();
    }
    assert_eq!(history.undo_count(), rcad::history::MAX_HISTORY_SIZE);
    assert_eq!(history.undo_name(), Some("Step 104"));
    let entries = history.undo_entries();
    assert_eq!(entries.len(), 100);
    assert_eq!(entries[0].transaction.name, "Step 104");
    assert_eq!(entries[99].transaction.name, "Step 5");
    assert_eq!(entries[0].id, 105);
    assert_eq!(entries[99].id, 6);
}

#[test]
fn undo_then_redo_restores_entries() {
    let mut history = History::new();
    history.begin_transaction("A");
    history.add_command(set_param("a", vec![1]));
    history.commit_transaction();
    history.begin_transaction("B");
    history.add_command(set_param("b", vec![2]));
    history.commit_transaction();
    let before: Vec<(u64, String)> =
        history.undo_entries().iter().map(|e| (e.id, e.transaction.name.clone())).collect();
    assert!(history.pop_undo().is_some());
    assert_eq!(history.redo_name(), Some("B"));
    assert!(history.pop_redo().is_some());
    let after: Vec<(u64, String)> =
        history.undo_entries().iter().map(|e| (e.id, e.transaction.name.clone())).collect();
    assert_eq!(before, after);
    assert!(history.pop_redo().is_none());
}

#[test]
fn redo_entries_list_next_first() {
    let mut history = History::new();
    for name in ["A", "B", "C"] {
        history.begin_transaction(name);
        history.add_command(set_param(name, vec![0]));
        history.commit_transaction();
    }
    history.pop_undo();
    history.pop_undo();
    let redo = history.redo_entries();
    assert_eq!(redo.len(), 2);
    assert_eq!(redo[0].transaction.name, "B");
    assert_eq!(redo[1].transaction.name, "C");
}

#[test]
fn clear_keeps_numbering() {
    let mut history = History::new();
    history.add_command(set_param("a", vec![1]));
    history.clear();
    assert!(!history.can_undo());
    history.add_command(set_param("b", vec![2]));
    assert_eq!(history.undo_entries()[0].id, 2);
}

#[test]
fn set_parameter_reverse_depends_on_old_value() {
    let with_old = Command::set_parameter("w".to_string(), Some(vec![1]), vec![2]);
    match with_old.reverse {
        Action::SetParameter { name, value } => {
            assert_eq!(name, "w");
            assert_eq!(value, vec![1]);
        }
        _ => panic!("expected SetParameter"),
    }
    let without_old = Command::set_parameter("w".to_string(), None, vec![2]);
    assert!(matches!(without_old.reverse, Action::RemoveParameter { .. }));
    assert!(matches!(without_old.action, Action::SetParameter { .. }));
}

#[test]
fn command_constructors_pair_reverse_actions() {
    let id = FeatureId(7);
    let add = Command::add_feature(id, vec![5]);
    assert!(matches!(add.reverse, Action::RemoveFeature { id: FeatureId(7) }));
    let remove = Command::remove_feature(id, vec![5]);
    match remove.reverse {
        Action::AddFeature { id, data } => {
            assert_eq!(id, FeatureId(7));
            assert_eq!(data, vec![5]);
        }
        _ => panic!("expected AddFeature"),
    }
    let modify = Command::modify_feature(id, vec![1], vec![2]);
    match (modify.action, modify.reverse) {
        (Action::ModifyFeature { data: new, .. }, Action::ModifyFeature { data: old, .. }) => {
            assert_eq!(new, vec![2]);
            assert_eq!(old, vec![1]);
        }
        _ => panic!("expected ModifyFeature"),
    }
}

#[test]
fn transaction_collects_commands() {
    let mut t = Transaction::new("T");
    assert!(t.is_empty());
    t.add_command(set_param("a", vec![1]));
    assert!(!t.is_empty());
    assert_eq!(t.name, "T");
    let batch = Action::Batch { actions: vec![Action::RemoveParameter { name: "a".to_string() }] };
    let copy = batch.clone();
    assert!(matches!(copy, Action::Batch { ref actions } if actions.len() == 1));
}

#[test]
fn memento_keeps_data_and_description() {
    let m = DocumentMemento::new(vec![1, 2], "snapshot");
    assert_eq!(m.data, vec![1, 2]);
    assert_eq!(m.description, "snapshot");
    assert!(m.timestamp > 1_600_000_000);
    let fixed = DocumentMemento::with_timestamp(vec![3], "at", 42);
    assert_eq!(fixed.timestamp, 42);
}
