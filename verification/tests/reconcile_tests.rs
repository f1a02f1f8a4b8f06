use github_secrets_manager::model::{ExistingSecret, Secret};
use github_secrets_manager::reconcile::{reconcile, SyncAction};

fn desired(name: &str, value: &str) -> Secret {
    Secret { name: name.to_string(), value: value.to_string(), status: None }
}

fn existing(name: &str) -> ExistingSecret {
    ExistingSecret {
        name: name.to_string(),
        created_at: "2024-01-01T00:00:00Z".to_string(),
        updated_at: "2024-01-02T00:00:00Z".to_string(),
    }
}

fn create_of(action: &SyncAction) -> (&String, &String) {
    match action {
        SyncAction::Create { name, value } => (name, value),
        _ => panic!("expected a create"),
    }
}

fn update_of(action: &SyncAction) -> (&String, &String) {
    match action {
        SyncAction::Update { name, value } => (name, value),
        _ => panic!("expected an update"),
    }
}

fn delete_of(action: &SyncAction) -> &String {
    match action {
        SyncAction::Delete { name } => name,
        _ => panic!("expected a delete"),
    }
}

#[test]
fn reconcile_empty_inputs_yields_no_actions() {
    let actions = reconcile(&vec![], &vec![]);
    assert!(actions.is_empty());
}

#[test]
fn reconcile_only_desired_yields_creates_in_order() {
    let d = vec![desired("A", "1"), desired("B", "2")];
    let actions = reconcile(&d, &vec![]);
    assert_eq!(actions.len(), 2);
    let (name_a, value_a) = create_of(&actions[0]);
    assert_eq!(name_a, "A");
    assert_eq!(value_a, "1");
    let (name_b, value_b) = create_of(&actions[1]);
    assert_eq!(name_b, "B");
    assert_eq!(value_b, "2");
}

#[test]
fn reconcile_only_existing_yields_deletes_in_order() {
    let e = vec![existing("X"), existing("Y")];
    let actions = reconcile(&vec![], &e);
    assert_eq!(actions.len(), 2);
    assert_eq!(delete_of(&actions[0]), "X");
    assert_eq!(delete_of(&actions[1]), "Y");
}

#[test]
fn reconcile_partitions_names_into_one_action_each() {
    let d = vec![desired("A", "1"), desired("B", "2")];
    let e = vec![existing("B"), existing("C")];
    let actions = reconcile(&d, &e);
    assert_eq!(actions.len(), 3);
    let (name_a, _) = create_of(&actions[0]);
    assert_eq!(name_a, "A");
    let (name_b, value_b) = update_of(&actions[1]);
    assert_eq!(name_b, "B");
    assert_eq!(value_b, "2");
    assert_eq!(delete_of(&actions[2]), "C");

    let creates = actions.iter().filter(|a| matches!(a, SyncAction::Create { .. })).count();
    let updates = actions.iter().filter(|a| matches!(a, SyncAction::Update { .. })).count();
    let deletes = actions.iter().filter(|a| matches!(a, SyncAction::Delete { .. })).count();
    assert_eq!(creates, 1);
    assert_eq!(updates, 1);
    assert_eq!(deletes, 1);
    for name in ["A", "B", "C"] {
        let with_name = actions
            .iter()
            .filter(|a| match a {
                SyncAction::Create { name: n, .. } => n == name,
                SyncAction::Update { name: n, .. } => n == name,
                SyncAction::Delete { name: n } => n == name,
            })
            .count();
        assert_eq!(with_name, 1);
    }
}

#[test]
fn reconcile_keeps_duplicate_desired_names_as_independent_creates() {
    let d = vec![desired("A", "1"), desired("A", "2")];
    let actions = reconcile(&d, &vec![]);
    assert_eq!(actions.len(), 2);
    let (name_first, value_first) = create_of(&actions[0]);
    assert_eq!(name_first, "A");
    assert_eq!(value_first, "1");
    let (name_second, value_second) = create_of(&actions[1]);
    assert_eq!(name_second, "A");
    assert_eq!(value_second, "2");
}

#[test]
fn reconcile_matches_names_case_sensitively() {
    let d = vec![desired("token", "1")];
    let e = vec![existing("TOKEN")];
    let actions = reconcile(&d, &e);
    assert_eq!(actions.len(), 2);
    let (name_created, _) = create_of(&actions[0]);
    assert_eq!(name_created, "token");
    assert_eq!(delete_of(&actions[1]), "TOKEN");
}

#[test]
fn reconcile_is_deterministic() {
    let d = vec![desired("A", "1"), desired("B", "2")];
    let e = vec![existing("B"), existing("C")];
    let first = reconcile(&d, &e);
    let second = reconcile(&d, &e);
    assert_eq!(first.len(), second.len());
    for (a, b) in first.iter().zip(second.iter()) {
        match (a, b) {
            (
                SyncAction::Create { name: n1, value: v1 },
                SyncAction::Create { name: n2, value: v2 },
            ) => {
                assert_eq!(n1, n2);
                assert_eq!(v1, v2);
            },
            (
                SyncAction::Update { name: n1, value: v1 },
                SyncAction::Update { name: n2, value: v2 },
            ) => {
                assert_eq!(n1, n2);
                assert_eq!(v1, v2);
            },
            (SyncAction::Delete { name: n1 }, SyncAction::Delete { name: n2 }) => {
                assert_eq!(n1, n2);
            },
            _ => panic!("the two runs disagree"),
        }
    }
}
