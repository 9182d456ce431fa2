use herdr_smart_nav::json::Json;
use herdr_smart_nav::strip::{strip_pick, Pick};

fn entry(number: Option<u64>, id_key: &str, id: &str, focused: Option<bool>) -> Json {
    let mut members = Vec::new();
    if let Some(n) = number {
        members.push(("number".to_string(), Json::Number(Some(n))));
    }
    members.push((id_key.to_string(), Json::Str(id.to_string())));
    if let Some(f) = focused {
        members.push(("focused".to_string(), Json::Bool(f)));
    }
    Json::Object(members)
}

fn tab(number: u64, id: &str, focused: bool) -> Json {
    entry(Some(number), "tab_id", id, Some(focused))
}

fn space(number: u64, id: &str, focused: bool) -> Json {
    entry(Some(number), "workspace_id", id, Some(focused))
}

fn tabs() -> Vec<Json> {
    vec![tab(1, "w:t1", false), tab(2, "w:t2", true), tab(3, "w:t3", false)]
}

fn id_of(p: Pick) -> Option<String> {
    match p {
        Pick::Id(id) => Some(id),
        _ => None,
    }
}

#[test]
fn strip_middle_steps() {
    let t = tabs();
    assert!(matches!(strip_pick(&t, "tab_id", 1, false), Pick::Id(id) if id == "w:t3"));
    assert!(matches!(strip_pick(&t, "tab_id", -1, false), Pick::Id(id) if id == "w:t1"));
}

#[test]
fn strip_edges_do_not_wrap() {
    let last = vec![tab(1, "w:t1", false), tab(2, "w:t2", true)];
    assert!(matches!(strip_pick(&last, "tab_id", 1, false), Pick::End));
    let first = vec![tab(1, "w:t1", true), tab(2, "w:t2", false)];
    assert!(matches!(strip_pick(&first, "tab_id", -1, false), Pick::End));
}

#[test]
fn strip_wrap_spaces() {
    let ws = vec![space(1, "a", true), space(2, "b", false)];
    assert!(matches!(strip_pick(&ws, "workspace_id", -1, true), Pick::Id(id) if id == "b"));
    assert!(matches!(strip_pick(&ws, "workspace_id", 1, true), Pick::Id(id) if id == "b"));
}

#[test]
fn strip_wrap_from_last() {
    let ws = vec![space(1, "a", false), space(2, "b", true)];
    assert!(matches!(strip_pick(&ws, "workspace_id", 1, true), Pick::Id(id) if id == "a"));
}

#[test]
fn strip_no_focused_is_miss() {
    let t = vec![tab(1, "w:t1", false)];
    assert!(matches!(strip_pick(&t, "tab_id", 1, false), Pick::Miss));
    let empty: Vec<Json> = vec![];
    assert!(matches!(strip_pick(&empty, "tab_id", 1, true), Pick::Miss));
}

#[test]
fn strip_orders_by_number_not_list_position() {
    let t = vec![tab(3, "c", false), tab(1, "a", false), tab(2, "b", true)];
    assert_eq!(id_of(strip_pick(&t, "tab_id", 1, false)), Some("c".to_string()));
    assert_eq!(id_of(strip_pick(&t, "tab_id", -1, false)), Some("a".to_string()));
}

#[test]
fn strip_equal_numbers_keep_list_order() {
    let t = vec![tab(5, "x", false), tab(5, "y", true), tab(5, "z", false)];
    assert_eq!(id_of(strip_pick(&t, "tab_id", 1, false)), Some("z".to_string()));
    assert_eq!(id_of(strip_pick(&t, "tab_id", -1, false)), Some("x".to_string()));
    let unnumbered = vec![
        entry(None, "tab_id", "late", Some(false)),
        tab(0, "zero", true),
        entry(None, "tab_id", "later", Some(false)),
    ];
    assert_eq!(id_of(strip_pick(&unnumbered, "tab_id", -1, false)), Some("late".to_string()));
    assert_eq!(id_of(strip_pick(&unnumbered, "tab_id", 1, false)), Some("later".to_string()));
}

#[test]
fn strip_first_focused_in_order_wins() {
    let t = vec![tab(2, "b", true), tab(1, "a", true), tab(3, "c", false)];
    assert_eq!(id_of(strip_pick(&t, "tab_id", 1, false)), Some("b".to_string()));
}

#[test]
fn strip_missing_focus_mark_is_unfocused() {
    let t = vec![entry(Some(1), "tab_id", "a", None), tab(2, "b", true)];
    assert!(matches!(strip_pick(&t, "tab_id", -1, false), Pick::Id(id) if id == "a"));
}

#[test]
fn strip_target_without_id_is_miss() {
    let t = vec![tab(1, "a", true), entry(Some(2), "other_id", "b", Some(false))];
    assert!(matches!(strip_pick(&t, "tab_id", 1, false), Pick::Miss));
}

#[test]
fn strip_long_wrap_steps() {
    let ws = vec![space(1, "a", false), space(2, "b", true), space(3, "c", false)];
    assert_eq!(id_of(strip_pick(&ws, "workspace_id", 2, true)), Some("a".to_string()));
    assert_eq!(id_of(strip_pick(&ws, "workspace_id", 4, true)), Some("c".to_string()));
    assert_eq!(id_of(strip_pick(&ws, "workspace_id", -5, true)), Some("c".to_string()));
    assert_eq!(id_of(strip_pick(&ws, "workspace_id", -3, true)), Some("b".to_string()));
    assert_eq!(id_of(strip_pick(&ws, "workspace_id", i64::MIN, true)), Some("c".to_string()));
    assert_eq!(id_of(strip_pick(&ws, "workspace_id", i64::MAX, true)), Some("c".to_string()));
    assert!(matches!(strip_pick(&ws, "workspace_id", 4, false), Pick::End));
}

#[test]
fn strip_wrap_only_matters_at_edges() {
    let t = tabs();
    assert_eq!(
        id_of(strip_pick(&t, "tab_id", 1, false)),
        id_of(strip_pick(&t, "tab_id", 1, true))
    );
    assert!(!matches!(strip_pick(&t, "tab_id", 2, true), Pick::End));
}

#[test]
fn strip_pick_ignores_list_order_for_distinct_numbers() {
    let listed = vec![tab(1, "a", false), tab(2, "b", true), tab(3, "c", false)];
    let shuffled = vec![tab(3, "c", false), tab(1, "a", false), tab(2, "b", true)];
    for step in [-4, -1, 1, 2, 5] {
        for wrap in [false, true] {
            assert_eq!(
                id_of(strip_pick(&listed, "tab_id", step, wrap)),
                id_of(strip_pick(&shuffled, "tab_id", step, wrap))
            );
        }
    }
}

#[test]
fn strip_step_back_returns() {
    let before = vec![space(1, "a", false), space(2, "b", true), space(3, "c", false)];
    let after = vec![space(1, "a", true), space(2, "b", false), space(3, "c", false)];
    assert_eq!(id_of(strip_pick(&before, "workspace_id", 2, true)), Some("a".to_string()));
    assert_eq!(id_of(strip_pick(&after, "workspace_id", -2, true)), Some("b".to_string()));
    let after_c = vec![space(1, "a", false), space(2, "b", false), space(3, "c", true)];
    assert_eq!(id_of(strip_pick(&before, "workspace_id", 1, false)), Some("c".to_string()));
    assert_eq!(id_of(strip_pick(&after_c, "workspace_id", -1, false)), Some("b".to_string()));
}
