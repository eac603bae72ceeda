use orkesy::palette::{build_picker_items, filter_picker_items, PickerItem};
use orkesy::ui_state::TuiView;

#[test]
fn fuzzy_matches_subsequence() {
    let item = PickerItem::new_navigation("Open Logs view", TuiView::Logs);
    assert!(item.fuzzy_matches("ologs"));
    assert!(item.fuzzy_matches("logs"));
    assert!(!item.fuzzy_matches("xyz"));
}

#[test]
fn fuzzy_score_ranks_prefix_highest() {
    let exact = PickerItem::new_navigation("Logs view", TuiView::Logs);
    let later = PickerItem::new_navigation("Open Logs view", TuiView::Logs);
    assert!(exact.fuzzy_score("Logs") > later.fuzzy_score("Logs"));
}

#[test]
fn empty_query_returns_all_grouped() {
    let items = build_picker_items(&["api".into()], None, &[]);
    let out = filter_picker_items(&items, "");
    assert_eq!(out.len(), items.len());
}

#[test]
fn selected_service_gets_the_full_set_of_actions() {
    let ids: Vec<String> = vec!["api".into(), "db".into()];
    let items = build_picker_items(&ids, Some("api"), &[]);
    // Five actions for the selected service, three for the other one,
    // five project actions and five views.
    assert_eq!(items.len(), 5 + 3 + 5 + 5);
    assert_eq!(items[0].label, "Start api");
    assert_eq!(items[0].command.as_deref(), Some("start api"));
}

#[test]
fn query_keeps_only_matching_items_best_first() {
    let items = build_picker_items(&["api".into()], None, &[]);
    let out = filter_picker_items(&items, "stop");
    assert!(!out.is_empty());
    assert!(out.iter().all(|i| i.fuzzy_matches("stop")));
    assert_eq!(out[0].label, "Stop api");
}
