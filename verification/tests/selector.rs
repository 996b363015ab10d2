use analog::models::LogGroup;
use analog::selector::{filter_log_groups, holds_name};

fn group(name: &str) -> LogGroup {
    LogGroup { log_group_name: Some(name.to_string()) }
}

fn unnamed() -> LogGroup {
    LogGroup { log_group_name: None }
}

fn names(list: &[&str]) -> Vec<String> {
    list.iter().map(|name| name.to_string()).collect()
}

#[test]
fn all_selects_every_group_unchanged() {
    let groups = vec![group("C"), unnamed(), group("A"), group("B")];
    assert_eq!(filter_log_groups(groups.clone(), names(&["all"])), groups);
}

#[test]
fn all_among_other_names_selects_every_group() {
    let groups = vec![group("C"), group("A"), unnamed()];
    assert_eq!(filter_log_groups(groups.clone(), names(&["A", "all"])), groups);
}

#[test]
fn names_select_their_groups_in_the_order_of_discovery() {
    let groups = vec![group("C"), group("B"), group("D"), group("A"), group("B")];
    let selected = filter_log_groups(groups, names(&["A", "B"]));
    assert_eq!(selected, vec![group("B"), group("A"), group("B")]);
}

#[test]
fn names_do_not_select_a_group_without_a_name() {
    let groups = vec![unnamed(), group("A"), unnamed()];
    assert_eq!(filter_log_groups(groups, names(&["A"])), vec![group("A")]);
}

#[test]
fn nothing_is_selected_of_no_groups() {
    assert_eq!(filter_log_groups(Vec::new(), names(&["all"])), Vec::new());
    assert_eq!(filter_log_groups(Vec::new(), names(&["A", "B"])), Vec::new());
    assert_eq!(filter_log_groups(Vec::new(), Vec::new()), Vec::new());
}

#[test]
fn an_empty_request_selects_every_group() {
    let groups = vec![group("A"), unnamed(), group("B")];
    assert_eq!(filter_log_groups(groups.clone(), Vec::new()), groups);
}

#[test]
fn names_that_no_group_bears_select_nothing() {
    let groups = vec![group("A"), group("B")];
    assert_eq!(filter_log_groups(groups, names(&["Z"])), Vec::new());
}

#[test]
fn the_word_all_is_matched_exactly() {
    let groups = vec![group("A"), group("ALL"), group("all ")];
    assert_eq!(filter_log_groups(groups.clone(), names(&["ALL"])), vec![group("ALL")]);
    assert_eq!(filter_log_groups(groups, names(&["all "])), vec![group("all ")]);
}

#[test]
fn selection_of_two_runs_is_the_two_selections_in_a_row() {
    let first = vec![group("A"), group("X"), group("B")];
    let second = vec![group("B"), group("Y"), group("A")];
    let mut both = first.clone();
    both.extend(second.clone());
    let wanted = names(&["A", "B"]);
    let mut expected = filter_log_groups(first, wanted.clone());
    expected.extend(filter_log_groups(second, wanted.clone()));
    assert_eq!(filter_log_groups(both, wanted), expected);
    assert_eq!(expected, vec![group("A"), group("B"), group("B"), group("A")]);
}

#[test]
fn a_list_holds_the_names_in_it_and_no_others() {
    let list = names(&["A", "B"]);
    assert!(holds_name(&list, &"A".to_string()));
    assert!(holds_name(&list, &"B".to_string()));
    assert!(!holds_name(&list, &"a".to_string()));
    assert!(!holds_name(&Vec::new(), &"A".to_string()));
}
