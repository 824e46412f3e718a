use kong_init::wipe::{run_wipe, wipe_step, Page};

fn ids(v: &[&str]) -> Vec<String> {
    v.iter().map(|s| s.to_string()).collect()
}

#[test]
fn single_page_without_cursor_deletes_its_items() {
    let pages = vec![Page { ids: ids(&["a", "b"]), next: None }];
    assert_eq!(run_wipe(&pages), ids(&["a", "b"]));
}

#[test]
fn multi_page_wipe_deletes_every_item_exactly_once() {
    let pages = vec![
        Page { ids: ids(&["a", "b"]), next: Some("off1".to_string()) },
        Page { ids: ids(&["c"]), next: Some("off2".to_string()) },
        Page { ids: ids(&["d", "e"]), next: None },
    ];
    assert_eq!(run_wipe(&pages), ids(&["a", "b", "c", "d", "e"]));
}

#[test]
fn wipe_terminates_at_first_page_without_cursor() {
    let pages = vec![
        Page { ids: ids(&["a"]), next: None },
        Page { ids: ids(&["never-listed"]), next: None },
    ];
    assert_eq!(run_wipe(&pages), ids(&["a"]));
}

#[test]
fn empty_pages_delete_nothing() {
    let pages = vec![
        Page { ids: ids(&[]), next: Some("off1".to_string()) },
        Page { ids: ids(&[]), next: None },
    ];
    assert_eq!(run_wipe(&pages), ids(&[]));
}

#[test]
fn wipe_step_hands_out_ids_and_cursor() {
    let page = Page { ids: ids(&["x", "y"]), next: Some("n".to_string()) };
    let (del, next) = wipe_step(&page);
    assert_eq!(del, ids(&["x", "y"]));
    assert_eq!(next, Some("n".to_string()));
    let last = Page { ids: ids(&["z"]), next: None };
    let (del, next) = wipe_step(&last);
    assert_eq!(del, ids(&["z"]));
    assert_eq!(next, None);
}
