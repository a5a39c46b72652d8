//! Preset browsing.

use zoog::app_core::browser::{BrowseItem, Browser};

fn item(id: i64, name: &str, category: &str) -> BrowseItem {
    BrowseItem {
        id,
        name: name.to_string(),
        category: Some(category.to_string()),
        path: None,
        load_key: None,
    }
}

fn browser() -> Browser {
    Browser::new(vec![
        item(1, "Big Bass", "Basses"),
        item(2, "Soft Bass", "Basses"),
        item(3, "Bright Lead", "Leads"),
        item(4, "Warm Pad", "Pads"),
    ])
}

#[test]
fn scrolls_and_wraps() {
    let mut b = browser();
    assert_eq!(b.current().unwrap().id, 1);
    assert_eq!(b.scroll(1).unwrap().id, 2);
    assert_eq!(b.scroll(2).unwrap().id, 3);
    assert_eq!(b.scroll(1).unwrap().id, 4);
    assert_eq!(b.scroll(1).unwrap().id, 1);
    assert_eq!(b.scroll(-1).unwrap().id, 4);
    assert_eq!(b.position(), (4, 4));
    // Zero delta (the idle half of a detent pair) is a no-op.
    assert!(b.scroll(0).is_none());
    assert_eq!(b.current().unwrap().id, 4);
}

#[test]
fn category_cycling_filters_and_wraps() {
    let mut b = browser();
    assert_eq!(b.category_name(), "All");
    assert_eq!(b.cycle_category(1), "Basses");
    assert_eq!(b.position(), (1, 2));
    assert_eq!(b.current().unwrap().id, 1);
    assert_eq!(b.cycle_category(1), "Leads");
    assert_eq!(b.current().unwrap().id, 3);
    assert_eq!(b.cycle_category(1), "Pads");
    assert_eq!(b.cycle_category(1), "All");
    assert_eq!(b.position(), (1, 4));
    assert_eq!(b.cycle_category(-1), "Pads");
}

#[test]
fn empty_browser_is_inert() {
    let mut b = Browser::new(vec![]);
    assert!(b.is_empty());
    assert!(b.scroll(1).is_none());
    assert_eq!(b.cycle_category(1), "All");
    assert!(b.current().is_none());
}

#[test]
fn turning_back_returns_to_the_preset() {
    let mut b = browser();
    b.scroll(1);
    let before = b.current().unwrap().id;
    b.scroll(1);
    b.scroll(-1);
    assert_eq!(b.current().unwrap().id, before);
}

#[test]
fn big_steps_go_one_preset_at_a_time() {
    let mut b = browser();
    assert_eq!(b.scroll(100).unwrap().id, 2);
    assert_eq!(b.scroll(-100).unwrap().id, 1);
}

#[test]
fn presets_without_a_category_show_under_all_only() {
    let mut stray = item(9, "Stray", "X");
    stray.category = None;
    let mut b = Browser::new(vec![stray, item(1, "Big Bass", "Basses")]);
    assert_eq!(b.position(), (1, 2));
    assert_eq!(b.cycle_category(1), "Basses");
    assert_eq!(b.position(), (1, 1));
    assert_eq!(b.current().unwrap().id, 1);
}
