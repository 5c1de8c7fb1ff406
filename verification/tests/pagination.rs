//! Paging the two views: offsets advance in fixed page steps, and the
//! favorites view fills from the like-set in the caller's order.

use livewallpaper::catalog::{reorder_by_ids, CatalogEntry};
use livewallpaper::config::Config;
use livewallpaper::gallery::{Wallpapers, MAX_WP_NUM_IN_A_PAGE};

fn entry(id: &str) -> CatalogEntry {
    CatalogEntry {
        name: format!("image {}", id),
        urlbase: format!("/az/{}", id),
        copyright: String::new(),
        object_id: id.to_string(),
        wp: false,
        created_at: None,
        metas: Vec::new(),
    }
}

fn gallery(likes: &[&str]) -> Wallpapers {
    let mut config = Config::default();
    config.likes = likes.iter().map(|s| s.to_string()).collect();
    Wallpapers::new(config)
}

#[test]
fn page_offsets_step_by_the_limit() {
    let mut w = gallery(&[]);
    let first = w.fetch_next_page();
    assert_eq!(first.offset, 0);
    assert_eq!(first.limit, MAX_WP_NUM_IN_A_PAGE);
    // Page zero returns fewer items than the limit; the cursor advances
    // by the full page size regardless: no retry, no backfill.
    w.apply_main_page(vec![entry("a"), entry("b")]);
    let second = w.fetch_next_page();
    assert_eq!(second.offset, MAX_WP_NUM_IN_A_PAGE);
    w.apply_main_page(Vec::new());
    let third = w.fetch_next_page();
    assert_eq!(third.offset, 2 * MAX_WP_NUM_IN_A_PAGE);
}

#[test]
fn main_page_tags_liked_entries() {
    let mut w = gallery(&["b"]);
    w.fetch_next_page();
    let mut first = entry("a");
    first.metas.push(livewallpaper::catalog::ImageMeta {
        market: "en-US".to_string(),
        info: "a meadow".to_string(),
        image_id: "a".to_string(),
    });
    w.apply_main_page(vec![first, entry("b")]);
    assert!(!w.list[0].like);
    assert!(w.list[1].like);
    assert!(!w.list_loading);
    assert_eq!(w.list[0].preview, "https://wpdn.bohan.co/az/a_800x480.jpg");
    assert_eq!(w.list[0].metas.len(), 1);
    assert_eq!(w.list[0].metas[0].market, "en-US");
    assert_eq!(w.list[0].metas[0].info, "a meadow");
    assert!(w.list[0].image.is_empty(), "no download has resolved yet");
}

#[test]
fn duplicate_identifiers_are_not_shown_twice() {
    let mut w = gallery(&[]);
    w.apply_main_page(vec![entry("a"), entry("b")]);
    w.apply_main_page(vec![entry("b"), entry("c"), entry("c")]);
    let ids: Vec<&str> = w.list.iter().map(|i| i.id.as_str()).collect();
    assert_eq!(ids, vec!["a", "b", "c"]);
}

#[test]
fn favorites_page_fills_in_caller_order() {
    // The like-set holds "a" and "b"; the favorites view starts empty;
    // one page of size twenty is fetched.
    let mut w = gallery(&["a", "b"]);
    assert_eq!(w.favorites.len(), 0);
    let ids = w.next_page_favorites().expect("a page to be requested");
    assert_eq!(ids, vec!["a".to_string(), "b".to_string()]);
    // The server answers an id-list query in its own order; the fetch
    // re-sorts to the caller's order before applying.
    let fetched = vec![entry("b"), entry("a")];
    let ordered = reorder_by_ids(fetched, &ids);
    w.apply_favorites_page(ordered);
    assert_eq!(w.favorites.len(), 2);
    assert_eq!(w.favorites[0].id, "a");
    assert_eq!(w.favorites[1].id, "b");
    assert!(w.favorites[0].like);
    assert!(w.favorites[1].like);
}

#[test]
fn favorites_fetch_short_circuits_when_materialized() {
    let mut w = gallery(&["a"]);
    let ids = w.next_page_favorites().expect("first page");
    assert_eq!(ids, vec!["a".to_string()]);
    w.apply_favorites_page(vec![entry("a")]);
    // As many favorites are materialized as the like-set holds: the
    // next fetch is a no-op.
    assert!(w.next_page_favorites().is_none());
    assert!(!w.favorites_loading);
}

#[test]
fn favorites_fetch_pages_through_a_long_like_set() {
    let likes: Vec<String> = (0..25).map(|i| format!("id{:02}", i)).collect();
    let like_refs: Vec<&str> = likes.iter().map(|s| s.as_str()).collect();
    let mut w = gallery(&like_refs);
    let first = w.next_page_favorites().expect("first page");
    assert_eq!(first.len(), MAX_WP_NUM_IN_A_PAGE);
    assert_eq!(first[0], "id00");
    w.apply_favorites_page(first.iter().map(|id| entry(id)).collect());
    let second = w.next_page_favorites().expect("second page");
    assert_eq!(second.len(), 5);
    assert_eq!(second[0], "id20");
}
