//! Toggling favorites: the like-set, the main view and the favorites
//! view stay consistent through every toggle.

use livewallpaper::catalog::CatalogEntry;
use livewallpaper::config::Config;
use livewallpaper::gallery::Wallpapers;

fn entry(id: &str, name: &str) -> CatalogEntry {
    CatalogEntry {
        name: name.to_string(),
        urlbase: format!("/az/{}", id),
        copyright: format!("(c) {}", name),
        object_id: id.to_string(),
        wp: true,
        created_at: Some(1_700_000_000),
        metas: Vec::new(),
    }
}

fn gallery_with(ids: &[&str], likes: &[&str]) -> Wallpapers {
    let mut config = Config::default();
    config.likes = likes.iter().map(|s| s.to_string()).collect();
    let mut w = Wallpapers::new(config);
    let entries: Vec<CatalogEntry> = ids.iter().map(|id| entry(id, id)).collect();
    w.apply_main_page(entries);
    w
}

/// Membership in the like-set and the liked flag of the main view agree
/// after every operation of a toggle sequence.
fn assert_consistent(w: &Wallpapers) {
    for item in &w.list {
        assert_eq!(
            item.like,
            w.config.likes.contains(&item.id),
            "main-view flag of {} disagrees with the like-set",
            item.id
        );
    }
    for item in &w.favorites {
        assert!(
            w.config.likes.contains(&item.id),
            "favorites view shows {} which the like-set does not hold",
            item.id
        );
        assert!(item.like);
    }
}

#[test]
fn toggle_sequences_keep_views_consistent() {
    let mut w = gallery_with(&["a", "b", "c", "d"], &["b"]);
    assert_consistent(&w);
    let steps: &[(usize, bool)] = &[
        (0, false),
        (2, false),
        (0, true),
        (1, false),
        (2, false),
        (0, false),
        (0, false),
    ];
    for &(index, in_favorites) in steps {
        let len = if in_favorites { w.favorites.len() } else { w.list.len() };
        if index < len {
            w.like(index, in_favorites);
            assert_consistent(&w);
        }
    }
}

#[test]
fn favorites_view_never_leaves_like_set() {
    let mut w = gallery_with(&["a", "b", "c"], &["a", "c"]);
    w.like(1, false);
    assert_consistent(&w);
    w.like(0, false);
    assert_consistent(&w);
    w.like(0, false);
    assert_consistent(&w);
}

#[test]
fn liking_prepends_and_unliking_removes() {
    let mut w = gallery_with(&["a", "b"], &["b"]);
    w.like(0, false);
    assert_eq!(w.config.likes, vec!["a".to_string(), "b".to_string()]);
    assert!(w.list[0].like);
    assert_eq!(w.favorites[0].id, "a");
    w.like(0, false);
    assert_eq!(w.config.likes, vec!["b".to_string()]);
    assert!(!w.list[0].like);
    assert!(w.favorites.iter().all(|f| f.id != "a"));
}

#[test]
fn double_toggle_restores_the_state() {
    let mut w = gallery_with(&["a", "b", "c"], &["c"]);
    let likes_before = w.config.likes.clone();
    let list_before: Vec<(String, bool)> =
        w.list.iter().map(|i| (i.id.clone(), i.like)).collect();
    let favs_before: Vec<String> = w.favorites.iter().map(|i| i.id.clone()).collect();
    let offset_before = w.favorites_offset;

    w.like(1, false);
    assert!(w.list[1].like, "the first toggle likes the item");
    w.like(1, false);
    assert!(!w.list[1].like, "the second toggle un-likes it: a strict flip");

    assert_eq!(w.config.likes, likes_before);
    let list_after: Vec<(String, bool)> =
        w.list.iter().map(|i| (i.id.clone(), i.like)).collect();
    assert_eq!(list_after, list_before);
    let favs_after: Vec<String> = w.favorites.iter().map(|i| i.id.clone()).collect();
    assert_eq!(favs_after, favs_before);
    assert_eq!(w.favorites_offset, offset_before);
}

#[test]
fn unliking_from_favorites_page_updates_main_view() {
    let mut w = gallery_with(&["a", "b"], &["a", "b"]);
    // Materialize the favorites view through a fetched favorites page.
    let ids = w.next_page_favorites().expect("favorites to fetch");
    assert_eq!(ids, vec!["a".to_string(), "b".to_string()]);
    w.apply_favorites_page(vec![entry("a", "a"), entry("b", "b")]);
    assert_eq!(w.favorites.len(), 2);

    w.like(0, true);
    assert_eq!(w.config.likes, vec!["b".to_string()]);
    assert!(!w.list[0].like, "main view un-flags the identifier unliked from favorites");
    assert_eq!(w.favorites.len(), 1);
    assert_eq!(w.favorites[0].id, "b");
    assert_consistent(&w);
}

#[test]
fn toggling_without_favorites_counterpart_is_legal() {
    let mut w = gallery_with(&["a", "b"], &["a"]);
    // "a" is liked but was never materialized in the favorites view.
    assert_eq!(w.favorites.len(), 0);
    w.like(0, false);
    assert!(!w.list[0].like);
    assert!(w.config.likes.is_empty());
    assert_consistent(&w);
}
