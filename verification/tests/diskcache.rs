//! The disk cache: the naming convention, the eviction policy and the
//! reported totals.

use livewallpaper::cache::{make_cache_filename, parse_wallpaper_filename, CacheFile};
use livewallpaper::config::Config;
use livewallpaper::gallery::Wallpapers;

const DAY: u64 = 24 * 60 * 60;

fn file(name: &str, size: u64, modified: u64) -> CacheFile {
    CacheFile { name: name.to_string(), is_dir: false, size, modified }
}

fn gallery(likes: &[&str]) -> Wallpapers {
    let mut config = Config::default();
    config.likes = likes.iter().map(|s| s.to_string()).collect();
    Wallpapers::new(config)
}

#[test]
fn filenames_of_the_convention_parse() {
    let parsed = parse_wallpaper_filename("abc123_1920x1080.jpg").expect("a cache name");
    assert_eq!(parsed.0, "abc123");
    assert_eq!(parsed.1, "1920x1080");
}

#[test]
fn foreign_names_do_not_parse() {
    assert!(parse_wallpaper_filename("notes.txt").is_none());
    assert!(parse_wallpaper_filename("a_1920x1080").is_none());
    assert!(parse_wallpaper_filename("_1920x1080.jpg").is_none());
    assert!(parse_wallpaper_filename("a_x1080.jpg").is_none());
    assert!(parse_wallpaper_filename("a_1920x.jpg").is_none());
    assert!(parse_wallpaper_filename("a_1920x1080.").is_none());
    assert!(parse_wallpaper_filename("a-b_1920x1080.jpg").is_none());
    assert!(parse_wallpaper_filename("a_1920x1080.tar.gz").is_none());
    assert!(parse_wallpaper_filename("").is_none());
}

#[test]
fn produced_names_parse_back() {
    let name = make_cache_filename(&"xyz9".to_string(), &"1366x768".to_string());
    assert_eq!(name, "xyz9_1366x768.jpg");
    let parsed = parse_wallpaper_filename(&name).expect("the produced name to parse");
    assert_eq!(parsed.0, "xyz9");
    assert_eq!(parsed.1, "1366x768");
}

#[test]
fn eviction_keeps_only_what_the_policy_says() {
    // One file at the wrong resolution, one outdated non-favorite, one
    // outdated favorite, one fresh non-favorite at the right
    // resolution, and one foreign-named file.
    let now = 100 * DAY;
    let old = now - 40 * DAY;
    let fresh = now - DAY;
    let files = vec![
        file("wrong_800x600.jpg", 10, fresh),
        file("stale_1920x1080.jpg", 20, old),
        file("loved_1920x1080.jpg", 40, old),
        file("fresh_1920x1080.jpg", 80, fresh),
        file("README.md", 160, fresh),
    ];
    let mut w = gallery(&["loved"]);
    // The default configuration evicts after thirty days at 1920x1080.
    let delete = w
        .update_diskusage_and_autoclean(&files, now)
        .expect("the scan to succeed");
    assert_eq!(delete, vec![true, true, false, false, true]);
    assert_eq!(w.diskusage_favorites, 40, "only the outdated favorite counts as favorite bytes");
    assert_eq!(w.diskusage_others, 80, "only the fresh right-resolution file counts as others");
}

#[test]
fn directories_are_always_deleted() {
    let mut w = gallery(&[]);
    let files = vec![CacheFile {
        name: "cache".to_string(),
        is_dir: true,
        size: 5,
        modified: 0,
    }];
    let delete = w.update_diskusage_and_autoclean(&files, DAY).expect("scan");
    assert_eq!(delete, vec![true]);
    assert_eq!(w.diskusage_favorites, 0);
    assert_eq!(w.diskusage_others, 0);
}

#[test]
fn a_future_modification_time_aborts_the_scan() {
    let mut w = gallery(&[]);
    w.diskusage_others = 7;
    let files = vec![file("a_1920x1080.jpg", 10, 2 * DAY)];
    assert!(w.update_diskusage_and_autoclean(&files, DAY).is_none());
    assert_eq!(w.diskusage_others, 7, "an aborted scan reports nothing");
}

#[test]
fn original_tier_survives_only_under_the_opt_in() {
    let now = 100 * DAY;
    let files = vec![file("a_1920x1200.jpg", 10, now - DAY)];
    let mut w = gallery(&[]);
    let delete = w.update_diskusage_and_autoclean(&files, now).expect("scan");
    assert_eq!(delete, vec![true], "without the opt-in the original tier is a wrong resolution");
    let mut w2 = gallery(&[]);
    w2.config.resolution.original = true;
    let delete2 = w2.update_diskusage_and_autoclean(&files, now).expect("scan");
    assert_eq!(delete2, vec![false]);
    assert_eq!(w2.diskusage_others, 10);
}

#[test]
fn clearing_others_keeps_only_liked_prefixes() {
    let mut w = gallery(&["keepme"]);
    w.diskusage_others = 123;
    let files = vec![
        file("keepme_1920x1080.jpg", 10, 0),
        file("dropme_1920x1080.jpg", 20, 0),
        file("strange name", 30, 0),
        CacheFile { name: "subdir".to_string(), is_dir: true, size: 0, modified: 0 },
    ];
    let delete = w.clear_other_wallpapers(&files);
    assert_eq!(delete, vec![false, true, true, true]);
    assert_eq!(w.diskusage_others, 0);
}
