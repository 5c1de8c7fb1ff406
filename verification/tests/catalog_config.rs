//! The catalog merge rules, the response envelope, the configuration
//! defaults, and the rotation decision.

use livewallpaper::catalog::{
    fill_wallpapers_metadata, reorder_by_ids, CatalogEntry, ImageMeta,
};
use livewallpaper::config::{current_de, default_de_list, Config};
use livewallpaper::error::{Response, ServerError};
use livewallpaper::gallery::resolution_candidates;
use livewallpaper::rotation::{plan_rotation, random_skip, RotationPlan};

fn entry(id: &str) -> CatalogEntry {
    CatalogEntry {
        name: id.to_string(),
        urlbase: format!("/az/{}", id),
        copyright: String::new(),
        object_id: id.to_string(),
        wp: false,
        created_at: None,
        metas: Vec::new(),
    }
}

fn meta(image_id: &str, market: &str) -> ImageMeta {
    ImageMeta { market: market.to_string(), info: format!("info {}", market), image_id: image_id.to_string() }
}

#[test]
fn metadata_attaches_to_the_first_matching_entry() {
    let mut images = vec![entry("a"), entry("b"), entry("a")];
    let metas = vec![meta("a", "en-US"), meta("b", "de-DE"), meta("a", "fr-FR"), meta("x", "zh-CN")];
    fill_wallpapers_metadata(&mut images, metas);
    // Both records for "a" land on its first entry, in record order;
    // the duplicate entry gets none; the unmatched record is dropped.
    assert_eq!(images[0].metas.len(), 2);
    assert_eq!(images[0].metas[0].market, "en-US");
    assert_eq!(images[0].metas[1].market, "fr-FR");
    assert_eq!(images[1].metas.len(), 1);
    assert_eq!(images[1].metas[0].market, "de-DE");
    assert!(images[2].metas.is_empty());
}

#[test]
fn id_list_fetches_are_reordered_to_the_callers_order() {
    let fetched = vec![entry("c"), entry("a"), entry("b")];
    let order = vec!["a".to_string(), "b".to_string(), "c".to_string(), "d".to_string()];
    let sorted = reorder_by_ids(fetched, &order);
    let ids: Vec<&str> = sorted.iter().map(|e| e.object_id.as_str()).collect();
    assert_eq!(ids, vec!["a", "b", "c"], "missing identifiers contribute nothing");
}

#[test]
fn the_envelope_separates_success_from_server_errors() {
    let ok: Response<u32> = Response::from_ok(vec![1, 2, 3]);
    assert_eq!(ok.into_result().expect("success"), vec![1, 2, 3]);

    let err: Response<u32> =
        Response::from_error(ServerError { code: 403, error: "forbidden".to_string() });
    let server_error = err.into_result().expect_err("a structured error");
    assert_eq!(server_error.code, 403);
    assert_eq!(server_error.error, "forbidden");
}

#[test]
fn fresh_configuration_has_the_documented_defaults() {
    let config = Config::default();
    assert_eq!(config.de.len(), 8);
    assert_eq!(config.de[7].name, "Other");
    assert_eq!(config.de_index, 7);
    assert_eq!(config.autoremove, 30);
    assert!(!config.auto_change.enable);
    assert_eq!(config.auto_change.interval, 5);
    assert_eq!(config.auto_change.mode, 0);
    assert_eq!(config.resolution.download[config.resolution.download_index], "1920x1080");
    assert!(!config.resolution.original);
    assert!(config.likes.is_empty());
    assert_eq!(config.selected_resolution(), "1920x1080");
}

#[test]
fn desktop_environments_map_to_their_entries() {
    let de = default_de_list();
    assert_eq!(de.len(), 7);
    assert_eq!(de[0].name, "Budgie");
    assert!(de[3].cmd.contains("org.gnome.desktop.background"));
    assert_eq!(current_de(&"gnome".to_string()), 3);
    assert_eq!(current_de(&"x-cinnamon".to_string()), 1);
    assert_eq!(current_de(&"mate".to_string()), 6);
    assert_eq!(current_de(&"sway".to_string()), 7, "unknown sessions select the custom entry");
    assert_eq!(current_de(&String::new()), 7);
}

#[test]
fn rotation_modes_decide_their_fetch() {
    let likes = vec!["a".to_string(), "b".to_string()];
    assert!(matches!(plan_rotation(0, &likes), RotationPlan::Newest));
    assert!(matches!(plan_rotation(2, &likes), RotationPlan::Random));
    match plan_rotation(1, &likes) {
        RotationPlan::Favorite(id) => assert!(likes.contains(&id)),
        _ => panic!("favorites mode must pick a favorite"),
    }
    for count in [1usize, 2, 17] {
        assert!(random_skip(count) < count);
    }
}

#[test]
fn download_tries_the_original_tier_only_when_allowed() {
    let full_hd = "1920x1080".to_string();
    let tall = "1080x1920".to_string();
    assert_eq!(
        resolution_candidates(&full_hd, true),
        vec!["1920x1200".to_string(), "1920x1080".to_string()]
    );
    assert_eq!(resolution_candidates(&full_hd, false), vec!["1920x1080".to_string()]);
    assert_eq!(resolution_candidates(&tall, true), vec!["1080x1920".to_string()]);
}
