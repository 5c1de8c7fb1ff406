//! The two delivery bridges: completions into a possibly-destroyed
//! owner, and tray intents into a possibly-absent UI session.

use livewallpaper::bridge::{deliver_download, deliver_favorites_page, deliver_main_page};
use livewallpaper::catalog::CatalogEntry;
use livewallpaper::config::Config;
use livewallpaper::error::{RemoteError, ServerError};
use livewallpaper::gallery::Wallpapers;
use livewallpaper::systray::{Cmd, TrayBridge};

fn entry(id: &str) -> CatalogEntry {
    CatalogEntry {
        name: id.to_string(),
        urlbase: format!("/az/{}", id),
        copyright: String::new(),
        object_id: id.to_string(),
        wp: false,
        created_at: None,
        metas: Vec::new(),
    }
}

fn live_gallery() -> Wallpapers {
    let mut w = Wallpapers::new(Config::default());
    w.apply_main_page(vec![entry("a"), entry("b"), entry("c"), entry("d")]);
    w
}

#[test]
fn delivery_to_a_destroyed_owner_is_a_no_op() {
    // A download for slot 3 is in flight; the UI object is destroyed
    // before completion. The delivery observes the dead handle and
    // mutates nothing: no crash, no stale write.
    let mut ui: Option<Wallpapers> = None;
    let err = deliver_download(&mut ui, 3, false, Ok("/tmp/d_1920x1080.jpg".to_string()));
    assert!(err.is_none());
    assert!(ui.is_none());

    let err2 = deliver_main_page(&mut ui, Ok(vec![entry("a")]));
    assert!(err2.is_none());
    assert!(ui.is_none());
}

#[test]
fn delivery_to_a_live_owner_lands_in_the_right_slot() {
    let mut ui = Some(live_gallery());
    ui.as_mut().unwrap().download(3, false);
    let err = deliver_download(&mut ui, 3, false, Ok("/tmp/d_1920x1080.jpg".to_string()));
    assert!(err.is_none());
    let w = ui.as_ref().unwrap();
    assert_eq!(w.list[3].image, "file:/tmp/d_1920x1080.jpg");
    assert!(!w.list[3].loading);
    assert!(w.list[2].image.is_empty());
}

#[test]
fn a_stale_slot_discards_the_result() {
    let mut ui = Some(Wallpapers::new(Config::default()));
    let err = deliver_download(&mut ui, 3, false, Ok("/tmp/x.jpg".to_string()));
    assert!(err.is_none());
    assert!(ui.as_ref().unwrap().list.is_empty());
}

#[test]
fn a_failed_fetch_surfaces_its_error_and_applies_nothing() {
    let mut ui = Some(live_gallery());
    let before = ui.as_ref().unwrap().list.len();
    let err = deliver_main_page(
        &mut ui,
        Err(RemoteError::Server(ServerError { code: 101, error: "object not found".to_string() })),
    );
    let msg = err.expect("the error to surface");
    assert_eq!(msg.message(), "object not found");
    assert_eq!(ui.as_ref().unwrap().list.len(), before);

    let err2 = deliver_favorites_page(
        &mut ui,
        Err(RemoteError::Transport("connection reset".to_string())),
    );
    assert_eq!(err2.expect("the error to surface").message(), "connection reset");
    assert!(ui.as_ref().unwrap().favorites.is_empty());
}

#[test]
fn tray_dispatch_prefers_the_registered_sink() {
    let mut tray = TrayBridge::new();
    tray.run_tray_in_background();
    assert_eq!(tray.emit_cmd(Cmd::Open), None, "no sink: the local channel queues it");
    tray.connect_to_backend(7);
    assert_eq!(tray.emit_cmd(Cmd::Quit), Some(7), "a live sink gets the command directly");
    assert_eq!(tray.delivered.len(), 1);
    assert_eq!(tray.delivered[0].sink, 7);
    assert_eq!(tray.delivered[0].cmd, Cmd::Quit);
    assert_eq!(tray.local, vec![Cmd::Open], "the earlier command still waits locally");
}

#[test]
fn tray_registration_is_last_writer_wins_and_clearing_is_unconditional() {
    let mut tray = TrayBridge::new();
    tray.run_tray_in_background();
    tray.connect_to_backend(1);
    tray.connect_to_backend(2);
    assert_eq!(tray.emit_cmd(Cmd::Open), Some(2));
    tray.disconnect();
    assert_eq!(tray.remote, None);
    tray.disconnect();
    assert_eq!(tray.remote, None, "clearing twice is still cleared");
    assert_eq!(tray.emit_cmd(Cmd::Open), None);
}

#[test]
fn tray_wait_hands_out_commands_oldest_first() {
    let mut tray = TrayBridge::new();
    tray.run_tray_in_background();
    tray.emit_cmd(Cmd::Open);
    tray.emit_cmd(Cmd::Quit);
    assert_eq!(tray.wait(), Some(Cmd::Open));
    assert_eq!(tray.wait(), Some(Cmd::Quit));
    assert_eq!(tray.wait(), None);
}

#[test]
fn bringing_the_tray_up_twice_changes_nothing() {
    let mut tray = TrayBridge::new();
    tray.run_tray_in_background();
    tray.emit_cmd(Cmd::Open);
    tray.run_tray_in_background();
    assert_eq!(tray.local, vec![Cmd::Open]);
    assert!(tray.local_initialized);
}
