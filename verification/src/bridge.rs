//! The completion bridge: background work — a page fetch, a download —
//! finishes off the owning context, and its result must be delivered
//! back onto the single context that owns the state. The owner may have
//! been destroyed while the work ran, so every delivery re-resolves the
//! owning slot first and becomes a silent no-op when nothing is there
//! any more: the result is discarded, never written anywhere stale.
//! Results arrive in whatever order their requests complete; nothing is
//! cancelled in flight.

use vstd::prelude::*;
use crate::catalog::CatalogEntry;
use crate::error::RemoteError;
use crate::gallery::{
    appended_favorites, appended_items, GalleryView, item_ids, ItemView, Wallpapers,
};

verus! {

/// Delivers a fetched page of the main view. A destroyed owner leaves
/// everything untouched; a live owner applies the page on success, and
/// on failure discards the partial results and hands the error back for
/// the one user-visible error signal.
pub fn deliver_main_page(
    ui: &mut Option<Wallpapers>,
    result: Result<Vec<CatalogEntry>, RemoteError>,
) -> (err: Option<RemoteError>)
    requires
        (*old(ui)) matches Some(w) ==> w.wf(),
    ensures
        ((*old(ui)) is None ==> (*final(ui)) is None && err is None),
        ((*old(ui)) matches Some(w0) ==> (*final(ui)) matches Some(w1) && w1.wf() && w1.config
            == w0.config && (match result {
            Ok(entries) => err is None && w1@ == (GalleryView {
                list: w0@.list + appended_items(entries@, item_ids(w0@.list), w0@.likes),
                list_loading: false,
                ..w0@
            }),
            Err(e) => err == Some(e) && w1 == w0,
        })),
{
    match ui {
        None => None,
        Some(w) => match result {
            Ok(entries) => {
                w.apply_main_page(entries);
                None
            },
            Err(e) => Some(e),
        },
    }
}

/// Delivers a fetched page of the favorites view, under the same
/// weak-owner rule. The page must answer a request the cursor has
/// accounted for.
pub fn deliver_favorites_page(
    ui: &mut Option<Wallpapers>,
    result: Result<Vec<CatalogEntry>, RemoteError>,
) -> (err: Option<RemoteError>)
    requires
        (*old(ui)) matches Some(w) ==> w.wf(),
        (*old(ui)) matches Some(w) ==> (result matches Ok(entries) ==> w@.favorites.len()
            + entries@.len() <= w@.favorites_offset),
    ensures
        ((*old(ui)) is None ==> (*final(ui)) is None && err is None),
        ((*old(ui)) matches Some(w0) ==> (*final(ui)) matches Some(w1) && w1.wf() && w1.config
            == w0.config && (match result {
            Ok(entries) => err is None && w1@ == (GalleryView {
                favorites: w0@.favorites + appended_favorites(
                    entries@,
                    item_ids(w0@.favorites),
                    w0@.likes,
                ),
                favorites_loading: false,
                ..w0@
            }),
            Err(e) => err == Some(e) && w1 == w0,
        })),
{
    match ui {
        None => None,
        Some(w) => match result {
            Ok(entries) => {
                w.apply_favorites_page(entries);
                None
            },
            Err(e) => Some(e),
        },
    }
}

/// Delivers a finished download for the slot at `index` of the chosen
/// view, under the same weak-owner rule: a destroyed owner, like a slot
/// the view no longer has, discards the result silently.
pub fn deliver_download(
    ui: &mut Option<Wallpapers>,
    index: usize,
    in_favorites_page: bool,
    result: Result<String, RemoteError>,
) -> (err: Option<RemoteError>)
    requires
        (*old(ui)) matches Some(w) ==> w.wf(),
    ensures
        ((*old(ui)) is None ==> (*final(ui)) is None && err is None),
        ((*old(ui)) matches Some(w0) ==> (*final(ui)) matches Some(w1) && w1.wf() && w1.config
            == w0.config && (match result {
            Ok(path) => {
                &&& err is None
                &&& ((in_favorites_page && index < w0@.favorites.len()) ==> w1@ == (GalleryView {
                    favorites: w0@.favorites.update(
                        index as int,
                        (ItemView {
                            image: "file:"@ + path@,
                            loading: false,
                            ..w0@.favorites[index as int]
                        }),
                    ),
                    ..w0@
                }))
                &&& ((!in_favorites_page && index < w0@.list.len()) ==> w1@ == (GalleryView {
                    list: w0@.list.update(
                        index as int,
                        (ItemView {
                            image: "file:"@ + path@,
                            loading: false,
                            ..w0@.list[index as int]
                        }),
                    ),
                    ..w0@
                }))
                &&& ((in_favorites_page && index >= w0@.favorites.len()) ==> w1 == w0)
                &&& ((!in_favorites_page && index >= w0@.list.len()) ==> w1 == w0)
            },
            Err(e) => err == Some(e) && w1 == w0,
        })),
{
    match ui {
        None => None,
        Some(w) => match result {
            Ok(path) => {
                w.apply_download(index, in_favorites_page, &path);
                None
            },
            Err(e) => Some(e),
        },
    }
}

} // verus!
