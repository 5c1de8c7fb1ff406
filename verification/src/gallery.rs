//! The UI-owned state: the main view and the favorites view of display
//! items, the page cursors, the loading flags and the disk-usage totals,
//! together with the operations the UI triggers — fetching the next
//! page of either view, toggling a favorite, preparing a download, and
//! applying delivered results. All mutation happens on the single
//! owning context; background work only hands plain values in and out.

use vstd::prelude::*;
use vstd::string::StringExecFns;
use crate::catalog::CatalogEntry;
use crate::config::Config;
use crate::likeset::{distinct_ids, find_in, remove_first};
use crate::cache::{CacheFile, EvictionPolicy, FileFate, fate_of, total_bytes, total_size};

verus! {

/// One market/info pair shown under an item.
pub struct QWallpaperInfo {
    pub market: String,
    pub info: String,
}

/// The mathematical value of a market/info pair.
#[verifier::ext_equal]
pub ghost struct WallpaperInfoView {
    pub market: Seq<char>,
    pub info: Seq<char>,
}

impl View for QWallpaperInfo {
    type V = WallpaperInfoView;

    open spec fn view(&self) -> WallpaperInfoView {
        WallpaperInfoView { market: self.market@, info: self.info@ }
    }
}

impl DeepView for QWallpaperInfo {
    type V = WallpaperInfoView;

    open spec fn deep_view(&self) -> WallpaperInfoView {
        self.view()
    }
}

/// The UI-facing projection of a catalog entry, plus its mutable state:
/// the liked flag, the loading flag, and the resolved local image path
/// once a download finished. Identity is the remote identifier, never
/// the array position.
pub struct QWallpaper {
    pub name: String,
    pub preview: String,
    pub copyright: String,
    pub metas: Vec<QWallpaperInfo>,
    pub wp: bool,
    pub like: bool,
    pub image: String,
    pub loading: bool,
    pub id: String,
    pub urlbase: String,
}

/// The mathematical value of a display item.
#[verifier::ext_equal]
pub ghost struct ItemView {
    pub name: Seq<char>,
    pub preview: Seq<char>,
    pub copyright: Seq<char>,
    pub metas: Seq<WallpaperInfoView>,
    pub wp: bool,
    pub like: bool,
    pub image: Seq<char>,
    pub loading: bool,
    pub id: Seq<char>,
    pub urlbase: Seq<char>,
}

impl View for QWallpaper {
    type V = ItemView;

    open spec fn view(&self) -> ItemView {
        ItemView {
            name: self.name@,
            preview: self.preview@,
            copyright: self.copyright@,
            metas: self.metas.deep_view(),
            wp: self.wp,
            like: self.like,
            image: self.image@,
            loading: self.loading,
            id: self.id@,
            urlbase: self.urlbase@,
        }
    }
}

impl DeepView for QWallpaper {
    type V = ItemView;

    open spec fn deep_view(&self) -> ItemView {
        self.view()
    }
}

/// The base of every image URL the catalog serves.
pub open spec fn url_origin() -> Seq<char> {
    "https://wpdn.bohan.co"@
}

/// The display item a catalog entry projects to, before any download:
/// the preview URL is the entry's URL base at the preview resolution,
/// the liked flag says whether the identifier is in `likes`, and the
/// image path is still empty.
pub open spec fn item_of_entry(e: CatalogEntry, likes: Seq<Seq<char>>) -> ItemView {
    ItemView {
        name: e.name@,
        preview: url_origin() + e.urlbase@ + "_800x480.jpg"@,
        copyright: e.copyright@,
        metas: Seq::new(
            e.metas@.len(),
            |i: int| WallpaperInfoView { market: e.metas@[i].market@, info: e.metas@[i].info@ },
        ),
        wp: e.wp,
        like: likes.contains(e.object_id@),
        image: Seq::empty(),
        loading: false,
        id: e.object_id@,
        urlbase: e.urlbase@,
    }
}

/// Converts a fetched entry into its display item, tagging it with the
/// given liked state.
pub fn wallpaper_from_entry(e: &CatalogEntry, liked: bool) -> (w: QWallpaper)
    ensures
        w@ == (ItemView { like: liked, ..item_of_entry(*e, Seq::empty()) }),
{
    let mut metas: Vec<QWallpaperInfo> = Vec::new();
    let mut t: usize = 0;
    while t < e.metas.len()
        invariant
            t <= e.metas.len(),
            metas@.len() == t,
            forall|i: int|
                0 <= i < t ==> #[trigger] metas.deep_view()[i] == (WallpaperInfoView {
                    market: e.metas@[i].market@,
                    info: e.metas@[i].info@,
                }),
        decreases e.metas.len() - t,
    {
        let item = QWallpaperInfo {
            market: e.metas[t].market.clone(),
            info: e.metas[t].info.clone(),
        };
        let ghost prev = metas@;
        let ghost prev_deep = metas.deep_view();
        metas.push(item);
        proof {
            assert forall|i: int| 0 <= i < t + 1 implies #[trigger] metas.deep_view()[i]
                == (WallpaperInfoView {
                market: e.metas@[i].market@,
                info: e.metas@[i].info@,
            }) by {
                assert(metas.deep_view()[i] == metas@[i].deep_view());
                if i < t {
                    assert(metas@[i] == prev[i]);
                    assert(prev_deep[i] == prev[i].deep_view());
                } else {
                    assert(metas@[i] == item);
                }
            }
        }
        t = t + 1;
    }
    proof {
        assert(metas.deep_view() =~= Seq::new(
            e.metas@.len(),
            |i: int| WallpaperInfoView { market: e.metas@[i].market@, info: e.metas@[i].info@ },
        ));
    }
    let preview = String::from_str("https://wpdn.bohan.co").concat(e.urlbase.as_str()).concat(
        "_800x480.jpg",
    );
    let w = QWallpaper {
        name: e.name.clone(),
        preview,
        copyright: e.copyright.clone(),
        metas,
        wp: e.wp,
        like: liked,
        image: String::new(),
        loading: false,
        id: e.object_id.clone(),
        urlbase: e.urlbase.clone(),
    };
    proof {
        assert(w@ =~= (ItemView { like: liked, ..item_of_entry(*e, Seq::empty()) }));
    }
    w
}

/// What the download of one image needs: the identifier, the URL base,
/// the resolution to request, and whether the original resolution tier
/// may be tried first.
pub struct DownloadRequest {
    pub id: String,
    pub urlbase: String,
    pub resolution: String,
    pub try_original: bool,
}

/// The resolution downloads are requested in, as configured.
pub open spec fn selected_resolution_view(c: Config) -> Seq<char> {
    c.resolution.download@[c.resolution.download_index as int]@
}

/// The resolutions a download tries, in order: the original tier first
/// where the request allows it — which it only does for the one
/// resolution the original tier substitutes for — then the requested
/// resolution itself.
pub fn resolution_candidates(resolution: &String, try_original: bool) -> (r: Vec<String>)
    ensures
        (try_original && resolution@ == "1920x1080"@) ==> (r@.len() == 2 && r.deep_view()[0]
            == "1920x1200"@ && r.deep_view()[1] == resolution@),
        !(try_original && resolution@ == "1920x1080"@) ==> (r@.len() == 1 && r.deep_view()[0]
            == resolution@),
{
    let mut v: Vec<String> = Vec::new();
    if try_original && resolution.eq(&String::from_str("1920x1080")) {
        v.push(String::from_str("1920x1200"));
    }
    v.push(resolution.clone());
    proof {
        assert(v.deep_view()[v@.len() - 1] == v@[v@.len() - 1]@);
        if v@.len() == 2 {
            assert(v.deep_view()[0] == v@[0]@);
        }
    }
    v
}

/// The identifiers of a view's items, in order.
pub open spec fn item_ids(s: Seq<ItemView>) -> Seq<Seq<char>> {
    Seq::new(s.len(), |i: int| s[i].id)
}

/// Copies a list of market/info pairs.
fn clone_infos(v: &Vec<QWallpaperInfo>) -> (r: Vec<QWallpaperInfo>)
    ensures
        r.deep_view() =~= v.deep_view(),
{
    let mut r: Vec<QWallpaperInfo> = Vec::new();
    let mut t: usize = 0;
    while t < v.len()
        invariant
            t <= v.len(),
            r@.len() == t,
            forall|i: int| 0 <= i < t ==> #[trigger] r.deep_view()[i] == v.deep_view()[i],
        decreases v.len() - t,
    {
        let item = QWallpaperInfo { market: v[t].market.clone(), info: v[t].info.clone() };
        let ghost prev = r@;
        let ghost prev_deep = r.deep_view();
        r.push(item);
        proof {
            assert forall|i: int| 0 <= i < t + 1 implies #[trigger] r.deep_view()[i]
                == v.deep_view()[i] by {
                assert(r.deep_view()[i] == r@[i].deep_view());
                assert(v.deep_view()[i] == v@[i].deep_view());
                if i < t {
                    assert(r@[i] == prev[i]);
                    assert(prev_deep[i] == prev[i].deep_view());
                } else {
                    assert(r@[i] == item);
                    assert(item@ =~= v@[i]@);
                }
            }
        }
        t = t + 1;
    }
    r
}

/// Copies a display item; the copy has the same mathematical value.
fn clone_wallpaper(w: &QWallpaper) -> (r: QWallpaper)
    ensures
        r@ == w@,
{
    let r = QWallpaper {
        name: w.name.clone(),
        preview: w.preview.clone(),
        copyright: w.copyright.clone(),
        metas: clone_infos(&w.metas),
        wp: w.wp,
        like: w.like,
        image: w.image.clone(),
        loading: w.loading,
        id: w.id.clone(),
        urlbase: w.urlbase.clone(),
    };
    proof {
        assert(r@ =~= w@);
    }
    r
}

/// Unfolds the deep view of an item list: it is the item views,
/// pointwise.
pub proof fn lemma_items_deep(v: &Vec<QWallpaper>)
    ensures
        v.deep_view().len() == v@.len(),
        forall|i: int| 0 <= i < v@.len() ==> #[trigger] v.deep_view()[i] == v@[i]@,
{
}

/// How many entries one page asks the catalog for.
pub const MAX_WP_NUM_IN_A_PAGE: usize = 20;

/// One page request against the catalog: skip `offset` entries, take
/// `limit`, newest first.
pub struct PageRequest {
    pub offset: usize,
    pub limit: usize,
}

/// The mathematical value of the UI-owned state.
#[verifier::ext_equal]
pub ghost struct GalleryView {
    pub list: Seq<ItemView>,
    pub favorites: Seq<ItemView>,
    pub likes: Seq<Seq<char>>,
    pub offset: int,
    pub favorites_offset: int,
    pub list_loading: bool,
    pub favorites_loading: bool,
    pub diskusage_favorites: int,
    pub diskusage_others: int,
}

/// The invariants that tie the two views to the like-set:
/// an item of the main view is flagged liked exactly when its identifier
/// is in the like-set; the favorites view holds only liked members of
/// the like-set; no identifier appears twice in the like-set or in
/// either view; and no more favorites are materialized than the cursor
/// has requested.
pub open spec fn gallery_wf(g: GalleryView) -> bool {
    &&& distinct_ids(g.likes)
    &&& distinct_ids(item_ids(g.list))
    &&& distinct_ids(item_ids(g.favorites))
    &&& (forall|i: int|
        0 <= i < g.list.len() ==> ((#[trigger] g.list[i]).like <==> g.likes.contains(
            g.list[i].id,
        )))
    &&& (forall|i: int|
        0 <= i < g.favorites.len() ==> g.likes.contains((#[trigger] g.favorites[i]).id)
            && g.favorites[i].like)
    &&& g.favorites.len() <= g.favorites_offset
    &&& 0 <= g.offset
}

/// The UI-owned state: both views, their page cursors, the loading
/// flags, the disk-usage totals, and the configuration with the
/// canonical like-set.
pub struct Wallpapers {
    pub list: Vec<QWallpaper>,
    pub favorites: Vec<QWallpaper>,
    pub list_loading: bool,
    pub favorites_loading: bool,
    pub diskusage_others: u64,
    pub diskusage_favorites: u64,
    pub config: Config,
    pub offset: usize,
    pub favorites_offset: usize,
}

impl View for Wallpapers {
    type V = GalleryView;

    open spec fn view(&self) -> GalleryView {
        GalleryView {
            list: self.list.deep_view(),
            favorites: self.favorites.deep_view(),
            likes: self.config.likes.deep_view(),
            offset: self.offset as int,
            favorites_offset: self.favorites_offset as int,
            list_loading: self.list_loading,
            favorites_loading: self.favorites_loading,
            diskusage_favorites: self.diskusage_favorites as int,
            diskusage_others: self.diskusage_others as int,
        }
    }
}

/// The position of the first item carrying `id`, if any.
fn find_wallpaper(v: &Vec<QWallpaper>, id: &String) -> (r: Option<usize>)
    ensures
        (r matches Some(i) ==> i < v@.len() && find_in(item_ids(v.deep_view()), id@) == Some(
            i as int,
        )),
        (r is None ==> find_in(item_ids(v.deep_view()), id@) is None),
{
    let ghost ids = item_ids(v.deep_view());
    proof {
        lemma_items_deep(v);
    }
    let mut i: usize = 0;
    while i < v.len()
        invariant
            i <= v.len(),
            ids == item_ids(v.deep_view()),
            ids.len() == v@.len(),
            forall|j: int| 0 <= j < v@.len() ==> ids[j] == v@[j].id@,
            forall|j: int| 0 <= j < i ==> ids[j] != id@,
        decreases v.len() - i,
    {
        if v[i].id.eq(id) {
            proof {
                crate::likeset::lemma_find_in_at(ids, id@, i as int);
            }
            return Some(i);
        }
        i = i + 1;
    }
    proof {
        crate::likeset::lemma_find_in_spec(ids, id@);
        if ids.contains(id@) {
            let k = choose|k: int| 0 <= k < ids.len() && ids[k] == id@;
        }
    }
    None
}

impl Wallpapers {
    /// The views, cursors and like-set hang together as `gallery_wf`
    /// says, and the configuration is well-formed.
    pub open spec fn wf(&self) -> bool {
        &&& gallery_wf(self@)
        &&& self.config.wf()
    }

    /// A fresh state over a loaded configuration: both views empty, both
    /// cursors at zero, nothing loading, no usage reported yet.
    pub fn new(config: Config) -> (s: Self)
        requires
            config.wf(),
        ensures
            s.wf(),
            s@.list.len() == 0,
            s@.favorites.len() == 0,
            s@.offset == 0,
            s@.favorites_offset == 0,
            !s@.list_loading,
            !s@.favorites_loading,
            s@.diskusage_favorites == 0,
            s@.diskusage_others == 0,
            s.config == config,
    {
        let s = Wallpapers {
            list: Vec::new(),
            favorites: Vec::new(),
            list_loading: false,
            favorites_loading: false,
            diskusage_others: 0,
            diskusage_favorites: 0,
            config,
            offset: 0,
            favorites_offset: 0,
        };
        proof {
            lemma_items_deep(&s.list);
            lemma_items_deep(&s.favorites);
        }
        s
    }

    /// Starts fetching the next page of the main view: marks the view
    /// loading and advances the cursor by the page size — by exactly the
    /// page size whatever the fetch later returns — handing back the
    /// offset and limit the catalog is to be asked for.
    pub fn fetch_next_page(&mut self) -> (r: PageRequest)
        requires
            old(self).offset + MAX_WP_NUM_IN_A_PAGE <= usize::MAX,
        ensures
            r.offset == old(self)@.offset,
            r.limit == MAX_WP_NUM_IN_A_PAGE,
            final(self)@ == (GalleryView {
                offset: old(self)@.offset + MAX_WP_NUM_IN_A_PAGE as int,
                list_loading: true,
                ..old(self)@
            }),
            final(self).config == old(self).config,
            old(self).wf() ==> final(self).wf(),
    {
        self.list_loading = true;
        let r = PageRequest { offset: self.offset, limit: MAX_WP_NUM_IN_A_PAGE };
        self.offset = self.offset + MAX_WP_NUM_IN_A_PAGE;
        r
    }

    /// Applies a successfully fetched page of the main view: each entry
    /// becomes a display item flagged liked exactly when its identifier
    /// is in the like-set, appended in order; an entry whose identifier
    /// the view already shows is not added again. The loading flag
    /// clears; nothing else moves.
    pub fn apply_main_page(&mut self, entries: Vec<CatalogEntry>)
        requires
            old(self).wf(),
        ensures
            final(self).wf(),
            final(self)@ == (GalleryView {
                list: old(self)@.list + appended_items(
                    entries@,
                    item_ids(old(self)@.list),
                    old(self)@.likes,
                ),
                list_loading: false,
                ..old(self)@
            }),
            final(self).config == old(self).config,
    {
        let ghost orig = self@;
        let ghost pool_entries = entries@;
        let ghost target = orig.list + appended_items(entries@, item_ids(orig.list), orig.likes);
        let mut pool = entries;
        while pool.len() > 0
            invariant
                self.config == old(self).config,
                self.favorites == old(self).favorites,
                self.list_loading == old(self).list_loading,
                self.favorites_loading == old(self).favorites_loading,
                self.diskusage_favorites == old(self).diskusage_favorites,
                self.diskusage_others == old(self).diskusage_others,
                self.offset == old(self).offset,
                self.favorites_offset == old(self).favorites_offset,
                old(self).wf(),
                gallery_wf(self@),
                orig == old(self)@,
                target == orig.list + appended_items(pool_entries, item_ids(orig.list), orig.likes),
                self@.list + appended_items(pool@, item_ids(self@.list), self@.likes) =~= target,
            decreases pool.len(),
        {
            let ghost pool_before = pool@;
            let ghost list_before = self@.list;
            let e = pool.remove(0);
            proof {
                assert(pool@ =~= pool_before.drop_first());
                assert(pool_before[0] == e);
            }
            match find_wallpaper(&self.list, &e.object_id) {
                Some(_) => {
                    proof {
                        crate::likeset::lemma_find_in_spec(item_ids(self@.list), e.object_id@);
                        assert(item_ids(self@.list).contains(e.object_id@));
                    }
                },
                None => {
                    proof {
                        crate::likeset::lemma_find_in_spec(item_ids(self@.list), e.object_id@);
                        assert(!item_ids(self@.list).contains(e.object_id@));
                    }
                    let liked = crate::likeset::contains_id(&self.config.likes, &e.object_id);
                    let w = wallpaper_from_entry(&e, liked);
                    proof {
                        assert(w@ =~= item_of_entry(e, self@.likes));
                        lemma_items_deep(&self.list);
                    }
                    let ghost prev = self.list@;
                    let ghost prev_deep = self.list.deep_view();
                    self.list.push(w);
                    proof {
                        lemma_items_deep(&self.list);
                        assert(self.list.deep_view() =~= prev_deep.push(w@));
                        assert(item_ids(prev_deep.push(w@)) =~= item_ids(prev_deep).push(w@.id));
                        assert(self@.list + appended_items(pool@, item_ids(self@.list), self@.likes)
                            =~= target) by {
                            assert(list_before + appended_items(
                                pool_before,
                                item_ids(list_before),
                                orig.likes,
                            ) =~= target);
                            assert(appended_items(pool_before, item_ids(list_before), orig.likes)
                                == seq![item_of_entry(e, orig.likes)] + appended_items(
                                pool_before.drop_first(),
                                item_ids(list_before).push(e.object_id@),
                                orig.likes,
                            ));
                        }
                        assert(gallery_wf(self@)) by {
                            assert forall|i: int| 0 <= i < self@.list.len() implies ((
                            #[trigger] self@.list[i]).like <==> self@.likes.contains(
                                self@.list[i].id,
                            )) by {
                                if i < prev_deep.len() {
                                    assert(self@.list[i] == list_before[i]);
                                }
                            }
                            assert forall|i: int, j: int|
                                0 <= i < j < item_ids(self@.list).len() implies item_ids(
                                self@.list,
                            )[i] != item_ids(self@.list)[j] by {
                                if j < prev_deep.len() {
                                    assert(item_ids(list_before)[i] != item_ids(list_before)[j]);
                                } else {
                                    assert(item_ids(self@.list)[j] == w@.id);
                                    assert(item_ids(self@.list)[i] == item_ids(list_before)[i]);
                                    if item_ids(list_before)[i] == w@.id {
                                        assert(item_ids(list_before).contains(e.object_id@));
                                    }
                                }
                            }
                        }
                    }
                },
            }
        }
        self.list_loading = false;
        proof {
            assert(appended_items(pool@, item_ids(self@.list), self@.likes) =~= Seq::empty());
            assert(self@.list =~= target);
            assert(self@ =~= (GalleryView {
                list: orig.list + appended_items(entries@, item_ids(orig.list), orig.likes),
                list_loading: false,
                ..orig
            }));
        }
    }

    /// Toggles the liked status of the item at `index` of the main view
    /// (`in_favorites_page` false) or of the favorites view
    /// (`in_favorites_page` true): a strict flip, never an
    /// "ensure liked". The state changes exactly as `spec_toggle` says;
    /// the caller persists the configuration afterwards and re-runs the
    /// disk accounting, since the favorite/non-favorite split changed.
    /// Toggling a main-view item with no favorites-view counterpart is
    /// legal: the removal step is then a no-op search, not an error.
    pub fn like(&mut self, index: usize, in_favorites_page: bool)
        requires
            old(self).wf(),
            in_favorites_page ==> index < old(self)@.favorites.len(),
            !in_favorites_page ==> index < old(self)@.list.len(),
            old(self).favorites_offset < usize::MAX,
        ensures
            final(self).wf(),
            final(self)@ == spec_toggle(old(self)@, index as int, in_favorites_page),
            final(self).config == (Config { likes: final(self).config.likes, ..old(self).config }),
    {
        let ghost orig = self@;
        proof {
            lemma_items_deep(&self.list);
            lemma_items_deep(&self.favorites);
            lemma_toggle_wf(orig, index as int, in_favorites_page);
        }
        let id: String;
        let main_index: Option<usize>;
        let favorites_index: Option<usize>;
        let favorited: bool;
        if in_favorites_page {
            id = self.favorites[index].id.clone();
            main_index = find_wallpaper(&self.list, &id);
            favorites_index = Some(index);
            favorited = true;
        } else {
            id = self.list[index].id.clone();
            favorites_index = find_wallpaper(&self.favorites, &id);
            main_index = Some(index);
            favorited = self.list[index].like;
        }
        proof {
            crate::likeset::lemma_find_in_spec(item_ids(orig.favorites), id@);
            if in_favorites_page {
                assert(orig.favorites[index as int].id == id@);
            } else {
                assert(orig.list[index as int].id == id@);
            }
        }

        if let Some(fi) = favorites_index {
            let ghost favs_deep0 = self.favorites.deep_view();
            proof {
                if in_favorites_page {
                } else {
                    assert(fi < self.favorites@.len());
                }
            }
            self.favorites.remove(fi);
            proof {
                lemma_items_deep(&self.favorites);
                assert(self.favorites.deep_view() =~= favs_deep0.remove(fi as int));
            }
            self.favorites_offset = self.favorites_offset - 1;
        }

        if let Some(mi) = main_index {
            let newlike = !favorited;
            let ghost list_deep0 = self.list.deep_view();
            self.list[mi].like = newlike;
            proof {
                lemma_items_deep(&self.list);
                assert(self.list.deep_view() =~= list_deep0.update(
                    mi as int,
                    (ItemView { like: newlike, ..orig.list[mi as int] }),
                ));
            }
            if !favorited {
                let w = clone_wallpaper(&self.list[mi]);
                proof {
                    assert(w@ =~= (ItemView { like: newlike, ..orig.list[mi as int] }));
                }
                let ghost favs_deep1 = self.favorites.deep_view();
                self.favorites.insert(0, w);
                proof {
                    lemma_items_deep(&self.favorites);
                    assert(self.favorites.deep_view() =~= favs_deep1.insert(0, w@));
                }
                self.favorites_offset = self.favorites_offset + 1;
            }
        }

        if !favorited {
            crate::likeset::prepend_id(&mut self.config.likes, id);
        } else {
            crate::likeset::remove_id(&mut self.config.likes, &id);
        }
        proof {
            assert(self@ =~= spec_toggle(orig, index as int, in_favorites_page));
        }
    }

    /// Asks for the next page of the favorites view: the next run of
    /// identifiers of the like-set, at most a page of them, starting at
    /// the favorites cursor, which advances to the end of the run. The
    /// fetch short-circuits — nothing is asked for and nothing moves —
    /// once as many favorites are materialized as the like-set holds
    /// (that is the exhaustion signal: the server has no total count for
    /// an id-list query), or once the cursor has already requested the
    /// whole like-set.
    pub fn next_page_favorites(&mut self) -> (r: Option<Vec<String>>)
        requires
            old(self).wf(),
        ensures
            final(self).wf(),
            final(self).config == old(self).config,
            (old(self)@.favorites.len() == old(self)@.likes.len() || old(self)@.favorites_offset
                >= old(self)@.likes.len()) ==> (r is None && final(self)@ == old(self)@),
            (old(self)@.favorites.len() != old(self)@.likes.len() && old(self)@.favorites_offset
                < old(self)@.likes.len()) ==> ({
                let start = old(self)@.favorites_offset;
                let end = if old(self)@.likes.len() - start > MAX_WP_NUM_IN_A_PAGE as int {
                    start + MAX_WP_NUM_IN_A_PAGE as int
                } else {
                    old(self)@.likes.len() as int
                };
                &&& (r matches Some(ids) && ids.deep_view() == old(self)@.likes.subrange(
                    start,
                    end,
                ))
                &&& final(self)@ == (GalleryView {
                    favorites_offset: end,
                    favorites_loading: true,
                    ..old(self)@
                })
            }),
    {
        if self.favorites.len() == self.config.likes.len() {
            return None;
        }
        if self.favorites_offset >= self.config.likes.len() {
            return None;
        }
        self.favorites_loading = true;
        let start = self.favorites_offset;
        let end = if self.config.likes.len() - start > MAX_WP_NUM_IN_A_PAGE {
            start + MAX_WP_NUM_IN_A_PAGE
        } else {
            self.config.likes.len()
        };
        let mut ids: Vec<String> = Vec::new();
        let mut idx: usize = start;
        while idx < end
            invariant
                start <= idx <= end,
                end <= self.config.likes@.len(),
                ids.deep_view() =~= self.config.likes.deep_view().subrange(
                    start as int,
                    idx as int,
                ),
            decreases end - idx,
        {
            let ghost prev = ids.deep_view();
            ids.push(self.config.likes[idx].clone());
            proof {
                assert(ids.deep_view() =~= prev.push(self.config.likes.deep_view()[idx as int]));
                assert(ids.deep_view() =~= self.config.likes.deep_view().subrange(
                    start as int,
                    idx + 1,
                ));
            }
            idx = idx + 1;
        }
        self.favorites_offset = end;
        Some(ids)
    }

    /// Applies a successfully fetched page of the favorites view: each
    /// entry becomes a liked display item appended in order, except
    /// entries no longer in the like-set and entries the view already
    /// shows. The loading flag clears; nothing else moves. The page must
    /// answer an actual request: the cursor has already accounted for
    /// its entries.
    pub fn apply_favorites_page(&mut self, entries: Vec<CatalogEntry>)
        requires
            old(self).wf(),
            old(self)@.favorites.len() + entries@.len() <= old(self)@.favorites_offset,
        ensures
            final(self).wf(),
            final(self)@ == (GalleryView {
                favorites: old(self)@.favorites + appended_favorites(
                    entries@,
                    item_ids(old(self)@.favorites),
                    old(self)@.likes,
                ),
                favorites_loading: false,
                ..old(self)@
            }),
            final(self).config == old(self).config,
    {
        let ghost orig = self@;
        let ghost pool_entries = entries@;
        let ghost target = orig.favorites + appended_favorites(
            entries@,
            item_ids(orig.favorites),
            orig.likes,
        );
        let mut pool = entries;
        while pool.len() > 0
            invariant
                self.config == old(self).config,
                self.list == old(self).list,
                self.list_loading == old(self).list_loading,
                self.favorites_loading == old(self).favorites_loading,
                self.diskusage_favorites == old(self).diskusage_favorites,
                self.diskusage_others == old(self).diskusage_others,
                self.offset == old(self).offset,
                self.favorites_offset == old(self).favorites_offset,
                old(self).wf(),
                gallery_wf(self@),
                orig == old(self)@,
                self@.favorites.len() + pool@.len() <= self@.favorites_offset,
                target == orig.favorites + appended_favorites(
                    pool_entries,
                    item_ids(orig.favorites),
                    orig.likes,
                ),
                self@.favorites + appended_favorites(pool@, item_ids(self@.favorites), self@.likes)
                    =~= target,
            decreases pool.len(),
        {
            let ghost pool_before = pool@;
            let ghost favs_before = self@.favorites;
            let e = pool.remove(0);
            proof {
                assert(pool@ =~= pool_before.drop_first());
                assert(pool_before[0] == e);
            }
            let liked = crate::likeset::contains_id(&self.config.likes, &e.object_id);
            if !liked {
                proof {
                    assert(!self@.likes.contains(e.object_id@));
                }
            } else {
                match find_wallpaper(&self.favorites, &e.object_id) {
                    Some(_) => {
                        proof {
                            crate::likeset::lemma_find_in_spec(
                                item_ids(self@.favorites),
                                e.object_id@,
                            );
                            assert(item_ids(self@.favorites).contains(e.object_id@));
                        }
                    },
                    None => {
                        proof {
                            crate::likeset::lemma_find_in_spec(
                                item_ids(self@.favorites),
                                e.object_id@,
                            );
                            assert(!item_ids(self@.favorites).contains(e.object_id@));
                        }
                        let w = wallpaper_from_entry(&e, true);
                        proof {
                            assert(w@ =~= item_of_entry(e, self@.likes));
                            lemma_items_deep(&self.favorites);
                        }
                        let ghost prev_deep = self.favorites.deep_view();
                        self.favorites.push(w);
                        proof {
                            lemma_items_deep(&self.favorites);
                            assert(self.favorites.deep_view() =~= prev_deep.push(w@));
                            assert(item_ids(prev_deep.push(w@)) =~= item_ids(prev_deep).push(
                                w@.id,
                            ));
                            assert(self@.favorites + appended_favorites(
                                pool@,
                                item_ids(self@.favorites),
                                self@.likes,
                            ) =~= target) by {
                                assert(favs_before + appended_favorites(
                                    pool_before,
                                    item_ids(favs_before),
                                    orig.likes,
                                ) =~= target);
                                assert(appended_favorites(
                                    pool_before,
                                    item_ids(favs_before),
                                    orig.likes,
                                ) == seq![item_of_entry(e, orig.likes)] + appended_favorites(
                                    pool_before.drop_first(),
                                    item_ids(favs_before).push(e.object_id@),
                                    orig.likes,
                                ));
                            }
                            assert(gallery_wf(self@)) by {
                                assert forall|i: int|
                                    0 <= i < self@.favorites.len() implies self@.likes.contains(
                                    (#[trigger] self@.favorites[i]).id,
                                ) && self@.favorites[i].like by {
                                    if i < prev_deep.len() {
                                        assert(self@.favorites[i] == favs_before[i]);
                                    }
                                }
                                assert forall|i: int, j: int|
                                    0 <= i < j < item_ids(self@.favorites).len() implies item_ids(
                                    self@.favorites,
                                )[i] != item_ids(self@.favorites)[j] by {
                                    if j < prev_deep.len() {
                                        assert(item_ids(favs_before)[i] != item_ids(
                                            favs_before,
                                        )[j]);
                                    } else {
                                        assert(item_ids(self@.favorites)[j] == w@.id);
                                        assert(item_ids(self@.favorites)[i] == item_ids(
                                            favs_before,
                                        )[i]);
                                        if item_ids(favs_before)[i] == w@.id {
                                            assert(item_ids(favs_before).contains(e.object_id@));
                                        }
                                    }
                                }
                            }
                        }
                    },
                }
            }
        }
        self.favorites_loading = false;
        proof {
            assert(appended_favorites(pool@, item_ids(self@.favorites), self@.likes)
                =~= Seq::empty());
            assert(self@.favorites =~= target);
            assert(self@ =~= (GalleryView {
                favorites: orig.favorites + appended_favorites(
                    entries@,
                    item_ids(orig.favorites),
                    orig.likes,
                ),
                favorites_loading: false,
                ..orig
            }));
        }
    }

    /// Starts downloading the image of the item at `index` of the chosen
    /// view: marks the item loading and hands back what the download
    /// needs — the identifier, the URL base, the configured resolution,
    /// and whether the original tier may be tried, which it may only for
    /// a wallpaper-quality item under the opt-in.
    pub fn download(&mut self, index: usize, in_favorites_page: bool) -> (r: DownloadRequest)
        requires
            old(self).wf(),
            in_favorites_page ==> index < old(self)@.favorites.len(),
            !in_favorites_page ==> index < old(self)@.list.len(),
        ensures
            final(self).wf(),
            final(self).config == old(self).config,
            ({
                let item = if in_favorites_page {
                    old(self)@.favorites[index as int]
                } else {
                    old(self)@.list[index as int]
                };
                &&& r.id@ == item.id
                &&& r.urlbase@ == item.urlbase
                &&& r.resolution@ == selected_resolution_view(old(self).config)
                &&& r.try_original == (item.wp && old(self).config.resolution.original)
            }),
            in_favorites_page ==> final(self)@ == (GalleryView {
                favorites: old(self)@.favorites.update(
                    index as int,
                    (ItemView { loading: true, ..old(self)@.favorites[index as int] }),
                ),
                ..old(self)@
            }),
            !in_favorites_page ==> final(self)@ == (GalleryView {
                list: old(self)@.list.update(
                    index as int,
                    (ItemView { loading: true, ..old(self)@.list[index as int] }),
                ),
                ..old(self)@
            }),
    {
        let ghost orig = self@;
        proof {
            lemma_items_deep(&self.list);
            lemma_items_deep(&self.favorites);
        }
        let id: String;
        let urlbase: String;
        let wp: bool;
        if in_favorites_page {
            let ghost favs_deep0 = self.favorites.deep_view();
            self.favorites[index].loading = true;
            proof {
                lemma_items_deep(&self.favorites);
                assert(self.favorites.deep_view() =~= favs_deep0.update(
                    index as int,
                    (ItemView { loading: true, ..orig.favorites[index as int] }),
                ));
            }
            id = self.favorites[index].id.clone();
            urlbase = self.favorites[index].urlbase.clone();
            wp = self.favorites[index].wp;
        } else {
            let ghost list_deep0 = self.list.deep_view();
            self.list[index].loading = true;
            proof {
                lemma_items_deep(&self.list);
                assert(self.list.deep_view() =~= list_deep0.update(
                    index as int,
                    (ItemView { loading: true, ..orig.list[index as int] }),
                ));
            }
            id = self.list[index].id.clone();
            urlbase = self.list[index].urlbase.clone();
            wp = self.list[index].wp;
        }
        let resolution = self.config.selected_resolution().clone();
        let try_original = wp && self.config.resolution.original;
        proof {
            assert(gallery_wf(self@)) by {
                assert(item_ids(self@.list) =~= item_ids(orig.list));
                assert(item_ids(self@.favorites) =~= item_ids(orig.favorites));
                assert forall|i: int| 0 <= i < self@.list.len() implies ((
                #[trigger] self@.list[i]).like <==> self@.likes.contains(self@.list[i].id)) by {
                    assert(self@.list[i].like == orig.list[i].like && self@.list[i].id
                        == orig.list[i].id);
                }
                assert forall|i: int|
                    0 <= i < self@.favorites.len() implies self@.likes.contains(
                    (#[trigger] self@.favorites[i]).id,
                ) && self@.favorites[i].like by {
                    assert(self@.favorites[i].id == orig.favorites[i].id
                        && self@.favorites[i].like == orig.favorites[i].like);
                }
            }
        }
        DownloadRequest { id, urlbase, resolution, try_original }
    }

    /// What the download of one wallpaper needs: which image, from which
    /// URL base, at which resolution, and whether the original tier may
    /// be tried first.
    pub fn set_wallpaper(&self, index: usize, in_favorites_page: bool) -> (r: DownloadRequest)
        requires
            self.wf(),
            in_favorites_page ==> index < self@.favorites.len(),
            !in_favorites_page ==> index < self@.list.len(),
        ensures
            ({
                let item = if in_favorites_page {
                    self@.favorites[index as int]
                } else {
                    self@.list[index as int]
                };
                &&& r.id@ == item.id
                &&& r.urlbase@ == item.urlbase
                &&& r.resolution@ == selected_resolution_view(self.config)
                &&& r.try_original == (item.wp && self.config.resolution.original)
            }),
    {
        proof {
            lemma_items_deep(&self.list);
            lemma_items_deep(&self.favorites);
        }
        let id: String;
        let urlbase: String;
        let wp: bool;
        if in_favorites_page {
            id = self.favorites[index].id.clone();
            urlbase = self.favorites[index].urlbase.clone();
            wp = self.favorites[index].wp;
        } else {
            id = self.list[index].id.clone();
            urlbase = self.list[index].urlbase.clone();
            wp = self.list[index].wp;
        }
        let resolution = self.config.selected_resolution().clone();
        let try_original = wp && self.config.resolution.original;
        DownloadRequest { id, urlbase, resolution, try_original }
    }

    /// Applies a finished download to the item at `index` of the chosen
    /// view: the resolved path, behind a `file:` scheme, becomes the
    /// item's image, and its loading flag clears. A slot that no longer
    /// exists — the view shrank while the download ran — discards the
    /// result instead of writing anywhere stale.
    pub fn apply_download(&mut self, index: usize, in_favorites_page: bool, path: &String)
        requires
            old(self).wf(),
        ensures
            final(self).wf(),
            final(self).config == old(self).config,
            (in_favorites_page && index < old(self)@.favorites.len()) ==> final(self)@
                == (GalleryView {
                favorites: old(self)@.favorites.update(
                    index as int,
                    (ItemView {
                        image: "file:"@ + path@,
                        loading: false,
                        ..old(self)@.favorites[index as int]
                    }),
                ),
                ..old(self)@
            }),
            (!in_favorites_page && index < old(self)@.list.len()) ==> final(self)@
                == (GalleryView {
                list: old(self)@.list.update(
                    index as int,
                    (ItemView {
                        image: "file:"@ + path@,
                        loading: false,
                        ..old(self)@.list[index as int]
                    }),
                ),
                ..old(self)@
            }),
            (in_favorites_page && index >= old(self)@.favorites.len()) ==> *final(self)
                == *old(self),
            (!in_favorites_page && index >= old(self)@.list.len()) ==> *final(self) == *old(self),
    {
        let ghost orig = self@;
        proof {
            lemma_items_deep(&self.list);
            lemma_items_deep(&self.favorites);
        }
        let image = String::from_str("file:").concat(path.as_str());
        if in_favorites_page {
            if index < self.favorites.len() {
                let ghost favs_deep0 = self.favorites.deep_view();
                self.favorites[index].image = image;
                self.favorites[index].loading = false;
                proof {
                    lemma_items_deep(&self.favorites);
                    assert(self.favorites.deep_view() =~= favs_deep0.update(
                        index as int,
                        (ItemView {
                            image: "file:"@ + path@,
                            loading: false,
                            ..orig.favorites[index as int]
                        }),
                    ));
                    assert(gallery_wf(self@)) by {
                        assert(item_ids(self@.favorites) =~= item_ids(orig.favorites));
                        assert forall|i: int|
                            0 <= i < self@.favorites.len() implies self@.likes.contains(
                            (#[trigger] self@.favorites[i]).id,
                        ) && self@.favorites[i].like by {
                            assert(self@.favorites[i].id == orig.favorites[i].id
                                && self@.favorites[i].like == orig.favorites[i].like);
                        }
                    }
                }
            }
        } else {
            if index < self.list.len() {
                let ghost list_deep0 = self.list.deep_view();
                self.list[index].image = image;
                self.list[index].loading = false;
                proof {
                    lemma_items_deep(&self.list);
                    assert(self.list.deep_view() =~= list_deep0.update(
                        index as int,
                        (ItemView {
                            image: "file:"@ + path@,
                            loading: false,
                            ..orig.list[index as int]
                        }),
                    ));
                    assert(gallery_wf(self@)) by {
                        assert(item_ids(self@.list) =~= item_ids(orig.list));
                        assert forall|i: int| 0 <= i < self@.list.len() implies ((
                        #[trigger] self@.list[i]).like <==> self@.likes.contains(
                            self@.list[i].id,
                        )) by {
                            assert(self@.list[i].like == orig.list[i].like && self@.list[i].id
                                == orig.list[i].id);
                        }
                    }
                }
            }
        }
    }

    /// Re-runs the disk accounting over a scan of the download
    /// directory: plans the evictions under the current like-set,
    /// resolution and eviction age, and reports the surviving byte
    /// totals split into favorites and others. Answers the deletion
    /// flags for the caller to carry out; answers `None`, reporting
    /// nothing, when the scan hit a modification time in the future.
    /// Runs at startup, after every toggle, and after every finished
    /// download.
    pub fn update_diskusage_and_autoclean(&mut self, files: &Vec<CacheFile>, now: u64) -> (r:
        Option<Vec<bool>>)
        requires
            old(self).wf(),
            total_bytes(files@) <= u64::MAX,
        ensures
            final(self).wf(),
            final(self).config == old(self).config,
            ({
                let pol = EvictionPolicy {
                    likes: old(self)@.likes,
                    resolution: selected_resolution_view(old(self).config),
                    keep_original: old(self).config.resolution.original,
                    autoremove_days: old(self).config.autoremove as int,
                    now: now as int,
                };
                &&& (r is None <==> exists|t: int|
                    0 <= t < files@.len() && !(#[trigger] files@[t]).is_dir && files@[t].modified
                        > now)
                &&& (r is None ==> *final(self) == *old(self))
                &&& (r matches Some(del) ==> {
                    &&& del@.len() == files@.len()
                    &&& (forall|t: int|
                        0 <= t < files@.len() ==> del@[t] == (fate_of(
                            #[trigger] files@[t],
                            pol,
                        ) is Delete))
                    &&& final(self)@ == (GalleryView {
                        diskusage_favorites: total_size(files@, pol, FileFate::KeepFavorite),
                        diskusage_others: total_size(files@, pol, FileFate::KeepOther),
                        ..old(self)@
                    })
                })
            }),
    {
        let plan = crate::cache::rescan_plan(
            files,
            &self.config.likes,
            self.config.selected_resolution(),
            self.config.resolution.original,
            self.config.autoremove,
            now,
        );
        match plan {
            None => None,
            Some(p) => {
                self.diskusage_favorites = p.favorites_bytes;
                self.diskusage_others = p.others_bytes;
                Some(p.delete)
            },
        }
    }

    /// Plans the bulk cleanup that keeps only favorites — directories
    /// and every file whose name does not carry a liked identifier are
    /// flagged for deletion — and reports the non-favorites usage as
    /// zero, which is what remains once the flagged files are gone.
    pub fn clear_other_wallpapers(&mut self, files: &Vec<CacheFile>) -> (r: Vec<bool>)
        requires
            old(self).wf(),
        ensures
            final(self).wf(),
            final(self).config == old(self).config,
            r@.len() == files@.len(),
            forall|t: int|
                0 <= t < files@.len() ==> r@[t] == ((#[trigger] files@[t]).is_dir
                    || !old(self)@.likes.contains(crate::cache::prefix_id(files@[t].name@))),
            final(self)@ == (GalleryView { diskusage_others: 0, ..old(self)@ }),
    {
        let r = crate::cache::clear_other_plan(files, &self.config.likes);
        self.diskusage_others = 0;
        r
    }

    /// Decides the next auto-rotation step from the configured mode:
    /// the newest entry, one of the like-set drawn at random, or a
    /// random catalog entry. Favorites mode needs a non-empty like-set.
    pub fn next_wallpaper(&self) -> (r: crate::rotation::RotationPlan)
        requires
            self.wf(),
            self.config.auto_change.mode == 0 || self.config.auto_change.mode == 1
                || self.config.auto_change.mode == 2,
            self.config.auto_change.mode == 1 ==> self@.likes.len() > 0,
        ensures
            self.config.auto_change.mode == 0 ==> r is Newest,
            self.config.auto_change.mode == 1 ==> (r matches
                crate::rotation::RotationPlan::Favorite(id) && self@.likes.contains(id@)),
            self.config.auto_change.mode == 2 ==> r is Random,
    {
        let r = crate::rotation::plan_rotation(self.config.auto_change.mode, &self.config.likes);
        proof {
            if self.config.auto_change.mode == 1 {
                if let crate::rotation::RotationPlan::Favorite(id) = &r {
                    let i = choose|i: int|
                        0 <= i < self.config.likes@.len() && id@
                            == self.config.likes.deep_view()[i];
                    assert(self@.likes[i] == id@);
                }
            }
        }
        r
    }
}

/// The state after toggling the liked status of the item at `index` of
/// the main view (or of the favorites view, when the toggle came from
/// the favorites page), following the one six-step procedure both call
/// sites share: resolve the identifier and current liked state from the
/// originating view; remove the item from the favorites view wherever
/// it stands there, stepping the favorites cursor back; flip the liked
/// flag in the main view where the identifier is shown; when newly
/// liked, prepend a copy to the favorites view and step the cursor
/// forward; prepend the identifier to the like-set on like, remove it
/// on unlike.
pub open spec fn spec_toggle(g: GalleryView, index: int, in_favorites_page: bool) -> GalleryView {
    let id = if in_favorites_page {
        g.favorites[index].id
    } else {
        g.list[index].id
    };
    let favorited = if in_favorites_page {
        true
    } else {
        g.list[index].like
    };
    let main_index = if in_favorites_page {
        find_in(item_ids(g.list), id)
    } else {
        Some(index)
    };
    let favorites_index = if in_favorites_page {
        Some(index)
    } else {
        find_in(item_ids(g.favorites), id)
    };
    let favs1 = match favorites_index {
        Some(fi) => g.favorites.remove(fi),
        None => g.favorites,
    };
    let off1 = match favorites_index {
        Some(fi) => g.favorites_offset - 1,
        None => g.favorites_offset,
    };
    let list2 = match main_index {
        Some(mi) => g.list.update(mi, (ItemView { like: !favorited, ..g.list[mi] })),
        None => g.list,
    };
    let favs2 = match main_index {
        Some(mi) => if !favorited {
            favs1.insert(0, (ItemView { like: !favorited, ..g.list[mi] }))
        } else {
            favs1
        },
        None => favs1,
    };
    let off2 = match main_index {
        Some(mi) => if !favorited {
            off1 + 1
        } else {
            off1
        },
        None => off1,
    };
    let likes2 = if !favorited {
        g.likes.insert(0, id)
    } else {
        remove_first(g.likes, id)
    };
    GalleryView { list: list2, favorites: favs2, likes: likes2, favorites_offset: off2, ..g }
}

/// Toggling preserves every invariant of `gallery_wf`: the liked flags
/// keep agreeing with the like-set, the favorites view keeps holding
/// only liked members of it, no view gains a duplicate, and the
/// favorites cursor keeps covering the materialized favorites.
pub proof fn lemma_toggle_wf(g: GalleryView, index: int, in_favorites_page: bool)
    requires
        gallery_wf(g),
        in_favorites_page ==> 0 <= index < g.favorites.len(),
        !in_favorites_page ==> 0 <= index < g.list.len(),
    ensures
        gallery_wf(spec_toggle(g, index, in_favorites_page)),
{
    let g2 = spec_toggle(g, index, in_favorites_page);
    let id = if in_favorites_page {
        g.favorites[index].id
    } else {
        g.list[index].id
    };
    let favorited = if in_favorites_page {
        true
    } else {
        g.list[index].like
    };
    let main_index = if in_favorites_page {
        find_in(item_ids(g.list), id)
    } else {
        Some(index)
    };
    let favorites_index = if in_favorites_page {
        Some(index)
    } else {
        find_in(item_ids(g.favorites), id)
    };
    let favs1 = match favorites_index {
        Some(fi) => g.favorites.remove(fi),
        None => g.favorites,
    };

    crate::likeset::lemma_find_in_spec(item_ids(g.list), id);
    crate::likeset::lemma_find_in_spec(item_ids(g.favorites), id);

    if favorited {
        assert(g.likes.contains(id)) by {
            if in_favorites_page {
                assert(g.likes.contains(g.favorites[index].id));
            }
        }
    } else {
        assert(!g.likes.contains(id));
        assert(!item_ids(g.favorites).contains(id)) by {
            if item_ids(g.favorites).contains(id) {
                let k = choose|k: int|
                    0 <= k < g.favorites.len() && item_ids(g.favorites)[k] == id;
                assert(g.likes.contains(g.favorites[k].id));
            }
        }
        assert(favorites_index is None);
    }

    // Membership in the updated like-set.
    if favorited {
        crate::likeset::lemma_remove_first_contains(g.likes, id);
    } else {
        crate::likeset::lemma_insert0_distinct(g.likes, id);
        assert forall|x: Seq<char>| true implies (#[trigger] g2.likes.contains(x) <==> (x == id
            || g.likes.contains(x))) by {
            crate::likeset::lemma_insert0_contains(g.likes, id, x);
        }
    }

    // The favorites view after the removal step: still duplicate-free,
    // still liked members of the like-set, and free of `id` altogether.
    assert(distinct_ids(item_ids(favs1)) && (forall|i: int|
        0 <= i < favs1.len() ==> g.likes.contains((#[trigger] favs1[i]).id) && favs1[i].like)
        && !item_ids(favs1).contains(id)) by {
        match favorites_index {
            Some(fi) => {
                assert(g.favorites[fi].id == id);
                assert forall|k: int| 0 <= k < favs1.len() implies (#[trigger] favs1[k])
                    == (if k < fi {
                    g.favorites[k]
                } else {
                    g.favorites[k + 1]
                }) by {}
                assert forall|a: int, b: int|
                    0 <= a < b < item_ids(favs1).len() implies item_ids(favs1)[a] != item_ids(
                    favs1,
                )[b] by {
                    let a2 = if a < fi {
                        a
                    } else {
                        a + 1
                    };
                    let b2 = if b < fi {
                        b
                    } else {
                        b + 1
                    };
                    assert(item_ids(favs1)[a] == g.favorites[a2].id);
                    assert(item_ids(favs1)[b] == g.favorites[b2].id);
                    assert(item_ids(g.favorites)[a2] != item_ids(g.favorites)[b2]);
                }
                if item_ids(favs1).contains(id) {
                    let k = choose|k: int| 0 <= k < favs1.len() && item_ids(favs1)[k] == id;
                    let k2 = if k < fi {
                        k
                    } else {
                        k + 1
                    };
                    assert(item_ids(g.favorites)[k2] == id);
                    assert(item_ids(g.favorites)[fi] == id);
                }
            },
            None => {
                if item_ids(favs1).contains(id) {
                    let k = choose|k: int| 0 <= k < favs1.len() && item_ids(favs1)[k] == id;
                }
            },
        }
    }

    // The three pieces of the final state.
    match main_index {
        Some(mi) => {
            assert(g.list[mi].id == id);
            let w = ItemView { like: !favorited, ..g.list[mi] };
            assert(item_ids(g2.list) =~= item_ids(g.list));
            assert forall|i: int| 0 <= i < g2.list.len() implies ((#[trigger] g2.list[i]).like
                <==> g2.likes.contains(g2.list[i].id)) by {
                if i == mi {
                } else {
                    assert(g2.list[i] == g.list[i]);
                    assert(g.list[i].id != g.list[mi].id) by {
                        assert(item_ids(g.list)[i] != item_ids(g.list)[mi]);
                    }
                }
            }
            if !favorited {
                assert(g2.favorites =~= favs1.insert(0, w));
                assert(g2.favorites =~= seq![w] + favs1);
                assert forall|i: int|
                    0 <= i < g2.favorites.len() implies g2.likes.contains(
                    (#[trigger] g2.favorites[i]).id,
                ) && g2.favorites[i].like by {
                    if i > 0 {
                        assert(g2.favorites[i] == favs1[i - 1]);
                        assert(favs1[i - 1].id != id) by {
                            assert(item_ids(favs1)[i - 1] == favs1[i - 1].id);
                            if favs1[i - 1].id == id {
                                assert(item_ids(favs1).contains(id));
                            }
                        }
                    }
                }
                assert forall|a: int, b: int|
                    0 <= a < b < item_ids(g2.favorites).len() implies item_ids(g2.favorites)[a]
                    != item_ids(g2.favorites)[b] by {
                    if a == 0 {
                        assert(item_ids(g2.favorites)[a] == id);
                        assert(item_ids(g2.favorites)[b] == favs1[b - 1].id);
                        assert(item_ids(favs1)[b - 1] == favs1[b - 1].id);
                        if favs1[b - 1].id == id {
                            assert(item_ids(favs1).contains(id));
                        }
                    } else {
                        assert(item_ids(g2.favorites)[a] == favs1[a - 1].id);
                        assert(item_ids(g2.favorites)[b] == favs1[b - 1].id);
                        assert(item_ids(favs1)[a - 1] != item_ids(favs1)[b - 1]);
                    }
                }
            } else {
                assert(g2.favorites == favs1);
                assert forall|i: int|
                    0 <= i < g2.favorites.len() implies g2.likes.contains(
                    (#[trigger] g2.favorites[i]).id,
                ) && g2.favorites[i].like by {
                    assert(favs1[i].id != id) by {
                        assert(item_ids(favs1)[i] == favs1[i].id);
                        if favs1[i].id == id {
                            assert(item_ids(favs1).contains(id));
                        }
                    }
                }
            }
        },
        None => {
            assert(g2.list == g.list);
            assert(g2.favorites == favs1);
            assert(favorited);
            assert forall|i: int| 0 <= i < g2.list.len() implies ((#[trigger] g2.list[i]).like
                <==> g2.likes.contains(g2.list[i].id)) by {
                assert(g.list[i].id != id) by {
                    assert(item_ids(g.list)[i] == g.list[i].id);
                    if g.list[i].id == id {
                        assert(item_ids(g.list).contains(id));
                    }
                }
            }
            assert forall|i: int|
                0 <= i < g2.favorites.len() implies g2.likes.contains(
                (#[trigger] g2.favorites[i]).id,
            ) && g2.favorites[i].like by {
                assert(favs1[i].id != id) by {
                    assert(item_ids(favs1)[i] == favs1[i].id);
                    if favs1[i].id == id {
                        assert(item_ids(favs1).contains(id));
                    }
                }
            }
        },
    }
}

/// Liking an item twice in a row comes back to where it started:
/// toggling is a strict flip, so the second toggle un-likes the item
/// again, and the whole state — both views, both cursors and the
/// like-set — is exactly the one before the first toggle.
pub proof fn lemma_toggle_twice(g: GalleryView, index: int)
    requires
        gallery_wf(g),
        0 <= index < g.list.len(),
        !g.list[index].like,
    ensures
        spec_toggle(spec_toggle(g, index, false), index, false) == g,
{
    let id = g.list[index].id;
    let g1 = spec_toggle(g, index, false);
    crate::likeset::lemma_find_in_spec(item_ids(g.favorites), id);
    assert(!g.likes.contains(id));
    assert(!item_ids(g.favorites).contains(id)) by {
        if item_ids(g.favorites).contains(id) {
            let k = choose|k: int| 0 <= k < g.favorites.len() && item_ids(g.favorites)[k] == id;
            assert(g.likes.contains(g.favorites[k].id));
        }
    }
    let w = ItemView { like: true, ..g.list[index] };
    assert(g1.list == g.list.update(index, w));
    assert(g1.favorites == g.favorites.insert(0, w));
    assert(g1.likes == g.likes.insert(0, id));
    assert(g1.favorites_offset == g.favorites_offset + 1);

    // The second toggle sees the same item, now liked, standing first in
    // the favorites view.
    assert(g1.list[index].id == id);
    assert(g1.list[index].like);
    assert(g1.favorites[0].id == id) by {
        assert(g1.favorites =~= seq![w] + g.favorites);
    }
    assert(item_ids(g1.favorites)[0] == id);
    crate::likeset::lemma_find_in_at(item_ids(g1.favorites), id, 0);

    let g2 = spec_toggle(g1, index, false);
    assert(g2.favorites =~= g.favorites) by {
        assert(g1.favorites.remove(0) =~= g.favorites) by {
            assert(g1.favorites =~= seq![w] + g.favorites);
        }
    }
    assert(g2.favorites_offset == g.favorites_offset);
    assert(g2.list =~= g.list) by {
        assert((ItemView { like: false, ..g1.list[index] }) =~= g.list[index]);
    }
    assert(g2.likes =~= g.likes) by {
        assert(g1.likes =~= seq![id] + g.likes);
        assert(remove_first(g1.likes, id) =~= g.likes);
    }
    assert(g2 =~= g);
}

/// The cursor of a view after `n` full page fetches of size `limit`.
pub open spec fn cursor_after_pages(n: nat, limit: nat) -> nat
    decreases n,
{
    if n == 0 {
        0nat
    } else {
        cursor_after_pages((n - 1) as nat, limit) + limit
    }
}

/// Fetching page after page always requests offsets in strict page
/// steps: starting from a fresh cursor, the fetch of page `n` asks the
/// catalog to skip exactly `n * limit` entries — whatever each earlier
/// page actually returned, since the cursor advances by the full page
/// size on every fetch.
pub proof fn lemma_pagination_offsets(n: nat, limit: nat)
    ensures
        cursor_after_pages(n, limit) == n * limit,
    decreases n,
{
    if n == 0 {
        assert(n * limit == 0) by (nonlinear_arith)
            requires
                n == 0,
        ;
    } else {
        lemma_pagination_offsets((n - 1) as nat, limit);
        assert(cursor_after_pages(n, limit) == cursor_after_pages((n - 1) as nat, limit) + limit);
        assert((n - 1) * limit + limit == n * limit) by (nonlinear_arith);
    }
}

/// The display items a page of an id-list fetch appends to the
/// favorites view whose items already carry the identifiers `base`:
/// each entry in order, except those no longer in the like-set (an
/// unlike can race the fetch) and those the view (or an earlier entry
/// of the page) already holds.
pub open spec fn appended_favorites(
    entries: Seq<CatalogEntry>,
    base: Seq<Seq<char>>,
    likes: Seq<Seq<char>>,
) -> Seq<ItemView>
    decreases entries.len(),
{
    if entries.len() == 0 {
        Seq::empty()
    } else {
        let e = entries[0];
        if !likes.contains(e.object_id@) || base.contains(e.object_id@) {
            appended_favorites(entries.drop_first(), base, likes)
        } else {
            seq![item_of_entry(e, likes)] + appended_favorites(
                entries.drop_first(),
                base.push(e.object_id@),
                likes,
            )
        }
    }
}

/// The display items a page of entries appends to a view whose items
/// already carry the identifiers `base`: each entry in order, projected
/// and tagged against `likes`, except those whose identifier the view
/// (or an earlier entry of the page) already holds.
pub open spec fn appended_items(
    entries: Seq<CatalogEntry>,
    base: Seq<Seq<char>>,
    likes: Seq<Seq<char>>,
) -> Seq<ItemView>
    decreases entries.len(),
{
    if entries.len() == 0 {
        Seq::empty()
    } else {
        let e = entries[0];
        if base.contains(e.object_id@) {
            appended_items(entries.drop_first(), base, likes)
        } else {
            seq![item_of_entry(e, likes)] + appended_items(
                entries.drop_first(),
                base.push(e.object_id@),
                likes,
            )
        }
    }
}

} // verus!
