//! Catalog entries as the remote service reports them, the metadata
//! join that attaches market/info records to entries, and the re-sort
//! that puts an id-list fetch back into the caller's order. The HTTP
//! requests themselves happen outside the crate; the merging rules live
//! here.

use vstd::prelude::*;
use crate::likeset::find_in;

verus! {

/// A metadata record of the secondary join: a market/info pair and the
/// identifier of the entry it belongs to.
pub struct ImageMeta {
    pub market: String,
    pub info: String,
    pub image_id: String,
}

/// A catalog entry as fetched: identifier, display name, URL base,
/// copyright line, wallpaper-quality flag, creation time in seconds
/// since the epoch where the server reports one, and the attached
/// metadata records.
pub struct CatalogEntry {
    pub name: String,
    pub urlbase: String,
    pub copyright: String,
    pub object_id: String,
    pub wp: bool,
    pub created_at: Option<i64>,
    pub metas: Vec<ImageMeta>,
}

/// The identifiers of a run of entries, in order.
pub open spec fn entry_ids(s: Seq<CatalogEntry>) -> Seq<Seq<char>> {
    Seq::new(s.len(), |i: int| s[i].object_id@)
}

/// Everything of an entry except its attached metadata.
pub open spec fn same_entry_except_metas(a: CatalogEntry, b: CatalogEntry) -> bool {
    &&& a.name == b.name
    &&& a.urlbase == b.urlbase
    &&& a.copyright == b.copyright
    &&& a.object_id == b.object_id
    &&& a.wp == b.wp
    &&& a.created_at == b.created_at
}

/// The metadata records of `ms`, in order, that the join attaches to the
/// entry at position `e`: those whose identifier finds its first match
/// among the entry identifiers `ids` exactly at `e`.
pub open spec fn metas_attached(ms: Seq<ImageMeta>, ids: Seq<Seq<char>>, e: int) -> Seq<ImageMeta>
    decreases ms.len(),
{
    if ms.len() == 0 {
        Seq::empty()
    } else {
        metas_attached(ms.drop_last(), ids, e) + (if find_in(ids, ms.last().image_id@) == Some(e) {
            seq![ms.last()]
        } else {
            Seq::<ImageMeta>::empty()
        })
    }
}

/// The position of the first entry carrying `id`, if any.
fn find_entry(images: &Vec<CatalogEntry>, id: &String) -> (r: Option<usize>)
    ensures
        (r matches Some(i) ==> i < images@.len() && find_in(entry_ids(images@), id@) == Some(
            i as int,
        )),
        (r is None ==> find_in(entry_ids(images@), id@) is None),
{
    let ghost ids = entry_ids(images@);
    let mut i: usize = 0;
    while i < images.len()
        invariant
            i <= images.len(),
            ids == entry_ids(images@),
            forall|j: int| 0 <= j < i ==> ids[j] != id@,
        decreases images.len() - i,
    {
        if images[i].object_id.eq(id) {
            proof {
                crate::likeset::lemma_find_in_at(ids, id@, i as int);
            }
            return Some(i);
        }
        i = i + 1;
    }
    proof {
        crate::likeset::lemma_find_in_spec(ids, id@);
        if ids.contains(id@) {
            let k = choose|k: int| 0 <= k < ids.len() && ids[k] == id@;
        }
    }
    None
}

/// Joins the metadata records into the entries: each record attaches to
/// the first entry whose identifier matches it, in record order, and to
/// no other; a record matching no entry is dropped. Nothing else about
/// the entries changes.
pub fn fill_wallpapers_metadata(images: &mut Vec<CatalogEntry>, metas: Vec<ImageMeta>)
    ensures
        final(images)@.len() == old(images)@.len(),
        forall|e: int|
            0 <= e < old(images)@.len() ==> same_entry_except_metas(
                #[trigger] final(images)@[e],
                old(images)@[e],
            ),
        forall|e: int|
            0 <= e < old(images)@.len() ==> (#[trigger] final(images)@[e]).metas@ == old(
                images,
            )@[e].metas@ + metas_attached(metas@, entry_ids(old(images)@), e),
{
    let ghost all = metas@;
    let ghost ids = entry_ids(old(images)@);
    let ghost orig = old(images)@;
    let mut ms = metas;
    let ghost mut m: int = 0;
    while ms.len() > 0
        invariant
            0 <= m <= all.len(),
            ms@ == all.skip(m),
            images@.len() == orig.len(),
            ids == entry_ids(orig),
            entry_ids(images@) == ids,
            forall|e: int|
                0 <= e < orig.len() ==> same_entry_except_metas(#[trigger] images@[e], orig[e]),
            forall|e: int|
                0 <= e < orig.len() ==> (#[trigger] images@[e]).metas@ == orig[e].metas@
                    + metas_attached(all.take(m), ids, e),
        decreases ms.len(),
    {
        proof {
            assert(all.take(m + 1).drop_last() =~= all.take(m));
            assert(all.take(m + 1).last() == all[m as int]);
            assert(all.skip(m)[0] == all[m as int]);
        }
        let meta = ms.remove(0);
        proof {
            assert(ms@ =~= all.skip(m + 1));
        }
        let ghost before = images@;
        match find_entry(images, &meta.image_id) {
            Some(i) => {
                images[i].metas.push(meta);
                proof {
                    assert(entry_ids(images@) =~= ids);
                    assert forall|e: int| 0 <= e < orig.len() implies (#[trigger] images@[e]).metas@
                        == orig[e].metas@ + metas_attached(all.take(m + 1), ids, e) by {
                        if e == i {
                            assert(images@[e].metas@ == before[e].metas@ + seq![all[m as int]]);
                            assert(metas_attached(all.take(m + 1), ids, e) =~= metas_attached(
                                all.take(m),
                                ids,
                                e,
                            ) + seq![all[m as int]]);
                            assert(images@[e].metas@ =~= orig[e].metas@ + metas_attached(
                                all.take(m + 1),
                                ids,
                                e,
                            ));
                        } else {
                            assert(images@[e] == before[e]);
                            assert(metas_attached(all.take(m + 1), ids, e) =~= metas_attached(
                                all.take(m),
                                ids,
                                e,
                            ));
                        }
                    }
                }
            },
            None => {
                proof {
                    assert forall|e: int| 0 <= e < orig.len() implies metas_attached(
                        all.take(m + 1),
                        ids,
                        e,
                    ) =~= metas_attached(all.take(m), ids, e) by {}
                }
            },
        }
        proof {
            m = m + 1;
        }
    }
    proof {
        assert(all.take(m) =~= all);
    }
}

/// The entries of an id-list fetch, re-sorted to the caller's order:
/// for each identifier in turn, the first remaining entry carrying it is
/// taken next; identifiers without an entry contribute nothing, and
/// entries whose identifier was never asked for are left out.
pub open spec fn arrange_by_ids(ids: Seq<Seq<char>>, entries: Seq<CatalogEntry>) -> Seq<
    CatalogEntry,
>
    decreases ids.len(),
{
    if ids.len() == 0 {
        Seq::empty()
    } else {
        match find_in(entry_ids(entries), ids[0]) {
            Some(p) => seq![entries[p]] + arrange_by_ids(ids.drop_first(), entries.remove(p)),
            None => arrange_by_ids(ids.drop_first(), entries),
        }
    }
}

/// Re-sorts the entries of an id-list fetch into the order of `ids`,
/// matching each identifier with the first remaining entry that carries
/// it.
pub fn reorder_by_ids(entries: Vec<CatalogEntry>, ids: &Vec<String>) -> (r: Vec<CatalogEntry>)
    ensures
        r@ == arrange_by_ids(ids.deep_view(), entries@),
{
    let ghost all = ids.deep_view();
    let ghost orig = entries@;
    let mut pool = entries;
    let mut out: Vec<CatalogEntry> = Vec::new();
    proof {
        assert(all.skip(0) =~= all);
    }
    let mut i: usize = 0;
    while i < ids.len()
        invariant
            i <= ids.len(),
            all == ids.deep_view(),
            out@ + arrange_by_ids(all.skip(i as int), pool@) =~= arrange_by_ids(all, orig),
        decreases ids.len() - i,
    {
        proof {
            assert(all.skip(i as int)[0] == all[i as int]);
            assert(all.skip(i as int).drop_first() =~= all.skip(i + 1));
        }
        let ghost pool_before = pool@;
        match find_entry(&pool, &ids[i]) {
            Some(p) => {
                let e = pool.remove(p);
                out.push(e);
                proof {
                    let picked = seq![pool_before[p as int]];
                    assert(arrange_by_ids(all.skip(i as int), pool_before) == picked
                        + arrange_by_ids(all.skip(i + 1), pool@));
                    assert(out@ + arrange_by_ids(all.skip(i + 1), pool@) =~= arrange_by_ids(
                        all,
                        orig,
                    ));
                }
            },
            None => {
                proof {
                    assert(arrange_by_ids(all.skip(i as int), pool@) == arrange_by_ids(
                        all.skip(i + 1),
                        pool@,
                    ));
                }
            },
        }
        i = i + 1;
    }
    proof {
        assert(all.skip(i as int).len() == 0);
        assert(out@ + arrange_by_ids(all.skip(i as int), pool@) =~= out@);
    }
    out
}

} // verus!
