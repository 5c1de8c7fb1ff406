//! The disk cache: classification of downloaded files by the naming
//! convention `{id}_{width}x{height}.{ext}`, the eviction policy, and
//! the byte totals split into favorites and others. The directory scan
//! itself (reading entries, sizes and modification times, deleting
//! files) happens outside the crate; the decisions are made here.

use vstd::prelude::*;
use vstd::string::StrSliceExecFns;
use vstd::string::StringExecFns;

verus! {

/// An ASCII letter or digit: the only characters an identifier may hold.
pub open spec fn is_alnum(c: char) -> bool {
    let u = c as u32;
    (48 <= u && u <= 57) || (65 <= u && u <= 90) || (97 <= u && u <= 122)
}

/// An ASCII digit.
pub open spec fn is_digit(c: char) -> bool {
    let u = c as u32;
    48 <= u && u <= 57
}

/// A word character: letter, digit or underscore; the extension is made
/// of these.
pub open spec fn is_word(c: char) -> bool {
    is_alnum(c) || c as u32 == 95
}

/// The character class scanned over: identifier, digit run, extension,
/// or anything short of an underscore.
pub open spec fn char_in_class(mode: u8, c: char) -> bool {
    if mode == 0 {
        is_alnum(c)
    } else if mode == 1 {
        is_digit(c)
    } else if mode == 2 {
        is_word(c)
    } else {
        c as u32 != 95
    }
}

/// Tests one character for a class.
fn char_class_test(mode: u8, c: char) -> (r: bool)
    ensures
        r == char_in_class(mode, c),
{
    let u = c as u32;
    if mode == 0 {
        (48 <= u && u <= 57) || (65 <= u && u <= 90) || (97 <= u && u <= 122)
    } else if mode == 1 {
        48 <= u && u <= 57
    } else if mode == 2 {
        (48 <= u && u <= 57) || (65 <= u && u <= 90) || (97 <= u && u <= 122) || u == 95
    } else {
        u != 95
    }
}

/// The end of the run of class characters that starts at `from`.
fn scan_class(file: &str, from: usize, mode: u8) -> (r: usize)
    requires
        from <= file@.len(),
    ensures
        from <= r <= file@.len(),
        forall|p: int| from <= p < r ==> char_in_class(mode, #[trigger] file@[p]),
        r < file@.len() ==> !char_in_class(mode, file@[r as int]),
{
    let n = file.unicode_len();
    let mut i: usize = from;
    while i < n
        invariant
            from <= i <= n,
            n == file@.len(),
            forall|p: int| from <= p < i ==> char_in_class(mode, #[trigger] file@[p]),
        decreases n - i,
    {
        if !char_class_test(mode, file.get_char(i)) {
            return i;
        }
        i = i + 1;
    }
    i
}

/// The positions `i`, `j`, `k` cut `s` into the shape
/// `{id}_{width}x{height}.{ext}`: `s[i]` is the underscore after the
/// identifier, `s[j]` the `x` between the digit runs, `s[k]` the dot
/// before the extension, and every run is non-empty.
pub open spec fn wallpaper_name_split(s: Seq<char>, i: int, j: int, k: int) -> bool {
    &&& 1 <= i
    &&& i + 1 < j
    &&& j + 1 < k
    &&& k + 1 < s.len()
    &&& (forall|p: int| 0 <= p < i ==> is_alnum(#[trigger] s[p]))
    &&& s[i] == '_'
    &&& (forall|p: int| i < p < j ==> is_digit(#[trigger] s[p]))
    &&& s[j] == 'x'
    &&& (forall|p: int| j < p < k ==> is_digit(#[trigger] s[p]))
    &&& s[k] == '.'
    &&& (forall|p: int| k < p < s.len() ==> is_word(#[trigger] s[p]))
}

/// Whether `s` has the shape `{id}_{width}x{height}.{ext}`: the only
/// shape the disk cache recognizes as its own.
pub open spec fn valid_wallpaper_name(s: Seq<char>) -> bool {
    exists|i: int, j: int, k: int| wallpaper_name_split(s, i, j, k)
}

/// The cuts of a valid name.
pub open spec fn name_split(s: Seq<char>) -> (int, int, int) {
    choose|i: int, j: int, k: int| wallpaper_name_split(s, i, j, k)
}

/// The identifier of a valid name: everything before the underscore.
pub open spec fn name_id(s: Seq<char>) -> Seq<char> {
    s.subrange(0, name_split(s).0)
}

/// The resolution of a valid name: the `{width}x{height}` run between
/// underscore and dot.
pub open spec fn name_res(s: Seq<char>) -> Seq<char> {
    s.subrange(name_split(s).0 + 1, name_split(s).2)
}

/// A name cuts in at most one way: the underscore, the `x` and the dot
/// of a split are each the first character of their kind that the run
/// before them allows.
pub proof fn lemma_split_unique(s: Seq<char>, i1: int, j1: int, k1: int, i2: int, j2: int, k2: int)
    requires
        wallpaper_name_split(s, i1, j1, k1),
        wallpaper_name_split(s, i2, j2, k2),
    ensures
        i1 == i2,
        j1 == j2,
        k1 == k2,
{
    assert(!is_alnum('_'));
    assert(!is_digit('x'));
    assert(!is_digit('.'));
    if i1 < i2 {
        assert(is_alnum(s[i1]));
    } else if i2 < i1 {
        assert(is_alnum(s[i2]));
    }
    if j1 < j2 {
        assert(is_digit(s[j1]));
    } else if j2 < j1 {
        assert(is_digit(s[j2]));
    }
    if k1 < k2 {
        assert(is_digit(s[k1]));
    } else if k2 < k1 {
        assert(is_digit(s[k2]));
    }
}

/// Parses a cache file name of the shape `{id}_{width}x{height}.{ext}`
/// into its identifier and resolution. Any other name is foreign to the
/// cache and answered with `None`.
pub fn parse_wallpaper_filename(file: &str) -> (r: Option<(String, String)>)
    ensures
        (r matches Some(p) ==> valid_wallpaper_name(file@) && p.0@ == name_id(file@) && p.1@
            == name_res(file@)),
        (r is None ==> !valid_wallpaper_name(file@)),
{
    let ghost s = file@;
    proof {
        assert(!is_alnum('_'));
        assert(!is_digit('x'));
        assert(!is_digit('.'));
    }
    let n = file.unicode_len();

    let i = scan_class(file, 0, 0);
    if i == 0 || i >= n || file.get_char(i) != '_' {
        proof {
            if valid_wallpaper_name(s) {
                let (a, b, c) = choose|a: int, b: int, c: int| wallpaper_name_split(s, a, b, c);
                assert(wallpaper_name_split(s, a, b, c));
                assert(a == i);
            }
        }
        return None;
    }

    let j = scan_class(file, i + 1, 1);
    if j == i + 1 || j >= n || file.get_char(j) != 'x' {
        proof {
            if valid_wallpaper_name(s) {
                let (a, b, c) = choose|a: int, b: int, c: int| wallpaper_name_split(s, a, b, c);
                assert(wallpaper_name_split(s, a, b, c));
                assert(a == i);
                assert(b == j);
            }
        }
        return None;
    }

    let k = scan_class(file, j + 1, 1);
    if k == j + 1 || k >= n || file.get_char(k) != '.' {
        proof {
            if valid_wallpaper_name(s) {
                let (a, b, c) = choose|a: int, b: int, c: int| wallpaper_name_split(s, a, b, c);
                assert(wallpaper_name_split(s, a, b, c));
                assert(a == i);
                assert(b == j);
                assert(c == k);
            }
        }
        return None;
    }

    if k + 1 >= n {
        proof {
            if valid_wallpaper_name(s) {
                let (a, b, c) = choose|a: int, b: int, c: int| wallpaper_name_split(s, a, b, c);
                assert(wallpaper_name_split(s, a, b, c));
                assert(a == i);
                assert(b == j);
                assert(c == k);
            }
        }
        return None;
    }

    let q = scan_class(file, k + 1, 2);
    if q < n {
        proof {
            if valid_wallpaper_name(s) {
                let (a, b, c) = choose|a: int, b: int, c: int| wallpaper_name_split(s, a, b, c);
                assert(wallpaper_name_split(s, a, b, c));
                assert(a == i);
                assert(b == j);
                assert(c == k);
                assert(is_word(s[q as int]));
            }
        }
        return None;
    }

    proof {
        assert(wallpaper_name_split(s, i as int, j as int, k as int));
        let t = name_split(s);
        assert(wallpaper_name_split(s, t.0, t.1, t.2));
        lemma_split_unique(s, t.0, t.1, t.2, i as int, j as int, k as int);
    }
    let id = file.substring_char(0, i).to_owned();
    let res = file.substring_char(i + 1, k).to_owned();
    Some((id, res))
}

/// Builds the cache file name a download writes:
/// `{id}_{resolution}.jpg`, the same shape the scan recognizes.
pub fn make_cache_filename(id: &String, res: &String) -> (r: String)
    ensures
        r@ == id@ + "_"@ + res@ + ".jpg"@,
{
    let r = id.clone().concat("_").concat(res.as_str()).concat(".jpg");
    proof {
        reveal_strlit("_");
        reveal_strlit(".jpg");
        assert(r@ =~= id@ + "_"@ + res@ + ".jpg"@);
    }
    r
}

/// A resolution string of the shape `{width}x{height}`: digits, one
/// `x`, digits.
pub open spec fn valid_resolution_text(res: Seq<char>, m: int) -> bool {
    &&& 0 < m < res.len() - 1
    &&& res[m] == 'x'
    &&& (forall|p: int| 0 <= p < m ==> is_digit(#[trigger] res[p]))
    &&& (forall|p: int| m < p < res.len() ==> is_digit(#[trigger] res[p]))
}

/// A name the download writes is one the scan recognizes, and it reads
/// back exactly the identifier and resolution it was built from — the
/// producer and the parser agree on the naming convention.
pub proof fn lemma_cache_name_round_trip(id: Seq<char>, res: Seq<char>, m: int)
    requires
        id.len() > 0,
        forall|p: int| 0 <= p < id.len() ==> is_alnum(#[trigger] id[p]),
        valid_resolution_text(res, m),
    ensures
        ({
            let name = id + "_"@ + res + ".jpg"@;
            &&& valid_wallpaper_name(name)
            &&& name_id(name) == id
            &&& name_res(name) == res
        }),
{
    reveal_strlit("_");
    reveal_strlit(".jpg");
    let name = id + "_"@ + res + ".jpg"@;
    let i = id.len() as int;
    let j = i + 1 + m;
    let k = i + 1 + res.len();
    assert(name.len() == id.len() + 1 + res.len() + 4);
    assert(name[i] == '_');
    assert(name[j] == res[m]);
    assert(name[k] == '.');
    assert(name[k + 1] == 'j' && name[k + 2] == 'p' && name[k + 3] == 'g');
    assert(is_word('j') && is_word('p') && is_word('g'));
    assert(wallpaper_name_split(name, i, j, k)) by {
        assert forall|p: int| 0 <= p < i implies is_alnum(#[trigger] name[p]) by {
            assert(name[p] == id[p]);
        }
        assert forall|p: int| i < p < j implies is_digit(#[trigger] name[p]) by {
            assert(name[p] == res[p - i - 1]);
        }
        assert forall|p: int| j < p < k implies is_digit(#[trigger] name[p]) by {
            assert(name[p] == res[p - i - 1]);
        }
        assert forall|p: int| k < p < name.len() implies is_word(#[trigger] name[p]) by {
            assert(p == k + 1 || p == k + 2 || p == k + 3);
        }
    }
    let t = name_split(name);
    assert(wallpaper_name_split(name, t.0, t.1, t.2));
    lemma_split_unique(name, t.0, t.1, t.2, i, j, k);
    assert(name_id(name) =~= id);
    assert(name_res(name) =~= res);
}

/// The identifier read the loose way the bulk cleaner reads it:
/// everything before the first underscore, or the whole name when there
/// is none.
pub open spec fn prefix_id(s: Seq<char>) -> Seq<char>
    decreases s.len(),
{
    if s.len() == 0 {
        s
    } else if s[0] as u32 == 95 {
        Seq::empty()
    } else {
        seq![s[0]] + prefix_id(s.drop_first())
    }
}

/// When no underscore stands before position `u`, and `u` is the end or
/// an underscore, the loose identifier is exactly the first `u`
/// characters.
pub proof fn lemma_prefix_id_at(s: Seq<char>, u: int)
    requires
        0 <= u <= s.len(),
        forall|p: int| 0 <= p < u ==> (#[trigger] s[p]) as u32 != 95,
        u == s.len() || s[u] as u32 == 95,
    ensures
        prefix_id(s) =~= s.subrange(0, u),
    decreases u,
{
    if s.len() == 0 {
    } else if u == 0 {
    } else {
        assert(forall|p: int| 0 <= p < u - 1 ==> #[trigger] s.drop_first()[p] == s[p + 1]);
        lemma_prefix_id_at(s.drop_first(), u - 1);
        assert(seq![s[0]] + s.drop_first().subrange(0, u - 1) =~= s.subrange(0, u));
    }
}

/// A directory entry as the scan reports it: its name, whether it is
/// itself a directory, its size in bytes, and its modification time in
/// seconds since the epoch.
pub struct CacheFile {
    pub name: String,
    pub is_dir: bool,
    pub size: u64,
    pub modified: u64,
}

/// What the eviction policy does with one entry: delete it, or keep it
/// and count its size towards the favorites or the others total.
#[derive(Clone, Copy, Debug, PartialEq, Eq, Structural)]
pub enum FileFate {
    Delete,
    KeepFavorite,
    KeepOther,
}

/// Everything the eviction policy reads besides the file itself: the
/// like-set, the configured resolution, the opt-in for the original
/// resolution tier, the eviction age in days, and the current time in
/// seconds since the epoch.
pub ghost struct EvictionPolicy {
    pub likes: Seq<Seq<char>>,
    pub resolution: Seq<char>,
    pub keep_original: bool,
    pub autoremove_days: int,
    pub now: int,
}

/// The resolution tier kept for wallpaper-quality originals when the
/// user opts in.
pub open spec fn original_resolution() -> Seq<char> {
    "1920x1200"@
}

/// The fate of one directory entry. Directories and foreign names are
/// deleted outright; a recognized file is deleted when its resolution is
/// neither the configured one nor the accepted original tier, or when it
/// is older than the eviction age and not a favorite; anything else is
/// kept and counted.
pub open spec fn fate_of(f: CacheFile, pol: EvictionPolicy) -> FileFate {
    if f.is_dir {
        FileFate::Delete
    } else if !valid_wallpaper_name(f.name@) {
        FileFate::Delete
    } else {
        let id = name_id(f.name@);
        let res = name_res(f.name@);
        let favorited = pol.likes.contains(id);
        let outdated = pol.now - f.modified > pol.autoremove_days * 86400;
        let valid_resolution = (res == original_resolution() && pol.keep_original) || res
            == pol.resolution;
        if !valid_resolution || (outdated && !favorited) {
            FileFate::Delete
        } else if favorited {
            FileFate::KeepFavorite
        } else {
            FileFate::KeepOther
        }
    }
}

/// The size of `f` when its fate is `want`, and zero otherwise.
pub open spec fn fate_size(f: CacheFile, pol: EvictionPolicy, want: FileFate) -> int {
    if fate_of(f, pol) == want {
        f.size as int
    } else {
        0
    }
}

/// The bytes of the files whose fate is `want`.
pub open spec fn total_size(files: Seq<CacheFile>, pol: EvictionPolicy, want: FileFate) -> int
    decreases files.len(),
{
    if files.len() == 0 {
        0
    } else {
        total_size(files.drop_last(), pol, want) + fate_size(files.last(), pol, want)
    }
}

/// The bytes of all the files, kept or not.
pub open spec fn total_bytes(files: Seq<CacheFile>) -> int
    decreases files.len(),
{
    if files.len() == 0 {
        0
    } else {
        total_bytes(files.drop_last()) + files.last().size
    }
}

/// One more file adds its size to the running total.
proof fn lemma_total_bytes_step(files: Seq<CacheFile>, t: int)
    requires
        0 <= t < files.len(),
    ensures
        total_bytes(files.take(t + 1)) == total_bytes(files.take(t)) + files[t].size,
{
    assert(files.take(t + 1).drop_last() =~= files.take(t));
    assert(files.take(t + 1).last() == files[t]);
}

/// A prefix never holds more bytes than the whole.
proof fn lemma_total_bytes_prefix(files: Seq<CacheFile>, t: int)
    requires
        0 <= t <= files.len(),
    ensures
        total_bytes(files.take(t)) <= total_bytes(files),
    decreases files.len() - t,
{
    if t == files.len() {
        assert(files.take(t) =~= files);
    } else {
        lemma_total_bytes_step(files, t);
        lemma_total_bytes_prefix(files, t + 1);
    }
}

/// One more file adds its size to the total of its fate and nothing to
/// the other totals.
proof fn lemma_total_size_step(files: Seq<CacheFile>, pol: EvictionPolicy, want: FileFate, t: int)
    requires
        0 <= t < files.len(),
    ensures
        total_size(files.take(t + 1), pol, want) == total_size(files.take(t), pol, want)
            + fate_size(files[t], pol, want),
{
    assert(files.take(t + 1).drop_last() =~= files.take(t));
    assert(files.take(t + 1).last() == files[t]);
}

/// The kept totals of a prefix never exceed its bytes.
proof fn lemma_total_size_bounded(files: Seq<CacheFile>, pol: EvictionPolicy)
    ensures
        total_size(files, pol, FileFate::KeepFavorite) + total_size(
            files,
            pol,
            FileFate::KeepOther,
        ) <= total_bytes(files),
        total_size(files, pol, FileFate::KeepFavorite) >= 0,
        total_size(files, pol, FileFate::KeepOther) >= 0,
    decreases files.len(),
{
    if files.len() > 0 {
        lemma_total_size_bounded(files.drop_last(), pol);
    }
}

/// What a rescan decides: which entries to delete, and the byte totals
/// of what survives, split into favorites and others.
pub struct RescanPlan {
    pub delete: Vec<bool>,
    pub favorites_bytes: u64,
    pub others_bytes: u64,
}

/// Plans one rescan of the download directory: every entry is classified
/// by `fate_of`, and the surviving sizes are summed by fate. Answers
/// `None` exactly when some file's modification time lies in the future,
/// the one reading the clock arithmetic rejects; the scan is then
/// abandoned with nothing reported, so a half-finished accounting is
/// never mistaken for an authoritative one.
pub fn rescan_plan(
    files: &Vec<CacheFile>,
    likes: &Vec<String>,
    resolution: &String,
    keep_original: bool,
    autoremove_days: u64,
    now: u64,
) -> (r: Option<RescanPlan>)
    requires
        total_bytes(files@) <= u64::MAX,
    ensures
        ({
            let pol = EvictionPolicy {
                likes: likes.deep_view(),
                resolution: resolution@,
                keep_original,
                autoremove_days: autoremove_days as int,
                now: now as int,
            };
            &&& (r is None <==> exists|t: int|
                0 <= t < files@.len() && !(#[trigger] files@[t]).is_dir && files@[t].modified
                    > now)
            &&& (r matches Some(plan) ==> {
                &&& plan.delete@.len() == files@.len()
                &&& (forall|t: int|
                    0 <= t < files@.len() ==> plan.delete@[t] == (fate_of(
                        #[trigger] files@[t],
                        pol,
                    ) is Delete))
                &&& plan.favorites_bytes == total_size(files@, pol, FileFate::KeepFavorite)
                &&& plan.others_bytes == total_size(files@, pol, FileFate::KeepOther)
            })
        }),
{
    let ghost pol = EvictionPolicy {
        likes: likes.deep_view(),
        resolution: resolution@,
        keep_original,
        autoremove_days: autoremove_days as int,
        now: now as int,
    };
    let mut delete: Vec<bool> = Vec::new();
    let mut favorites_bytes: u64 = 0;
    let mut others_bytes: u64 = 0;
    let mut t: usize = 0;
    while t < files.len()
        invariant
            t <= files.len(),
            total_bytes(files@) <= u64::MAX,
            pol == (EvictionPolicy {
                likes: likes.deep_view(),
                resolution: resolution@,
                keep_original,
                autoremove_days: autoremove_days as int,
                now: now as int,
            }),
            delete@.len() == t,
            forall|p: int|
                0 <= p < t ==> delete@[p] == (fate_of(#[trigger] files@[p], pol) is Delete),
            forall|p: int|
                0 <= p < t ==> !(!(#[trigger] files@[p]).is_dir && files@[p].modified > now),
            favorites_bytes == total_size(files@.take(t as int), pol, FileFate::KeepFavorite),
            others_bytes == total_size(files@.take(t as int), pol, FileFate::KeepOther),
            favorites_bytes + others_bytes <= total_bytes(files@.take(t as int)),
        decreases files.len() - t,
    {
        proof {
            lemma_total_bytes_step(files@, t as int);
            lemma_total_bytes_prefix(files@, t as int + 1);
            lemma_total_size_step(files@, pol, FileFate::KeepFavorite, t as int);
            lemma_total_size_step(files@, pol, FileFate::KeepOther, t as int);
        }
        let f = &files[t];
        if f.is_dir {
            delete.push(true);
        } else {
            if f.modified > now {
                assert(!files@[t as int].is_dir && files@[t as int].modified > now);
                return None;
            }
            match parse_wallpaper_filename(f.name.as_str()) {
                None => {
                    delete.push(true);
                },
                Some(parsed) => {
                    let (id, res) = parsed;
                    let favorited = crate::likeset::contains_id(likes, &id);
                    let outdated = (now - f.modified) as u128 > (autoremove_days as u128) * 86400;
                    let valid_resolution = (res.eq(&String::from_str("1920x1200")) && keep_original) || res.eq(resolution);
                    if !valid_resolution || (outdated && !favorited) {
                        delete.push(true);
                    } else if favorited {
                        favorites_bytes = favorites_bytes + f.size;
                        delete.push(false);
                    } else {
                        others_bytes = others_bytes + f.size;
                        delete.push(false);
                    }
                },
            }
        }
        t = t + 1;
    }
    proof {
        assert(files@.take(files@.len() as int) =~= files@);
        if exists|p: int|
            0 <= p < files@.len() && !(#[trigger] files@[p]).is_dir && files@[p].modified > now {
            let p = choose|p: int|
                0 <= p < files@.len() && !(#[trigger] files@[p]).is_dir && files@[p].modified
                    > now;
        }
    }
    Some(RescanPlan { delete, favorites_bytes, others_bytes })
}

/// Plans the bulk cleanup that keeps only favorites: every directory is
/// deleted, and every file whose loose identifier (the name up to the
/// first underscore) is not in the like-set is deleted with it.
pub fn clear_other_plan(files: &Vec<CacheFile>, likes: &Vec<String>) -> (r: Vec<bool>)
    ensures
        r@.len() == files@.len(),
        forall|t: int|
            0 <= t < files@.len() ==> r@[t] == ((#[trigger] files@[t]).is_dir
                || !likes.deep_view().contains(prefix_id(files@[t].name@))),
{
    let mut r: Vec<bool> = Vec::new();
    let mut t: usize = 0;
    while t < files.len()
        invariant
            t <= files.len(),
            r@.len() == t,
            forall|p: int|
                0 <= p < t ==> r@[p] == ((#[trigger] files@[p]).is_dir
                    || !likes.deep_view().contains(prefix_id(files@[p].name@))),
        decreases files.len() - t,
    {
        let f = &files[t];
        if f.is_dir {
            r.push(true);
        } else {
            let u = scan_class(f.name.as_str(), 0, 3);
            proof {
                assert forall|p: int| 0 <= p < u implies (#[trigger] f.name@[p]) as u32 != 95 by {
                    assert(char_in_class(3, f.name@[p]));
                }
                if (u as int) < f.name@.len() {
                    assert(!char_in_class(3, f.name@[u as int]));
                }
                lemma_prefix_id_at(f.name@, u as int);
            }
            let id = f.name.as_str().substring_char(0, u).to_owned();
            let keep = crate::likeset::contains_id(likes, &id);
            r.push(!keep);
        }
        t = t + 1;
    }
    r
}

} // verus!

