//! The persisted configuration: desktop-environment command templates,
//! auto-rotation settings, resolution choices, cache bounds and the
//! like-set. Loading and saving the file live outside the crate; the
//! values and their rules live here.

use vstd::prelude::*;
use vstd::string::StringExecFns;
use crate::likeset::distinct_ids;

verus! {

/// Auto-rotation mode: the newest catalog entry.
pub const MODE_NEWEST: u8 = 0;

/// Auto-rotation mode: a random favorite.
pub const MODE_FAVORITES: u8 = 1;

/// Auto-rotation mode: a random catalog entry.
pub const MODE_RANDOM: u8 = 2;

/// A desktop environment and the shell command template that sets its
/// background; the template reads the file path from `$WALLPAPER`.
pub struct DesktopEnviroment {
    pub name: String,
    pub cmd: String,
}

/// Auto-rotation settings: whether it runs, the interval, and the mode
/// (newest, favorites or random).
pub struct AutoChangeConfig {
    pub enable: bool,
    pub interval: u32,
    pub mode: u8,
}

impl Default for AutoChangeConfig {
    /// Auto-rotation starts disabled, every five units, in newest mode.
    fn default() -> (r: Self)
        ensures
            !r.enable,
            r.interval == 5,
            r.mode == MODE_NEWEST,
    {
        AutoChangeConfig { enable: false, interval: 5, mode: MODE_NEWEST }
    }
}

/// The offered preview and download resolutions and which of each is
/// selected.
pub struct Resolution {
    pub preview: Vec<String>,
    pub preview_index: usize,
    pub download: Vec<String>,
    pub download_index: usize,
    /// Opt-in: keep the original resolution tier for wallpaper-quality
    /// items.
    pub original: bool,
}

impl Resolution {
    /// Both selections point into their lists.
    pub open spec fn wf(&self) -> bool {
        &&& self.preview_index < self.preview@.len()
        &&& self.download_index < self.download@.len()
    }
}

/// The preview resolutions offered by the catalog.
pub fn default_preview() -> (r: Vec<String>)
    ensures
        r@.len() == 2,
        r.deep_view() =~= seq!["800x480"@, "480x800"@],
{
    let mut v: Vec<String> = Vec::new();
    v.push(String::from_str("800x480"));
    v.push(String::from_str("480x800"));
    v
}

/// The download resolutions offered by the catalog.
pub fn default_download() -> (r: Vec<String>)
    ensures
        r@.len() == 4,
        r.deep_view() =~= seq!["1920x1080"@, "1366x768"@, "1080x1920"@, "768x1280"@],
{
    let mut v: Vec<String> = Vec::new();
    v.push(String::from_str("1920x1080"));
    v.push(String::from_str("1366x768"));
    v.push(String::from_str("1080x1920"));
    v.push(String::from_str("768x1280"));
    v
}

impl Default for Resolution {
    /// The first entry of each list is selected.
    fn default() -> (r: Self)
        ensures
            r.wf(),
            r.preview.deep_view() =~= seq!["800x480"@, "480x800"@],
            r.preview_index == 0,
            r.download.deep_view() =~= seq!["1920x1080"@, "1366x768"@, "1080x1920"@, "768x1280"@],
            r.download_index == 0,
            !r.original,
    {
        Resolution {
            preview: default_preview(),
            preview_index: 0,
            download: default_download(),
            download_index: 0,
            original: false,
        }
    }
}

/// The built-in desktop environments and their background commands, in
/// the order they are offered; a user-defined entry is appended after
/// these.
pub fn default_de_list() -> (r: Vec<DesktopEnviroment>)
    ensures
        r@.len() == 7,
        r@[0].name@ == "Budgie"@,
        r@[1].name@ == "Cinnamon"@,
        r@[2].name@ == "Deepin"@,
        r@[3].name@ == "GNOME"@,
        r@[4].name@ == "LXDE"@,
        r@[5].name@ == "LXQt"@,
        r@[6].name@ == "MATE"@,
{
    let mut v: Vec<DesktopEnviroment> = Vec::new();
    v.push(
        DesktopEnviroment {
            name: String::from_str("Budgie"),
            cmd: String::from_str(
                r#"gsettings set org.gnome.desktop.background picture-uri "file://$WALLPAPER""#,
            ),
        },
    );
    v.push(
        DesktopEnviroment {
            name: String::from_str("Cinnamon"),
            cmd: String::from_str(
                r#"gsettings set org.cinnamon.desktop.background picture-uri "file://$WALLPAPER""#,
            ),
        },
    );
    v.push(
        DesktopEnviroment {
            name: String::from_str("Deepin"),
            cmd: String::from_str(
                r#"gsettings set com.deepin.wrap.gnome.desktop.background picture-uri "file://$WALLPAPER""#,
            ),
        },
    );
    v.push(
        DesktopEnviroment {
            name: String::from_str("GNOME"),
            cmd: String::from_str(
                r#"gsettings set org.gnome.desktop.background picture-uri "file://$WALLPAPER""#,
            ),
        },
    );
    v.push(
        DesktopEnviroment {
            name: String::from_str("LXDE"),
            cmd: String::from_str(r#"pcmanfm --set-wallpaper "$WALLPAPER""#),
        },
    );
    v.push(
        DesktopEnviroment {
            name: String::from_str("LXQt"),
            cmd: String::from_str(r#"pcmanfm-qt --set-wallpaper "$WALLPAPER""#),
        },
    );
    v.push(
        DesktopEnviroment {
            name: String::from_str("MATE"),
            cmd: String::from_str(r#"gsettings set org.mate.background picture-filename "$WALLPAPER""#),
        },
    );
    v
}

/// Which entry of the default list a lowercased desktop-session name
/// selects; unknown names select the trailing user-defined entry.
pub open spec fn de_index_of(v: Seq<char>) -> int {
    if v == "budgie"@ {
        0
    } else if v == "cinnamon"@ || v == "x-cinnamon"@ {
        1
    } else if v == "deepin"@ {
        2
    } else if v == "gnome"@ || v == "ubuntu:gnome"@ || v == "gnome-xorg"@ || v == "gnome-wayland"@ {
        3
    } else if v == "lxde"@ {
        4
    } else if v == "lxqt"@ {
        5
    } else if v == "mate"@ {
        6
    } else {
        7
    }
}

/// Maps the lowercased desktop-session name, as the environment reports
/// it, to the matching entry of the default list.
pub fn current_de(v: &String) -> (r: usize)
    ensures
        r == de_index_of(v@),
        r <= 7,
{
    if v.eq(&String::from_str("budgie")) {
        0
    } else if v.eq(&String::from_str("cinnamon")) || v.eq(&String::from_str("x-cinnamon")) {
        1
    } else if v.eq(&String::from_str("deepin")) {
        2
    } else if v.eq(&String::from_str("gnome")) || v.eq(&String::from_str("ubuntu:gnome"))
        || v.eq(&String::from_str("gnome-xorg")) || v.eq(&String::from_str("gnome-wayland")) {
        3
    } else if v.eq(&String::from_str("lxde")) {
        4
    } else if v.eq(&String::from_str("lxqt")) {
        5
    } else if v.eq(&String::from_str("mate")) {
        6
    } else {
        7
    }
}

/// The persisted configuration. The on-disk encoding is outside the
/// crate; these are the decoded values.
pub struct Config {
    /// Offered desktop environments; the last entry is user-defined.
    pub de: Vec<DesktopEnviroment>,
    /// Which desktop environment is in use.
    pub de_index: usize,
    pub auto_change: AutoChangeConfig,
    pub resolution: Resolution,
    /// Files older than this many days are candidates for eviction.
    pub autoremove: u64,
    pub download_dir: String,
    pub cache_dir: String,
    /// The canonical like-set, most-recently-liked first.
    pub likes: Vec<String>,
}

impl Config {
    /// The selections point into their lists and the like-set holds no
    /// identifier twice.
    pub open spec fn wf(&self) -> bool {
        &&& self.de_index < self.de@.len()
        &&& self.resolution.wf()
        &&& distinct_ids(self.likes.deep_view())
    }

    /// The resolution that downloads are requested in.
    pub fn selected_resolution(&self) -> (r: &String)
        requires
            self.resolution.wf(),
        ensures
            r@ == self.resolution.download@[self.resolution.download_index as int]@,
    {
        &self.resolution.download[self.resolution.download_index]
    }

    /// The background command template of the selected desktop
    /// environment.
    pub fn selected_command(&self) -> (r: &String)
        requires
            self.de_index < self.de@.len(),
        ensures
            r@ == self.de@[self.de_index as int].cmd@,
    {
        &self.de[self.de_index].cmd
    }

    /// Whether `id` is a favorite.
    pub fn is_liked(&self, id: &String) -> (r: bool)
        ensures
            r == self.likes.deep_view().contains(id@),
    {
        crate::likeset::contains_id(&self.likes, id)
    }
}

impl Default for Config {
    /// A fresh configuration: the built-in desktop environments plus an
    /// empty user-defined entry selected by default, default rotation and
    /// resolution settings, a thirty-day eviction age, no favorites, and
    /// directories left for the caller to fill in.
    fn default() -> (r: Self)
        ensures
            r.wf(),
            r.de@.len() == 8,
            r.de@[7].name@ == "Other"@,
            r.de@[7].cmd@.len() == 0,
            r.de_index == 7,
            !r.auto_change.enable,
            r.auto_change.interval == 5,
            r.auto_change.mode == MODE_NEWEST,
            r.resolution.download_index == 0,
            r.autoremove == 30,
            r.download_dir@.len() == 0,
            r.cache_dir@.len() == 0,
            r.likes@.len() == 0,
    {
        let mut de = default_de_list();
        de.push(DesktopEnviroment { name: String::from_str("Other"), cmd: String::new() });
        Config {
            de,
            de_index: 7,
            auto_change: AutoChangeConfig::default(),
            resolution: Resolution::default(),
            autoremove: 30,
            download_dir: String::new(),
            cache_dir: String::new(),
            likes: Vec::new(),
        }
    }
}

} // verus!
