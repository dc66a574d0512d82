//! Wallpaper bookkeeping: scaling modes and a cache of decoded, scaled
//! images keyed by path, screen size and mode. Decoding and scaling
//! themselves happen outside; the cache only stores their results.

use vstd::prelude::*;
use vstd::pervasive::VecAdditionalExecFns;
use crate::strutil::{lower_seq, str_eq, to_lower};

verus! {

/// How a wallpaper image is fitted to the screen.
#[derive(Debug, Clone, Copy, PartialEq, Eq, Hash, Structural)]
pub enum ScaleMode {
    /// Scale to fill the entire screen, cropping if necessary.
    Fill,
    /// Scale to fit within the screen, possibly letterboxed.
    Fit,
    /// Stretch to exactly fill the screen, possibly distorting.
    Stretch,
    /// Center the image at its original size.
    Center,
    /// Tile the image across the screen.
    Tile,
}

/// The mode a configuration word names, case-insensitively; anything
/// unrecognized falls back to filling.
pub open spec fn scale_mode_of(s: Seq<char>) -> ScaleMode {
    let l = lower_seq(s);
    if l == "fill"@ {
        ScaleMode::Fill
    } else if l == "fit"@ {
        ScaleMode::Fit
    } else if l == "stretch"@ {
        ScaleMode::Stretch
    } else if l == "center"@ {
        ScaleMode::Center
    } else if l == "tile"@ {
        ScaleMode::Tile
    } else {
        ScaleMode::Fill
    }
}

impl ScaleMode {
    /// Parse a scaling mode from its configuration word,
    /// case-insensitively; anything unrecognized falls back to filling.
    pub fn from_str(s: &str) -> (mode: Self)
        ensures
            mode == scale_mode_of(s@),
    {
        let l = to_lower(s);
        let ls = l.as_str();
        if str_eq(ls, "fill") {
            ScaleMode::Fill
        } else if str_eq(ls, "fit") {
            ScaleMode::Fit
        } else if str_eq(ls, "stretch") {
            ScaleMode::Stretch
        } else if str_eq(ls, "center") {
            ScaleMode::Center
        } else if str_eq(ls, "tile") {
            ScaleMode::Tile
        } else {
            ScaleMode::Fill
        }
    }
}

/// What identifies one cached wallpaper: the image path, the screen size it
/// was scaled for, and the scaling mode.
#[derive(Debug, Clone)]
pub struct WallpaperCacheKey {
    pub path: String,
    pub screen_width: u32,
    pub screen_height: u32,
    pub mode: ScaleMode,
}

/// Whether two keys name the same cache entry: same path text, screen size
/// and mode.
pub open spec fn key_matches(a: WallpaperCacheKey, b: WallpaperCacheKey) -> bool {
    &&& a.path@ == b.path@
    &&& a.screen_width == b.screen_width
    &&& a.screen_height == b.screen_height
    &&& a.mode == b.mode
}

/// One cached wallpaper: its pixel data and final dimensions.
pub struct CachedWallpaper {
    pub data: Vec<u8>,
    pub width: u32,
    pub height: u32,
}

/// Cache of scaled wallpapers, at most one entry per key.
pub struct WallpaperCache {
    entries: Vec<(WallpaperCacheKey, CachedWallpaper)>,
}

impl WallpaperCache {
    /// The stored entries, in insertion order.
    pub closed spec fn spec_entries(&self) -> Seq<(WallpaperCacheKey, CachedWallpaper)> {
        self.entries@
    }

    /// No two entries share a key.
    pub open spec fn wf(&self) -> bool {
        forall|i: int, j: int| 0 <= i < j < self.spec_entries().len()
            ==> !key_matches(self.spec_entries()[i].0, self.spec_entries()[j].0)
    }

    /// Whether some entry carries a matching key.
    pub open spec fn spec_contains(&self, key: WallpaperCacheKey) -> bool {
        exists|i: int| 0 <= i < self.spec_entries().len()
            && key_matches(#[trigger] self.spec_entries()[i].0, key)
    }

    /// A new empty cache.
    pub fn new() -> (cache: Self)
        ensures
            cache.spec_entries() == Seq::<(WallpaperCacheKey, CachedWallpaper)>::empty(),
            cache.wf(),
    {
        WallpaperCache { entries: Vec::new() }
    }

    /// Drop every entry.
    pub fn clear(&mut self)
        ensures
            final(self).spec_entries() == Seq::<(WallpaperCacheKey, CachedWallpaper)>::empty(),
            final(self).wf(),
    {
        self.entries.clear();
    }

    /// The index of the entry matching the key, if one exists.
    fn find_index(&self, key: &WallpaperCacheKey) -> (found: Option<usize>)
        ensures
            match found {
                Some(i) => i < self.spec_entries().len()
                    && key_matches(self.spec_entries()[i as int].0, *key),
                None => !self.spec_contains(*key),
            },
    {
        let mut i: usize = 0;
        while i < self.entries.len()
            invariant
                i <= self.spec_entries().len(),
                forall|j: int| 0 <= j < i
                    ==> !key_matches(#[trigger] self.spec_entries()[j].0, *key),
            decreases self.spec_entries().len() - i,
        {
            let entry_key = &self.entries[i].0;
            if str_eq(entry_key.path.as_str(), key.path.as_str())
                && entry_key.screen_width == key.screen_width
                && entry_key.screen_height == key.screen_height
                && entry_key.mode == key.mode {
                return Some(i);
            }
            i = i + 1;
        }
        None
    }

    /// The cached wallpaper under a matching key, if one exists.
    pub fn get(&self, key: &WallpaperCacheKey) -> (found: Option<&CachedWallpaper>)
        ensures
            match found {
                Some(w) => exists|i: int| 0 <= i < self.spec_entries().len()
                    && key_matches(#[trigger] self.spec_entries()[i].0, *key)
                    && *w == self.spec_entries()[i].1,
                None => !self.spec_contains(*key),
            },
    {
        match self.find_index(key) {
            Some(i) => Some(&self.entries[i].1),
            None => None,
        }
    }

    /// Store a wallpaper under a key, replacing any entry whose key matches;
    /// other entries stay as they are.
    pub fn insert(&mut self, key: WallpaperCacheKey, wallpaper: CachedWallpaper)
        requires
            old(self).wf(),
        ensures
            final(self).wf(),
            final(self).spec_contains(key),
            (exists|i: int| 0 <= i < old(self).spec_entries().len()
                && key_matches(#[trigger] old(self).spec_entries()[i].0, key))
                ==> exists|i: int| 0 <= i < old(self).spec_entries().len()
                    && key_matches(#[trigger] old(self).spec_entries()[i].0, key)
                    && final(self).spec_entries() == old(self).spec_entries().update(
                        i,
                        (key, wallpaper),
                    ),
            !old(self).spec_contains(key) ==> final(self).spec_entries()
                == old(self).spec_entries().push((key, wallpaper)),
    {
        let ghost pre = self.entries@;
        match self.find_index(&key) {
            Some(i) => {
                self.entries.set(i, (key, wallpaper));
                proof {
                    assert(key_matches(self.spec_entries()[i as int].0, key));
                    assert forall|p: int, q: int| 0 <= p < q < self.spec_entries().len()
                        implies !key_matches(
                            self.spec_entries()[p].0,
                            self.spec_entries()[q].0,
                        ) by {
                        assert(!key_matches(pre[p].0, pre[q].0));
                        if p == i as int {
                            assert(!key_matches(pre[q].0, pre[i as int].0)) by {
                                assert(!key_matches(pre[i as int].0, pre[q].0));
                            }
                        }
                        if q == i as int {
                            assert(!key_matches(pre[p].0, pre[i as int].0));
                        }
                    }
                }
            }
            None => {
                self.entries.push((key, wallpaper));
                proof {
                    let n = pre.len() as int;
                    assert(key_matches(self.spec_entries()[n].0, key));
                    assert forall|p: int, q: int| 0 <= p < q < self.spec_entries().len()
                        implies !key_matches(
                            self.spec_entries()[p].0,
                            self.spec_entries()[q].0,
                        ) by {
                        if q < n {
                            assert(!key_matches(pre[p].0, pre[q].0));
                        } else {
                            assert(!key_matches(pre[p].0, key));
                        }
                    }
                }
            }
        }
    }

    /// Whether a wallpaper is cached under a matching key.
    pub fn contains(&self, key: &WallpaperCacheKey) -> (cached: bool)
        ensures
            cached == self.spec_contains(*key),
    {
        self.find_index(key).is_some()
    }
}

/// The key under which a wallpaper for this path, screen size and mode is
/// cached.
pub fn make_wallpaper_key(path: &str, screen_width: u32, screen_height: u32, mode: ScaleMode)
    -> (key: WallpaperCacheKey)
    ensures
        key.path@ == path@,
        key.screen_width == screen_width,
        key.screen_height == screen_height,
        key.mode == mode,
{
    WallpaperCacheKey { path: path.to_owned(), screen_width, screen_height, mode }
}

} // verus!
