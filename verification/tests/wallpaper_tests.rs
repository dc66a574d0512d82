use codeverse::wallpaper::{make_wallpaper_key, CachedWallpaper, ScaleMode, WallpaperCache,
    WallpaperCacheKey};

#[test]
fn test_scale_mode_from_str() {
    assert_eq!(ScaleMode::from_str("fill"), ScaleMode::Fill);
    assert_eq!(ScaleMode::from_str("FIT"), ScaleMode::Fit);
    assert_eq!(ScaleMode::from_str("Stretch"), ScaleMode::Stretch);
    assert_eq!(ScaleMode::from_str("center"), ScaleMode::Center);
    assert_eq!(ScaleMode::from_str("tile"), ScaleMode::Tile);
    assert_eq!(ScaleMode::from_str("unknown"), ScaleMode::Fill); // Default
}

#[test]
fn test_wallpaper_cache() {
    let mut cache = WallpaperCache::new();
    let key = WallpaperCacheKey {
        path: "/test/path.png".to_string(),
        screen_width: 1920,
        screen_height: 1080,
        mode: ScaleMode::Fill,
    };

    assert!(!cache.contains(&key));

    let wallpaper = CachedWallpaper {
        data: vec![0; 1920 * 1080 * 4],
        width: 1920,
        height: 1080,
    };
    cache.insert(key.clone(), wallpaper);

    assert!(cache.contains(&key));
    assert!(cache.get(&key).is_some());

    cache.clear();
    assert!(!cache.contains(&key));
}

#[test]
fn cache_insert_replaces_matching_key() {
    let mut cache = WallpaperCache::new();
    let key = make_wallpaper_key("/a.png", 800, 600, ScaleMode::Fit);
    cache.insert(
        key.clone(),
        CachedWallpaper { data: vec![1, 2, 3], width: 1, height: 1 },
    );
    cache.insert(
        key.clone(),
        CachedWallpaper { data: vec![9, 9, 9, 9], width: 2, height: 2 },
    );
    let got = cache.get(&key).unwrap();
    assert_eq!(got.data, vec![9, 9, 9, 9]);
    assert_eq!(got.width, 2);
}

#[test]
fn cache_distinguishes_keys() {
    let mut cache = WallpaperCache::new();
    let a = make_wallpaper_key("/a.png", 800, 600, ScaleMode::Fit);
    let b = make_wallpaper_key("/a.png", 800, 600, ScaleMode::Tile);
    let c = make_wallpaper_key("/b.png", 800, 600, ScaleMode::Fit);
    cache.insert(a.clone(), CachedWallpaper { data: vec![1], width: 1, height: 1 });
    assert!(cache.contains(&a));
    assert!(!cache.contains(&b));
    assert!(!cache.contains(&c));
}

#[test]
fn make_wallpaper_key_copies_fields() {
    let key = make_wallpaper_key("/w.png", 640, 480, ScaleMode::Center);
    assert_eq!(key.path, "/w.png");
    assert_eq!(key.screen_width, 640);
    assert_eq!(key.screen_height, 480);
    assert_eq!(key.mode, ScaleMode::Center);
}
