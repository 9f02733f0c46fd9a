use jingzhuo::config::AppConfig;
use jingzhuo::paths::{ComponentKind, PathComponent, PathText};
use jingzhuo::wallpaper::{
    folder_label, is_wallpaper_image, scan_images, set_slideshow_registry, sort_paths,
    WallpaperState, DEFAULT_INTERVAL_MS,
};

/// A Windows path split into its components as `Path::components` does.
fn win_path(text: &str) -> PathText {
    let mut components = Vec::new();
    let mut rest = text;
    if rest.len() >= 2 && rest.as_bytes()[1] == b':' {
        components.push(PathComponent {
            kind: ComponentKind::Prefix,
            text: rest[..2].to_string(),
            key: vec![5, rest.as_bytes()[0]],
        });
        rest = &rest[2..];
    }
    if rest.starts_with('\\') {
        components.push(PathComponent { kind: ComponentKind::RootDir, text: "\\".to_string(), key: vec![] });
    }
    for piece in rest.split('\\') {
        if !piece.is_empty() {
            components.push(PathComponent {
                kind: ComponentKind::Normal,
                text: piece.to_string(),
                key: piece.as_bytes().to_vec(),
            });
        }
    }
    PathText { text: text.to_string(), components }
}

fn texts(v: &[PathText]) -> Vec<String> {
    v.iter().map(|p| p.text.clone()).collect()
}

fn state() -> WallpaperState {
    let mut c = AppConfig::default();
    c.wallpaper_interval_ms = 0;
    c.default_wallpaper_folder = "D:\\w\\desk_1".to_string();
    c.alternate_wallpaper_folder = "D:\\w\\desk_2".to_string();
    WallpaperState::from_config(&c, win_path("D:\\w\\desk_1"), win_path("D:\\w\\desk_2"))
}

#[test]
fn labels_are_folder_names() {
    assert_eq!(folder_label(&win_path("D:\\w\\desk_1")), "desk_1");
    assert_eq!(folder_label(&win_path("D:\\")), "D:\\");
}

#[test]
fn registry_writes_for_slideshow() {
    let w = set_slideshow_registry(&win_path("D:\\w\\desk_1"), 60000);
    assert_eq!(w.len(), 4);
    assert_eq!(
        w[0].args(),
        vec![
            "add",
            "HKCU\\Control Panel\\Personalization\\Desktop Slideshow",
            "/v",
            "SlideshowSourceFolder",
            "/t",
            "REG_SZ",
            "/d",
            "D:\\w\\desk_1",
            "/f"
        ]
    );
    assert_eq!(w[1].value_name, "ImagesFolderPath");
    assert_eq!(w[1].value, "D:\\w\\desk_1");
    assert_eq!(w[2].value_name, "Interval");
    assert_eq!(w[2].value_type, "REG_DWORD");
    assert_eq!(w[2].value, "60000");
    assert_eq!(w[3].value_name, "Shuffle");
    assert_eq!(w[3].value, "1");
    assert_eq!(
        w[3].key,
        "HKCU\\Software\\Microsoft\\Windows\\CurrentVersion\\Explorer\\Wallpapers\\Slideshow"
    );
}

#[test]
fn initial_and_configured_state() {
    let s = WallpaperState::initial();
    assert_eq!(s.interval_ms, DEFAULT_INTERVAL_MS);
    assert!(s.current_images.is_empty());
    assert!(s.needs_rescan());
    let s = state();
    assert_eq!(s.interval_ms, 60_000);
    assert_eq!(s.current_folder.text, "D:\\w\\desk_1");
    assert_eq!(s.current_label(), "desk_1");
    let mut c = AppConfig::default();
    c.wallpaper_interval_ms = 5000;
    c.default_wallpaper_folder = "D:\\a".to_string();
    c.alternate_wallpaper_folder = "D:\\b".to_string();
    let s = WallpaperState::from_config(&c, win_path("D:\\a"), win_path("D:\\b"));
    assert_eq!(s.interval_ms, 5000);
}

#[test]
fn switching_toggles_between_folders() {
    let mut s = state();
    let target = s.switch_target();
    assert_eq!(target.text, "D:\\w\\desk_2");
    let r = s.activate_folder(target, Ok(vec![win_path("D:\\w\\desk_2\\a.png")]));
    assert!(r.is_ok());
    assert_eq!(s.current_label(), "desk_2");
    assert_eq!(s.switch_target().text, "D:\\w\\desk_1");
}

#[test]
fn activating_an_empty_or_broken_folder_changes_nothing() {
    let mut s = state();
    let r = s.activate_folder(win_path("D:\\w\\desk_2"), Ok(vec![]));
    match r {
        Err(e) => assert_eq!(e, "no wallpaper images found in D:\\w\\desk_2"),
        Ok(_) => panic!("no images"),
    }
    assert_eq!(s.current_folder.text, "D:\\w\\desk_1");
    let r = s.activate_folder(win_path("D:\\w\\desk_2"), Err("denied".to_string()));
    match r {
        Err(e) => assert_eq!(e, "denied"),
        Ok(_) => panic!("scan failed"),
    }
    assert!(s.current_images.is_empty());
}

#[test]
fn activation_plans_registry_and_image() {
    let mut s = state();
    let images = vec![win_path("D:\\w\\desk_1\\a.jpg"), win_path("D:\\w\\desk_1\\b.jpg")];
    let plan = match s.activate_folder(win_path("D:\\w\\desk_1"), Ok(images)) {
        Ok(p) => p,
        Err(_) => panic!("images are there"),
    };
    assert!(s.current_index < 2);
    assert_eq!(plan.wallpaper.text, s.current_images[s.current_index].text);
    assert_eq!(plan.registry.len(), 4);
    assert_eq!(plan.registry[2].value, "60000");
}

#[test]
fn advancing_cycles_through_images() {
    let mut s = state();
    assert_eq!(s.advance().err(), Some("no wallpaper images found in D:\\w\\desk_1".to_string()));
    s.take_rescan(Ok(vec![
        win_path("D:\\w\\desk_1\\a.jpg"),
        win_path("D:\\w\\desk_1\\b.jpg"),
        win_path("D:\\w\\desk_1\\c.jpg"),
    ]))
    .unwrap();
    assert!(!s.needs_rescan());
    let start = s.current_index;
    let mut shown = Vec::new();
    for _ in 0..3 {
        shown.push(s.advance().unwrap().text);
    }
    assert_eq!(s.current_index, start);
    assert_eq!(shown, vec!["D:\\w\\desk_1\\b.jpg", "D:\\w\\desk_1\\c.jpg", "D:\\w\\desk_1\\a.jpg"]);
}

#[test]
fn failed_rescan_keeps_state() {
    let mut s = state();
    assert_eq!(s.take_rescan(Err("gone".to_string())), Err("gone".to_string()));
    assert!(s.current_images.is_empty());
}

#[test]
fn image_files_by_extension() {
    assert!(is_wallpaper_image(&win_path("D:\\w\\a.JPG")));
    assert!(is_wallpaper_image(&win_path("D:\\w\\a.webp")));
    assert!(is_wallpaper_image(&win_path("D:\\w\\a.b.Jpeg")));
    assert!(!is_wallpaper_image(&win_path("D:\\w\\a.gif")));
    assert!(!is_wallpaper_image(&win_path("D:\\w\\.png")));
    assert!(!is_wallpaper_image(&win_path("D:\\w\\png")));
}

#[test]
fn paths_sort_by_components() {
    let v = vec![
        win_path("D:\\w\\b.jpg"),
        win_path("D:\\w\\a\\z.jpg"),
        win_path("D:\\w\\B.jpg"),
        win_path("D:\\w\\a.jpg"),
    ];
    let r = sort_paths(v);
    assert_eq!(texts(&r), vec!["D:\\w\\B.jpg", "D:\\w\\a\\z.jpg", "D:\\w\\a.jpg", "D:\\w\\b.jpg"]);
}

#[test]
fn scanning_checks_the_folder() {
    let f = win_path("D:\\w\\none");
    assert_eq!(
        scan_images(&f, false, Ok(vec![])).err(),
        Some("folder does not exist: D:\\w\\none".to_string())
    );
    assert_eq!(scan_images(&f, true, Err("io".to_string())).err(), Some("io".to_string()));
    let r = scan_images(&f, true, Ok(vec![win_path("D:\\w\\2.png"), win_path("D:\\w\\1.png")]))
        .ok()
        .unwrap();
    assert_eq!(texts(&r), vec!["D:\\w\\1.png", "D:\\w\\2.png"]);
}
