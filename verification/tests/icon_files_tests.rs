use mouse_cursor_mover::icon_files::{
    begin_icon_search, icon_paths, icon_search_after_attempt, load_tray_icon_from_png,
    missing_icon_message, state_label, IconSearchStep,
};

fn png_bytes(width: u32, height: u32, rgba: Vec<u8>) -> Vec<u8> {
    let img = image::RgbaImage::from_raw(width, height, rgba).unwrap();
    let mut out = std::io::Cursor::new(Vec::new());
    img.write_to(&mut out, image::ImageFormat::Png).unwrap();
    out.into_inner()
}

#[test]
fn labels_and_paths_per_state() {
    assert_eq!(state_label(true), "running");
    assert_eq!(state_label(false), "stopped");
    assert_eq!(icon_paths(true), vec!["assets/icon-running@2x.png", "assets/icon-running.png"]);
    assert_eq!(icon_paths(false), vec!["assets/icon-stopped@2x.png", "assets/icon-stopped.png"]);
}

#[test]
fn missing_message_names_state_and_paths() {
    let msg = missing_icon_message("running", &icon_paths(true));
    assert_eq!(
        msg,
        "Missing or invalid running tray icon. Expected one of: assets/icon-running@2x.png, assets/icon-running.png"
    );
}

#[test]
fn missing_message_with_one_or_no_path() {
    assert_eq!(
        missing_icon_message("stopped", &vec!["a.png"]),
        "Missing or invalid stopped tray icon. Expected one of: a.png"
    );
    assert_eq!(
        missing_icon_message("stopped", &vec![]),
        "Missing or invalid stopped tray icon. Expected one of: "
    );
}

#[test]
fn readable_png_decodes_to_its_samples() {
    let good = png_bytes(2, 1, vec![1, 2, 3, 4, 5, 6, 7, 8]);
    let img = load_tray_icon_from_png(Some(good.clone())).unwrap();
    assert_ne!(img.rgba, good);
    assert_eq!(img.rgba, vec![1, 2, 3, 4, 5, 6, 7, 8]);
    assert_eq!((img.width, img.height), (2, 1));
}

#[test]
fn unreadable_or_undecodable_file_gives_no_picture() {
    assert!(load_tray_icon_from_png(None).is_none());
    assert!(load_tray_icon_from_png(Some(vec![])).is_none());
    assert!(load_tray_icon_from_png(Some(b"not a picture".to_vec())).is_none());
    assert!(load_tray_icon_from_png(Some(vec![0x89, 0x50])).is_none());
}

#[test]
fn decoded_picture_covers_its_pixels() {
    let img = load_tray_icon_from_png(Some(png_bytes(3, 2, vec![7; 24]))).unwrap();
    assert!(img.rgba.len() >= 4 * 3 * 2);
}

#[test]
fn search_stops_at_first_usable_candidate() {
    let usable = [false, true, true];
    let mut step = begin_icon_search(usable.len());
    let mut tried = vec![];
    let end = loop {
        match step {
            IconSearchStep::Try(i) => {
                tried.push(i);
                step = icon_search_after_attempt(i, usable.len(), usable[i]);
            }
            other => break other,
        }
    };
    assert_eq!(end, IconSearchStep::Found(1));
    assert_eq!(tried, vec![0, 1]);
}

#[test]
fn search_gives_up_when_nothing_is_usable() {
    assert_eq!(begin_icon_search(0), IconSearchStep::GiveUp);
    assert_eq!(begin_icon_search(2), IconSearchStep::Try(0));
    assert_eq!(icon_search_after_attempt(0, 2, false), IconSearchStep::Try(1));
    assert_eq!(icon_search_after_attempt(1, 2, false), IconSearchStep::GiveUp);
    assert_eq!(icon_search_after_attempt(1, 2, true), IconSearchStep::Found(1));
}
