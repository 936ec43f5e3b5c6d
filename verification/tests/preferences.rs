//! Settings, hotkeys, histories and text recognition.
use open_screen::history::{
    history_add, history_clear, history_delete, history_dir, history_dir_in, history_get,
    history_insert, history_item_at, history_list, index_path, index_path_in, make_thumbnail,
    HistoryItem,
};
use open_screen::hotkeys::{bindings, parse_hotkey, register_hotkeys, Action, Key};
use open_screen::merge::{merge_settings, overlay, write_object};
use open_screen::ocr::{
    app_data_prefix, app_traineddata, check_fetched, data_error, data_urls, exe_tessdata_dir,
    find_tesseract, install_args, install_outcome, lang_available, lang_codes, list_langs,
    looks_like_real_binary, ocr_picture, ocr_status, reading_error, reads_again, ready_message,
    reading_langs, resolve_datadir, resolve_tess_langs, run_tesseract, tesseract_args, traineddata_in,
    valid_traineddata, DataSizes, DataStep, Fetched, Output, Shipped,
};
use open_screen::order::{drop_repeats, sort_names};
use open_screen::paths::{app_dir, app_dir_in};
use open_screen::recorder::files::Place;
use open_screen::settings::{
    defaults_in, load_settings, normalized, settings_path, settings_path_in, AppSettings,
};

fn strings(v: &[&str]) -> Vec<String> {
    v.iter().map(|s| s.to_string()).collect()
}

#[test]
fn defaults_are_in_range() {
    let s = defaults_in(Some("/p".to_string()), Some("/v".to_string()));
    assert_eq!((s.save_location.as_str(), s.rec_folder.as_str()), ("/p/Open Screen", "/v/Open Screen"));
    assert_eq!((s.history_limit, s.rec_history_limit), (50, 25));
    assert_eq!((s.rec_fps, s.rec_countdown, s.replay_duration), (60, 3, 30));
    let n = normalized(s.clone());
    assert_eq!((n.history_limit, n.rec_history_limit), (50, 25));
    assert_eq!((n.replay_duration, n.rec_countdown, n.rec_hw_mode.as_str()), (30, 3, "auto"));
    let none = defaults_in(None, None);
    assert_eq!(none.save_location, "Pictures/Open Screen");
    assert_eq!(none.rec_folder, "Videos/Open Screen");
    assert_eq!(AppSettings::default().screenshot_hotkey, "Ctrl+Shift+S");
}

#[test]
fn loaded_settings_are_saved_ones_or_defaults() {
    let s = load_settings(None);
    assert_eq!((s.history_limit, s.rec_countdown, s.rec_hw_mode.as_str()), (50, 3, "auto"));
    assert_eq!(s.save_location, AppSettings::default().save_location);
    assert!(s.save_location.ends_with("Open Screen") && s.rec_folder.ends_with("Open Screen"));
    let mut saved = defaults_in(None, None);
    saved.history_limit = 7;
    saved.rec_countdown = 10;
    saved.rec_hw_mode = "sw".to_string();
    saved.naming_format = "x".to_string();
    let s = load_settings(Some(saved.clone()));
    assert_eq!((s.history_limit, s.rec_countdown, s.rec_hw_mode.as_str()), (7, 10, "sw"));
    assert_eq!((s.naming_format.as_str(), s.replay_duration), ("x", 30));
    saved.replay_duration = 1;
    saved.rec_hw_mode = "fast".to_string();
    let s = load_settings(Some(saved));
    assert_eq!((s.replay_duration, s.rec_hw_mode.as_str()), (5, "auto"));
}

#[test]
fn saved_settings_are_brought_into_range() {
    let mut s = defaults_in(None, None);
    s.history_limit = 500;
    s.rec_history_limit = 101;
    s.replay_duration = 1;
    s.rec_countdown = 4;
    s.rec_hw_mode = "gpu".to_string();
    let n = normalized(s.clone());
    assert_eq!((n.history_limit, n.rec_history_limit, n.replay_duration), (100, 100, 5));
    assert_eq!((n.rec_countdown, n.rec_hw_mode.as_str()), (3, "auto"));
    s.replay_duration = 900;
    s.rec_countdown = 10;
    s.rec_hw_mode = "sw".to_string();
    let n = normalized(s);
    assert_eq!((n.replay_duration, n.rec_countdown, n.rec_hw_mode.as_str()), (600, 10, "sw"));
}

#[test]
fn files_stand_in_the_programs_folder() {
    assert_eq!(app_dir_in(Some("/d".to_string())), "/d/Open Screen");
    assert_eq!(app_dir_in(None), "./Open Screen");
    assert!(app_dir().ends_with("Open Screen"));
    assert_eq!(settings_path_in("/d"), "/d/settings.json");
    assert!(settings_path().ends_with("settings.json"));
    assert_eq!(history_dir_in("/d"), "/d/history");
    assert!(history_dir().ends_with("history"));
    assert_eq!(index_path_in("/d/history"), "/d/history/index.json");
    assert!(index_path().ends_with("index.json"));
}

#[test]
fn a_saved_setting_wins_and_a_missing_one_keeps_its_default() {
    let merged = merge_settings(br#"{"a":1,"b":"x\n"}"#, br#"{"b":[true],"c":null}"#)
        .expect("defaults");
    assert_eq!(merged, r#"{"a":1,"b":[true],"c":null}"#);
    assert_eq!(merge_settings(b"{\"a\":1}", b"not json").expect("defaults"), "{\"a\":1}");
    assert_eq!(merge_settings(b"{\"a\":1}", b"[2]").expect("defaults"), "{\"a\":1}");
    assert_eq!(merge_settings(b"[]", b"{}"), None);
    let pair = |k: &str, v: &str| (k.to_string(), v.to_string());
    let both = overlay(vec![pair("a", "1")], &vec![pair("a", "2"), pair("b\"", "3")]);
    assert_eq!(write_object(&both), r#"{"a":2,"b\"":3}"#);
}

#[test]
fn names_are_sorted_and_repeats_dropped() {
    let mut v = strings(&["b", "ab", "", "a", "é", "b"]);
    sort_names(&mut v);
    assert_eq!(v, strings(&["", "a", "ab", "b", "b", "é"]));
    assert_eq!(drop_repeats(&v), strings(&["", "a", "ab", "b", "é"]));
}

// ---- hotkeys ----

#[test]
fn hotkeys_are_read() {
    let k = parse_hotkey("Ctrl+Shift+S").expect("hotkey");
    assert!(k.ctrl && k.shift && !k.alt && !k.sup);
    assert!(matches!(k.key, Key::Letter('s')));
    let k = parse_hotkey(" control + CMD + f12 ").expect("hotkey");
    assert!(k.ctrl && k.sup && matches!(k.key, Key::Function(12)));
    assert!(matches!(parse_hotkey("Alt+7").expect("hotkey").key, Key::Digit('7')));
    assert!(matches!(parse_hotkey("Print").expect("hotkey").key, Key::PrintScreen));
    assert!(matches!(parse_hotkey("a+b").expect("hotkey").key, Key::Letter('b')));
    assert!(parse_hotkey("").is_none());
    assert!(parse_hotkey("Ctrl+Shift").is_none());
    assert!(parse_hotkey("Ctrl+F13").is_none());
    assert!(parse_hotkey("Ctrl+F0").is_none());
    assert!(parse_hotkey("Ctrl+é").is_none());
}

#[test]
fn shared_keys_are_bound_once() {
    let mut s = defaults_in(None, None);
    let bs = bindings(&s);
    let labels: Vec<&str> = bs.iter().map(|b| b.label.as_str()).collect();
    assert_eq!(
        labels,
        vec![
            "Screenshot",
            "OCR",
            "Start/Stop recording",
            "Pause/Resume recording",
            "Save Instant Replay"
        ]
    );
    assert!(matches!(bs[2].action, Action::ToggleRecording));
    s.ocr_enabled = false;
    s.rec_stop_hotkey = "Ctrl+F2".to_string();
    s.rec_resume_hotkey = " CTRL+SHIFT+p ".to_string();
    let bs = bindings(&s);
    let labels: Vec<&str> = bs.iter().map(|b| b.label.as_str()).collect();
    assert_eq!(
        labels,
        vec![
            "Screenshot",
            "Start recording",
            "Stop recording",
            "Pause/Resume recording",
            "Save Instant Replay"
        ]
    );
    s.rec_resume_hotkey = "F1".to_string();
    assert_eq!(bindings(&s).len(), 6);
}

#[test]
fn keys_that_cannot_be_bound_are_told() {
    let mut s = defaults_in(None, None);
    s.ocr_hotkey = "Hyper".to_string();
    let bs = bindings(&s);
    let free = vec![false; bs.len()];
    assert_eq!(
        register_hotkeys(&bs, &free),
        strings(&["OCR (Hyper) has an unsupported format — use like Ctrl+Shift+S."])
    );
    let mut taken = free;
    taken[0] = true;
    assert_eq!(
        register_hotkeys(&bs, &taken)[0],
        "Screenshot (Ctrl+Shift+S) is already in use by Windows or another app."
    );
}

#[test]
fn free_keys_are_silent() {
    let bs = bindings(&defaults_in(None, None));
    assert!(register_hotkeys(&bs, &vec![false; bs.len()]).is_empty());
}

// ---- the history of screenshots ----

fn item(id: &str, created_at: &str) -> HistoryItem {
    HistoryItem {
        id: id.to_string(),
        created_at: created_at.to_string(),
        width: 1,
        height: 1,
        file_name: format!("{id}.png"),
        image_path: format!("/h/{id}.png"),
        thumb_base64: String::new(),
    }
}

fn ids(items: &[HistoryItem]) -> Vec<&str> {
    items.iter().map(|i| i.id.as_str()).collect()
}

#[test]
fn the_history_is_newest_first_and_stable() {
    let items = vec![item("a", "1"), item("b", "3"), item("c", "2"), item("d", "3")];
    assert_eq!(ids(&history_list(items)), vec!["b", "d", "c", "a"]);
}

#[test]
fn the_history_is_bounded() {
    let items = vec![item("a", "1"), item("b", "3")];
    let c = history_insert(items.clone(), item("n", "4"), 2);
    assert_eq!(ids(&c.items), vec!["n", "b"]);
    assert_eq!(c.removed, strings(&["a.png"]));
    let c = history_insert(items, item("n", "4"), 0);
    assert_eq!(ids(&c.items), vec!["n"]);
    assert_eq!(c.removed, strings(&["a.png", "b.png"]));
}

#[test]
fn a_screenshot_is_added() {
    let png = {
        let img = image::DynamicImage::ImageRgba8(image::ImageBuffer::from_pixel(
            640,
            400,
            image::Rgba([1u8, 2, 3, 255]),
        ));
        open_screen::screenshot::encode_image_base64(&img, "png", 90).expect("png").0
    };
    let added = history_add(&format!(" {png} "), 640, 400, 10, vec![item("a", "1")], "/h")
        .expect("base64");
    assert_eq!(open_screen::encoding::encode(&added.bytes), png);
    assert_eq!(history_get(&added.change.items, &added.item.id), Ok(added.item.file_name.clone()));
    let at = added.item.created_at.as_bytes();
    assert_eq!((at[4], at[7], at[10], at[13], at[16]), (b'-', b'-', b'T', b':', b':'));
    assert_eq!(at[at.len() - 3], b':');
    assert_eq!(added.item.id.len(), 36);
    assert_eq!(added.item.file_name, format!("{}.png", added.item.id));
    assert_eq!(added.item.image_path, format!("/h/{}.png", added.item.id));
    assert_eq!((added.item.width, added.item.height), (640, 400));
    assert_eq!(ids(&added.change.items), vec![added.item.id.as_str(), "a"]);
    let thumb = open_screen::screenshot::decode_pixels(&added.item.thumb_base64).expect("png");
    assert_eq!((thumb.width, thumb.height), (320, 200));
    assert_eq!(make_thumbnail(&added.bytes), added.item.thumb_base64);
    assert_eq!(make_thumbnail(b"no picture"), "");
    assert!(history_add("$", 1, 1, 10, Vec::new(), "/h").is_err());
    let at = history_item_at(b"x", 3, 4, "/h", "i".to_string(), "t".to_string());
    assert_eq!((at.id.as_str(), at.created_at.as_str(), at.file_name.as_str()), ("i", "t", "i.png"));
    assert_eq!(at.thumb_base64, "");
}

fn gray_png(width: u32, height: u32, value: u16) -> Vec<u8> {
    let img = image::ImageBuffer::from_pixel(width, height, image::Luma([value]));
    let img = image::DynamicImage::ImageLuma16(img);
    let text = open_screen::screenshot::encode_image_base64(&img, "png", 90).expect("png").0;
    open_screen::encoding::decode_trimmed(&text).expect("base64")
}

#[test]
fn a_small_picture_is_made_where_it_can_be() {
    let small = make_thumbnail(&gray_png(1600, 500, 0xffff));
    let b = open_screen::screenshot::decode_pixels(&small).expect("png");
    assert_eq!((b.width, b.height), (320, 100));
    assert_eq!(b.rgba[0..4], [255; 4]);
    let thin = make_thumbnail(&gray_png(1, 1000, 0xffff));
    let b = open_screen::screenshot::decode_pixels(&thin).expect("png");
    assert_eq!((b.width, b.height), (1, 200));
    let tall = make_thumbnail(&gray_png(1, 13_106_000, 0xffff));
    let b = open_screen::screenshot::decode_pixels(&tall).expect("png");
    assert_eq!((b.width, b.height), (1, 200));
    assert_eq!(b.rgba[0..4], [255; 4]);
    // Too many bright samples of two bytes come together in a pixel.
    assert_eq!(make_thumbnail(&gray_png(40, 400_000, 0xffff)), "");
}

#[test]
fn a_screenshot_is_found_and_deleted() {
    let items = vec![item("a", "1"), item("b", "2")];
    assert_eq!(history_get(&items, "b").expect("there"), "b.png");
    assert_eq!(history_get(&items, "c").err().unwrap(), "History item not found");
    let c = history_delete(items.clone(), "a");
    assert_eq!((ids(&c.items), c.removed), (vec!["b"], strings(&["a.png"])));
    assert!(history_get(&c.items, "a").is_err());
    let c = history_delete(items.clone(), "c");
    assert_eq!((c.items.len(), c.removed.len()), (2, 0));
    let c = history_clear(&items);
    assert_eq!((c.items.len(), c.removed), (0, strings(&["a.png", "b.png"])));
}

// ---- text recognition ----

fn output(success: bool, stdout: &str, stderr: &str) -> Output {
    Output { success, stdout: stdout.as_bytes().to_vec(), stderr: stderr.as_bytes().to_vec() }
}

fn place(path: &str, there: bool) -> Place {
    Place { path: path.to_string(), there }
}

#[test]
fn stubs_are_told_from_programs_and_data() {
    assert!(looks_like_real_binary(Some(50_001)));
    assert!(!looks_like_real_binary(Some(50_000)));
    assert!(!looks_like_real_binary(None));
    assert!(valid_traineddata(Some(100_001)));
    assert!(!valid_traineddata(Some(100_000)));
    assert!(!valid_traineddata(None));
}

#[test]
fn the_reader_is_found_in_order() {
    let shipped = |size| Some(Shipped { path: "s".to_string(), size: Some(size) });
    let usual = vec![place("u1", false), place("u2", true)];
    let on_path = Some("p".to_string());
    assert_eq!(
        find_tesseract(shipped(60_000), on_path.clone(), &usual, place("o", true)),
        Some("s".to_string())
    );
    assert_eq!(
        find_tesseract(shipped(130), on_path, &usual, place("o", true)),
        Some("p".to_string())
    );
    assert_eq!(find_tesseract(None, None, &usual, place("o", true)), Some("u2".to_string()));
    assert_eq!(find_tesseract(None, None, &Vec::new(), place("o", true)), Some("o".to_string()));
    assert_eq!(find_tesseract(None, None, &Vec::new(), place("o", false)), None);
}

#[test]
fn language_data_has_its_place() {
    assert_eq!(exe_tessdata_dir(Some("/t".to_string())), "/t/tessdata");
    assert_eq!(exe_tessdata_dir(None), "./tessdata");
    assert_eq!(traineddata_in("/t", "ara"), "/t/ara.traineddata");
    assert!(app_traineddata("eng").ends_with("eng.traineddata"));
    assert!(app_data_prefix().ends_with("Open Screen"));
}

#[test]
fn languages_are_listed() {
    let out = output(true, "List of available languages (2):\n eng \n\nara\n", "osd");
    assert_eq!(list_langs(&Some(out)), strings(&["eng", "ara", "osd"]));
    assert!(list_langs(&None).is_empty());
    let langs = strings(&["eng"]);
    assert!(lang_available(&langs, "eng", None, None));
    assert!(lang_available(&langs, "ara", Some(200_000), None));
    assert!(lang_available(&langs, "ara", None, Some(200_000)));
    assert!(!lang_available(&langs, "ara", Some(5), Some(5)));
}

#[test]
fn some_language_is_always_read() {
    assert_eq!(resolve_tess_langs("auto", &strings(&["eng", "ara"])), "eng+ara");
    assert_eq!(resolve_tess_langs("auto", &Vec::new()), "eng+ara");
    assert_eq!(resolve_tess_langs("auto", &strings(&["ara"])), "ara");
    assert_eq!(resolve_tess_langs("arabic", &strings(&["ara"])), "ara");
    assert_eq!(resolve_tess_langs("ara", &strings(&["eng"])), "eng");
    assert_eq!(resolve_tess_langs("en", &strings(&["osd"])), "eng");
    assert_eq!(
        reading_langs("AUTO", &Vec::new()),
        ("eng+ara".to_string(), strings(&["eng", "ara"]))
    );
    assert_eq!(reading_langs("Arabic", &Vec::new()), ("ara".to_string(), strings(&["ara"])));
    assert_eq!(lang_codes("ARABIC"), strings(&["ara"]));
    assert_eq!(lang_codes("en"), strings(&["eng"]));
    assert_eq!(lang_codes("x"), strings(&["eng", "ara"]));
    assert_eq!(ready_message(&strings(&["eng", "ara"])), "eng+ara ready — works offline now.");
}

#[test]
fn only_what_is_missing_is_fetched() {
    let sizes = |beside, own| DataSizes { beside, own };
    let big = Some(200_000);
    assert!(resolve_datadir(&vec![sizes(big, None), sizes(big, big)]).is_none());
    let steps = resolve_datadir(&vec![sizes(big, None), sizes(None, None), sizes(None, big)])
        .expect("own data");
    assert_eq!(steps.len(), 3);
    assert!(matches!(steps[0], DataStep::Copy));
    assert!(matches!(steps[1], DataStep::Download));
    assert!(matches!(steps[2], DataStep::Nothing));
    assert_eq!(
        data_urls("ara"),
        strings(&[
            "https://github.com/tesseract-ocr/tessdata_fast/raw/main/ara.traineddata",
            "https://github.com/tesseract-ocr/tessdata/raw/main/ara.traineddata",
        ])
    );
    assert!(check_fetched(Fetched::Bytes(100_001)).is_ok());
    assert_eq!(
        check_fetched(Fetched::Bytes(7)).err().unwrap(),
        "downloaded file too small (7 bytes)"
    );
    assert_eq!(check_fetched(Fetched::Refused("404".to_string())).err().unwrap(), "HTTP 404");
    assert_eq!(check_fetched(Fetched::Failed("dns".to_string())).err().unwrap(), "dns");
    assert!(data_error("ara", Some("dns".to_string()))
        .starts_with("Could not download ara language data (dns). Check your internet"));
    assert!(data_error("ara", None).contains("(unknown error)"));
}

#[test]
fn the_status_of_reading_is_told() {
    let none = || DataSizes { beside: None, own: None };
    let st = ocr_status(
        Some("t".to_string()),
        strings(&["eng"]),
        none(),
        DataSizes { beside: None, own: Some(200_000) },
    );
    assert!(st.available && !st.needs_install && st.has_eng && st.has_ara);
    assert_eq!((st.engine.as_str(), st.tesseract_path), ("tesseract (local)", Some("t".to_string())));
    let st = ocr_status(None, Vec::new(), none(), none());
    assert!(!st.available && st.needs_install && !st.has_eng && !st.has_ara);
    assert_eq!(st.engine, "none");
}

#[test]
fn only_pictures_are_read() {
    assert_eq!(ocr_picture("aGVsbG8=").err().unwrap(), "Invalid image for OCR");
    assert!(ocr_picture("$").is_err());
    let b = open_screen::picture::Bitmap { width: 1, height: 1, rgba: vec![9; 4] };
    let cap = open_screen::screenshot::capture_result(b).expect("png");
    assert_eq!(ocr_picture(&cap.base64).expect("picture")[1..4], *b"PNG");
}

#[test]
fn reading_has_outcomes() {
    assert_eq!(
        tesseract_args("i.png", "eng", "6"),
        strings(&["i.png", "stdout", "-l", "eng", "--oem", "1", "--psm", "6"])
    );
    assert_eq!(run_tesseract(&output(true, " hi \n", "warning")).expect("text"), "hi");
    assert_eq!(
        run_tesseract(&output(false, "", "Error opening X.TRAINEDDATA")).err().unwrap(),
        "LANGDATA"
    );
    assert_eq!(
        run_tesseract(&output(false, "", "bad image\nmore")).err().unwrap(),
        "OCR failed. Try a clearer area or another language. (bad image)"
    );
    assert_eq!(
        run_tesseract(&output(false, "", "")).err().unwrap(),
        "OCR failed. Try a clearer area or another language. (tesseract error)"
    );
    assert!(reads_again(" \n"));
    assert!(!reads_again("x"));
    assert!(reading_error("LANGDATA".to_string()).starts_with("Arabic/English data missing"));
    assert_eq!(reading_error("other".to_string()), "other");
}

#[test]
fn installing_has_outcomes() {
    assert_eq!(install_args()[0..4], strings(&["install", "-e", "--id", "UB-Mannheim.TesseractOCR"]));
    assert!(install_outcome(&output(true, "", "")).expect("installed").starts_with("Tesseract installed."));
    assert_eq!(
        install_outcome(&output(false, "", "no net\nx")).err().unwrap(),
        "winget install failed: no net"
    );
    assert_eq!(
        install_outcome(&output(false, "", "")).err().unwrap(),
        "winget install failed: unknown error"
    );
}
