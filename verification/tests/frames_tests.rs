use dash2gps::frames::{
    extraction_settings, frame_index_from_name, has_training_data, is_training_data_name,
    overlay_crop_rect, preprocessed_name,
};

#[test]
fn frame_index_is_zero_based() {
    assert_eq!(frame_index_from_name("f000000001.jpg"), Some(0));
    assert_eq!(frame_index_from_name("f000000011.jpg"), Some(10));
    assert_eq!(frame_index_from_name("f999999999.jpg"), Some(999_999_998));
}

#[test]
fn malformed_frame_names_yield_nothing() {
    assert_eq!(frame_index_from_name("f0001.jpg"), None);
    assert_eq!(frame_index_from_name("f00000000x.jpg"), None);
    assert_eq!(frame_index_from_name("f000000000.jpg"), None);
    assert_eq!(frame_index_from_name(""), None);
}

#[test]
fn crop_rect_is_bottom_strip() {
    let r = overlay_crop_rect(1280, 720);
    assert_eq!((r.x, r.y, r.width, r.height), (0, 670, 1280, 50));

    let short = overlay_crop_rect(1280, 30);
    assert_eq!((short.x, short.y, short.width, short.height), (0, 0, 1280, 30));
}

#[test]
fn preprocessed_name_is_beside_source() {
    assert_eq!(preprocessed_name("f000000001.jpg"), "f000000001.jpg-edit.jpg");
}

#[test]
fn extraction_settings_follow_interval_and_threads() {
    let s = extraction_settings(10, 4);
    assert_eq!(s.rate_filter, "fps=1/10");
    assert_eq!(s.output_size, "1280x720");
    assert_eq!(s.thread_count, "4");
    assert_eq!(s.name_pattern, "f%09d.jpg");

    let s = extraction_settings(1, 255);
    assert_eq!(s.rate_filter, "fps=1/1");
    assert_eq!(s.thread_count, "255");
}

#[test]
fn training_data_is_found_by_suffix() {
    assert!(is_training_data_name("eng.traineddata"));
    assert!(!is_training_data_name("eng.traineddata.bak"));
    assert!(!is_training_data_name("traineddata"));

    let names = vec![String::from("readme.txt"), String::from("eng.traineddata")];
    assert!(has_training_data(&names));

    let none = vec![String::from("readme.txt")];
    assert!(!has_training_data(&none));
    let empty: Vec<String> = Vec::new();
    assert!(!has_training_data(&empty));
}
