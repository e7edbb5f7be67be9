use logo_designer::state::ImageRecord;
use logo_designer::views::{
    decimal_text, duration_label, export_file_name, export_name_hint, image_caption, image_count_label,
    log_detail_display, log_status_label, short_timestamp, style_toggle_label, Page,
};

#[test]
fn decimal_numbers() {
    assert_eq!(decimal_text(0), "0");
    assert_eq!(decimal_text(7), "7");
    assert_eq!(decimal_text(10), "10");
    assert_eq!(decimal_text(1234567890), "1234567890");
    assert_eq!(decimal_text(u64::MAX), u64::MAX.to_string());
}

#[test]
fn count_and_duration_labels() {
    assert_eq!(image_count_label(0), "0 images");
    assert_eq!(image_count_label(1), "1 image");
    assert_eq!(image_count_label(12), "12 images");
    assert_eq!(duration_label(1500), "1500ms");
}

#[test]
fn long_details_are_cut() {
    let short = "x".repeat(200);
    assert_eq!(log_detail_display(&short), short);
    let long = "y".repeat(250);
    assert_eq!(log_detail_display(&long), format!("{}...", "y".repeat(200)));
}

#[test]
fn timestamps_are_shortened() {
    assert_eq!(short_timestamp("2024-05-02T11:30:00+00:00"), "2024-05-02T11:30");
    assert_eq!(short_timestamp("2024-05-02"), "2024-05-02");
}

#[test]
fn style_toggle() {
    assert_eq!(style_toggle_label("Flat", false), "Style: Flat ▼");
    assert_eq!(style_toggle_label("Cartoon", true), "Style: Cartoon ▲");
}

#[test]
fn export_names_from_prompts() {
    assert_eq!(export_name_hint("Minimalist Mountain Logo!", "id-1"), "minimalist-mountain-logo");
    assert_eq!(export_name_hint("  ***  ", "id-1"), "id-1");
    assert_eq!(export_name_hint("", "id-2"), "id-2");
    assert_eq!(
        export_name_hint("A very long prompt describing a hiking app logo", "id"),
        "a-very-long-prompt-describing"
    );
    assert_eq!(export_name_hint("Café Über 3", "id"), "café-über-3");
}

#[test]
fn export_file_names() {
    assert_eq!(export_file_name("logo", "svg", 0), "logo.svg");
    assert_eq!(export_file_name("logo", "png", 1), "logo_1.png");
    assert_eq!(export_file_name("logo", "png", 12), "logo_12.png");
}

#[test]
fn captions() {
    let mut img = ImageRecord {
        id: "i".into(),
        session_id: "s".into(),
        prompt: "p".into(),
        model: "flux-kontext-pro".into(),
        parent_image_id: Some("q".into()),
        filename: "i.png".into(),
        file_type: "png".into(),
        created_at: "t".into(),
    };
    assert_eq!(image_caption(&img), "flux-kontext-pro | PNG | Evolved");
    img.parent_image_id = None;
    img.file_type = "svg".into();
    assert_eq!(image_caption(&img), "flux-kontext-pro | SVG");
    assert_eq!(log_status_label("error"), "ERROR");
}

#[test]
fn pages_compare() {
    assert_eq!(Page::Design, Page::Design);
    assert_ne!(Page::Logs, Page::History);
}
