use raftbot::product::{
    completion_text, converted_name, cutout_name, describe_conversion, describe_removal,
    elapsed_millis, error_name, error_product, error_report, format_seconds, mask_name,
    recount_name, rename_duplicates,
    status_text, ConversionTarget, ConversionType, FailureKind, IconVariant, ICON_ARCHIVE_NAME,
    ICON_COLLAGE_NAME, ICON_DESCRIPTION, ICON_QUALITY, ICON_VARIANTS, NO_ATTACHMENTS_TEXT,
    REMBG_ARCHIVE_NAME, REMBG_UNAVAILABLE_TEXT,
};

#[test]
fn product_names_by_pool() {
    assert_eq!(converted_name("a", ConversionTarget::BLP), "a.blp");
    assert_eq!(converted_name("a_2", ConversionTarget::PNG), "a_2.png");
    assert_eq!(cutout_name("cat"), "cat_no_bg.png");
    assert_eq!(mask_name("cat"), "cat_mask.png");
    assert_eq!(error_name("broken"), "broken.error.txt");
}

#[test]
fn archive_names_by_pool() {
    assert_eq!(ConversionTarget::BLP.archive_name(), "converted_images.blp.zip");
    assert_eq!(ConversionTarget::PNG.archive_name(), "converted_images.png.zip");
    assert_eq!(REMBG_ARCHIVE_NAME, "processed.zip");
    assert_eq!(ICON_ARCHIVE_NAME, "icons.zip");
    assert_eq!(ICON_COLLAGE_NAME, "icon_collage.png");
    assert_eq!(ICON_QUALITY, 95);
}

#[test]
fn conversion_names() {
    assert_eq!(ConversionType::ToBLP.target(), ConversionTarget::BLP);
    assert_eq!(ConversionType::ToPNG.target(), ConversionTarget::PNG);
    assert_eq!(ConversionType::ToBLP.as_str(), "toblp");
    assert_eq!(ConversionType::ToPNG.as_str(), "topng");
    assert_eq!(ConversionTarget::BLP.as_str(), "BLP");
    assert_eq!(ConversionTarget::PNG.as_str(), "PNG");
    assert_eq!(ConversionTarget::from_name("BLP"), Some(ConversionTarget::BLP));
    assert_eq!(ConversionTarget::from_name("PNG"), Some(ConversionTarget::PNG));
    assert_eq!(ConversionTarget::from_name("png"), None);
}

#[test]
fn icon_variants_and_paths() {
    assert_eq!(ICON_VARIANTS, 6);
    let prefixes: Vec<&str> =
        (0..6).map(|i| IconVariant::from_index(i).unwrap().prefix()).collect();
    assert_eq!(prefixes, vec!["BTN", "DISBTN", "ATC", "DISATC", "PAS", "DISPAS"]);
    assert_eq!(IconVariant::from_index(6), None);
    assert_eq!(
        IconVariant::Btn.archive_path("sword"),
        "ReplaceableTextures/CommandButtons/BTNsword.blp"
    );
    assert_eq!(
        IconVariant::DisBtn.archive_path("sword"),
        "ReplaceableTextures/CommandButtonsDisabled/DISBTNsword.blp"
    );
    assert_eq!(
        IconVariant::Atc.archive_path("s"),
        "ReplaceableTextures/CommandButtons/ATCs.blp"
    );
    assert_eq!(
        IconVariant::DisAtc.archive_path("s"),
        "ReplaceableTextures/CommandButtonsDisabled/DISATCs.blp"
    );
    assert_eq!(
        IconVariant::Pas.archive_path("s"),
        "ReplaceableTextures/CommandButtons/PASs.blp"
    );
    assert_eq!(
        IconVariant::DisPas.archive_path("s"),
        "ReplaceableTextures/CommandButtonsDisabled/DISPASs.blp"
    );
    assert!(IconVariant::DisPas.is_disabled());
    assert!(!IconVariant::Pas.is_disabled());
}

#[test]
fn report_names_file_error_and_time() {
    let text = error_report(
        FailureKind::Transform,
        "bad.blp",
        "not a BLP file",
        Some("2024-05-01 10:00:00 UTC".to_string()),
    );
    assert_eq!(
        text,
        "Error converting file: bad.blp\n\nError details:\nnot a BLP file\n\nTimestamp: 2024-05-01 10:00:00 UTC"
    );
    let download = error_report(FailureKind::Download, "x.png", "HTTP 404", None);
    assert_eq!(
        download,
        "Error downloading file: x.png\n\nError details:\nHTTP 404\n\nTimestamp: unknown"
    );
}

#[test]
fn error_product_is_stamped_in_utc() {
    let (name, bytes) = error_product("bad", "bad.blp", FailureKind::Transform, "boom", 0);
    assert_eq!(name, "bad.error.txt");
    assert_eq!(
        String::from_utf8(bytes).unwrap(),
        "Error converting file: bad.blp\n\nError details:\nboom\n\nTimestamp: 1970-01-01 00:00:00 UTC"
    );
    let (_, later) = error_product("x", "x.png", FailureKind::Download, "e", 1_714_557_600_123);
    assert!(String::from_utf8(later).unwrap().ends_with("Timestamp: 2024-05-01 10:00:00 UTC"));
    let (_, never) = error_product("x", "x.png", FailureKind::Download, "e", i64::MAX);
    assert!(String::from_utf8(never).unwrap().ends_with("Timestamp: unknown"));
}

#[test]
fn seconds_have_two_decimals() {
    assert_eq!(format_seconds(0), "0.00");
    assert_eq!(format_seconds(4), "0.00");
    assert_eq!(format_seconds(5), "0.01");
    assert_eq!(format_seconds(994), "0.99");
    assert_eq!(format_seconds(995), "1.00");
    assert_eq!(format_seconds(1500), "1.50");
    assert_eq!(format_seconds(12_345), "12.35");
    assert_eq!(format_seconds(60_000), "60.00");
    assert_eq!(format_seconds(u64::MAX), "18446744073709551.62");
}

#[test]
fn elapsed_time_is_never_negative() {
    assert_eq!(elapsed_millis(1_000, 3_500), 2_500);
    assert_eq!(elapsed_millis(3_500, 1_000), 0);
    assert_eq!(elapsed_millis(i64::MIN, i64::MAX), u64::MAX);
}

#[test]
fn descriptions() {
    assert_eq!(describe_conversion(ConversionTarget::BLP, 80), "to BLP (quality: 80)");
    assert_eq!(describe_conversion(ConversionTarget::PNG, 80), "to PNG");
    assert_eq!(describe_removal(160), "for background removal (threshold: 160)");
    assert_eq!(ICON_DESCRIPTION, "converted to icons");
}

#[test]
fn status_and_completion_texts() {
    assert_eq!(
        status_text(2, "to BLP (quality: 80)"),
        "Added 2 image(s) to conversion queue to BLP (quality: 80)\n Processing..."
    );
    assert_eq!(
        completion_text(2, "to BLP (quality: 80)", true, 1_500),
        "Converted 2 image(s) to BLP (quality: 80) (zipped)\n Completed in 1.50s"
    );
    assert_eq!(
        completion_text(1, "to PNG", false, 20),
        "Converted 1 image(s) to PNG\n Completed in 0.02s"
    );
}

#[test]
fn replies_without_a_job() {
    assert!(REMBG_UNAVAILABLE_TEXT.contains("Background removal is currently unavailable"));
    assert!(NO_ATTACHMENTS_TEXT.starts_with("No attachments found"));
}

#[test]
fn running_number_goes_before_the_last_dot() {
    assert_eq!(recount_name("a.blp", 1), "a.blp");
    assert_eq!(recount_name("a.blp", 0), "a.blp");
    assert_eq!(recount_name("a.blp", 2), "a_2.blp");
    assert_eq!(recount_name("a.error.txt", 3), "a.error_3.txt");
    assert_eq!(recount_name("README", 12), "README_12");
    assert_eq!(recount_name(".hidden", 2), "_2.hidden");
    assert_eq!(recount_name("é.png", 2), "é_2.png");
    assert_eq!(recount_name("", 2), "_2");
}

#[test]
fn duplicates_among_products_are_renamed() {
    let files = vec![
        ("a.png".to_string(), vec![1]),
        ("b.png".to_string(), vec![2]),
        ("a.png".to_string(), vec![3]),
        ("a.png".to_string(), vec![4]),
        ("a_2.png".to_string(), vec![5]),
    ];
    let out = rename_duplicates(files);
    let names: Vec<&str> = out.iter().map(|p| p.0.as_str()).collect();
    // names are counted as they were: the last one is the first `a_2.png`
    assert_eq!(names, vec!["a.png", "b.png", "a_2.png", "a_3.png", "a_2.png"]);
    let contents: Vec<u8> = out.iter().map(|p| p.1[0]).collect();
    assert_eq!(contents, vec![1, 2, 3, 4, 5]);
    assert!(rename_duplicates(Vec::new()).is_empty());
}
