use raftbot::attachment::{
    change_extension, download_permits, ensure_unique_filenames, Attachment, AttachmentItem,
    AttachmentMemory, Download, DOWNLOAD_CONCURRENCY,
};

fn att(id: &str, filename: &str) -> Attachment {
    Attachment {
        id: id.to_string(),
        url: format!("https://cdn.example/{}", id),
        filename: filename.to_string(),
    }
}

fn names(batch: &[Attachment]) -> Vec<String> {
    batch.iter().map(|a| a.filename.clone()).collect()
}

#[test]
fn duplicates_get_running_numbers() {
    let out = ensure_unique_filenames(vec![att("1", "a.png"), att("2", "a.png"), att("3", "a.png")]);
    assert_eq!(names(&out), vec!["a.png", "a_2.png", "a_3.png"]);
}

#[test]
fn dedup_keeps_order_ids_and_urls() {
    let input = vec![att("1", "b.png"), att("2", "a.png"), att("3", "b.png"), att("4", "c")];
    let out = ensure_unique_filenames(input);
    assert_eq!(names(&out), vec!["b.png", "a.png", "b_2.png", "c"]);
    let ids: Vec<&str> = out.iter().map(|a| a.id.as_str()).collect();
    assert_eq!(ids, vec!["1", "2", "3", "4"]);
    assert_eq!(out[2].url, "https://cdn.example/3");
}

#[test]
fn names_are_counted_by_stem() {
    let out = ensure_unique_filenames(vec![att("1", "a.png"), att("2", "a.jpg"), att("3", "a")]);
    assert_eq!(names(&out), vec!["a.png", "a_2.jpg", "a_3"]);
}

#[test]
fn tenth_duplicate_has_two_digits() {
    let input: Vec<Attachment> = (0..11).map(|i| att(&i.to_string(), "x.blp")).collect();
    let out = ensure_unique_filenames(input);
    assert_eq!(out[9].filename, "x_10.blp");
    assert_eq!(out[10].filename, "x_11.blp");
    let mut sorted = names(&out);
    sorted.sort();
    sorted.dedup();
    assert_eq!(sorted.len(), 11);
}

#[test]
fn distinct_names_stay_as_they_are() {
    let out = ensure_unique_filenames(vec![att("1", "a.png"), att("2", "b.png")]);
    assert_eq!(names(&out), vec!["a.png", "b.png"]);
    assert!(ensure_unique_filenames(Vec::new()).is_empty());
}

#[test]
fn hidden_files_and_double_extensions() {
    let out = ensure_unique_filenames(vec![
        att("1", ".env"),
        att("2", ".env"),
        att("3", "a.tar.gz"),
        att("4", "a.tar.gz"),
    ]);
    assert_eq!(names(&out), vec![".env", ".env_2", "a.tar.gz", "a.tar_2.gz"]);
}

#[test]
fn a_name_that_is_already_taken_collides() {
    // the numbering hands out `a_2.png`, which the second attachment already carries
    let out = ensure_unique_filenames(vec![att("1", "a.png"), att("2", "a_2.png"), att("3", "a.png")]);
    assert_eq!(names(&out), vec!["a.png", "a_2.png", "a_2.png"]);
}

#[test]
fn memory_starts_empty_with_stem_and_extension() {
    let m = AttachmentMemory::new(att("1", "photo.final.jpeg"));
    assert_eq!(m.filename_stem, "photo.final");
    assert_eq!(m.filename_extension.as_deref(), Some("jpeg"));
    assert!(m.bytes.is_empty());
    assert!(m.error.is_none());
    assert!(m.content_type.is_none());
    assert!(m.needs_transform());
    let bare = AttachmentMemory::new(att("2", "README"));
    assert_eq!(bare.filename_stem, "README");
    assert_eq!(bare.filename_extension, None);
    let none = AttachmentMemory::new(att("3", ""));
    assert_eq!(none.filename_stem, "");
}

#[test]
fn download_outcome_is_kept_on_the_record() {
    let ok = AttachmentMemory::with_download(
        att("1", "a.png"),
        Ok(Download { content_type: Some("image/png".to_string()), bytes: vec![1, 2, 3] }),
    );
    assert_eq!(ok.bytes, vec![1, 2, 3]);
    assert_eq!(ok.content_type.as_deref(), Some("image/png"));
    assert!(ok.needs_transform());
    let failed = AttachmentMemory::with_download(att("2", "b.png"), Err("404".to_string()));
    assert_eq!(failed.error.as_deref(), Some("404"));
    assert!(failed.bytes.is_empty());
    assert!(failed.content_type.is_none());
    assert!(!failed.needs_transform());
    assert_eq!(failed.filename_stem, "b");
}

#[test]
fn extension_is_replaced() {
    assert_eq!(change_extension("photo.jpeg", "png"), "photo.png");
    assert_eq!(change_extension("photo", "mask.png"), "photo.mask.png");
    assert_eq!(change_extension("dir/a.b.c", "png"), "a.b.png");
    assert_eq!(change_extension("", "png"), ".png");
}

#[test]
fn at_least_one_download_at_a_time() {
    assert_eq!(DOWNLOAD_CONCURRENCY, 4);
    assert_eq!(download_permits(0), 1);
    assert_eq!(download_permits(4), 4);
}

#[test]
fn queue_entry_of_an_attachment() {
    let item = AttachmentItem::of(&att("1", "a.png"));
    assert_eq!(item.url, "https://cdn.example/1");
    assert_eq!(item.filename, "a.png");
    assert_eq!(item.processed_path, None);
    assert_eq!(att("1", "a.png").duplicate().filename, "a.png");
}
