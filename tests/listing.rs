use slack_emoji::archive::Archive;
use slack_emoji::paginator::{EmojiPaginator, FetchError, Page, PageResult, DEFAULT_PAGE_SIZE};
use slack_emoji::record::{EmojiRecord, EmojiSource};
use slack_emoji::sync::{export_step, ExportStep};

fn record(i: usize) -> EmojiRecord {
    EmojiRecord::from_listing_entry(
        format!("emoji_{}", i),
        &format!("https://emoji.example.com/T1/emoji_{}/{}.png", i, i),
    )
}

/// Serves `total` records in pages of the requested size, the cursor being
/// the offset of the next page.
fn serve(total: usize, cursor: Option<String>, limit: u64) -> PageResult {
    let start: usize = cursor.map(|c| c.parse().unwrap()).unwrap_or(0);
    let end = std::cmp::min(total, start + limit as usize);
    let records = (start..end).map(record).collect();
    let next_cursor = if end < total { Some(end.to_string()) } else { Some(String::new()) };
    Ok(Page { records, next_cursor })
}

fn names(items: &[Result<EmojiRecord, FetchError>]) -> Vec<String> {
    items.iter().map(|i| i.as_ref().unwrap().name.clone()).collect()
}

#[test]
fn listing_keeps_order_for_every_page_size() {
    let expected: Vec<String> = (0..37).map(|i| format!("emoji_{}", i)).collect();
    for page_size in [1u64, 2, 5, 36, 37, 38, 100] {
        let mut paginator = EmojiPaginator::new(page_size);
        let mut got = Vec::new();
        while let Some(request) = paginator.next_request() {
            assert_eq!(request.limit, page_size);
            let items = paginator.accept(serve(37, request.cursor, request.limit));
            got.extend(names(&items));
        }
        assert_eq!(got, expected, "page size {}", page_size);
    }
}

#[test]
fn export_of_250_emoji_at_page_size_100() {
    let archive = Archive::new("backup".to_string());
    let mut paginator = EmojiPaginator::new(DEFAULT_PAGE_SIZE);
    let mut page_lengths = Vec::new();
    let mut files = std::collections::BTreeSet::new();
    while let Some(request) = paginator.next_request() {
        let items = paginator.accept(serve(250, request.cursor, request.limit));
        page_lengths.push(items.len());
        for item in items {
            match export_step(&archive, item) {
                ExportStep::Download(task) => {
                    files.insert(task.filepath);
                }
                other => panic!("unexpected step {:?}", other),
            }
        }
    }
    assert_eq!(page_lengths, vec![100, 100, 50]);
    assert_eq!(files.len(), 250);
    assert!(files.contains("backup/emoji_0.png"));
    assert!(files.contains("backup/emoji_249.png"));
}

#[test]
fn failed_page_ends_listing_with_one_error() {
    let archive = Archive::new("backup".to_string());
    let mut paginator = EmojiPaginator::new(2);
    let first = paginator.accept(Ok(Page {
        records: vec![record(0), record(1)],
        next_cursor: Some("c2".to_string()),
    }));
    assert_eq!(names(&first), vec!["emoji_0", "emoji_1"]);
    let request = paginator.next_request().unwrap();
    assert_eq!(request.cursor.as_deref(), Some("c2"));
    let failed = paginator.accept(Err(FetchError { message: "timed out".to_string() }));
    assert_eq!(failed.len(), 1);
    assert!(paginator.finished());
    assert!(paginator.next_request().is_none());
    let mut failures = 0;
    for item in failed {
        if let ExportStep::ListingFailed(e) = export_step(&archive, item) {
            assert_eq!(e.message, "timed out");
            failures += 1;
        }
    }
    assert_eq!(failures, 1);
}

#[test]
fn listing_ends_on_empty_page_or_missing_cursor() {
    let mut paginator = EmojiPaginator::new(10);
    let items = paginator.accept(Ok(Page { records: Vec::new(), next_cursor: Some("more".to_string()) }));
    assert!(items.is_empty());
    assert!(paginator.finished());

    let mut paginator = EmojiPaginator::new(10);
    let items = paginator.accept(Ok(Page { records: vec![record(3)], next_cursor: None }));
    assert_eq!(names(&items), vec!["emoji_3"]);
    assert!(paginator.finished());

    let paginator = EmojiPaginator::new(10);
    let request = paginator.next_request().unwrap();
    assert!(request.cursor.is_none());
    assert_eq!(request.limit, 10);
}

#[test]
fn listing_entries_become_images_or_aliases() {
    let image = EmojiRecord::from_listing_entry("party".to_string(), "https://e.example.com/party.gif");
    assert!(image.is_image());
    match image.source {
        EmojiSource::Image(url) => assert_eq!(url, "https://e.example.com/party.gif"),
        EmojiSource::Alias(_) => panic!("image read as alias"),
    }
    let alias = EmojiRecord::from_listing_entry("parrot".to_string(), "alias:party");
    assert!(!alias.is_image());
    match alias.source {
        EmojiSource::Alias(target) => assert_eq!(target, "party"),
        EmojiSource::Image(_) => panic!("alias read as image"),
    }
}
