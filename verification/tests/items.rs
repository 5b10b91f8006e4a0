use resilient_transfer::encode::{encode_path_segment, needs_escape};
use resilient_transfer::outcome::{outcome_of, plan_item, tally, ItemOutcome, ItemPlan, Tally};
use resilient_transfer::units::{has_image_extension, is_image_name, resolve_units, FileDescriptor};

#[test]
fn existing_destination_is_skipped_not_downloaded_again() {
    let name = Some("a.iso");
    let url = Some("https://example.org/a.iso");
    assert_eq!(plan_item(name, url, false, true, false), ItemPlan::Download);
    assert_eq!(plan_item(name, url, true, true, false), ItemPlan::Skip);
    assert_eq!(plan_item(name, url, true, true, true), ItemPlan::Skip);
    assert_eq!(outcome_of(plan_item(name, url, true, true, false), true), ItemOutcome::Skipped);
}

#[test]
fn plan_item_cases() {
    let name = Some("a.iso");
    let url = Some("https://example.org/a.iso");
    assert_eq!(plan_item(None, url, false, true, false), ItemPlan::Fail);
    assert_eq!(plan_item(Some(""), url, false, true, false), ItemPlan::Fail);
    assert_eq!(plan_item(name, None, false, true, false), ItemPlan::Fail);
    assert_eq!(plan_item(name, Some(""), true, true, true), ItemPlan::Fail);
    assert_eq!(plan_item(name, url, false, true, true), ItemPlan::Skip);
    assert_eq!(plan_item(name, url, true, false, false), ItemPlan::Download);
    assert_eq!(plan_item(name, url, true, false, true), ItemPlan::Skip);
}

#[test]
fn outcomes_follow_the_plan() {
    assert_eq!(outcome_of(ItemPlan::Fail, true), ItemOutcome::Failed);
    assert_eq!(outcome_of(ItemPlan::Skip, false), ItemOutcome::Skipped);
    assert_eq!(outcome_of(ItemPlan::Download, true), ItemOutcome::Success);
    assert_eq!(outcome_of(ItemPlan::Download, false), ItemOutcome::Failed);
}

#[test]
fn tally_counts_each_outcome_once() {
    let outcomes = vec![
        ItemOutcome::Success,
        ItemOutcome::Failed,
        ItemOutcome::Skipped,
        ItemOutcome::Success,
        ItemOutcome::Failed,
        ItemOutcome::Failed,
    ];
    assert_eq!(tally(&outcomes), Tally { success: 2, skipped: 1, failed: 3 });
    assert_eq!(tally(&Vec::new()), Tally { success: 0, skipped: 0, failed: 0 });
    let mut t = Tally::new();
    t.record(ItemOutcome::Failed);
    t.record(ItemOutcome::Failed);
    assert_eq!(t, Tally { success: 0, skipped: 0, failed: 2 });
}

#[test]
fn path_segment_is_percent_encoded() {
    assert_eq!(encode_path_segment("plain-name_1.0.iso"), b"plain-name_1.0.iso".to_vec());
    assert_eq!(encode_path_segment("a b#c?.iso"), b"a%20b%23c%3F.iso".to_vec());
    assert_eq!(encode_path_segment("\"<>`{}"), b"%22%3C%3E%60%7B%7D".to_vec());
    assert_eq!(encode_path_segment("\u{e9}"), b"%C3%A9".to_vec());
    assert_eq!(encode_path_segment("\t\u{7f}"), b"%09%7F".to_vec());
    assert_eq!(encode_path_segment("dir/file%25"), b"dir/file%25".to_vec());
    assert_eq!(encode_path_segment(""), Vec::<u8>::new());
}

#[test]
fn escaped_bytes_are_controls_non_ascii_and_the_listed_marks() {
    for b in 0u8..=255 {
        let listed = b" \"#<>?`{}".contains(&b);
        assert_eq!(needs_escape(b), b < 32 || b >= 127 || listed);
    }
}

fn descriptor(name: &str, size: Option<i64>) -> FileDescriptor {
    FileDescriptor { name: String::from(name), size }
}

#[test]
fn image_names_are_recognised_in_any_case() {
    assert!(is_image_name("debian-12.iso"));
    assert!(is_image_name("DISK.IMG"));
    assert!(is_image_name("Files.Zip"));
    assert!(is_image_name(".iso"));
    assert!(!is_image_name("iso"));
    assert!(!is_image_name("notes.txt"));
    assert!(!is_image_name("a.iso.torrent"));
    assert!(!is_image_name(""));
    assert!(has_image_extension("a.zip"));
    assert!(!has_image_extension("A.ZIP"));
}

#[test]
fn a_hit_expands_into_its_image_files_in_order() {
    let files = vec![
        descriptor("readme.txt", Some(10)),
        descriptor("Live CD.ISO", Some(700)),
        descriptor("disk.img", None),
        descriptor("cover.jpg", Some(5)),
    ];
    let units = resolve_units("https://archive.org/download", "item-1", "An Item", &files);
    assert_eq!(units.len(), 2);
    assert_eq!(units[0].identifier, "item-1");
    assert_eq!(units[0].title, "An Item");
    assert_eq!(units[0].file_name, "Live CD.ISO");
    assert_eq!(units[0].download_url, "https://archive.org/download/item-1/Live CD.ISO");
    assert_eq!(units[0].size, Some(700));
    assert_eq!(units[1].file_name, "disk.img");
    assert_eq!(units[1].download_url, "https://archive.org/download/item-1/disk.img");
    assert_eq!(units[1].size, None);
}

#[test]
fn a_hit_without_identifier_expands_into_nothing() {
    let files = vec![descriptor("a.iso", Some(1))];
    assert!(resolve_units("https://archive.org/download", "", "t", &files).is_empty());
    assert!(resolve_units("https://archive.org/download", "x", "t", &Vec::new()).is_empty());
}
