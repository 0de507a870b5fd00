use imgdump::record::{Export, Inscription, InscriptionEntry};
use imgdump::stats::Stats;

#[test]
fn new_counters_are_zero() {
    assert_eq!(Stats::new(), Stats { images_count: 0, images_bytes: 0, images_skipped: 0 });
}

#[test]
fn written_file_adds_one_and_its_declared_length() {
    let mut stats = Stats::new();
    assert!(stats.record_written(500));
    assert!(stats.record_written(0));
    assert!(stats.record_written(12));
    assert_eq!(stats, Stats { images_count: 3, images_bytes: 512, images_skipped: 0 });
}

#[test]
fn skipped_file_adds_one_and_no_bytes() {
    let mut stats = Stats::new();
    assert!(stats.record_skipped());
    assert!(stats.record_skipped());
    assert_eq!(stats, Stats { images_count: 0, images_bytes: 0, images_skipped: 2 });
}

#[test]
fn counters_at_their_limit_refuse_and_stay() {
    let full = Stats { images_count: u64::MAX, images_bytes: 7, images_skipped: u64::MAX };
    let mut stats = full;
    assert!(!stats.record_skipped());
    assert!(!stats.record_written(1));
    assert_eq!(stats, full);
    let mut bytes = Stats { images_count: 1, images_bytes: usize::MAX - 3, images_skipped: 0 };
    assert!(!bytes.record_written(4));
    assert_eq!(bytes.images_count, 1);
    assert!(bytes.record_written(3));
    assert_eq!(bytes, Stats { images_count: 2, images_bytes: usize::MAX, images_skipped: 0 });
}

fn inscription(media_type: Option<&str>, length: Option<usize>, body: Option<&[u8]>) -> Inscription {
    Inscription {
        content_type: media_type.map(|t| t.to_string()),
        content_length: length,
        body: body.map(|b| b.to_vec()),
    }
}

#[test]
fn plan_names_the_file_and_keeps_length_and_body() {
    let entry = InscriptionEntry { number: 42 };
    let export = Export::plan(&entry, inscription(Some("image/png"), Some(3), Some(b"abc"))).unwrap();
    assert_eq!(export.file_name, "00000042.png");
    assert_eq!(export.length, 3);
    assert_eq!(export.body, b"abc".to_vec());
}

#[test]
fn plan_defaults_absent_length_and_body() {
    let entry = InscriptionEntry { number: 1 };
    let export = Export::plan(&entry, inscription(Some("image/gif"), None, None)).unwrap();
    assert_eq!(export.file_name, "00000001.gif");
    assert_eq!(export.length, 0);
    assert!(export.body.is_empty());
}

#[test]
fn plan_passes_over_what_is_not_an_image() {
    let entry = InscriptionEntry { number: 1 };
    assert!(Export::plan(&entry, inscription(None, Some(1), Some(b"a"))).is_none());
    assert!(Export::plan(&entry, inscription(Some("text/plain"), Some(1), Some(b"a"))).is_none());
    assert!(Export::plan(&entry, inscription(Some("audio/wav"), Some(1), Some(b"a"))).is_none());
}

#[test]
fn plan_keeps_a_declared_length_that_differs_from_the_body() {
    let entry = InscriptionEntry { number: 9 };
    let export = Export::plan(&entry, inscription(Some("image/webp"), Some(10), Some(b"abc"))).unwrap();
    assert_eq!(export.length, 10);
    assert_eq!(export.body.len(), 3);
}

#[test]
fn only_a_file_of_the_declared_length_is_up_to_date() {
    let entry = InscriptionEntry { number: 9 };
    let export = Export::plan(&entry, inscription(Some("image/webp"), Some(10), Some(b"abc"))).unwrap();
    assert!(export.is_up_to_date(Some(10)));
    assert!(!export.is_up_to_date(Some(3)));
    assert!(!export.is_up_to_date(Some(0)));
    assert!(!export.is_up_to_date(Some(11)));
    assert!(!export.is_up_to_date(None));
}

#[test]
fn accessors_hand_out_what_the_record_declares() {
    let full = inscription(Some("image/png"), Some(3), Some(b"abc"));
    assert_eq!(full.content_type(), Some("image/png"));
    assert_eq!(full.content_length(), Some(3));
    assert_eq!(full.body(), Some(&b"abc"[..]));
    let bare = inscription(None, None, None);
    assert_eq!(bare.content_type(), None);
    assert_eq!(bare.content_length(), None);
    assert_eq!(bare.body(), None);
}
