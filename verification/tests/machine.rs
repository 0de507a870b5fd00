use imgdump::{
    new_context, Action, Context, Event, Fault, ImgDump, Inscription, InscriptionEntry,
    InscriptionId, Stats, PAGE_SIZE,
};

fn id(index: u32) -> InscriptionId {
    InscriptionId { txid: [index as u8; 32], index }
}

fn image(length: usize) -> Inscription {
    Inscription {
        content_type: Some("image/png".to_string()),
        content_length: Some(length),
        body: Some(vec![0xab; length]),
    }
}

fn begun(start: u64, end: u64) -> Context {
    let (context, action) = ImgDump { image_dir: "out".to_string(), start, end }.run();
    assert!(matches!(action, Action::FetchPage { limit: 100, from } if from == Some(start)));
    context
}

/// A context that waits for the length of the file of record 42.
fn probing(length: usize) -> Context {
    let mut context = begun(0, 0);
    let action = context.step(Event::Page { ids: vec![id(1)], next: None }).unwrap();
    assert!(matches!(action, Action::FetchEntry { id: asked } if asked == id(1)));
    let action = context.step(Event::Entry(Some(InscriptionEntry { number: 42 }))).unwrap();
    assert!(matches!(action, Action::FetchContent { id: asked } if asked == id(1)));
    let action = context.step(Event::Content(Some(image(length)))).unwrap();
    assert!(matches!(action, Action::Probe { file_name } if file_name == "00000042.png"));
    context
}

#[test]
fn run_asks_for_the_first_page_at_the_start_cursor() {
    let (context, action) = ImgDump { image_dir: "out".to_string(), start: 17, end: 90 }.run();
    assert!(matches!(action, Action::FetchPage { limit: 100, from: Some(17) }));
    assert_eq!(PAGE_SIZE, 100);
    assert_eq!(context.image_dir(), "out");
    assert_eq!(context.stats(), Stats::new());
    assert!(!context.is_finished());
}

#[test]
fn new_context_is_ready_for_the_whole_index() {
    let mut context = new_context("images".to_string());
    assert_eq!(context.image_dir(), "images");
    let action = context.step(Event::Page { ids: Vec::new(), next: Some(5) }).unwrap();
    assert!(matches!(action, Action::Report { cursor: 5, got: 0 }));
    let action = context.step(Event::Reported).unwrap();
    assert!(matches!(action, Action::FetchPage { limit: 100, from: Some(5) }));
}

#[test]
fn begin_starts_over_with_counters_at_zero() {
    let mut context = probing(3);
    context.step(Event::Probed(Some(3))).unwrap();
    assert_eq!(context.stats().images_skipped, 1);
    let action = context.begin(8, 9);
    assert!(matches!(action, Action::FetchPage { limit: 100, from: Some(8) }));
    assert_eq!(context.stats(), Stats::new());
    assert_eq!(context.image_dir(), "out");
}

#[test]
fn cursor_within_the_bound_is_followed() {
    let mut context = begun(0, 200);
    let action = context.step(Event::Page { ids: Vec::new(), next: Some(200) }).unwrap();
    assert!(matches!(action, Action::Report { cursor: 200, got: 0 }));
    let action = context.step(Event::Reported).unwrap();
    assert!(matches!(action, Action::FetchPage { limit: 100, from: Some(200) }));
}

#[test]
fn cursor_beyond_the_bound_ends_the_walk_after_the_page() {
    let mut context = begun(0, 200);
    let action = context.step(Event::Page { ids: vec![id(1)], next: Some(201) }).unwrap();
    assert!(matches!(action, Action::FetchEntry { .. }));
    let action = context.step(Event::Entry(None)).unwrap();
    assert!(matches!(action, Action::Report { cursor: 0, got: 1 }));
    let action = context.step(Event::Reported).unwrap();
    assert!(matches!(action, Action::Finish { .. }));
    assert!(context.is_finished());
}

#[test]
fn without_a_bound_any_cursor_is_followed() {
    let mut context = begun(0, 0);
    let action = context.step(Event::Page { ids: Vec::new(), next: Some(u64::MAX) }).unwrap();
    assert!(matches!(action, Action::Report { cursor: u64::MAX, got: 0 }));
    let action = context.step(Event::Reported).unwrap();
    assert!(matches!(action, Action::FetchPage { limit: 100, from: Some(u64::MAX) }));
}

#[test]
fn exhausted_index_ends_the_walk_after_the_page() {
    let mut context = begun(3, 0);
    let action = context.step(Event::Page { ids: Vec::new(), next: None }).unwrap();
    assert!(matches!(action, Action::Report { cursor: 3, got: 0 }));
    let action = context.step(Event::Reported).unwrap();
    assert!(matches!(action, Action::Finish { stats } if stats == Stats::new()));
}

#[test]
fn records_of_a_page_are_taken_in_order() {
    let mut context = begun(0, 0);
    let mut action =
        context.step(Event::Page { ids: vec![id(3), id(1), id(2)], next: None }).unwrap();
    for expected in [3, 1, 2] {
        assert!(matches!(action, Action::FetchEntry { id: asked } if asked == id(expected)));
        action = context.step(Event::Entry(None)).unwrap();
    }
    assert!(matches!(action, Action::Report { cursor: 0, got: 3 }));
}

#[test]
fn file_of_the_declared_length_is_skipped() {
    let mut context = probing(5);
    let action = context.step(Event::Probed(Some(5))).unwrap();
    assert!(matches!(action, Action::Report { .. }));
    assert_eq!(context.stats(), Stats { images_count: 0, images_bytes: 0, images_skipped: 1 });
}

#[test]
fn missing_file_is_written_and_counted_when_written() {
    let mut context = probing(5);
    let action = context.step(Event::Probed(None)).unwrap();
    match action {
        Action::Write { file_name, body } => {
            assert_eq!(file_name, "00000042.png");
            assert_eq!(body, vec![0xab; 5]);
        }
        other => panic!("unexpected action {:?}", other),
    }
    assert_eq!(context.stats(), Stats::new());
    let action = context.step(Event::Written).unwrap();
    assert!(matches!(action, Action::Report { .. }));
    assert_eq!(context.stats(), Stats { images_count: 1, images_bytes: 5, images_skipped: 0 });
}

#[test]
fn file_one_byte_off_is_written() {
    for found in [4u64, 6] {
        let mut context = probing(5);
        let action = context.step(Event::Probed(Some(found))).unwrap();
        assert!(matches!(action, Action::Write { .. }));
        context.step(Event::Written).unwrap();
        assert_eq!(context.stats(), Stats { images_count: 1, images_bytes: 5, images_skipped: 0 });
    }
}

#[test]
fn answer_that_is_not_awaited_is_refused_and_changes_nothing() {
    let mut context = probing(5);
    assert_eq!(context.step(Event::Written).unwrap_err(), Fault::Unexpected);
    assert_eq!(context.step(Event::Reported).unwrap_err(), Fault::Unexpected);
    assert_eq!(context.step(Event::Entry(None)).unwrap_err(), Fault::Unexpected);
    assert_eq!(context.step(Event::Content(None)).unwrap_err(), Fault::Unexpected);
    assert_eq!(
        context.step(Event::Page { ids: Vec::new(), next: None }).unwrap_err(),
        Fault::Unexpected
    );
    // The context still waits for the probe.
    let action = context.step(Event::Probed(Some(5))).unwrap();
    assert!(matches!(action, Action::Report { cursor: 0, got: 1 }));
}

#[test]
fn paginator_refuses_the_exporter_s_answers_and_the_reverse() {
    let mut context = begun(0, 0);
    assert_eq!(
        context.process(Event::Page { ids: Vec::new(), next: None }).unwrap_err(),
        Fault::Unexpected
    );
    assert_eq!(context.process_inscriptions(Event::Entry(None)).unwrap_err(), Fault::Unexpected);
    let action =
        context.process_inscriptions(Event::Page { ids: vec![id(1)], next: None }).unwrap();
    assert!(matches!(action, Action::FetchEntry { .. }));
    assert_eq!(context.process_inscriptions(Event::Reported).unwrap_err(), Fault::Unexpected);
    let action = context.process(Event::Entry(None)).unwrap();
    assert!(matches!(action, Action::Report { cursor: 0, got: 1 }));
    assert_eq!(context.process(Event::Reported).unwrap_err(), Fault::Unexpected);
    let action = context.process_inscriptions(Event::Reported).unwrap();
    assert!(matches!(action, Action::Finish { .. }));
}

#[test]
fn finished_context_refuses_everything() {
    let mut context = begun(0, 0);
    context.step(Event::Page { ids: Vec::new(), next: None }).unwrap();
    context.step(Event::Reported).unwrap();
    assert!(context.is_finished());
    assert_eq!(context.step(Event::Reported).unwrap_err(), Fault::Unexpected);
    assert_eq!(
        context.step(Event::Page { ids: Vec::new(), next: None }).unwrap_err(),
        Fault::Unexpected
    );
    assert_eq!(context.step(Event::Probed(None)).unwrap_err(), Fault::Unexpected);
}

#[test]
fn byte_counter_overflow_is_refused_after_the_write() {
    let mut context = begun(0, 0);
    context.step(Event::Page { ids: vec![id(1), id(2)], next: None }).unwrap();
    for (number, length) in [(1u64, usize::MAX), (2, 1)] {
        context.step(Event::Entry(Some(InscriptionEntry { number }))).unwrap();
        let content = Inscription {
            content_type: Some("image/png".to_string()),
            content_length: Some(length),
            body: None,
        };
        context.step(Event::Content(Some(content))).unwrap();
        let action = context.step(Event::Probed(None)).unwrap();
        assert!(matches!(action, Action::Write { .. }));
        if number == 1 {
            context.step(Event::Written).unwrap();
        }
    }
    let before = context.stats();
    assert_eq!(context.step(Event::Written).unwrap_err(), Fault::Overflow);
    assert_eq!(context.stats(), before);
    assert_eq!(before, Stats { images_count: 1, images_bytes: usize::MAX, images_skipped: 0 });
}
