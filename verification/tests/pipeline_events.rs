use rasterbatch::pipeline::{
    ConversionRequest, DocumentJob, Event, FinishStep, PageStep, Status,
};
use rasterbatch::pixels::PixelBuffer;
use rasterbatch::OutputFormat;

fn request(merge: bool) -> ConversionRequest {
    ConversionRequest {
        output_dir: String::from("out"),
        format: OutputFormat::Png,
        page_range_expr: String::new(),
        merge,
        quality: 80,
    }
}

fn solid(width: u32, height: u32, value: u8) -> PixelBuffer {
    PixelBuffer::from_rgba(width, height, vec![value; (4 * width * height) as usize]).unwrap()
}

fn status_of(ev: &Event) -> Option<(Status, Option<String>, Option<String>)> {
    match ev {
        Event::FileStatus(fs) => Some((fs.status, fs.error.clone(), fs.output_path.clone())),
        Event::Progress(_) => None,
    }
}

#[test]
fn status_words_match_the_reporting_protocol() {
    assert_eq!(Status::Queued.text(), "queued");
    assert_eq!(Status::Processing.text(), "processing");
    assert_eq!(Status::Success.text(), "success");
    assert_eq!(Status::Error.text(), "error");
}

#[test]
fn empty_selection_gives_one_error_and_no_progress() {
    let mut req = request(false);
    req.page_range_expr = String::from("abc");
    let (mut job, ev0) = DocumentJob::start(String::from("doc"), &req);
    let (st0, _, _) = status_of(&ev0).unwrap();
    assert_eq!(st0, Status::Processing);
    let ev = job.loaded(5).expect("an empty selection must end the document");
    let (st, err, out) = status_of(&ev).unwrap();
    assert_eq!(st, Status::Error);
    assert_eq!(err.as_deref(), Some("No valid pages selected in range"));
    assert!(out.is_none());
    // Two events in all: processing, then the terminal error; no progress.
}

#[test]
fn load_failure_ends_the_document_in_error() {
    let (mut job, _) = DocumentJob::start(String::from("broken"), &request(false));
    let ev = job.load_failed(String::from("bad header"));
    let (st, err, _) = status_of(&ev).unwrap();
    assert_eq!(st, Status::Error);
    assert_eq!(err.as_deref(), Some("Load PDF error: bad header"));
}

#[test]
fn batch_of_three_documents_yields_three_terminal_events() {
    let req = request(false);
    let mut terminals: Vec<(String, Status)> = Vec::new();

    for (name, load_ok) in [("a", true), ("b", false), ("c", true)] {
        let (mut job, _) = DocumentJob::start(String::from(name), &req);
        if !load_ok {
            let ev = job.load_failed(String::from("cannot open"));
            if let Event::FileStatus(fs) = ev {
                terminals.push((fs.filename, fs.status));
            }
            continue;
        }
        job.loaded(1).map(|_| panic!("selection must not be empty"));
        let (_idx, _progress) = job.begin_page();
        match job.page_rendered(solid(1, 1, 9)) {
            PageStep::SavePage { .. } => job.page_save_ok(),
            PageStep::Accumulated => panic!("not merging"),
        }
        match job.finish() {
            FinishStep::Done(Event::FileStatus(fs)) => terminals.push((fs.filename, fs.status)),
            _ => panic!("a non-merge document must end at finish"),
        }
    }

    assert_eq!(
        terminals,
        vec![
            (String::from("a"), Status::Success),
            (String::from("b"), Status::Error),
            (String::from("c"), Status::Success),
        ]
    );
}

#[test]
fn mid_document_render_failure_still_ends_in_success() {
    let (mut job, _) = DocumentJob::start(String::from("doc"), &request(false));
    assert!(job.loaded(3).is_none());
    let mut saved_paths: Vec<String> = Vec::new();
    let mut progress: Vec<(usize, usize)> = Vec::new();

    for page in 0..3u32 {
        let (idx, ev) = job.begin_page();
        if let Event::Progress(p) = ev {
            progress.push((p.current, p.total));
        }
        assert_eq!(idx, page as usize);
        if page == 1 {
            let ev = job.render_failed(String::from("corrupt page"));
            let (st, err, _) = status_of(&ev).unwrap();
            assert_eq!(st, Status::Error);
            assert_eq!(err.as_deref(), Some("Render error: corrupt page"));
            continue;
        }
        match job.page_rendered(solid(1, 1, page as u8)) {
            PageStep::SavePage { path, .. } => {
                saved_paths.push(path);
                job.page_save_ok();
            }
            PageStep::Accumulated => panic!("not merging"),
        }
    }

    assert_eq!(progress, vec![(1, 3), (2, 3), (3, 3)]);
    assert_eq!(saved_paths, vec!["out/doc_page_1.png", "out/doc_page_3.png"]);
    match job.finish() {
        FinishStep::Done(ev) => {
            let (st, err, out) = status_of(&ev).unwrap();
            assert_eq!(st, Status::Success);
            assert!(err.is_none());
            assert_eq!(out.as_deref(), Some("out/doc_page_3.png"));
        }
        _ => panic!("a non-merge document must end at finish"),
    }
}

#[test]
fn page_save_failure_is_reported_but_not_terminal() {
    let (mut job, _) = DocumentJob::start(String::from("doc"), &request(false));
    assert!(job.loaded(2).is_none());

    let (_, _) = job.begin_page();
    match job.page_rendered(solid(1, 1, 1)) {
        PageStep::SavePage { .. } => {
            let ev = job.page_save_failed(String::from("disk full"));
            let (st, err, _) = status_of(&ev).unwrap();
            assert_eq!(st, Status::Error);
            assert_eq!(err.as_deref(), Some("Save error: disk full"));
        }
        PageStep::Accumulated => panic!("not merging"),
    }

    let (_, _) = job.begin_page();
    match job.page_rendered(solid(1, 1, 2)) {
        PageStep::SavePage { .. } => job.page_save_ok(),
        PageStep::Accumulated => panic!("not merging"),
    }

    match job.finish() {
        FinishStep::Done(ev) => {
            let (st, _, out) = status_of(&ev).unwrap();
            assert_eq!(st, Status::Success);
            assert_eq!(out.as_deref(), Some("out/doc_page_2.png"));
        }
        _ => panic!("a non-merge document must end at finish"),
    }
}

#[test]
fn all_pages_failing_ends_in_error() {
    let (mut job, _) = DocumentJob::start(String::from("doc"), &request(false));
    assert!(job.loaded(2).is_none());
    for _ in 0..2 {
        let (_, _) = job.begin_page();
        let ev = job.render_failed(String::from("corrupt page"));
        assert!(matches!(status_of(&ev), Some((Status::Error, _, _))));
    }
    match job.finish() {
        FinishStep::Done(ev) => {
            let (st, err, _) = status_of(&ev).unwrap();
            assert_eq!(st, Status::Error);
            assert_eq!(err.as_deref(), Some("No output produced"));
        }
        _ => panic!("a non-merge document must end at finish"),
    }
}

#[test]
fn merged_documents_compose_and_save_once() {
    let (mut job, _) = DocumentJob::start(String::from("doc"), &request(true));
    assert!(job.loaded(2).is_none());

    let (_, _) = job.begin_page();
    match job.page_rendered(solid(2, 1, 10)) {
        PageStep::Accumulated => {}
        PageStep::SavePage { .. } => panic!("merging accumulates"),
    }
    let (_, _) = job.begin_page();
    match job.page_rendered(solid(1, 1, 20)) {
        PageStep::Accumulated => {}
        PageStep::SavePage { .. } => panic!("merging accumulates"),
    }

    match job.finish() {
        FinishStep::SaveMerged { path, buffer } => {
            assert_eq!(path, "out/doc_merged.png");
            assert_eq!(buffer.width(), 2);
            assert_eq!(buffer.height(), 2);
            let d = buffer.pixel_data();
            // Top row is the first page; the second row holds the narrower
            // page and a transparent remainder.
            assert_eq!(&d[0..8], &[10, 10, 10, 10, 10, 10, 10, 10]);
            assert_eq!(&d[8..12], &[20, 20, 20, 20]);
            assert_eq!(&d[12..16], &[0, 0, 0, 0]);
            let ev = job.merged_save_ok();
            let (st, _, out) = status_of(&ev).unwrap();
            assert_eq!(st, Status::Success);
            assert_eq!(out.as_deref(), Some("out/doc_merged.png"));
        }
        FinishStep::Done(_) => panic!("two rendered pages must merge"),
    }
}

#[test]
fn merge_with_no_rendered_pages_ends_in_error() {
    let (mut job, _) = DocumentJob::start(String::from("doc"), &request(true));
    assert!(job.loaded(1).is_none());
    let (_, _) = job.begin_page();
    let _ = job.render_failed(String::from("corrupt page"));
    match job.finish() {
        FinishStep::Done(ev) => {
            let (st, _, _) = status_of(&ev).unwrap();
            assert_eq!(st, Status::Error);
        }
        _ => panic!("an empty merge stack must end the document"),
    }
}

#[test]
fn merged_save_failure_reports_and_ends_in_error() {
    let (mut job, _) = DocumentJob::start(String::from("doc"), &request(true));
    assert!(job.loaded(1).is_none());
    let (_, _) = job.begin_page();
    match job.page_rendered(solid(1, 1, 3)) {
        PageStep::Accumulated => {}
        PageStep::SavePage { .. } => panic!("merging accumulates"),
    }
    match job.finish() {
        FinishStep::SaveMerged { .. } => {
            let (ev1, ev2) = job.merged_save_failed(String::from("read-only"));
            let (st1, err1, _) = status_of(&ev1).unwrap();
            assert_eq!(st1, Status::Error);
            assert_eq!(err1.as_deref(), Some("Merge save error: read-only"));
            let (st2, _, _) = status_of(&ev2).unwrap();
            assert_eq!(st2, Status::Error);
        }
        FinishStep::Done(_) => panic!("one rendered page must merge"),
    }
}
