use image_organizer::pathname::{extension_of, is_heic_path, is_image_path, normalize_str, PathStyle};
use image_organizer::path_index::PathIndex;
use image_organizer::metadata::ImageProbe;
use image_organizer::scanner::{
    load_index, phase_name, root_error, DiskFile, FileCollector, FileStep, ImageWrite, IndexRow,
    ScanPhase, ScanProgress, ScanSession, ScanStats, STATUS_MISSING, STATUS_OK,
};

#[test]
fn extension_matching_is_case_insensitive() {
    assert!(is_image_path("a.PNG", PathStyle::Unix));
    assert!(is_image_path("b.JpEg", PathStyle::Unix));
    assert!(is_image_path("c.heic", PathStyle::Unix));
    assert!(!is_image_path("d.txt", PathStyle::Unix));
    assert!(!is_image_path("noext", PathStyle::Unix));
    assert!(is_image_path("a.PNG", PathStyle::Windows));
    assert!(is_image_path("b.JpEg", PathStyle::Windows));
    assert!(is_image_path("c.heic", PathStyle::Windows));
    assert!(!is_image_path("d.txt", PathStyle::Windows));
    assert!(!is_image_path("noext", PathStyle::Windows));
}

#[test]
fn windows_paths_follow_windows_rules() {
    let w = PathStyle::Windows;
    assert!(!is_image_path("C:\\lib\\.png", w));
    assert!(is_image_path("C:\\lib\\.png", PathStyle::Unix));
    assert!(is_image_path("C:\\photos\\b.GIF", w));
    assert!(!is_image_path("C:.png", w));
    assert!(is_image_path("C:a.png", w));
    assert!(is_image_path("C:/photos/a.jpg", w));
    assert!(is_image_path("photos\\a.tiff\\", w));
    assert!(is_image_path("photos\\a.webp\\.", w));
    assert!(!is_image_path("\\\\server\\share.png", w));
    assert!(is_image_path("\\\\server\\share\\a.png", w));
    assert!(is_image_path("//server/share/a.png", w));
    assert!(!is_image_path("\\\\.\\dev.png", w));
    assert!(is_image_path("\\\\?\\C:\\a.png", w));
    assert!(!is_image_path("\\\\?\\C:\\a.png\\.", w));
    assert!(is_image_path("\\\\?\\C:\\x/a.png", w));
    assert!(!is_image_path("\\\\?\\UNC\\server\\share.png", w));
    assert!(is_image_path("\\\\?\\UNC\\server\\share\\a.png", w));
    assert_eq!(extension_of("C:\\lib\\x.tar.PNG", w).as_deref(), Some("PNG"));
    assert_eq!(extension_of("a\\b.png", PathStyle::Unix).as_deref(), Some("png"));
    assert_eq!(extension_of("dir\\a.", w).as_deref(), Some(""));
    assert!(is_heic_path("C:\\x\\IMG.HEIC", w));
}

#[test]
fn extension_follows_file_name_rules() {
    assert!(is_image_path("/photos/2024/a.jpg", PathStyle::Unix));
    assert!(is_image_path("photos/a.tiff/", PathStyle::Unix));
    assert!(is_image_path("photos/a.webp/.", PathStyle::Unix));
    assert!(!is_image_path(".png", PathStyle::Unix));
    assert!(is_image_path("..png", PathStyle::Unix));
    assert!(!is_image_path("photos/..", PathStyle::Unix));
    assert!(!is_image_path("a.png.txt", PathStyle::Unix));
    assert!(!is_image_path("a.", PathStyle::Unix));
    assert!(!is_image_path("", PathStyle::Unix));
    assert!(!is_image_path("/", PathStyle::Unix));
    assert!(is_image_path("C:\\photos\\b.GIF", PathStyle::Unix));
}

#[test]
fn heic_paths_are_recognised() {
    assert!(is_heic_path("x/IMG_0001.HEIC", PathStyle::Unix));
    assert!(is_heic_path("y.heif", PathStyle::Unix));
    assert!(!is_heic_path("z.png", PathStyle::Unix));
    assert!(!is_heic_path("heic", PathStyle::Unix));
}

#[test]
fn normalize_turns_backslashes_into_slashes() {
    assert_eq!(normalize_str("C:\\photos\\a.png"), "C:/photos/a.png");
    assert_eq!(normalize_str("/already/fine"), "/already/fine");
    assert_eq!(normalize_str(&normalize_str("a\\b\\c")), normalize_str("a\\b\\c"));
}

#[test]
fn done_message_lists_the_counters() {
    let stats = ScanStats {
        total: 5,
        scanned: 5,
        inserted: 2,
        updated: 1,
        skipped: 1,
        missing: 3,
        probe_failed: 0,
        failed: 1,
    };
    let p = ScanProgress::done(&stats);
    assert_eq!(p.phase, ScanPhase::Done);
    assert_eq!(p.scanned, 5);
    assert_eq!(p.total, 5);
    assert_eq!(
        p.message.as_deref(),
        Some("扫描完成：新增 2，更新 1，跳过 1，标记缺失 3，失败 1")
    );
    let s = ScanProgress::scanning(1, 5, None);
    assert_eq!(s.phase, ScanPhase::Scanning);
    assert_eq!((s.scanned, s.total), (1, 5));
    assert_eq!(phase_name(ScanPhase::Scanning), "scanning");
    assert_eq!(phase_name(ScanPhase::Done), "done");
}

#[test]
fn default_stats_are_zero() {
    let s = ScanStats::default();
    assert_eq!(
        (s.total, s.scanned, s.inserted, s.updated, s.skipped, s.missing, s.probe_failed, s.failed),
        (0, 0, 0, 0, 0, 0, 0, 0)
    );
}

#[test]
fn root_error_names_the_directory() {
    let e = root_error("/no/such/dir");
    assert!(e.contains("不存在"));
    assert_eq!(e, "图库目录不存在或不是目录：/no/such/dir");
}

#[test]
fn collector_keeps_image_files_and_counts_failures() {
    let mut c = FileCollector::new();
    assert!(FileCollector::wants_metadata("lib/real.png", PathStyle::Unix, true));
    assert!(!FileCollector::wants_metadata("lib/notes.txt", PathStyle::Unix, true));
    assert!(!FileCollector::wants_metadata("lib/data.bin", PathStyle::Unix, true));
    assert!(!FileCollector::wants_metadata("lib/dir.png", PathStyle::Unix, false));
    c.on_metadata("lib/real.png".to_string(), Ok((100, Ok(1000))));
    c.on_metadata("lib/bad.png".to_string(), Ok((100, Err("no mtime".to_string()))));
    c.on_metadata("lib/gone.png".to_string(), Err("stat failed".to_string()));
    c.on_walk_error();
    assert_eq!(c.files.len(), 1);
    assert_eq!(c.files[0].path, "lib/real.png");
    assert_eq!((c.files[0].size, c.files[0].mtime), (100, 1000));
    assert_eq!(c.failed, 3);
}

fn probe(w: u32, h: u32, f: &str) -> Result<ImageProbe, String> {
    Ok(ImageProbe { width: w, height: h, format: f.to_string() })
}

/// Runs a whole session the way the application does, with every write succeeding,
/// and returns the rows written, the final counters and the rows marked missing.
fn run_session(
    files: Vec<DiskFile>,
    rows: &Vec<IndexRow>,
    live_rows: &Vec<(i64, String)>,
) -> (Vec<ImageWrite>, ScanStats, Vec<i64>, Vec<ScanProgress>) {
    let index = load_index(rows);
    let mut session = ScanSession::new(files, 0, index);
    let mut writes = Vec::new();
    let mut events = Vec::new();
    while let Some(step) = session.begin_file() {
        match step {
            FileStep::Skipped(p) => events.push(p),
            FileStep::Probe(path) => {
                let p = if path.ends_with(".jpg") { probe(8, 6, "jpeg") } else { probe(4, 4, "png") };
                let w = session.prepare_write(p, "2026-01-01 00:00:00".to_string());
                writes.push(w);
                events.push(session.finish_file(Ok(())));
            }
        }
    }
    let missing = session.missing_ids(live_rows);
    let (stats, done) = session.finish(missing.len() as u64);
    events.push(done);
    (writes, stats, missing, events)
}

fn row_of(w: &ImageWrite) -> IndexRow {
    IndexRow {
        path: w.path.clone(),
        file_size: Some(w.file_size),
        mtime: Some(w.mtime),
        status: w.status.clone(),
    }
}

fn disk(path: &str, size: i64, mtime: i64) -> DiskFile {
    DiskFile { path: path.to_string(), size, mtime }
}

#[test]
fn first_scan_inserts_second_scan_skips_in_session() {
    let files = vec![disk("lib\\a.png", 100, 10), disk("lib\\b.jpg", 200, 20)];
    let (writes, stats, missing, events) = run_session(files.clone(), &vec![], &vec![]);
    assert_eq!((stats.total, stats.inserted, stats.skipped, stats.updated), (2, 2, 0, 0));
    assert_eq!(stats.scanned, 2);
    assert!(missing.is_empty());
    assert_eq!(events.last().unwrap().phase, ScanPhase::Done);
    assert_eq!(events.last().unwrap().scanned, 2);
    assert_eq!(writes[0].path, "lib/a.png");
    assert!(!writes[0].update);
    assert_eq!((writes[0].width, writes[0].height), (Some(4), Some(4)));
    assert_eq!(writes[0].format.as_deref(), Some("png"));
    assert_eq!(writes[1].format.as_deref(), Some("jpeg"));
    assert_eq!(writes[0].status, STATUS_OK);

    let rows: Vec<IndexRow> = writes.iter().map(row_of).collect();
    let live: Vec<(i64, String)> = vec![(1, "lib/a.png".to_string()), (2, "lib/b.jpg".to_string())];
    let (writes2, stats2, missing2, _) = run_session(files, &rows, &live);
    assert!(writes2.is_empty());
    assert_eq!((stats2.inserted, stats2.updated, stats2.skipped), (0, 0, 2));
    assert!(missing2.is_empty());
}

#[test]
fn changed_file_is_updated_in_session() {
    let rows = vec![IndexRow {
        path: "lib/a.png".to_string(),
        file_size: Some(100),
        mtime: Some(10),
        status: STATUS_OK.to_string(),
    }];
    let (writes, stats, _, _) = run_session(vec![disk("lib/a.png", 150, 11)], &rows, &vec![]);
    assert_eq!((stats.updated, stats.skipped, stats.inserted), (1, 0, 0));
    assert!(writes[0].update);
    assert_eq!((writes[0].file_size, writes[0].mtime), (150, 11));
}

#[test]
fn missing_row_is_restored_on_rescan() {
    let rows = vec![IndexRow {
        path: "lib/a.png".to_string(),
        file_size: Some(100),
        mtime: Some(10),
        status: STATUS_MISSING.to_string(),
    }];
    let (writes, stats, _, _) = run_session(vec![disk("lib/a.png", 100, 10)], &rows, &vec![]);
    assert_eq!((stats.updated, stats.skipped), (1, 0));
    assert_eq!(writes[0].status, STATUS_OK);
}

#[test]
fn rows_not_on_disk_are_marked_missing() {
    let rows = vec![
        IndexRow { path: "lib/a.png".into(), file_size: Some(1), mtime: Some(1), status: "ok".into() },
        IndexRow { path: "lib\\gone.png".into(), file_size: Some(1), mtime: Some(1), status: "ok".into() },
    ];
    let live = vec![(7, "lib/a.png".to_string()), (9, "lib\\gone.png".to_string())];
    let (_, stats, missing, events) = run_session(vec![disk("lib/a.png", 1, 1)], &rows, &live);
    assert_eq!(missing, vec![9]);
    assert_eq!(stats.missing, 1);
    assert_eq!(stats.skipped, 1);
    assert!(events.last().unwrap().message.as_ref().unwrap().contains("标记缺失 1"));
}

#[test]
fn failed_write_and_failed_probe_are_counted() {
    let index = load_index(&vec![]);
    let mut s = ScanSession::new(vec![disk("a.png", 1, 1), disk("b.png", 2, 2)], 2, index);
    match s.begin_file() {
        Some(FileStep::Probe(p)) => assert_eq!(p, "a.png"),
        _ => panic!("expected a probe"),
    }
    let w = s.prepare_write(Err("bad header".to_string()), "t".to_string());
    assert_eq!((w.width, w.height, w.format.is_none()), (None, None, true));
    let p = s.finish_file(Ok(()));
    assert_eq!((p.scanned, p.total), (1, 2));
    assert!(matches!(s.begin_file(), Some(FileStep::Probe(_))));
    s.prepare_write(probe(1, 1, "png"), "t".to_string());
    s.finish_file(Err("disk full".to_string()));
    assert!(s.begin_file().is_none());
    let (stats, _) = s.finish(0);
    assert_eq!((stats.inserted, stats.probe_failed, stats.failed), (1, 1, 3));
}

#[test]
fn index_lookup_prefers_the_last_row() {
    let mut idx: PathIndex<u32> = PathIndex::new();
    idx.insert("a".to_string(), 1);
    idx.insert("b".to_string(), 2);
    idx.insert("a".to_string(), 3);
    assert_eq!(idx.get(&"a".to_string()), Some(&3));
    assert_eq!(idx.get(&"b".to_string()), Some(&2));
    assert!(!idx.contains_key(&"c".to_string()));
    for i in 0..2000u32 {
        idx.insert(format!("photos/{i}.png"), i);
    }
    assert_eq!(idx.get(&"photos/1234.png".to_string()), Some(&1234));
    assert!(idx.get(&"photos/2000.png".to_string()).is_none());
}
