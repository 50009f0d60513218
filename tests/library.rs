use ab_av1_walkdir::batch::{plan, Action, BatchDriver};
use ab_av1_walkdir::classify::{classify, count_videos, is_video_path, select_videos, MediaKind};
use ab_av1_walkdir::encode::{
    encode_args, locate_tool, outcome_of_exit, output_path, Backend, ConfigError, EncodeOutcome,
    JobConfig, ToolLocation, TRANSIENT_EXIT,
};
use ab_av1_walkdir::filter::{filter_eligible, MediaFile, MIN_SIZE};
use ab_av1_walkdir::find_mimetype;
use ab_av1_walkdir::retry::RetryState;

const BIG: u64 = 1_000_000_000;

fn mf(path: &str, size: u64) -> MediaFile {
    MediaFile { path: path.to_string(), size }
}

fn paths(files: &[MediaFile]) -> Vec<String> {
    files.iter().map(|f| f.path.clone()).collect()
}

fn config(quality: i32, encoder: &str, cap: Option<u32>) -> JobConfig {
    JobConfig::new(
        quality,
        encoder,
        "x265-params=limit-sao".to_string(),
        "yuv420p10le".to_string(),
        "slow".to_string(),
        true,
        cap,
    )
    .unwrap()
}

#[test]
fn every_listed_extension_is_video() {
    for ext in ["mkv", "avi", "mp4", "divx", "flv", "m4v", "mov", "ogv", "ts", "webm", "wmv"] {
        let p = format!("/media/film.{}", ext);
        assert_eq!(classify(&p), MediaKind::Video, "{}", p);
        assert_eq!(find_mimetype(&p), "VIDEO");
    }
}

#[test]
fn other_extensions_are_other() {
    for p in ["/media/film.MP4", "/media/film.Mkv", "/media/notes.txt", "/media/film", "mkv", "/media/a.mkv/b", "C:\\x.mkv\\film", "film.mkv.part"] {
        assert_eq!(classify(p), MediaKind::Other, "{}", p);
        assert_eq!(find_mimetype(&p.to_string()), "OTHER");
    }
}

#[test]
fn windows_paths_are_classified() {
    assert_eq!(classify("C:\\videos\\film.mp4"), MediaKind::Video);
    assert!(is_video_path("film.webm"));
}

#[test]
fn selection_keeps_exactly_the_videos() {
    let all: Vec<String> = vec![
        "/d/a.mkv", "/d/a.txt", "/d/sub/b.mp4", "/d/c.jpg", "/d/sub/deeper/c.ts", "/d/readme",
        "/d/e.wmv",
    ]
    .into_iter()
    .map(String::from)
    .collect();
    let vids = select_videos(&all);
    assert_eq!(vids, vec!["/d/a.mkv", "/d/sub/b.mp4", "/d/sub/deeper/c.ts", "/d/e.wmv"]);
    assert_eq!(count_videos(&all), 4);
    let mut sorted = vids.clone();
    sorted.sort();
    sorted.dedup();
    assert_eq!(sorted.len(), vids.len());
}

#[test]
fn selection_of_nothing_is_empty() {
    assert!(select_videos(&Vec::new()).is_empty());
    assert_eq!(count_videos(&vec!["/a/b.txt".to_string()]), 0);
}

#[test]
fn size_boundary() {
    let files = vec![
        mf("/v/exact.mkv", 400_000_000),
        mf("/v/below.mkv", 399_999_999),
        mf("/v/above.mkv", 400_000_001),
    ];
    assert_eq!(MIN_SIZE, 400_000_000);
    let kept = filter_eligible(&files, "x265");
    assert_eq!(paths(&kept), vec!["/v/exact.mkv", "/v/above.mkv"]);
}

#[test]
fn samples_are_dropped() {
    let files = vec![mf("/v/film-sample.mkv", BIG), mf("/v/sample/film.mkv", BIG), mf("/v/film.mkv", BIG)];
    assert_eq!(paths(&filter_eligible(&files, "x265")), vec!["/v/film.mkv"]);
}

#[test]
fn tagged_outputs_and_their_originals_are_dropped() {
    let files = vec![
        mf("/v/movie.mkv", BIG),
        mf("/v/movie.x265.mkv", BIG),
        mf("/v/other.mkv", BIG),
        mf("/v/gone.x265.mp4", BIG),
    ];
    let kept = filter_eligible(&files, "x265");
    assert_eq!(paths(&kept), vec!["/v/other.mkv"]);
    assert_eq!(kept[0].size, BIG);
}

#[test]
fn original_inferred_on_windows_paths() {
    let files = vec![mf("C:\\v\\show.av1.mkv", BIG), mf("C:\\v\\show.mkv", BIG), mf("C:\\v\\keep.mkv", BIG)];
    assert_eq!(paths(&filter_eligible(&files, "av1")), vec!["C:\\v\\keep.mkv"]);
}

#[test]
fn filtering_twice_changes_nothing() {
    let files = vec![
        mf("/v/a.mkv", BIG),
        mf("/v/a.x265.mkv", BIG),
        mf("/v/b.mkv", 10),
        mf("/v/c.mp4", BIG),
        mf("/v/trailer-sample.mkv", BIG),
        mf("/v/d.mov", BIG),
    ];
    let once = filter_eligible(&files, "x265");
    let twice = filter_eligible(&once, "x265");
    assert_eq!(paths(&once), vec!["/v/c.mp4", "/v/d.mov"]);
    assert_eq!(paths(&twice), paths(&once));
}

#[test]
fn output_name_example() {
    assert_eq!(output_path("movie.mkv", Backend::Av1, 42).unwrap(), "movie.av1.42.mkv");
    assert_eq!(
        output_path("/videos/movie.mkv", Backend::Av1, 42).unwrap(),
        "/videos/movie.av1.42.mkv"
    );
}

#[test]
fn output_names_per_target() {
    assert_eq!(output_path("/v/a.b.mp4", Backend::H265Software, 100).unwrap(), "/v/a.b.libx265.100.mp4");
    assert_eq!(output_path("/v/a.mp4", Backend::H265Software, 7).unwrap(), "/v/a.libx265.7.mp4");
    assert_ne!(output_path("/v/a.mp4", Backend::Av1, 95), output_path("/v/a.mp4", Backend::Av1, 94));
    assert_eq!(output_path("/v/noext", Backend::Av1, 95), None);
}

#[test]
fn arguments_for_av1_have_no_tuning() {
    let c = config(95, "av1", None);
    let args = encode_args("/v/m.mkv", "/v/m.av1.95.mkv", 95, &c);
    assert_eq!(
        args,
        vec![
            "auto-encode", "-i", "/v/m.mkv", "--min-vmaf", "95", "--acodec", "aac",
            "--downmix-to-stereo", "-e", "av1", "-o", "/v/m.av1.95.mkv"
        ]
    );
}

#[test]
fn arguments_for_x265_carry_tuning() {
    let mut c = config(80, "libx265", None);
    c.downmix = false;
    let args = encode_args("/v/m.mkv", "/v/m.libx265.80.mkv", 80, &c);
    assert_eq!(
        args,
        vec![
            "auto-encode", "-i", "/v/m.mkv", "--min-vmaf", "80", "--acodec", "aac", "-e",
            "libx265", "--enc", "x265-params=limit-sao", "--pix-format", "yuv420p10le",
            "--preset", "slow", "-o", "/v/m.libx265.80.mkv"
        ]
    );
}

#[test]
fn exit_codes_are_read() {
    assert_eq!(outcome_of_exit(true, Some(0)), EncodeOutcome::Success);
    assert_eq!(outcome_of_exit(true, Some(TRANSIENT_EXIT)), EncodeOutcome::Transient);
    assert_eq!(outcome_of_exit(true, Some(145)), EncodeOutcome::Transient);
    assert_eq!(outcome_of_exit(true, Some(1)), EncodeOutcome::QualityUnreachable);
    assert_eq!(outcome_of_exit(true, None), EncodeOutcome::Fatal);
    assert_eq!(outcome_of_exit(false, None), EncodeOutcome::Fatal);
}

#[test]
fn configuration_errors() {
    let mk = |q: i32, e: &str| {
        JobConfig::new(q, e, String::new(), String::new(), String::new(), false, None).map(|c| c.quality)
    };
    assert_eq!(mk(95, "vp9").err(), Some(ConfigError::UnknownEncoder));
    assert_eq!(mk(0, "vp9").err(), Some(ConfigError::UnknownEncoder));
    assert_eq!(mk(0, "av1").err(), Some(ConfigError::QualityOutOfRange));
    assert_eq!(mk(101, "libx265").err(), Some(ConfigError::QualityOutOfRange));
    assert_eq!(mk(100, "libx265").ok(), Some(100));
    assert_eq!(mk(1, "av1").ok(), Some(1));
    assert_eq!(Backend::parse("av1"), Some(Backend::Av1));
    assert_eq!(Backend::parse("libx265"), Some(Backend::H265Software));
    assert_eq!(Backend::parse("AV1"), None);
    assert_eq!(Backend::H265Software.tag(), "x265");
    assert_eq!(Backend::Av1.name(), "av1");
}

#[test]
fn tool_location() {
    assert_eq!(locate_tool(true, false), Ok(ToolLocation::WorkingDir));
    assert_eq!(locate_tool(true, true), Ok(ToolLocation::WorkingDir));
    assert_eq!(locate_tool(false, true), Ok(ToolLocation::SearchPath));
    assert_eq!(locate_tool(false, false), Err(ConfigError::ToolNotFound));
}

#[test]
fn unreachable_targets_descend_to_one() {
    let mut s = RetryState::start(10);
    let mut tried = Vec::new();
    while let RetryState::Attempting { target, .. } = s {
        tried.push(target);
        s = s.next(EncodeOutcome::QualityUnreachable, None);
    }
    assert_eq!(tried, vec![10, 9, 8, 7, 6, 5, 4, 3, 2, 1]);
    assert_eq!(s, RetryState::Exhausted);
    assert!(s.is_terminal());
}

#[test]
fn success_first_time() {
    let s = RetryState::start(95);
    let n = s.next(EncodeOutcome::Success, None);
    assert_eq!(n, RetryState::Succeeded { target: 95 });
    assert!(n.is_terminal());
    assert_eq!(n.next(EncodeOutcome::QualityUnreachable, None), n);
}

#[test]
fn transient_retries_at_same_target() {
    let s = RetryState::start(50);
    assert_eq!(s.next(EncodeOutcome::Transient, None), s);
    let mut c = s;
    for k in 1..=3u32 {
        c = c.next(EncodeOutcome::Transient, Some(3));
        assert_eq!(c, RetryState::Attempting { target: 50, transient_retries: k });
    }
    assert_eq!(c.next(EncodeOutcome::Transient, Some(3)), RetryState::Exhausted);
    let lowered = c.next(EncodeOutcome::QualityUnreachable, Some(3));
    assert_eq!(lowered, RetryState::Attempting { target: 49, transient_retries: 0 });
    assert_eq!(s.next(EncodeOutcome::Fatal, None), RetryState::Aborted);
}

fn five_files() -> Vec<String> {
    (1..=5).map(|i| format!("/v/f{}.mkv", i)).collect()
}

#[test]
fn fatal_halts_the_batch() {
    let mut d = BatchDriver::new(five_files(), config(95, "av1", None)).unwrap();
    let mut attempted = Vec::new();
    loop {
        match d.next_action() {
            Action::Encode { index, .. } => {
                attempted.push(index);
                let o = if index == 2 { EncodeOutcome::Fatal } else { EncodeOutcome::Success };
                d.record(o);
            }
            Action::Halted { index } => {
                assert_eq!(index, 2);
                break;
            }
            Action::Finished { .. } => panic!("batch should have halted"),
        }
    }
    assert_eq!(attempted, vec![0, 1, 2]);
    assert_eq!(d.state(), RetryState::Aborted);
    assert_eq!(d.position(), 2);
}

#[test]
fn batch_runs_every_file() {
    let mut d = BatchDriver::new(five_files(), config(3, "libx265", None)).unwrap();
    assert_eq!(d.total(), 5);
    let mut calls = Vec::new();
    loop {
        match d.next_action() {
            Action::Encode { index, target, output, args } => {
                assert_eq!(output, format!("/v/f{}.libx265.{}.mkv", index + 1, target));
                assert_eq!(args.last().unwrap(), &output);
                calls.push((index, target));
                let o = if index % 2 == 0 { EncodeOutcome::QualityUnreachable } else { EncodeOutcome::Success };
                d.record(o);
            }
            Action::Finished { succeeded, exhausted } => {
                assert_eq!((succeeded, exhausted), (2, 3));
                break;
            }
            Action::Halted { .. } => panic!("no fatal outcome was given"),
        }
    }
    assert_eq!(calls.len(), 3 * 3 + 2);
    assert_eq!(&calls[0..4], &[(0, 3), (0, 2), (0, 1), (1, 3)]);
    assert_eq!(d.position(), 5);
}

#[test]
fn batch_rejects_paths_without_extension() {
    let files = vec!["/v/a.mkv".to_string(), "/v/noext".to_string()];
    assert!(BatchDriver::new(files, config(95, "av1", None)).is_none());
    let empty = BatchDriver::new(Vec::new(), config(95, "av1", None)).unwrap();
    assert!(matches!(empty.next_action(), Action::Finished { succeeded: 0, exhausted: 0 }));
}

#[test]
fn plan_filters_by_backend_tag() {
    let files = vec![
        mf("/v/a.mkv", BIG),
        mf("/v/a.av1.95.mkv", BIG),
        mf("/v/b.mkv", BIG),
        mf("/v/c.mkv", 5),
        mf("/v/notes.txt", BIG),
    ];
    let c = config(95, "av1", None);
    // the inferred original of `a.av1.95.mkv` is `a.95.mkv`: only the tag
    // segment is stripped, so `a.mkv` stays
    assert_eq!(plan(&files, &c), vec!["/v/a.mkv", "/v/b.mkv"]);
}

#[test]
fn filtering_ignores_input_order() {
    let files = vec![
        mf("/v/a.x265.mkv", BIG),
        mf("/v/b.mkv", BIG),
        mf("/v/a.mkv", BIG),
        mf("/v/c.mkv", 3),
    ];
    let mut reversed: Vec<MediaFile> = files.iter().rev().map(|f| mf(&f.path, f.size)).collect();
    let forward = paths(&filter_eligible(&files, "x265"));
    let backward = paths(&filter_eligible(&reversed, "x265"));
    assert_eq!(forward, vec!["/v/b.mkv"]);
    assert_eq!(backward, forward);
    reversed.clear();
    assert!(filter_eligible(&reversed, "x265").is_empty());
}
