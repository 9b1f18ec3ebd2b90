use punktfunk_webos::stats::{
    audio_line, decimal_text, drop_line, mode_line, whole_mbps, Counters, Lines, Sample,
};

#[test]
fn counters_give_what_was_added() {
    let mut counters = Counters::new(1_000);
    assert_eq!(
        counters.sample(60, 5_000, Some(40), 500_001_000),
        Sample {
            frames: 60,
            bytes: 5_000,
            elapsed_ns: 500_000_000,
            cpu_ticks: None
        }
    );
    assert_eq!(
        counters.sample(90, 4_000, Some(55), 500_001_001),
        Sample {
            frames: 30,
            bytes: 0,
            elapsed_ns: 1_000_000,
            cpu_ticks: Some(15)
        }
    );
    assert_eq!(counters.sample(90, 4_000, None, 600_000_000).cpu_ticks, None);
    assert_eq!(
        counters.sample(90, 4_000, Some(60), 700_000_000).cpu_ticks,
        Some(5)
    );
}

#[test]
fn numbers_are_written_in_decimal() {
    assert_eq!(decimal_text(0), "0");
    assert_eq!(decimal_text(9), "9");
    assert_eq!(decimal_text(10), "10");
    assert_eq!(decimal_text(1234567890), "1234567890");
    assert_eq!(decimal_text(u64::MAX), u64::MAX.to_string());
}

#[test]
fn lines_read_as_the_overlay_shows_them() {
    assert_eq!(
        mode_line(3840, 2160, 120, "HEVC", true),
        "3840x2160@120 HEVC HDR"
    );
    assert_eq!(
        mode_line(1920, 1080, 60, "H.264", false),
        "1920x1080@60 H.264"
    );
    assert_eq!(
        drop_line(Some(3), None, true, -1),
        "Drop 3 · FEC n/a · hold yes · buf n/a"
    );
    assert_eq!(
        drop_line(None, Some(0), false, 2),
        "Drop n/a · FEC 0 · hold no · buf 2"
    );
    assert_eq!(audio_line(40, -7), "Audio buf 40 ms · A/V -7 ms");
    assert_eq!(audio_line(0, 0), "Audio buf 0 ms · A/V +0 ms");
    assert_eq!(
        audio_line(-3, i64::MIN),
        format!("Audio buf -3 ms · A/V {:+} ms", i64::MIN)
    );
    assert_eq!(whole_mbps(25_999), 25);
}

#[test]
fn lines_stand_in_order() {
    let lines = |process: Option<&str>, pace: Option<&str>| Lines {
        mode: "mode".to_string(),
        video: "video".to_string(),
        drop: "drop".to_string(),
        feed: "feed".to_string(),
        audio: "audio".to_string(),
        process: process.map(|l| l.to_string()),
        pace: pace.map(|l| l.to_string()),
    };
    assert_eq!(
        lines(Some("cpu"), Some("pace")).in_order(),
        vec!["mode", "video", "drop", "feed", "audio", "cpu", "pace"]
    );
    assert_eq!(
        lines(None, Some("pace")).in_order(),
        vec!["mode", "video", "drop", "feed", "audio", "pace"]
    );
    assert_eq!(
        lines(None, None).in_order(),
        vec!["mode", "video", "drop", "feed", "audio"]
    );
}
