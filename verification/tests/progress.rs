use ffpb::classifier::scan_line;
use ffpb::metric::{FrameRate, Metric};
use ffpb::pattern::LineScan;
use ffpb::progress::{Progress, Snapshot, UnitKind};

fn hit(texts: &[&str]) -> Option<Vec<Option<String>>> {
    Some(texts.iter().map(|text| Some(text.to_string())).collect())
}

fn clock(hours: &str, minutes: &str, seconds: &str) -> Option<Vec<Option<String>>> {
    hit(&["", hours, minutes, seconds])
}

fn rate(text: &str) -> Option<Vec<Option<String>>> {
    hit(&["", text])
}

fn shown(progress: Result<Progress, Metric>) -> Snapshot {
    progress.unwrap().snapshot()
}

#[test]
fn progress_begins_with_nothing_known() {
    assert_eq!(
        Progress::new().snapshot(),
        Snapshot { current_units: 0, total_units: None, unit_kind: UnitKind::Seconds, frame_rate: None }
    );
}

#[test]
fn duration_sets_the_total_in_seconds() {
    let s = shown(Progress::new().note_duration(&clock("01", "02", "34")));
    assert_eq!(s.total_units, Some(3754));
    assert_eq!(s.current_units, 0);
    assert_eq!(s.unit_kind, UnitKind::Seconds);
    assert_eq!(s.frame_rate, None);
}

#[test]
fn second_duration_changes_nothing() {
    let first = Progress::new().note_duration(&clock("01", "02", "34")).unwrap();
    let second = first.note_duration(&clock("00", "00", "05")).unwrap();
    assert_eq!(second.snapshot(), first.snapshot());
    let third = first.note_duration(&clock("xx", "00", "05")).unwrap();
    assert_eq!(third.snapshot(), first.snapshot());
}

#[test]
fn missing_hit_changes_nothing() {
    let p = Progress::new();
    assert_eq!(shown(p.note_duration(&None)), p.snapshot());
    assert_eq!(shown(p.note_rate(&None)), p.snapshot());
    assert_eq!(shown(p.note_position(&None)), p.snapshot());
}

#[test]
fn frame_rate_converts_both_counts() {
    let p = Progress::new().note_duration(&clock("01", "02", "34")).unwrap();
    let p = p.note_position(&clock("00", "00", "10")).unwrap();
    let s = shown(p.note_rate(&rate("23.98")));
    assert_eq!(s.unit_kind, UnitKind::Frames);
    assert_eq!(s.frame_rate, Some(FrameRate { hundredths: 2398 }));
    assert_eq!(s.total_units, Some(90020));
    assert_eq!(s.current_units, 239);
}

#[test]
fn second_frame_rate_changes_nothing() {
    let first = Progress::new().note_rate(&rate("23.98")).unwrap();
    let second = first.note_rate(&rate("30")).unwrap();
    assert_eq!(second.snapshot(), first.snapshot());
    let third = first.note_rate(&rate("x")).unwrap();
    assert_eq!(third.snapshot(), first.snapshot());
}

#[test]
fn duration_after_the_frame_rate_is_counted_in_frames() {
    let p = Progress::new().note_rate(&rate("25")).unwrap();
    let s = shown(p.note_duration(&clock("00", "01", "00")));
    assert_eq!(s.total_units, Some(1500));
    assert_eq!(s.unit_kind, UnitKind::Frames);
}

#[test]
fn position_is_counted_in_the_unit_of_the_run() {
    let p = Progress::new();
    assert_eq!(shown(p.note_position(&clock("00", "00", "10"))).current_units, 10);
    let p = p.note_rate(&rate("23.98")).unwrap();
    assert_eq!(shown(p.note_position(&clock("00", "00", "10"))).current_units, 239);
    assert_eq!(p.count(10), Some(239));
    assert_eq!(Progress::new().count(10), Some(10));
}

#[test]
fn position_behind_the_furthest_is_ignored() {
    let p = Progress::new().note_position(&clock("00", "00", "20")).unwrap();
    assert_eq!(shown(p.note_position(&clock("00", "00", "15"))).current_units, 20);
    assert_eq!(shown(p.note_position(&clock("00", "00", "20"))).current_units, 20);
    assert_eq!(shown(p.note_position(&clock("00", "00", "21"))).current_units, 21);
}

#[test]
fn frame_rate_below_one_takes_the_counts_back() {
    let p = Progress::new().note_duration(&clock("00", "01", "00")).unwrap();
    let p = p.note_position(&clock("00", "00", "10")).unwrap();
    let p = p.note_rate(&rate("00.50")).unwrap();
    let s = p.snapshot();
    assert_eq!(s.current_units, 5);
    assert_eq!(s.total_units, Some(30));
    assert_eq!(s.frame_rate, Some(FrameRate { hundredths: 50 }));
    assert_eq!(shown(p.note_position(&clock("00", "00", "30"))).current_units, 15);
}

#[test]
fn counts_beyond_the_machine_number_are_amiss() {
    let p = Progress::new().note_rate(&rate("99.99")).unwrap();
    let far = clock("5000000000000000", "00", "00");
    assert_eq!(p.note_duration(&far).err(), Some(Metric::Duration));
    assert_eq!(p.note_position(&far).err(), Some(Metric::Position));
    let p = Progress::new().note_position(&far).unwrap();
    assert_eq!(p.snapshot().current_units, 18_000_000_000_000_000_000);
    assert_eq!(p.note_rate(&rate("99.99")).err(), Some(Metric::FrameRate));
    assert_eq!(shown(p.note_rate(&rate("01.00"))).current_units, 18_000_000_000_000_000_000);
    let p = Progress::new().note_duration(&far).unwrap();
    assert_eq!(p.note_rate(&rate("99.99")).err(), Some(Metric::FrameRate));
    let beyond = clock("99999999999999999999", "00", "00");
    assert_eq!(Progress::new().note_position(&beyond).err(), Some(Metric::Position));
}

#[test]
fn each_number_amiss_is_told_by_its_name() {
    let p = Progress::new();
    assert_eq!(p.note_duration(&clock("0١", "02", "34")).err(), Some(Metric::Duration));
    assert_eq!(p.note_rate(&rate("٢٣.٩٨")).err(), Some(Metric::FrameRate));
    assert_eq!(p.note_position(&clock("00", "00", "٠٠")).err(), Some(Metric::Position));
}

#[test]
fn line_is_taken_in_order() {
    let scan = LineScan {
        duration: clock("00", "01", "00"),
        rate: rate("30"),
        position: clock("00", "00", "02"),
    };
    let s = shown(Progress::new().absorb(&scan));
    assert_eq!(
        s,
        Snapshot {
            current_units: 60,
            total_units: Some(1800),
            unit_kind: UnitKind::Frames,
            frame_rate: Some(FrameRate { hundredths: 3000 }),
        }
    );
}

#[test]
fn first_number_amiss_ends_the_line() {
    let scan = LineScan { duration: clock("a", "b", "c"), rate: rate("x"), position: clock("", "", "") };
    assert_eq!(Progress::new().absorb(&scan).err(), Some(Metric::Duration));
    let scan = LineScan { duration: None, rate: rate("x"), position: clock("", "", "") };
    assert_eq!(Progress::new().absorb(&scan).err(), Some(Metric::FrameRate));
    let scan = LineScan { duration: None, rate: None, position: clock("", "", "") };
    assert_eq!(Progress::new().absorb(&scan).err(), Some(Metric::Position));
}

#[test]
fn total_is_reached_when_unknown_or_met() {
    let p = Progress::new();
    assert!(p.reached_total());
    let p = p.note_duration(&clock("00", "00", "10")).unwrap();
    assert!(!p.reached_total());
    let p = p.note_position(&clock("00", "00", "09")).unwrap();
    assert!(!p.reached_total());
    let p = p.note_position(&clock("00", "00", "10")).unwrap();
    assert!(p.reached_total());
    let p = p.note_position(&clock("00", "00", "11")).unwrap();
    assert!(p.reached_total());
}

#[test]
fn units_have_their_words() {
    assert_eq!(UnitKind::Seconds.label(), " second");
    assert_eq!(UnitKind::Frames.label(), " frame");
}

#[test]
fn scan_finds_the_duration_and_its_fields() {
    let scan = scan_line(&Progress::new(), "  Duration: 01:02:34.16, start: 0.000000").unwrap();
    assert_eq!(scan.duration, hit(&["Duration: 01:02:34.16", "01", "02", "34"]));
    assert_eq!(scan.rate, None);
    assert_eq!(scan.position, None);
}

#[test]
fn scan_finds_the_frame_rate_with_and_without_hundredths() {
    let scan = scan_line(&Progress::new(), "yuv420p, 1280x720, 23.98 fps, 23.98 tbr").unwrap();
    assert_eq!(scan.rate, hit(&["23.98 fps", "23.98"]));
    let scan = scan_line(&Progress::new(), "yuv420p, 1280x720, 25 fps, 25 tbr").unwrap();
    assert_eq!(scan.rate, hit(&["25 fps", "25"]));
}

#[test]
fn scan_finds_the_position_and_its_fields() {
    let line = "size=   59890kB time=00:09:23.44 bitrate= 870.7kbits/s speed=60.9x";
    let scan = scan_line(&Progress::new(), line).unwrap();
    assert_eq!(scan.position, hit(&["time=00:09:23.44", "00", "09", "23"]));
    assert_eq!(scan.duration, None);
    assert_eq!(scan.rate, None);
}

#[test]
fn scan_takes_the_first_match_of_each_pattern() {
    let line = "time=00:00:01.00 25 fps time=00:00:02.00 30 fps";
    let scan = scan_line(&Progress::new(), line).unwrap();
    assert_eq!(scan.position, hit(&["time=00:00:01.00", "00", "00", "01"]));
    assert_eq!(scan.rate, hit(&["25 fps", "25"]));
}

#[test]
fn scan_finds_digits_of_other_scripts() {
    let scan = scan_line(&Progress::new(), "Duration: ٠١:٠٢:٣٤.١٦").unwrap();
    assert_eq!(scan.duration, hit(&["Duration: ٠١:٠٢:٣٤.١٦", "٠١", "٠٢", "٣٤"]));
}

#[test]
fn scan_finds_nothing_in_other_lines() {
    let scan = scan_line(&Progress::new(), "Stream mapping:").unwrap();
    assert_eq!(scan, LineScan { duration: None, rate: None, position: None });
    let scan = scan_line(&Progress::new(), "Duration: N/A, time=1:2:3.4, 5 fps").unwrap();
    assert_eq!(scan, LineScan { duration: None, rate: None, position: None });
}

#[test]
fn scan_leaves_out_what_is_known() {
    let line = "Duration: 00:00:05.00, 30 fps, time=00:00:01.00";
    let p = Progress::new().note_duration(&clock("01", "02", "34")).unwrap();
    let scan = scan_line(&p, line).unwrap();
    assert_eq!(scan.duration, None);
    assert_eq!(scan.rate, hit(&["30 fps", "30"]));
    assert_eq!(scan.position, hit(&["time=00:00:01.00", "00", "00", "01"]));
    let p = p.note_rate(&rate("23.98")).unwrap();
    let scan = scan_line(&p, line).unwrap();
    assert_eq!(scan.duration, None);
    assert_eq!(scan.rate, None);
    assert_eq!(scan.position, hit(&["time=00:00:01.00", "00", "00", "01"]));
}
