//! Moments as texts, from end to end of the calendar.
use codex_switch::accounts::Timestamp;
use codex_switch::runtime::prewarm::duration_until_utc;
use codex_switch::runtime_log::{run_log_file_name, runtime_log_timestamp_from_file_name};
use codex_switch::time::{from_parts, parts, read_moment, show_moment, write_moment};

fn at(seconds: i64, nanos: i64) -> Timestamp {
    Timestamp {
        millis: seconds * 1000 + nanos / 1_000_000,
        nanos: u32::try_from(nanos % 1_000_000).expect("less than a million"),
    }
}

fn shown(seconds: i64) -> String {
    show_moment(at(seconds, 0))
}

#[test]
fn the_days_have_their_dates() {
    assert_eq!(shown(0), "1970-01-01T00:00:00+00:00");
    assert_eq!(shown(-1), "1969-12-31T23:59:59+00:00");
    assert_eq!(shown(951_782_400), "2000-02-29T00:00:00+00:00");
    assert_eq!(shown(951_868_800), "2000-03-01T00:00:00+00:00");
    assert_eq!(shown(4_107_456_000), "2100-02-28T00:00:00+00:00");
    assert_eq!(shown(4_107_542_400), "2100-03-01T00:00:00+00:00");
    assert_eq!(shown(1_767_323_045), "2026-01-02T03:04:05+00:00");
}

#[test]
fn years_beyond_four_digits_have_a_sign() {
    assert_eq!(shown(-62_167_219_200), "0000-01-01T00:00:00+00:00");
    assert_eq!(shown(-62_167_219_201), "-0001-12-31T23:59:59+00:00");
    assert_eq!(shown(253_402_300_799), "9999-12-31T23:59:59+00:00");
    assert_eq!(shown(253_402_300_800), "+10000-01-01T00:00:00+00:00");
    assert_eq!(shown(-8_334_601_228_800), "-262143-01-01T00:00:00+00:00");
    assert_eq!(shown(8_210_266_876_799), "+262142-12-31T23:59:59+00:00");
    assert_eq!(shown(8_210_266_876_800), "8210266876800");
    assert_eq!(shown(-8_334_601_228_801), "-8334601228801");
}

#[test]
fn fractions_have_as_many_digits_as_it_takes() {
    let written = |nanos: i64| write_moment(at(0, nanos)).expect("this is in the calendar");
    assert_eq!(written(0), "1970-01-01T00:00:00Z");
    assert_eq!(written(50_000_000), "1970-01-01T00:00:00.050Z");
    assert_eq!(written(50_000), "1970-01-01T00:00:00.000050Z");
    assert_eq!(written(50), "1970-01-01T00:00:00.000000050Z");
}

#[test]
fn names_hold_the_digits_of_their_moment() {
    let named = |seconds: i64| {
        run_log_file_name(at(seconds, 0), "h", 1, "00000000-0000-4000-8000-000000000000")
    };
    let end = "-h-1-00000000000040008000000000000000.log";
    assert_eq!(named(0), format!("codex-switch-run-19700101-000000{end}"));
    assert_eq!(
        named(-62_167_219_201),
        format!("codex-switch-run--00011231-235959{end}")
    );
    assert_eq!(
        named(253_402_300_800),
        format!("codex-switch-run-+100000101-000000{end}")
    );
}

#[test]
fn leap_seconds_are_kept() {
    let leap = from_parts(1_483_228_799, 1_000_000_000).expect("this is a moment");
    assert_eq!(show_moment(leap), "2016-12-31T23:59:60+00:00");
    assert_eq!(write_moment(leap).as_deref(), Some("2016-12-31T23:59:60Z"));
    assert_eq!(read_moment("2016-12-31T23:59:60Z"), Some(leap));
    assert_eq!(parts(leap), (1_483_228_799, 1_000_000_000));
    let last = from_parts(1_483_228_799, 999_999_999).expect("this is a moment");
    let next = from_parts(1_483_228_800, 0).expect("this is a moment");
    assert!(last.before(leap) && leap.before(next));
    assert_eq!(duration_until_utc(last, leap), 1);
    assert_eq!(duration_until_utc(leap, next), 0);

    let name = run_log_file_name(leap, "h", 1, "00000000-0000-4000-8000-000000000000");
    assert!(name.starts_with("codex-switch-run-20161231-235960-h-1-"));
    let told = runtime_log_timestamp_from_file_name(&name).expect("the name should be read");
    assert_eq!((told.seconds, told.nanos), (1_483_228_799, 1_000_000_000));
}

#[test]
fn what_was_written_is_read_all_over_the_calendar() {
    for seconds in [
        -8_334_601_228_800,
        -62_167_219_201,
        -62_167_219_200,
        0,
        253_402_300_799,
        253_402_300_800,
        8_210_266_876_799,
    ] {
        for nanos in [0, 1, 1_000, 1_000_000, 999_999_999] {
            let moment = at(seconds, nanos);
            let written = write_moment(moment).expect("this is in the calendar");
            assert_eq!(read_moment(&written), Some(moment), "{written}");
        }
    }
}
