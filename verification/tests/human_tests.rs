use ruvo::human::{duration_parts, parse_usize, size_parts, DurationUnit};
use std::time::Duration;

// The library checks and splits the text; the value is floating-point
// arithmetic, done here the way the application does it.
fn parse_bytes(input: &str) -> Result<usize, String> {
    size_parts(input).map(|(n, m)| (n.parse::<f64>().unwrap() * m as f64) as usize)
}

fn parse_duration(input: &str) -> Result<Duration, String> {
    duration_parts(input).map(|(n, u)| {
        let n: f64 = n.parse().unwrap();
        let secs = match u {
            DurationUnit::Seconds => n,
            DurationUnit::Millis => n / 1000.0,
            DurationUnit::Minutes => n * 60.0,
            DurationUnit::Hours => n * 3600.0,
        };
        Duration::from_secs_f64(secs)
    })
}

#[test]
fn bytes_units() {
    assert_eq!(parse_bytes("1024").unwrap(), 1024);
    assert_eq!(parse_bytes("2 KiB").unwrap(), 2048);
    assert_eq!(parse_bytes("1MiB").unwrap(), 1024 * 1024);
    assert_eq!(parse_bytes("50 MiB").unwrap(), 50 * 1024 * 1024);
}

#[test]
fn duration_units() {
    assert_eq!(parse_duration("30s").unwrap(), Duration::from_secs(30));
    assert_eq!(parse_duration("500ms").unwrap(), Duration::from_millis(500));
    assert_eq!(parse_duration("2m").unwrap(), Duration::from_secs(120));
}

#[test]
fn size_split_and_errors() {
    assert_eq!(size_parts(" 1.5k "), Ok(("1.5", 1024)));
    assert_eq!(size_parts("2 gb"), Ok(("2", 1024 * 1024 * 1024)));
    assert_eq!(size_parts("7"), Ok(("7", 1)));
    assert_eq!(size_parts("2.MB"), Ok(("2.", 1024 * 1024)));
    assert_eq!(size_parts("").unwrap_err(), "empty size");
    assert_eq!(size_parts("MiB").unwrap_err(), "missing number in `MiB`");
    assert_eq!(size_parts("1.2.3").unwrap_err(), "invalid size number: 1.2.3");
    assert_eq!(size_parts("5 TiB").unwrap_err(), "unknown size unit: TiB");
    assert_eq!(parse_bytes("0.99999999999999999").unwrap(), 1);
}

#[test]
fn duration_split_and_errors() {
    assert_eq!(duration_parts("1.5h"), Ok(("1.5", DurationUnit::Hours)));
    assert_eq!(duration_parts("0.25 s"), Ok(("0.25", DurationUnit::Seconds)));
    assert_eq!(duration_parts("10 millis"), Ok(("10", DurationUnit::Millis)));
    assert_eq!(duration_parts("3"), Ok(("3", DurationUnit::Seconds)));
    assert_eq!(duration_parts("2 min"), Ok(("2", DurationUnit::Minutes)));
    assert_eq!(duration_parts("").unwrap_err(), "empty duration");
    assert_eq!(duration_parts("s").unwrap_err(), "missing number in `s`");
    assert_eq!(duration_parts(".").unwrap_err(), "invalid duration number: .");
    assert_eq!(duration_parts("3 days").unwrap_err(), "unknown duration unit: days");
    assert_eq!(parse_duration("1.5h").unwrap(), Duration::from_secs(5400));
}

#[test]
fn usize_parsing() {
    assert_eq!(parse_usize("42"), Some(42));
    assert_eq!(parse_usize("+7"), Some(7));
    assert_eq!(parse_usize("-1"), None);
    assert_eq!(parse_usize(""), None);
    assert_eq!(parse_usize("+"), None);
    assert_eq!(parse_usize("99999999999999999999999"), None);
}
