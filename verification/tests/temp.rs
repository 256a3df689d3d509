//! The temperature of the processor.

use radxa_penta_top_hat_rs::temp::{parse_millidegrees_c, read_cpu_temp_c, TempError};

#[test]
fn parses_cpu_temp_millidegrees() {
    assert_eq!(parse_millidegrees_c("55123\n").unwrap() as f64 / 1000.0, 55.123);
}

#[test]
fn other_texts_are_no_temperature() {
    assert_eq!(parse_millidegrees_c(" -40000 "), Ok(-40_000));
    assert_eq!(parse_millidegrees_c("+9223372036854775807"), Ok(i64::MAX));
    assert_eq!(parse_millidegrees_c("-9223372036854775808"), Ok(i64::MIN));
    assert!(parse_millidegrees_c("9223372036854775808").is_err());
    assert_eq!(
        parse_millidegrees_c(" warm\n"),
        Err(TempError::Parse {
            raw: "warm".to_string(),
        })
    );
    assert_eq!(
        parse_millidegrees_c("55.1").unwrap_err().message(),
        "invalid millidegree temperature: \"55.1\""
    );
}

#[test]
fn file_that_cannot_be_read_is_an_error() {
    assert_eq!(read_cpu_temp_c(Ok("42000".to_string())), Ok(42_000));
    let error = read_cpu_temp_c(Err("no such file".to_string())).unwrap_err();
    assert_eq!(error.message(), "temperature I/O error: no such file");
}
