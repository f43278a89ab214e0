use preflight_rs::gs::{inkcov_rows, version_text, GsError};

#[test]
fn parse_inkcov_reads_cmyk_lines_and_numbers_pages() {
    let output = "\
Processing pages 1 through 2.
Page 1
 0.00000  0.01337  0.00000  0.50000 CMYK OK
Page 2
 0.25000  0.00000  0.12500  0.00000 CMYK OK
";

    let parsed = inkcov_rows(output).expect("inkcov output parses");

    let values: Vec<(u32, f64, f64, f64, f64)> = parsed
        .iter()
        .map(|row| {
            (
                row.page,
                row.c.parse().unwrap(),
                row.m.parse().unwrap(),
                row.y.parse().unwrap(),
                row.k.parse().unwrap(),
            )
        })
        .collect();
    assert_eq!(
        values,
        vec![(1, 0.0, 0.01337, 0.0, 0.5), (2, 0.25, 0.0, 0.125, 0.0)]
    );
}

#[test]
fn parse_inkcov_rejects_output_without_coverage_rows() {
    let err = inkcov_rows("GPL Ghostscript 10.07.1").expect_err("missing rows is invalid");

    assert!(err.message().contains("coverage"));
}

#[test]
fn inkcov_short_coverage_line_is_a_parse_error() {
    let err = inkcov_rows(" 0.1 0.2 0.3 CMYK OK\n").expect_err("five words are too few");
    assert!(matches!(err, GsError::Parse));
    assert_eq!(err.message(), "parse");
}

#[test]
fn inkcov_keeps_field_text_and_ignores_other_lines() {
    let rows = inkcov_rows("junk CMYK\r\n\t1 2 3 4 CMYK OK\r\nCMYK OK later\n").unwrap();
    assert_eq!(rows.len(), 1);
    assert_eq!(rows[0].page, 1);
    assert_eq!(
        (rows[0].c.as_str(), rows[0].m.as_str(), rows[0].y.as_str(), rows[0].k.as_str()),
        ("1", "2", "3", "4")
    );
    assert!(matches!(inkcov_rows(""), Err(GsError::MissingCoverage)));
}

#[test]
fn ghostscript_version_is_trimmed_or_unknown() {
    assert_eq!(version_text(true, "10.07.1\n"), "10.07.1");
    assert_eq!(version_text(false, "10.07.1\n"), "unknown");
}
