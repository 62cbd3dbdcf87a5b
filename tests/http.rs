use compactor::http::{PProfAllocsArgs, PProfArgs, QueryFormat, QueryParamsError};

#[test]
fn content_types_of_each_format() {
    assert_eq!(QueryFormat::Parquet.as_content_type(), "application/vnd.apache.parquet");
    assert_eq!(QueryFormat::Csv.as_content_type(), "text/csv");
    assert_eq!(QueryFormat::Pretty.as_content_type(), "text/plain; charset=utf-8");
    assert_eq!(QueryFormat::Json.as_content_type(), "application/json");
}

#[test]
fn requested_format_wins_over_accept_header() {
    let r = QueryFormat::negotiate(Some(QueryFormat::Csv), Some(b"application/json".as_slice()));
    assert_eq!(r.unwrap(), QueryFormat::Csv);
}

#[test]
fn accept_header_picks_the_format() {
    let cases: [(&[u8], QueryFormat); 5] = [
        (b"application/vnd.apache.parquet", QueryFormat::Parquet),
        (b"text/csv", QueryFormat::Csv),
        (b"text/plain", QueryFormat::Pretty),
        (b"application/json", QueryFormat::Json),
        (b"*/*", QueryFormat::Json),
    ];
    for (mime, format) in cases {
        assert_eq!(QueryFormat::negotiate(None, Some(mime)).unwrap(), format);
    }
    assert_eq!(QueryFormat::negotiate(None, None).unwrap(), QueryFormat::Json);
}

#[test]
fn unknown_accept_header_is_rejected() {
    match QueryFormat::negotiate(None, Some(b"text/html".as_slice())) {
        Err(QueryParamsError::InvalidMimeType(s)) => assert_eq!(s, "text/html"),
        other => panic!("unexpected {other:?}"),
    }
}

#[test]
fn non_utf8_accept_header_is_rejected() {
    let mime: &[u8] = &[0x74, 0xff, 0x78];
    assert!(matches!(
        QueryFormat::negotiate(None, Some(mime)),
        Err(QueryParamsError::NonUtf8MimeType(_))
    ));
}

#[test]
fn profiling_defaults() {
    assert_eq!(PProfArgs::default_seconds(), 30);
    assert_eq!(PProfArgs::default_frequency(), 99);
    assert_eq!(PProfAllocsArgs::default_seconds(), 30);
    assert_eq!(PProfAllocsArgs::default_interval(), 1);
}
