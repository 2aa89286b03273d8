use flate2::read::GzDecoder;
use flyweight_http_server::encoding::ContentEncoding;
use std::io::Read;

#[test]
fn test_encoding_basic_parsing() {
    assert_eq!(
        "gzip".parse::<ContentEncoding>().unwrap(),
        ContentEncoding::GZip
    );
    assert!("not_gzip".parse::<ContentEncoding>().is_err());
}

#[test]
fn test_encoding_parsing_from_header_value() {
    assert_eq!(
        ContentEncoding::from_header("gzip").unwrap(),
        ContentEncoding::GZip
    );

    assert_eq!(
        ContentEncoding::from_header("deflate, gzip").unwrap(),
        ContentEncoding::GZip
    );

    assert_eq!(
        ContentEncoding::from_header("br, lorem, gzip, ipsum").unwrap(),
        ContentEncoding::GZip
    );

    assert!(ContentEncoding::from_header("br, lorem, ipsum").is_none());
    assert!("".parse::<ContentEncoding>().is_err());

    assert!(ContentEncoding::from_header("deflate").is_none());
}

#[test]
fn parse_error_names_the_token() {
    let err = ContentEncoding::parse("br").unwrap_err();
    assert_eq!(
        err,
        "Only gzip supported. Proposed encoding schemes received: br"
    );
    assert_eq!(ContentEncoding::parse("gzip"), Ok(ContentEncoding::GZip));
    assert!(ContentEncoding::parse("GZIP").is_err());
    assert!(ContentEncoding::parse(" gzip").is_err());
}

#[test]
fn encoding_text_is_gzip() {
    assert_eq!(ContentEncoding::GZip.to_string(), "gzip");
    assert_eq!(ContentEncoding::GZip.as_str(), "gzip");
}

#[test]
fn from_header_membership_not_order() {
    assert_eq!(
        ContentEncoding::from_header("gzip, deflate, br"),
        Some(ContentEncoding::GZip)
    );
    assert_eq!(
        ContentEncoding::from_header("deflate, br, gzip"),
        Some(ContentEncoding::GZip)
    );
    assert_eq!(
        ContentEncoding::from_header("deflate,gzip,br"),
        Some(ContentEncoding::GZip)
    );
    assert_eq!(
        ContentEncoding::from_header("  gzip\t"),
        Some(ContentEncoding::GZip)
    );
    assert_eq!(ContentEncoding::from_header("deflate, br"), None);
}

#[test]
fn from_header_rejects_near_misses() {
    assert_eq!(ContentEncoding::from_header(""), None);
    assert_eq!(ContentEncoding::from_header(","), None);
    assert_eq!(ContentEncoding::from_header("gzip;q=0.5"), None);
    assert_eq!(ContentEncoding::from_header("GZip"), None);
    assert_eq!(ContentEncoding::from_header("x-gzip"), None);
    assert_eq!(ContentEncoding::from_header("g zip"), None);
    assert_eq!(
        ContentEncoding::from_header("br,,gzip"),
        Some(ContentEncoding::GZip)
    );
    assert_eq!(
        ContentEncoding::from_header("br,gzip,"),
        Some(ContentEncoding::GZip)
    );
}

#[test]
fn encode_body_is_a_gzip_stream_of_the_body() {
    let body = b"hello hello hello hello hello hello";
    let encoded = ContentEncoding::GZip.encode_body(body).unwrap();
    assert_ne!(encoded.as_slice(), body.as_slice());
    assert_eq!(&encoded[..3], &[0x1f, 0x8b, 8]);
    let mut decoder = GzDecoder::new(encoded.as_slice());
    let mut decoded = Vec::new();
    decoder.read_to_end(&mut decoded).unwrap();
    assert_eq!(decoded.as_slice(), body.as_slice());
}

#[test]
fn encode_body_depends_on_the_body_alone() {
    let first = ContentEncoding::GZip.encode_body(b"same bytes").unwrap();
    let second = ContentEncoding::GZip.encode_body(b"same bytes").unwrap();
    assert_eq!(first, second);
    let empty = ContentEncoding::GZip.encode_body(b"").unwrap();
    assert!(empty.len() >= 18);
}
