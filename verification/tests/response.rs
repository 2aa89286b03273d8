use flyweight_http_server::encoding::ContentEncoding;
use flyweight_http_server::files::Outcome;
use flyweight_http_server::headers::Headers;
use flyweight_http_server::http_commons::HttpVersion;
use flyweight_http_server::http_request::{HttpMethod, HttpRequest, RequestError};
use flyweight_http_server::http_response::{
    Buildable, Builder, ContentType, HttpResponse, HttpResponseBuilder, StatusCode,
};
use flyweight_http_server::decimal::LengthError;

fn create_test_request(path: &str) -> HttpRequest {
    HttpRequest {
        http_method: HttpMethod::Get,
        request_target: path.to_string(),
        protocol_version: HttpVersion::Http11,
        headers: Headers::new(),
        body: None,
    }
}

#[test]
fn test_echo_endpoint_basic() {
    let request = create_test_request("/echo/hello");
    let response = HttpResponse::new_from_request(&request, Outcome::Nothing);

    assert!(matches!(response.status_code, StatusCode::Okay));
    assert_eq!(response.content_type.to_string(), "text/plain");
    assert_eq!(response.content_length, 5);
    assert_eq!(response.body.unwrap(), "hello".as_bytes());
}

#[test]
fn test_echo_endpoint_empty() {
    let request = create_test_request("/echo/");
    let response = HttpResponse::new_from_request(&request, Outcome::Nothing);

    assert!(matches!(response.status_code, StatusCode::Okay));
    assert_eq!(response.content_type.to_string(), "text/plain");
    assert_eq!(response.content_length, 0);
    assert_eq!(response.body.unwrap(), "".as_bytes());
}

#[test]
fn test_echo_endpoint_with_spaces() {
    let request = create_test_request("/echo/hello world");
    let response = HttpResponse::new_from_request(&request, Outcome::Nothing);

    assert!(matches!(response.status_code, StatusCode::Okay));
    assert_eq!(response.content_type.to_string(), "text/plain");
    assert_eq!(response.content_length, 11);
    assert_eq!(response.body.unwrap(), "hello world".as_bytes());
}

#[test]
fn test_echo_endpoint_special_chars() {
    let request = create_test_request("/echo/hello!@#$%");
    let response = HttpResponse::new_from_request(&request, Outcome::Nothing);

    assert!(matches!(response.status_code, StatusCode::Okay));
    assert_eq!(response.content_type.to_string(), "text/plain");
    assert_eq!(response.content_length, 10);
    assert_eq!(response.body.unwrap(), "hello!@#$%".as_bytes());
}

#[test]
fn test_response_write_to() {
    let request = create_test_request("/echo/test");
    let response = HttpResponse::new_from_request(&request, Outcome::Nothing);
    let mut output = Vec::new();

    response.write_to(&mut output).unwrap();

    let response_str = String::from_utf8(output).unwrap();
    assert!(response_str.contains("200 OK"));
    assert!(response_str.contains("Content-Type: text/plain"));
    assert!(response_str.contains("Content-Length: 4"));
    assert!(response_str.contains("test"));
}

#[test]
fn test_echo_endpoint_with_gzip_encoding() {
    let mut request = create_test_request("/echo/compressed_content");
    request
        .headers
        .insert("Accept-Encoding".to_string(), "gzip".to_string());

    let response = HttpResponse::new_from_request(&request, Outcome::Nothing);

    assert!(matches!(response.status_code, StatusCode::Okay));
    assert_eq!(response.content_type.to_string(), "text/plain");
    assert_eq!(response.content_encoding, Some(ContentEncoding::GZip));

    assert!(response.content_length > 0);

    assert_eq!(
        response.body.as_ref().unwrap(),
        "compressed_content".as_bytes()
    );
}

#[test]
fn test_echo_endpoint_with_multiple_encodings() {
    let mut request = create_test_request("/echo/hello");
    request.headers.insert(
        "Accept-Encoding".to_string(),
        "deflate, gzip, br".to_string(),
    );

    let response = HttpResponse::new_from_request(&request, Outcome::Nothing);

    assert!(matches!(response.status_code, StatusCode::Okay));
    assert_eq!(response.content_encoding, Some(ContentEncoding::GZip));
}

#[test]
fn test_echo_endpoint_with_unsupported_encoding() {
    let mut request = create_test_request("/echo/hello");
    request
        .headers
        .insert("Accept-Encoding".to_string(), "deflate, br".to_string());

    let response = HttpResponse::new_from_request(&request, Outcome::Nothing);

    assert!(matches!(response.status_code, StatusCode::Okay));
    assert!(response.content_encoding.is_none());
    assert_eq!(response.body.unwrap(), "hello".as_bytes());
}

#[test]
fn test_response_write_to_with_gzip() {
    let mut request = create_test_request("/echo/test_compressed");
    request
        .headers
        .insert("Accept-Encoding".to_string(), "gzip".to_string());

    let response = HttpResponse::new_from_request(&request, Outcome::Nothing);
    let mut rcv_buff = Vec::new();
    response.write_to(&mut rcv_buff).unwrap();

    let headers_str = String::from_utf8_lossy(&rcv_buff);
    assert!(headers_str.contains("200 OK"));
    assert!(headers_str.contains("Content-Type: text/plain"));
    assert!(headers_str.contains("Content-Encoding: gzip"));
}

#[test]
fn write_to_plain_body_exact_bytes() {
    let request = create_test_request("/echo/test");
    let response = HttpResponse::new_from_request(&request, Outcome::Nothing);
    let mut output = Vec::new();
    response.write_to(&mut output).unwrap();
    assert_eq!(
        output,
        b"HTTP/1.1 200 OK\r\nContent-Type: text/plain\r\nContent-Length: 4\r\n\r\ntest".to_vec()
    );
}

#[test]
fn write_to_appends_to_what_is_there() {
    let request = create_test_request("/echo/x");
    let response = HttpResponse::new_from_request(&request, Outcome::Nothing);
    let mut output = b"earlier".to_vec();
    response.write_to(&mut output).unwrap();
    assert_eq!(
        output,
        b"earlierHTTP/1.1 200 OK\r\nContent-Type: text/plain\r\nContent-Length: 1\r\n\r\nx".to_vec()
    );
}

#[test]
fn write_to_without_body_ends_with_zero_length() {
    let mut builder = HttpResponse::builder();
    builder.with_status_code(StatusCode::NotFound);
    builder.with_protocol_version(HttpVersion::Http2);
    builder.with_content_encoding(Some(ContentEncoding::GZip));
    let response = builder.build();
    let mut output = Vec::new();
    response.write_to(&mut output).unwrap();
    assert_eq!(
        output,
        b"HTTP/2 404 Not Found\r\nContent-Type: text/plain\r\nContent-Length: 0\r\n\r\n".to_vec()
    );
}

#[test]
fn write_to_with_connection_close() {
    let mut request = create_test_request("/echo/bye");
    request
        .headers
        .insert("Connection".to_string(), "close".to_string());
    let response = HttpResponse::new_from_request(&request, Outcome::Nothing);
    assert!(response.conn_close);
    let mut output = Vec::new();
    response.write_to(&mut output).unwrap();
    assert_eq!(
        output,
        b"HTTP/1.1 200 OK\r\nContent-Type: text/plain\r\nConnection: close\r\nContent-Length: 3\r\n\r\nbye"
            .to_vec()
    );
}

#[test]
fn write_to_with_gzip_sends_the_encoded_length_and_bytes() {
    let mut request = create_test_request("/echo/aaaaaaaaaaaaaaaaaaaaaaaaaaaaaaaaaaaaaaaaaaaaaaaa");
    request
        .headers
        .insert("accept-encoding".to_string(), "gzip".to_string());
    let response = HttpResponse::new_from_request(&request, Outcome::Nothing);
    let stored = response.body.clone().unwrap();
    let encoded = ContentEncoding::GZip.encode_body(&stored).unwrap();
    let mut output = Vec::new();
    response.write_to(&mut output).unwrap();
    let mut expected = format!(
        "HTTP/1.1 200 OK\r\nContent-Type: text/plain\r\nContent-Encoding: gzip\r\nContent-Length: {}\r\n\r\n",
        encoded.len()
    )
    .into_bytes();
    expected.extend_from_slice(&encoded);
    assert_eq!(output, expected);
    assert_eq!(response.body.unwrap(), stored);
}

#[test]
fn builder_defaults() {
    let response = HttpResponseBuilder::new().build();
    assert_eq!(response.protocol_version, HttpVersion::Http11);
    assert_eq!(response.status_code, StatusCode::Okay);
    assert_eq!(response.content_type, ContentType::PlainText);
    assert_eq!(response.content_length, 0);
    assert_eq!(response.content_encoding, None);
    assert!(!response.conn_close);
    assert_eq!(response.body, None);
}

#[test]
fn builder_sets_each_field() {
    let mut builder = HttpResponse::builder();
    builder.with_protocol_version(HttpVersion::Http2);
    builder.with_status_code(StatusCode::Created);
    builder.with_content_type(ContentType::Json);
    builder.with_content_length(7);
    builder.with_content_encoding(Some(ContentEncoding::GZip));
    builder.with_conn_close(true);
    builder.with_body(b"{\"a\":1}");
    let response = builder.build();
    assert_eq!(response.protocol_version, HttpVersion::Http2);
    assert_eq!(response.status_code, StatusCode::Created);
    assert_eq!(response.content_type, ContentType::Json);
    assert_eq!(response.content_length, 7);
    assert_eq!(response.content_encoding, Some(ContentEncoding::GZip));
    assert!(response.conn_close);
    assert_eq!(response.body.unwrap(), b"{\"a\":1}".to_vec());
}

#[test]
fn status_codes_and_texts() {
    assert_eq!(StatusCode::Okay.as_u16(), 200);
    assert_eq!(StatusCode::Created.as_u16(), 201);
    assert_eq!(StatusCode::BadRequest.as_u16(), 400);
    assert_eq!(StatusCode::NotFound.as_u16(), 404);
    assert_eq!(StatusCode::InternalServerError.as_u16(), 500);
    assert_eq!(StatusCode::NotImplemented.as_u16(), 501);
    assert_eq!(StatusCode::Okay.to_string(), "200 OK");
    assert_eq!(StatusCode::Created.to_string(), "201 Created");
    assert_eq!(StatusCode::BadRequest.to_string(), "400 Bad Request");
    assert_eq!(StatusCode::NotFound.to_string(), "404 Not Found");
    assert_eq!(
        StatusCode::InternalServerError.to_string(),
        "500 Internal Server Error"
    );
    assert_eq!(StatusCode::NotImplemented.to_string(), "501 Not Implemented");
}

#[test]
fn content_types_by_extension() {
    assert_eq!("html".parse::<ContentType>(), Ok(ContentType::Html));
    assert_eq!(ContentType::from_extension("htm"), ContentType::Html);
    assert_eq!(ContentType::from_extension("css"), ContentType::Css);
    assert_eq!(ContentType::from_extension("js"), ContentType::JavaScript);
    assert_eq!(ContentType::from_extension("json"), ContentType::Json);
    assert_eq!(ContentType::from_extension("png"), ContentType::Png);
    assert_eq!(ContentType::from_extension("jpg"), ContentType::Jpeg);
    assert_eq!(ContentType::from_extension("jpeg"), ContentType::Jpeg);
    assert_eq!(ContentType::from_extension("gif"), ContentType::Gif);
    assert_eq!(ContentType::from_extension("svg"), ContentType::Svg);
    assert_eq!(ContentType::from_extension("txt"), ContentType::PlainText);
    assert_eq!(ContentType::from_extension("pdf"), ContentType::Pdf);
    assert_eq!(ContentType::from_extension("bin"), ContentType::OctetStream);
    assert_eq!(ContentType::from_extension(""), ContentType::OctetStream);
    assert_eq!(ContentType::from_extension("HTML"), ContentType::OctetStream);
}

#[test]
fn content_type_texts() {
    assert_eq!(ContentType::Html.to_string(), "text/html");
    assert_eq!(ContentType::Css.to_string(), "text/css");
    assert_eq!(ContentType::JavaScript.to_string(), "application/javascript");
    assert_eq!(ContentType::Json.to_string(), "application/json");
    assert_eq!(ContentType::Png.to_string(), "image/png");
    assert_eq!(ContentType::Jpeg.to_string(), "image/jpeg");
    assert_eq!(ContentType::Gif.to_string(), "image/gif");
    assert_eq!(ContentType::Svg.to_string(), "image/svg+xml");
    assert_eq!(ContentType::PlainText.to_string(), "text/plain");
    assert_eq!(ContentType::Pdf.to_string(), "application/pdf");
    assert_eq!(
        ContentType::OctetStream.to_string(),
        "application/octet-stream"
    );
}

#[test]
fn bad_request_response_carries_the_error_text() {
    let error = RequestError::Method("PUT".to_string());
    let response = HttpResponse::new_from_bad_request(&error);
    assert_eq!(response.status_code, StatusCode::BadRequest);
    assert_eq!(response.content_type, ContentType::PlainText);
    assert_eq!(
        response.body.clone().unwrap(),
        b"unsupported HTTP method: PUT".to_vec()
    );
    assert_eq!(response.content_length, 28);
    assert!(!response.conn_close);
    let mut output = Vec::new();
    response.write_to(&mut output).unwrap();
    assert_eq!(
        output,
        b"HTTP/1.1 400 Bad Request\r\nContent-Type: text/plain\r\nContent-Length: 28\r\n\r\nunsupported HTTP method: PUT"
            .to_vec()
    );
}

#[test]
fn bad_request_response_for_a_bad_length() {
    let error = RequestError::BodyContentLength(LengthError::InvalidDigit);
    let response = HttpResponse::new_from_bad_request(&error);
    assert_eq!(
        response.body.unwrap(),
        b"error parsing the body length: invalid digit found in string".to_vec()
    );
}

#[test]
fn frame_puts_the_payload_behind_the_head() {
    let mut builder = HttpResponse::builder();
    builder.with_status_code(StatusCode::Created);
    builder.with_content_type(ContentType::OctetStream);
    let response = builder.build();
    assert_eq!(
        response.frame(b""),
        b"HTTP/1.1 201 Created\r\nContent-Type: application/octet-stream\r\nContent-Length: 0\r\n\r\n"
            .to_vec()
    );
    assert_eq!(
        response.frame(&[0, 1, 2, 255]),
        b"HTTP/1.1 201 Created\r\nContent-Type: application/octet-stream\r\nContent-Length: 4\r\n\r\n\x00\x01\x02\xff"
            .to_vec()
    );
}

#[test]
fn frame_names_the_encoding_only_with_a_body() {
    let mut builder = HttpResponse::builder();
    builder.with_content_encoding(Some(ContentEncoding::GZip));
    let without_body = builder.build();
    assert_eq!(
        without_body.frame(b""),
        b"HTTP/1.1 200 OK\r\nContent-Type: text/plain\r\nContent-Length: 0\r\n\r\n".to_vec()
    );
    let mut builder = HttpResponse::builder();
    builder.with_content_encoding(Some(ContentEncoding::GZip));
    builder.with_conn_close(true);
    builder.with_body(b"stored");
    let with_body = builder.build();
    assert_eq!(
        with_body.frame(b"zz"),
        b"HTTP/1.1 200 OK\r\nContent-Type: text/plain\r\nConnection: close\r\nContent-Encoding: gzip\r\nContent-Length: 2\r\n\r\nzz"
            .to_vec()
    );
}

#[test]
fn write_to_a_large_body_counts_every_byte() {
    let body = vec![b'x'; 123_456];
    let mut builder = HttpResponse::builder();
    builder.with_body(&body);
    builder.with_content_length(body.len());
    let response = builder.build();
    let mut output = Vec::new();
    response.write_to(&mut output).unwrap();
    let head = b"HTTP/1.1 200 OK\r\nContent-Type: text/plain\r\nContent-Length: 123456\r\n\r\n";
    assert_eq!(output.len(), head.len() + body.len());
    assert_eq!(&output[..head.len()], head.as_slice());
    assert_eq!(&output[head.len()..], body.as_slice());
}

fn count_of(text: &[u8], part: &[u8]) -> usize {
    text.windows(part.len()).filter(|w| *w == part).count()
}

#[test]
fn connection_close_line_stands_once_where_the_flag_is_set() {
    let line = b"Connection: close\r\n";
    for version in [HttpVersion::Http11, HttpVersion::Http2] {
        for status in [
            StatusCode::Okay,
            StatusCode::Created,
            StatusCode::BadRequest,
            StatusCode::NotFound,
            StatusCode::InternalServerError,
            StatusCode::NotImplemented,
        ] {
            for content_type in [ContentType::PlainText, ContentType::Html, ContentType::OctetStream] {
                for encoding in [None, Some(ContentEncoding::GZip)] {
                    for body in [None, Some(b"payload".as_slice())] {
                        for conn_close in [false, true] {
                            let mut builder = HttpResponse::builder();
                            builder.with_protocol_version(version);
                            builder.with_status_code(status);
                            builder.with_content_type(content_type);
                            builder.with_content_encoding(encoding);
                            builder.with_conn_close(conn_close);
                            if let Some(bytes) = body {
                                builder.with_body(bytes);
                            }
                            let response = builder.build();
                            let head = response.frame(b"");
                            let lead = format!(
                                "{} {}\r\nContent-Type: {}\r\n",
                                version.to_string(),
                                status.to_string(),
                                content_type.to_string()
                            );
                            assert!(head.starts_with(lead.as_bytes()));
                            assert!(head.ends_with(b"\r\n\r\n"));
                            if conn_close {
                                assert_eq!(count_of(&head, line), 1);
                                assert!(head[lead.len()..].starts_with(line));
                            } else {
                                assert_eq!(count_of(&head, line), 0);
                                assert_eq!(count_of(&head, b"Connection"), 0);
                            }
                        }
                    }
                }
            }
        }
    }
}

#[test]
fn write_to_with_gzip_succeeds_and_leaves_the_body_as_it_is() {
    for body in [b"".as_slice(), b"a", b"hello hello hello", &[0u8, 255, 1, 254]] {
        let mut builder = HttpResponse::builder();
        builder.with_content_encoding(Some(ContentEncoding::GZip));
        builder.with_conn_close(true);
        builder.with_body(body);
        let response = builder.build();
        let encoded = ContentEncoding::GZip.encode_body(body).unwrap();
        let mut output = b"before".to_vec();
        assert!(response.write_to(&mut output).is_ok());
        assert_eq!(output, [b"before".as_slice(), &response.frame(&encoded)].concat());
        assert_eq!(response.body.as_deref(), Some(body));
    }
}
