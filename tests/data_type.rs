use mitm_core::data_type::{
    content_type_kind, decompress_brotli, decompress_gzip, detect_data_type, DataType,
};
use mitm_core::headers::Headers;
use std::io::Write;

fn with_header(name: &str, value: &str) -> Headers {
    let mut h = Headers::new();
    h.append(name.as_bytes().to_vec(), value.as_bytes().to_vec());
    h
}

fn gzip(data: &[u8]) -> Vec<u8> {
    let mut encoder = flate2::write::GzEncoder::new(Vec::new(), flate2::Compression::default());
    encoder.write_all(data).unwrap();
    encoder.finish().unwrap()
}

fn brotli_compress(data: &[u8]) -> Vec<u8> {
    let mut out = Vec::new();
    {
        let mut writer = brotli::CompressorWriter::new(&mut out, 4096, 5, 22);
        writer.write_all(data).unwrap();
    }
    out
}

#[test]
fn test_json_detection() {
    let headers = with_header("content-type", "application/json");
    let body = br#"{"key": "value"}"#;
    assert_eq!(detect_data_type(&headers, body), DataType::Json);

    let empty = Headers::new();
    assert_eq!(detect_data_type(&empty, body), DataType::Text);
}

#[test]
fn test_xml_detection() {
    let headers = with_header("content-type", "application/xml");
    let body = b"<root><item>test</item></root>";
    assert_eq!(detect_data_type(&headers, body), DataType::Xml);
    assert_eq!(detect_data_type(&Headers::new(), body), DataType::Text);
}

#[test]
fn test_html_detection() {
    let headers = with_header("content-type", "text/html");
    let body = b"<!DOCTYPE html><html><body>test</body></html>";
    assert_eq!(detect_data_type(&headers, body), DataType::Html);
    assert_eq!(detect_data_type(&Headers::new(), body), DataType::Text);
}

#[test]
fn test_empty_body() {
    assert_eq!(detect_data_type(&Headers::new(), b""), DataType::Empty);
}

#[test]
fn test_data_type_methods() {
    let json_type = DataType::Json;
    assert_eq!(json_type.to_mime_type(), "application/json");
    assert_eq!(json_type.to_monaco_language(), "json");
    assert!(json_type.is_text_based());
    assert!(!json_type.is_binary());

    let image_type = DataType::Image;
    assert_eq!(image_type.to_mime_type(), "image/*");
    assert_eq!(image_type.to_monaco_language(), "plaintext");
    assert!(!image_type.is_text_based());
    assert!(image_type.is_binary());
    assert!(image_type.is_image());
}

#[test]
fn test_css_detection() {
    let headers = with_header("content-type", "text/css");
    let css = b"@import url('style.css'); body { color: red; }";
    assert_eq!(detect_data_type(&headers, css), DataType::Css);
    assert_eq!(
        detect_data_type(&Headers::new(), b".my-class { background: blue; }"),
        DataType::Text
    );
}

#[test]
fn test_html_vs_xml_detection() {
    let html = b"<!DOCTYPE html><html><head><title>Test</title></head><body>Content</body></html>";
    assert_eq!(detect_data_type(&with_header("content-type", "text/html"), html), DataType::Html);
    let xml = b"<?xml version=\"1.0\"?><root><item>test</item></root>";
    assert_eq!(
        detect_data_type(&with_header("content-type", "application/xml"), xml),
        DataType::Xml
    );
    assert_eq!(detect_data_type(&Headers::new(), html), DataType::Text);
    assert_eq!(detect_data_type(&Headers::new(), xml), DataType::Text);
}

#[test]
fn test_invalid_json_detection() {
    let invalid_json = b"{ invalid json }";
    assert_eq!(detect_data_type(&Headers::new(), invalid_json), DataType::Text);
    assert_eq!(
        detect_data_type(&with_header("content-type", "application/json"), invalid_json),
        DataType::Json
    );
}

#[test]
fn test_javascript_detection() {
    let js = b"function hello() { console.log('Hello World'); }";
    assert_eq!(
        detect_data_type(&with_header("content-type", "application/javascript"), js),
        DataType::Javascript
    );
    let ts = b"interface User { name: string; age: number; }";
    assert_eq!(
        detect_data_type(&with_header("content-type", "application/typescript"), ts),
        DataType::Javascript
    );
    assert_eq!(
        detect_data_type(&Headers::new(), b"const add = (a, b) => a + b;"),
        DataType::Text
    );
}

#[test]
fn test_image_detection() {
    let h = Headers::new();
    let png = [0x89, 0x50, 0x4E, 0x47, 0x0D, 0x0A, 0x1A, 0x0A];
    assert_eq!(detect_data_type(&h, &png), DataType::Image);
    let jpeg = [0xFF, 0xD8, 0xFF];
    assert_eq!(detect_data_type(&h, &jpeg), DataType::Image);
    let svg = b"<svg width=\"100\" height=\"100\"><circle cx=\"50\" cy=\"50\" r=\"40\"/></svg>";
    assert_eq!(detect_data_type(&h, svg), DataType::Image);
}

#[test]
fn test_video_detection() {
    let h = Headers::new();
    let mp4 = [0x00, 0x00, 0x00, 0x20, 0x66, 0x74, 0x79, 0x70];
    assert_eq!(detect_data_type(&h, &mp4), DataType::Video);
    let webm = [0x1A, 0x45, 0xDF, 0xA3];
    assert_eq!(detect_data_type(&h, &webm), DataType::Video);
}

#[test]
fn test_audio_detection() {
    let h = Headers::new();
    assert_eq!(detect_data_type(&h, &[0x49, 0x44, 0x33]), DataType::Audio);
    let wav = [0x52, 0x49, 0x46, 0x46, 0x00, 0x00, 0x00, 0x00, 0x57, 0x41, 0x56, 0x45];
    assert_eq!(detect_data_type(&h, &wav), DataType::Audio);
}

#[test]
fn test_document_detection() {
    assert_eq!(detect_data_type(&Headers::new(), &[0x25, 0x50, 0x44, 0x46]), DataType::Document);
}

#[test]
fn test_archive_detection() {
    let h = Headers::new();
    assert_eq!(detect_data_type(&h, &[0x50, 0x4B, 0x03, 0x04]), DataType::Archive);
    assert_eq!(detect_data_type(&h, &[0x1F, 0x8B]), DataType::Archive);
}

#[test]
fn test_gzip_decompression() {
    let h = Headers::new();
    let json = gzip(br#"{"name": "test", "value": 123}"#);
    assert_eq!(detect_data_type(&h, &json), DataType::Text);
    let html = gzip(b"<!DOCTYPE html><html><head><title>Test</title></head><body>Content</body></html>");
    assert_eq!(detect_data_type(&h, &html), DataType::Text);
}

#[test]
fn test_content_type_header_priority() {
    assert_eq!(
        detect_data_type(&with_header("content-type", "application/json"), b"this is not json"),
        DataType::Json
    );
    assert_eq!(
        detect_data_type(&with_header("content-type", "text/css"), b"this is not css"),
        DataType::Css
    );
}

#[test]
fn test_fallback_to_text_or_binary() {
    let h = Headers::new();
    assert_eq!(
        detect_data_type(&h, b"some random text that doesn't match any pattern"),
        DataType::Text
    );
    let binary = [0x12, 0x34, 0x56, 0x78, 0x9A, 0xBC, 0xDE, 0xF0];
    assert_eq!(detect_data_type(&h, &binary), DataType::Binary);
}

#[test]
fn gzip_encoding_matches_plain_detection() {
    let plain = br#"[1, 2, 3]"#;
    let encoded = gzip(plain);
    let mut h = with_header("content-encoding", "gzip");
    h.append(b"content-type".to_vec(), b"application/octet-stream".to_vec());
    assert_eq!(detect_data_type(&h, &encoded), detect_data_type(&Headers::new(), plain));
    assert_eq!(detect_data_type(&h, &encoded), DataType::Text);
}

#[test]
fn detection_is_repeatable() {
    let h = with_header("content-type", "image/png");
    let body = b"\x89PNG\r\n\x1a\n....";
    assert_eq!(detect_data_type(&h, body), detect_data_type(&h, body));
    assert_eq!(detect_data_type(&h, body), DataType::Image);
}

#[test]
fn brotli_encoded_body_is_decoded() {
    let encoded = brotli_compress(b"%PDF-1.4 document");
    let h = with_header("Content-Encoding", "BR");
    assert_eq!(detect_data_type(&h, &encoded), DataType::Document);
    assert_eq!(detect_data_type(&h, b"not brotli at all"), DataType::Binary);
}

#[test]
fn gzip_header_with_bad_stream_is_archive() {
    let h = with_header("content-encoding", "gzip");
    assert_eq!(detect_data_type(&h, b"plain text"), DataType::Archive);
}

#[test]
fn nested_gzip_is_followed() {
    let inner = gzip(b"%PDF-1.7");
    let outer = gzip(&inner);
    assert_eq!(detect_data_type(&Headers::new(), &outer), DataType::Document);
}

#[test]
fn decompressors_return_plain_bytes() {
    assert_eq!(decompress_gzip(&gzip(b"hello")), Some(b"hello".to_vec()));
    assert_eq!(decompress_gzip(b"xx"), None);
    assert_eq!(decompress_brotli(&brotli_compress(b"hello")), Some(b"hello".to_vec()));
}

#[test]
fn content_type_order_and_edge_kinds() {
    assert_eq!(content_type_kind(b"application/xhtml+xml"), Some(DataType::Xml));
    assert_eq!(content_type_kind(b"application/x-gzip"), Some(DataType::Archive));
    assert_eq!(content_type_kind(b"text/plain"), Some(DataType::Text));
    assert_eq!(content_type_kind(b"application/octet-stream"), None);
    assert_eq!(detect_data_type(&with_header("Content-Type", "Video/MP4"), b""), DataType::Video);
}

#[test]
fn data_type_default_and_mime_table() {
    assert_eq!(DataType::default(), DataType::Unknown);
    assert_eq!(DataType::Empty.to_mime_type(), "empty");
    assert_eq!(DataType::Archive.to_mime_type(), "application/zip");
    assert_eq!(DataType::Css.to_monaco_language(), "css");
    assert!(DataType::Document.is_document());
    assert!(DataType::Archive.is_archive());
    assert!(DataType::Audio.is_audio());
    assert!(DataType::Video.is_video());
    assert!(!DataType::Empty.is_binary());
}
