use js_gui_rs::vec_png_base64::{
    data_url_from_mime_base64, encode_png, png_bytes_to_data_url, png_to_base64, remove_crlf,
    PngError,
};

#[test]
fn png_to_base64_works() {
    let expected = "data:image/png;base64,iVBORw0KGgoAAAANSUhEUgAAAAIAAAACCAYAAABytg0kAAAAE0lEQVR4nGP8z8DwH0QwAmkwBQA2BgUArjfvtQAAAABJRU5ErkJggg==";
    let res = png_to_base64(2, 2, &vec![255, 0, 0, 255,
                    0, 255, 0, 255,
                    0, 0, 255, 255,
                    0, 0, 0, 255]);
    assert_eq!(res, expected);
}

#[test]
fn encode_png_reports_each_error() {
    assert!(matches!(encode_png(0, 2, &vec![]), Err(PngError::ZeroWidth)));
    assert!(matches!(encode_png(2, 0, &vec![]), Err(PngError::ZeroHeight)));
    match encode_png(2, 2, &vec![0u8; 15]) {
        Err(PngError::WrongDataSize { expected, got }) => {
            assert_eq!(expected, 16);
            assert_eq!(got, 15);
        }
        _ => panic!("expected a data size error"),
    }
}

#[test]
fn encode_png_writes_a_png_file() {
    let bytes = encode_png(1, 1, &vec![1, 2, 3, 4]).ok().unwrap();
    assert_eq!(&bytes[..8], &[137, 80, 78, 71, 13, 10, 26, 10]);
    assert_eq!(&bytes[bytes.len() - 8..bytes.len() - 4], b"IEND");
}

#[test]
fn mime_line_breaks_are_taken_out() {
    // 60 bytes give 80 base64 characters: MIME breaks the line after 76.
    let bytes = vec![0u8; 60];
    let url = png_bytes_to_data_url(&bytes);
    let body = "A".repeat(80);
    assert_eq!(url, format!("data:image/png;base64,{}", body));
}

#[test]
fn data_url_prefix_and_crlf() {
    assert_eq!(data_url_from_mime_base64("ab\r\ncd"), "data:image/png;base64,abcd");
    assert_eq!(data_url_from_mime_base64(""), "data:image/png;base64,");
}

#[test]
fn remove_crlf_scans_from_the_left() {
    assert_eq!(remove_crlf("a\r\r\nb"), "a\rb");
    assert_eq!(remove_crlf("\r\r\n\n"), "\r\n");
    assert_eq!(remove_crlf("x\n\ry\r"), "x\n\ry\r");
    assert_eq!(remove_crlf("\r\n\r\n"), "");
}
