use drawio_lc::confluence_export::{
    after_attachment_listing, after_body_update, after_page_creation, after_page_search, after_space_lookup,
    after_upload, after_version_read, api_error, attachment_upload_url, auth_header, base_url, build_page_body, created_page_id, find_first_result_id,
    missing_space_message, multipart_body, next_version, percent_encode, search_url, visible_spaces, ApiFailure,
    Operation, SpaceCheck,
};
use drawio_lc::gif_export::{build_animated_gif, decode_frames, image_dimensions, lay_out_gif, GifError, RgbaFrame};
use drawio_lc::html_export::{base64_encode, build_html_slideshow};
use drawio_lc::json::JsonValue;
use drawio_lc::pdf_export::png_dimensions;

fn obj(members: Vec<(&str, JsonValue)>) -> JsonValue {
    JsonValue::Object(members.into_iter().map(|(k, v)| (k.to_string(), v)).collect())
}

fn s(text: &str) -> JsonValue {
    JsonValue::Str(text.to_string())
}

#[test]
fn base64_known_values() {
    assert_eq!(base64_encode(b""), "");
    assert_eq!(base64_encode(b"f"), "Zg==");
    assert_eq!(base64_encode(b"fo"), "Zm8=");
    assert_eq!(base64_encode(b"foo"), "Zm9v");
    assert_eq!(base64_encode(b"foobar"), "Zm9vYmFy");
}

#[test]
fn auth_header_is_basic_base64() {
    assert_eq!(auth_header("user", "pass"), "Basic dXNlcjpwYXNz");
}

#[test]
fn percent_encoding_of_query_values() {
    assert_eq!(percent_encode("Hello World-_.~"), "Hello+World-_.~");
    assert_eq!(percent_encode("a&b=c/é"), "a%26b%3Dc%2F%C3%A9");
}

#[test]
fn base_url_drops_trailing_slashes() {
    assert_eq!(base_url("https://x.atlassian.net//"), "https://x.atlassian.net");
    assert_eq!(base_url("https://x.atlassian.net"), "https://x.atlassian.net");
}

#[test]
fn search_and_upload_urls() {
    assert_eq!(
        search_url("https://c", "My Page", "TEAM"),
        "https://c/wiki/rest/api/content?title=My+Page&spaceKey=TEAM&expand=version"
    );
    assert_eq!(
        attachment_upload_url("https://c", "42", &Some("att7".to_string())),
        "https://c/wiki/rest/api/content/42/child/attachment/att7/data"
    );
    assert_eq!(attachment_upload_url("https://c", "42", &None), "https://c/wiki/rest/api/content/42/child/attachment");
}

#[test]
fn multipart_body_wraps_the_data() {
    let body = multipart_body("a.png", "image/png", &[1u8, 2, 3]);
    let head = b"------ConfluenceUploadBoundary\r\nContent-Disposition: form-data; name=\"file\"; filename=\"a.png\"\r\nContent-Type: image/png\r\n\r\n";
    let mut expected = head.to_vec();
    expected.extend_from_slice(&[1, 2, 3]);
    expected.extend_from_slice(b"\r\n------ConfluenceUploadBoundary--\r\n");
    assert_eq!(body, expected);
}

#[test]
fn page_body_without_slides() {
    assert_eq!(build_page_body(&vec![], "a.mp4", &vec![]), "<p>No slides were generated.</p>");
}

#[test]
fn page_body_with_slides_and_sections() {
    let body = build_page_body(
        &vec!["s1.png".to_string(), "s2.png".to_string(), "s3.png".to_string()],
        "deck.mp4",
        &vec!["deck.section1.mp4".to_string()],
    );
    assert!(body.starts_with("<ac:structured-macro ac:name=\"expand\">\n  <ac:parameter ac:name=\"title\">▶ Play animation (3 slides)</ac:parameter>"));
    assert!(body.contains("<ri:attachment ri:filename=\"deck.mp4\" />"));
    assert!(body.contains("▶ Animation section 1 </ac:parameter>"));
    let shown = body.find("<ac:image><ri:attachment ri:filename=\"s1.png\" /></ac:image>").unwrap();
    let browse = body.find("Browse slides (2 slides)").unwrap();
    assert!(shown < browse);
    assert!(body[..shown].ends_with("</ac:structured-macro>\n"));
    assert_eq!(body.matches("s1.png").count(), 1);
    assert!(body[browse..].contains(
        "<ac:image><ri:attachment ri:filename=\"s2.png\" /></ac:image>\n<ac:image><ri:attachment ri:filename=\"s3.png\" /></ac:image>"
    ));
    assert!(body.ends_with("\n  </ac:rich-text-body>\n</ac:structured-macro>"));
}

#[test]
fn page_body_with_one_slide_has_no_browsing_block() {
    let body = build_page_body(&vec!["s1.png".to_string()], "deck.mp4", &vec![]);
    assert!(body.ends_with("</ac:structured-macro>\n<ac:image><ri:attachment ri:filename=\"s1.png\" /></ac:image>"));
    assert!(!body.contains("Browse slides"));
}

#[test]
fn first_result_and_created_ids() {
    let resp = obj(vec![("results", JsonValue::Array(vec![obj(vec![("id", s("123"))])]))]);
    assert_eq!(find_first_result_id(&resp), Some("123".to_string()));
    assert_eq!(find_first_result_id(&obj(vec![("results", JsonValue::Array(vec![]))])), None);
    assert_eq!(created_page_id(&obj(vec![("id", s("9"))]), "{}"), Ok("9".to_string()));
    assert_eq!(
        created_page_id(&obj(vec![]), "{}"),
        Err("Unexpected response creating page: {}".to_string())
    );
}

#[test]
fn next_version_is_one_more() {
    let cur = obj(vec![("version", obj(vec![("number", JsonValue::Number(Some(7)))]))]);
    assert_eq!(next_version(&cur, "5", "{..}"), Ok(8));
    assert_eq!(
        next_version(&obj(vec![]), "5", "{}"),
        Err("Could not read version number of page 5 from response: {}".to_string())
    );
}

#[test]
fn api_error_messages() {
    let failure = ApiFailure::Status {
        code: 404,
        url: "https://c/x".to_string(),
        body: "{\"message\":\"No space\"}".to_string(),
    };
    let op = Operation::LookUpSpace { space_key: "TEAM".to_string() }.label();
    assert_eq!(op, "Looking up space \"TEAM\"");
    assert_eq!(
        api_error(&op, &failure),
        "Looking up space \"TEAM\" failed (HTTP 404 on https://c/x)\n  No space\n  hint: a 404 here usually means the space or page does not exist, not that the URL is wrong"
    );
    let errors = ApiFailure::Status {
        code: 500,
        url: "u".to_string(),
        body: "{\"errors\":[{\"title\":\"Boom\"}]}".to_string(),
    };
    assert_eq!(api_error("Op", &errors), "Op failed (HTTP 500 on u)\n  Boom");
    let long_body = "x".repeat(500);
    let plain = ApiFailure::Status { code: 502, url: "u".to_string(), body: long_body.clone() };
    assert_eq!(api_error("Op", &plain), format!("Op failed (HTTP 502 on u)\n  {}", &long_body[..400]));
    assert_eq!(api_error("Op", &ApiFailure::Transport("timeout".to_string())), "Op failed: timeout");
}

#[test]
fn visible_spaces_and_missing_space_message() {
    let resp = obj(vec![(
        "results",
        JsonValue::Array(vec![
            obj(vec![("key", s("OPS")), ("name", s("Operations"))]),
            obj(vec![("name", s("no key"))]),
            obj(vec![("key", s("TEAMX")), ("name", s("Team X"))]),
        ]),
    )]);
    let spaces = visible_spaces(&resp);
    assert_eq!(
        spaces,
        Some(vec![("OPS".to_string(), "Operations".to_string()), ("TEAMX".to_string(), "Team X".to_string())])
    );
    assert_eq!(visible_spaces(&obj(vec![("results", JsonValue::Array(vec![]))])), None);
    let msg = missing_space_message("~team", "me@x", &spaces);
    let expected_head = "Confluence space key \"~team\" does not exist, or is not visible to me@x.\n  Note that a personal space is keyed \"~<accountId>\" (e.g. \"~712020abc…\"), not by your username.\n  Spaces you can see:";
    assert!(msg.starts_with(expected_head), "got: {msg}");
    // The matching space comes first.
    let rest = &msg[expected_head.len()..];
    assert_eq!(
        rest,
        format!("\n    {:<44} {}\n    {:<44} {}", "TEAMX", "Team X", "OPS", "Operations")
    );
    let none = missing_space_message("K", "u", &None);
    assert!(none.ends_with("not by your username."));
}

#[test]
fn missing_space_message_caps_the_list() {
    let many: Vec<(String, String)> = (0..30).map(|i| (format!("K{i}"), format!("N{i}"))).collect();
    let msg = missing_space_message("zzz", "u", &Some(many));
    assert!(msg.ends_with("\n    … and 5 more"), "got: {msg}");
    assert_eq!(msg.matches("\n    K").count(), 25);
}

#[test]
fn png_dimensions_reads_ihdr() {
    let mut bytes = vec![0u8; 24];
    bytes[16..20].copy_from_slice(&800u32.to_be_bytes());
    bytes[20..24].copy_from_slice(&600u32.to_be_bytes());
    assert_eq!(png_dimensions(&bytes), Ok((800, 600)));
    assert_eq!(png_dimensions(&bytes[..23]), Err("PNG file too short".to_string()));
}

#[test]
fn slideshow_needs_slides() {
    let err = build_html_slideshow(&vec![]).unwrap_err();
    assert_eq!(err.message(), "No PNG frames provided for HTML slideshow");
    let page = build_html_slideshow(&vec![b"foo".to_vec()]).unwrap();
    assert!(page.contains("\"data:image/png;base64,Zm9v\""));
}

fn frame(width: u32, height: u32, fill: u8) -> RgbaFrame {
    RgbaFrame { width, height, pixels: vec![fill; (4 * width * height) as usize] }
}

#[test]
fn gif_errors() {
    assert!(matches!(lay_out_gif(&vec![], &vec![]), Err(GifError::NoFrames)));
    assert_eq!(GifError::NoFrames.message(), "No PNG frames provided for GIF");
    let err = lay_out_gif(&vec![frame(1, 1, 0)], &vec![]).err().unwrap();
    assert_eq!(err.message(), "build_animated_gif: 1 paths but 0 delays");
}

#[test]
fn gif_frames_are_centred_on_white() {
    let frames = vec![frame(3, 1, 0), frame(1, 1, 7)];
    let gif = lay_out_gif(&frames, &vec![1000, 25]).unwrap();
    assert_eq!((gif.width, gif.height), (3, 1));
    assert_eq!(gif.frames[0].pixels, vec![0u8; 12]);
    assert_eq!(gif.frames[0].delay_cs, 100);
    assert_eq!(gif.frames[1].pixels, vec![255, 255, 255, 255, 7, 7, 7, 7, 255, 255, 255, 255]);
    assert_eq!(gif.frames[1].delay_cs, 3);
    let rounded = lay_out_gif(&vec![frame(1, 1, 0), frame(1, 1, 0)], &vec![19, 14]).unwrap();
    assert_eq!((rounded.frames[0].delay_cs, rounded.frames[1].delay_cs), (2, 1));
}

fn status(code: u16) -> ApiFailure {
    ApiFailure::Status { code, url: "u".to_string(), body: "b".to_string() }
}

#[test]
fn space_lookup_decisions() {
    assert!(matches!(after_space_lookup(&Ok(()), "TEAM"), SpaceCheck::Exists));
    assert!(matches!(after_space_lookup(&Err(status(404)), "TEAM"), SpaceCheck::Missing));
    match after_space_lookup(&Err(status(500)), "TEAM") {
        SpaceCheck::Failed(m) => assert_eq!(m, "Looking up space \"TEAM\" failed (HTTP 500 on u)\n  b"),
        _ => panic!("a 500 ends the push"),
    }
}

#[test]
fn page_search_and_creation_decisions() {
    let found = obj(vec![("results", JsonValue::Array(vec![obj(vec![("id", s("42"))])]))]);
    assert_eq!(after_page_search(&Ok(found), "Deck"), Ok(Some("42".to_string())));
    assert_eq!(after_page_search(&Ok(obj(vec![])), "Deck"), Ok(None));
    assert_eq!(after_page_search(&Err(status(404)), "Deck"), Ok(None));
    assert_eq!(
        after_page_search(&Err(ApiFailure::Transport("down".to_string())), "Deck"),
        Err("Searching for page \"Deck\" failed: down".to_string())
    );
    assert_eq!(after_page_creation(&Ok((obj(vec![("id", s("7"))]), "{}".to_string())), "Deck", "TEAM"), Ok("7".to_string()));
    assert_eq!(
        after_page_creation(&Ok((obj(vec![]), "{}".to_string())), "Deck", "TEAM"),
        Err("Unexpected response creating page: {}".to_string())
    );
    assert!(after_page_creation(&Err(status(403)), "Deck", "TEAM").unwrap_err().starts_with("Creating page \"Deck\""));
}

#[test]
fn attachment_and_update_decisions() {
    let existing = obj(vec![("results", JsonValue::Array(vec![obj(vec![("id", s("att9"))])]))]);
    assert_eq!(
        after_attachment_listing(&Ok(existing), "https://c", "5"),
        Ok(attachment_upload_url("https://c", "5", &Some("att9".to_string())))
    );
    assert_eq!(
        after_attachment_listing(&Ok(obj(vec![])), "https://c", "5"),
        Ok(attachment_upload_url("https://c", "5", &None))
    );
    assert!(after_attachment_listing(&Err(status(500)), "https://c", "5").is_err());
    assert_eq!(after_upload(&Ok(()), "a.png"), Ok(()));
    assert!(after_upload(&Err(status(413)), "a.png").unwrap_err().starts_with("Uploading attachment \"a.png\""));
    let cur = obj(vec![("version", obj(vec![("number", JsonValue::Number(Some(3)))]))]);
    assert_eq!(after_version_read(&Ok((cur, "{..}".to_string())), "5"), Ok(4));
    assert!(after_version_read(&Err(status(500)), "5").is_err());
    assert_eq!(after_body_update(&Ok(()), "5"), Ok(()));
    assert!(after_body_update(&Err(status(409)), "5").unwrap_err().starts_with("Updating body of page 5"));
}

fn png_bytes(width: u32, height: u32, rgba: [u8; 4]) -> Vec<u8> {
    let img = image::RgbaImage::from_pixel(width, height, image::Rgba(rgba));
    let mut out = std::io::Cursor::new(Vec::new());
    img.write_to(&mut out, image::ImageFormat::Png).unwrap();
    out.into_inner()
}

#[test]
fn png_files_decode_to_rgba() {
    let frames = decode_frames(&vec![png_bytes(2, 1, [1, 2, 3, 255])], &vec!["a.png".to_string()]).unwrap();
    assert_eq!((frames[0].width, frames[0].height), (2, 1));
    assert_eq!(frames[0].pixels, vec![1, 2, 3, 255, 1, 2, 3, 255]);
    let err = decode_frames(&vec![png_bytes(1, 1, [0, 0, 0, 255]), b"not a png".to_vec()], &vec![
        "a.png".to_string(),
        "b.png".to_string(),
    ])
    .err()
    .unwrap();
    assert!(err.starts_with("Failed to load b.png: "));
}

#[test]
fn gif_from_png_files() {
    let files = vec![png_bytes(3, 1, [0, 0, 0, 255]), png_bytes(1, 1, [7, 7, 7, 255])];
    let names = vec!["a.png".to_string(), "b.png".to_string()];
    let gif = build_animated_gif(&files, &names, &vec![1000, 25]).unwrap();
    assert_eq!((gif.width, gif.height), (3, 1));
    assert_eq!(gif.frames[0].pixels, [0, 0, 0, 255].repeat(3));
    assert_eq!(gif.frames[1].pixels, vec![255, 255, 255, 255, 7, 7, 7, 255, 255, 255, 255, 255]);
    assert_eq!((gif.frames[0].delay_cs, gif.frames[1].delay_cs), (100, 3));
    assert_eq!(build_animated_gif(&vec![], &vec![], &vec![]).err().unwrap(), "No PNG frames provided for GIF");
    assert_eq!(
        build_animated_gif(&files, &names, &vec![10]).err().unwrap(),
        "build_animated_gif: 2 paths but 1 delays"
    );
}

#[test]
fn image_dimensions_of_png_bytes() {
    assert_eq!(image_dimensions(&png_bytes(5, 3, [9, 9, 9, 255])), Ok((5, 3)));
    assert!(image_dimensions(&b"GIF? no".to_vec()).is_err());
}
