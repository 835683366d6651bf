//! What the Confluence push sends and how it reads the answers: request
//! URLs and headers, the multipart upload body, the page body, the page and
//! attachment ids and version found in responses, and the error messages.
use vstd::prelude::*;
use vstd::utf8::encode_utf8;

use crate::html_export::{base64_encode, base64_text};
use crate::json::{JsonValue, element, element_exec, json_document, member, member_exec, parse_json, str_exec, str_of, u64_exec, u64_of};
use crate::text::{contains_seq, decimal, find_chars, from_chars, join, push_all, push_decimal, push_str, to_chars};
use crate::validate::{debug_quoted, debug_text};

verus! {

// ---------------------------------------------------------------------------
// Text helpers.

/// The text that std's `to_lowercase` gives a string.
pub uninterp spec fn lowercase(s: Seq<char>) -> Seq<char>;

/// std `str::to_lowercase`.
#[verifier::external_body]
fn to_lower(s: &str) -> (r: String)
    ensures
        r@ == lowercase(s@),
{
    s.to_lowercase()
}

/// `s` without its trailing slashes.
pub open spec fn trim_end_slashes(s: Seq<char>) -> Seq<char>
    decreases s.len(),
{
    if s.len() > 0 && s.last() == '/' {
        trim_end_slashes(s.drop_last())
    } else {
        s
    }
}

/// `s` without its leading tildes.
pub open spec fn trim_start_tildes(s: Seq<char>) -> Seq<char>
    decreases s.len(),
{
    if s.len() > 0 && s[0] == '~' {
        trim_start_tildes(s.drop_first())
    } else {
        s
    }
}

/// The base URL of the Confluence instance: the configured URL without
/// trailing slashes.
pub fn base_url(url: &str) -> (r: String)
    ensures
        r@ == trim_end_slashes(url@),
{
    let mut s = to_chars(url);
    while s.len() > 0 && s[s.len() - 1] == '/'
        invariant
            trim_end_slashes(s@) == trim_end_slashes(url@),
        decreases s.len(),
    {
        let ghost before = s@;
        s.pop();
        assert(s@ =~= before.drop_last());
    }
    from_chars(&s)
}

fn trim_start_tildes_exec(s: &Vec<char>) -> (r: Vec<char>)
    ensures
        r@ == trim_start_tildes(s@),
{
    let n = s.len();
    let mut i: usize = 0;
    assert(s@.skip(0) =~= s@);
    while i < n && s[i] == '~'
        invariant
            n == s@.len(),
            i <= n,
            trim_start_tildes(s@) == trim_start_tildes(s@.skip(i as int)),
        decreases n - i,
    {
        assert(s@.skip(i as int).drop_first() =~= s@.skip(i + 1));
        i += 1;
    }
    let mut r: Vec<char> = Vec::new();
    let mut j = i;
    while j < n
        invariant
            n == s@.len(),
            i <= j <= n,
            r@ == s@.subrange(i as int, j as int),
        decreases n - j,
    {
        r.push(s[j]);
        assert(s@.subrange(i as int, j + 1) =~= s@.subrange(i as int, j as int).push(s@[j as int]));
        j += 1;
    }
    assert(s@.subrange(i as int, n as int) =~= s@.skip(i as int));
    r
}

// ---------------------------------------------------------------------------
// Percent-encoding and authentication.

/// The uppercase hexadecimal digit of `n < 16`.
pub open spec fn hex_digit(n: int) -> char {
    seq!['0', '1', '2', '3', '4', '5', '6', '7', '8', '9', 'A', 'B', 'C', 'D', 'E', 'F'][n]
}

/// A byte that stands for itself in a query value.
pub open spec fn is_unreserved(b: u8) -> bool {
    ||| 65 <= b <= 90
    ||| 97 <= b <= 122
    ||| 48 <= b <= 57
    ||| b == 45
    ||| b == 95
    ||| b == 46
    ||| b == 126
}

/// One byte of a query value: itself when unreserved, `+` for a space,
/// `%XX` otherwise.
pub open spec fn byte_text(b: u8) -> Seq<char> {
    if is_unreserved(b) {
        seq![b as char]
    } else if b == 32 {
        seq!['+']
    } else {
        seq!['%', hex_digit((b / 16) as int), hex_digit((b % 16) as int)]
    }
}

/// The bytes of a query value, percent-encoded.
pub open spec fn percent_text(bytes: Seq<u8>) -> Seq<char>
    decreases bytes.len(),
{
    if bytes.len() == 0 {
        Seq::empty()
    } else {
        percent_text(bytes.drop_last()) + byte_text(bytes.last())
    }
}

/// Minimal percent-encoder for URL query parameter values: the UTF-8 bytes
/// of `s`, letters, digits and `-_.~` kept, space as `+`, others as `%XX`.
pub fn percent_encode(s: &str) -> (r: String)
    ensures
        r@ == percent_text(encode_utf8(s@)),
{
    let bytes = s.as_bytes();
    let hex = ['0', '1', '2', '3', '4', '5', '6', '7', '8', '9', 'A', 'B', 'C', 'D', 'E', 'F'];
    assert(hex@ =~= seq!['0', '1', '2', '3', '4', '5', '6', '7', '8', '9', 'A', 'B', 'C', 'D', 'E', 'F']);
    let mut out: Vec<char> = Vec::new();
    let n = bytes.len();
    for i in 0..n
        invariant
            n == bytes@.len(),
            bytes@ == encode_utf8(s@),
            hex@ == seq!['0', '1', '2', '3', '4', '5', '6', '7', '8', '9', 'A', 'B', 'C', 'D', 'E', 'F'],
            out@ == percent_text(bytes@.take(i as int)),
    {
        assert(bytes@.take(i + 1).drop_last() =~= bytes@.take(i as int));
        let b = bytes[i];
        let ghost before = out@;
        if (65 <= b && b <= 90) || (97 <= b && b <= 122) || (48 <= b && b <= 57) || b == 45 || b == 95 || b == 46
            || b == 126 {
            out.push(b as char);
        } else if b == 32 {
            out.push('+');
        } else {
            out.push('%');
            out.push(hex[(b / 16) as usize]);
            out.push(hex[(b % 16) as usize]);
        }
        assert(out@ =~= before + byte_text(b));
    }
    assert(bytes@.take(n as int) =~= bytes@);
    from_chars(&out)
}

/// The Basic authentication value for `user:token`.
pub open spec fn auth_text(user: Seq<char>, token: Seq<char>) -> Seq<char> {
    "Basic "@ + base64_text(encode_utf8(user + seq![':'] + token))
}

/// The `Authorization` header value: `Basic` and the base64 of
/// `user:token`.
pub fn auth_header(user: &str, token: &str) -> (r: String)
    ensures
        r@ == auth_text(user@, token@),
{
    let mut c = to_chars(user);
    c.push(':');
    push_str(&mut c, token);
    assert(c@ =~= user@ + seq![':'] + token@);
    let creds = from_chars(&c);
    let cs = creds.as_str();
    let bytes = cs.as_bytes();
    assert(bytes@ == encode_utf8(user@ + seq![':'] + token@));
    let encoded = base64_encode(bytes);
    let mut out = to_chars("Basic ");
    push_str(&mut out, encoded.as_str());
    from_chars(&out)
}

// ---------------------------------------------------------------------------
// Request URLs.

/// `GET` the space with this key.
pub fn space_url(base: &str, space_key: &str) -> (r: String)
    ensures
        r@ == base@ + "/wiki/rest/api/space/"@ + percent_text(encode_utf8(space_key@)),
{
    let key = percent_encode(space_key);
    let mut out = to_chars(base);
    push_str(&mut out, "/wiki/rest/api/space/");
    push_str(&mut out, key.as_str());
    from_chars(&out)
}

/// `GET` the spaces the account can read.
pub fn spaces_url(base: &str) -> (r: String)
    ensures
        r@ == base@ + "/wiki/rest/api/space?limit=200"@,
{
    let mut out = to_chars(base);
    push_str(&mut out, "/wiki/rest/api/space?limit=200");
    from_chars(&out)
}

/// `GET` the page with this title in this space.
pub fn search_url(base: &str, title: &str, space_key: &str) -> (r: String)
    ensures
        r@ == base@ + "/wiki/rest/api/content?title="@ + percent_text(encode_utf8(title@)) + "&spaceKey="@
            + percent_text(encode_utf8(space_key@)) + "&expand=version"@,
{
    let t = percent_encode(title);
    let k = percent_encode(space_key);
    let mut out = to_chars(base);
    push_str(&mut out, "/wiki/rest/api/content?title=");
    push_str(&mut out, t.as_str());
    push_str(&mut out, "&spaceKey=");
    push_str(&mut out, k.as_str());
    push_str(&mut out, "&expand=version");
    from_chars(&out)
}

/// `POST` a new page.
pub fn content_url(base: &str) -> (r: String)
    ensures
        r@ == base@ + "/wiki/rest/api/content"@,
{
    let mut out = to_chars(base);
    push_str(&mut out, "/wiki/rest/api/content");
    from_chars(&out)
}

/// `GET` the version of a page.
pub fn version_url(base: &str, page_id: &str) -> (r: String)
    ensures
        r@ == base@ + "/wiki/rest/api/content/"@ + page_id@ + "?expand=version"@,
{
    let mut out = to_chars(base);
    push_str(&mut out, "/wiki/rest/api/content/");
    push_str(&mut out, page_id);
    push_str(&mut out, "?expand=version");
    from_chars(&out)
}

/// `PUT` a page.
pub fn page_url(base: &str, page_id: &str) -> (r: String)
    ensures
        r@ == base@ + "/wiki/rest/api/content/"@ + page_id@,
{
    let mut out = to_chars(base);
    push_str(&mut out, "/wiki/rest/api/content/");
    push_str(&mut out, page_id);
    from_chars(&out)
}

/// Where the updated page can be seen.
pub fn page_link(base: &str, space_key: &str, page_id: &str) -> (r: String)
    ensures
        r@ == base@ + "/wiki/spaces/"@ + space_key@ + "/pages/"@ + page_id@,
{
    let mut out = to_chars(base);
    push_str(&mut out, "/wiki/spaces/");
    push_str(&mut out, space_key);
    push_str(&mut out, "/pages/");
    push_str(&mut out, page_id);
    from_chars(&out)
}

/// `GET` the attachments of a page with this file name.
pub fn attachment_list_url(base: &str, page_id: &str, filename: &str) -> (r: String)
    ensures
        r@ == base@ + "/wiki/rest/api/content/"@ + page_id@ + "/child/attachment?filename="@ + percent_text(
            encode_utf8(filename@),
        ),
{
    let f = percent_encode(filename);
    let mut out = to_chars(base);
    push_str(&mut out, "/wiki/rest/api/content/");
    push_str(&mut out, page_id);
    push_str(&mut out, "/child/attachment?filename=");
    push_str(&mut out, f.as_str());
    from_chars(&out)
}

/// Where an attachment is posted: the data of the attachment `existing`
/// when one of the same name exists, a new attachment otherwise.
pub open spec fn upload_url_text(base: Seq<char>, page_id: Seq<char>, existing: Option<Seq<char>>) -> Seq<char> {
    match existing {
        Some(id) => base + "/wiki/rest/api/content/"@ + page_id + "/child/attachment/"@ + id + "/data"@,
        None => base + "/wiki/rest/api/content/"@ + page_id + "/child/attachment"@,
    }
}

/// `POST` an attachment: its data when one of the same name exists, a new
/// attachment otherwise.
pub fn attachment_upload_url(base: &str, page_id: &str, existing: &Option<String>) -> (r: String)
    ensures
        r@ == upload_url_text(base@, page_id@, match existing {
            Some(id) => Some(id@),
            None => None,
        }),
{
    let mut out = to_chars(base);
    push_str(&mut out, "/wiki/rest/api/content/");
    push_str(&mut out, page_id);
    match existing {
        Some(id) => {
            push_str(&mut out, "/child/attachment/");
            push_str(&mut out, id.as_str());
            push_str(&mut out, "/data");
        },
        None => {
            push_str(&mut out, "/child/attachment");
        },
    }
    from_chars(&out)
}

// ---------------------------------------------------------------------------
// Attachment upload body.

/// The boundary between the parts of an upload.
pub const BOUNDARY: &'static str = "----ConfluenceUploadBoundary";

/// The head of the file part of an upload.
pub open spec fn multipart_head(filename: Seq<char>, mime: Seq<char>) -> Seq<char> {
    "--"@ + BOUNDARY@ + "\r\nContent-Disposition: form-data; name=\"file\"; filename=\""@ + filename
        + "\"\r\nContent-Type: "@ + mime + "\r\n\r\n"@
}

/// The end of an upload.
pub open spec fn multipart_tail() -> Seq<char> {
    "\r\n--"@ + BOUNDARY@ + "--\r\n"@
}

fn push_bytes(out: &mut Vec<u8>, data: &[u8])
    ensures
        final(out)@ == old(out)@ + data@,
{
    let n = data.len();
    for i in 0..n
        invariant
            n == data@.len(),
            out@ == old(out)@ + data@.take(i as int),
    {
        out.push(data[i]);
        assert(data@.take(i + 1) =~= data@.take(i as int).push(data@[i as int]));
    }
    assert(data@.take(n as int) =~= data@);
}

/// The multipart/form-data body that uploads `data` as file `filename`.
pub fn multipart_body(filename: &str, mime: &str, data: &[u8]) -> (r: Vec<u8>)
    ensures
        r@ == encode_utf8(multipart_head(filename@, mime@)) + data@ + encode_utf8(multipart_tail()),
{
    let mut head = to_chars("--");
    push_str(&mut head, BOUNDARY);
    push_str(&mut head, "\r\nContent-Disposition: form-data; name=\"file\"; filename=\"");
    push_str(&mut head, filename);
    push_str(&mut head, "\"\r\nContent-Type: ");
    push_str(&mut head, mime);
    push_str(&mut head, "\r\n\r\n");
    let head_s = from_chars(&head);
    let mut tail = to_chars("\r\n--");
    push_str(&mut tail, BOUNDARY);
    push_str(&mut tail, "--\r\n");
    let tail_s = from_chars(&tail);
    let mut out: Vec<u8> = Vec::new();
    push_bytes(&mut out, head_s.as_str().as_bytes());
    push_bytes(&mut out, data);
    push_bytes(&mut out, tail_s.as_str().as_bytes());
    assert(out@ =~= encode_utf8(multipart_head(filename@, mime@)) + data@ + encode_utf8(multipart_tail()));
    out
}

/// The `Content-Type` of an upload.
pub fn multipart_content_type() -> (r: String)
    ensures
        r@ == "multipart/form-data; boundary="@ + BOUNDARY@,
{
    let mut out = to_chars("multipart/form-data; boundary=");
    push_str(&mut out, BOUNDARY);
    from_chars(&out)
}

// ---------------------------------------------------------------------------
// Reading responses.

/// The id of the first result of a search or listing.
pub open spec fn first_result_id(resp: JsonValue) -> Option<Seq<char>> {
    str_of(member(element(member(resp, "results"@), 0), "id"@))
}

/// The id of the first result of a page search or attachment listing.
pub fn find_first_result_id(resp: &JsonValue) -> (r: Option<String>)
    ensures
        match first_result_id(*resp) {
            Some(id) => r matches Some(x) && x@ == id,
            None => r is None,
        },
{
    let results = member_exec(resp, "results");
    let first = match results {
        Some(v) => element_exec(v, 0),
        None => None,
    };
    let id = match first {
        Some(v) => member_exec(v, "id"),
        None => None,
    };
    str_exec(id)
}

/// The id of a created page, or the message for a response without one
/// (`resp_text` is the response as text).
pub fn created_page_id(resp: &JsonValue, resp_text: &str) -> (r: Result<String, String>)
    ensures
        match str_of(member(*resp, "id"@)) {
            Some(id) => r matches Ok(x) && x@ == id,
            None => r matches Err(m) && m@ == "Unexpected response creating page: "@ + resp_text@,
        },
{
    match str_exec(member_exec(resp, "id")) {
        Some(id) => Ok(id),
        None => {
            let mut out = to_chars("Unexpected response creating page: ");
            push_str(&mut out, resp_text);
            Err(from_chars(&out))
        },
    }
}

/// The version a page update carries: one more than the page's current
/// version number, or the message for a response without one
/// (`resp_text` is the response as text). A version that cannot grow is
/// refused in the same way.
pub fn next_version(current: &JsonValue, page_id: &str, resp_text: &str) -> (r: Result<u64, String>)
    ensures
        match u64_of(member(member(*current, "version"@), "number"@)) {
            Some(v) if v < u64::MAX => r == Ok::<u64, String>((v + 1) as u64),
            _ => r matches Err(m) && m@ == "Could not read version number of page "@ + page_id@ + " from response: "@
                + resp_text@,
        },
{
    let version = match member_exec(current, "version") {
        Some(v) => member_exec(v, "number"),
        None => None,
    };
    match u64_exec(version) {
        Some(v) if v < u64::MAX => Ok(v + 1),
        _ => {
            let mut out = to_chars("Could not read version number of page ");
            push_str(&mut out, page_id);
            push_str(&mut out, " from response: ");
            push_str(&mut out, resp_text);
            Err(from_chars(&out))
        },
    }
}

/// The (key, name) of each listed space that has a key, its name or empty.
pub open spec fn space_entries(items: Seq<JsonValue>) -> Seq<(Seq<char>, Seq<char>)>
    decreases items.len(),
{
    if items.len() == 0 {
        Seq::empty()
    } else {
        let rest = space_entries(items.drop_last());
        match str_of(member(items.last(), "key"@)) {
            Some(k) => rest.push(
                (
                    k,
                    match str_of(member(items.last(), "name"@)) {
                        Some(n) => n,
                        None => Seq::empty(),
                    },
                ),
            ),
            None => rest,
        }
    }
}

/// The spaces a listing response names, when it names any.
pub open spec fn listed_spaces(resp: JsonValue) -> Option<Seq<(Seq<char>, Seq<char>)>> {
    match member(resp, "results"@) {
        JsonValue::Array(items) => if space_entries(items@).len() > 0 {
            Some(space_entries(items@))
        } else {
            None
        },
        _ => None,
    }
}

/// Pairs of strings seen as pairs of character sequences.
pub open spec fn str_pairs(v: Seq<(String, String)>) -> Seq<(Seq<char>, Seq<char>)> {
    v.map_values(|p: (String, String)| (p.0@, p.1@))
}

/// The (key, name) of every space a listing response names; nothing when
/// it names none.
pub fn visible_spaces(resp: &JsonValue) -> (r: Option<Vec<(String, String)>>)
    ensures
        match listed_spaces(*resp) {
            Some(sp) => r matches Some(v) && str_pairs(v@) == sp,
            None => r is None,
        },
{
    let results = member_exec(resp, "results");
    match results {
        Some(JsonValue::Array(items)) => {
            let ghost iv = items@;
            let mut out: Vec<(String, String)> = Vec::new();
            let n = items.len();
            assert(str_pairs(out@) =~= Seq::<(Seq<char>, Seq<char>)>::empty());
            for i in 0..n
                invariant
                    n == items@.len(),
                    iv == items@,
                    str_pairs(out@) == space_entries(iv.take(i as int)),
            {
                assert(iv.take(i + 1).drop_last() =~= iv.take(i as int));
                assert(iv.take(i + 1).last() == items@[i as int]);
                let ghost before = str_pairs(out@);
                if let Some(key) = str_exec(member_exec(&items[i], "key")) {
                    let name = match str_exec(member_exec(&items[i], "name")) {
                        Some(n) => n,
                        None => String::new(),
                    };
                    let ghost entry = (key@, name@);
                    out.push((key, name));
                    assert(str_pairs(out@) =~= before.push(entry));
                }
            }
            assert(iv.take(n as int) =~= iv);
            if out.len() > 0 {
                Some(out)
            } else {
                None
            }
        },
        _ => None,
    }
}

// ---------------------------------------------------------------------------
// Error messages.

/// The first `n` characters of `s`, or all of them.
pub open spec fn first_chars(s: Seq<char>, n: int) -> Seq<char> {
    if s.len() <= n {
        s
    } else {
        s.take(n)
    }
}

/// Confluence's own explanation of a failure: the `message` of the JSON
/// response body, else the title of its first error, else the first 400
/// characters of the body.
pub open spec fn error_detail(json: Option<JsonValue>, body: Seq<char>) -> Seq<char> {
    let from_json = match json {
        Some(v) => match str_of(member(v, "message"@)) {
            Some(m) => Some(m),
            None => str_of(member(element(member(v, "errors"@), 0), "title"@)),
        },
        None => None,
    };
    match from_json {
        Some(d) => d,
        None => first_chars(body, 400),
    }
}

/// How a request failed: an HTTP status with its URL and response body; or
/// a transport failure with its message.
pub enum ApiFailure {
    Status { code: u16, url: String, body: String },
    Transport(String),
}

/// The hint shown for a status.
pub open spec fn status_hint(code: u16) -> Seq<char> {
    if code == 401 {
        "\n  hint: check CONFLUENCE_USER (your Atlassian account email) and CONFLUENCE_TOKEN (an API token from https://id.atlassian.com/manage-profile/security/api-tokens)"@
    } else if code == 403 {
        "\n  hint: authenticated, but this account lacks permission on the space"@
    } else if code == 404 {
        "\n  hint: a 404 here usually means the space or page does not exist, not that the URL is wrong"@
    } else {
        Seq::empty()
    }
}

/// The message of a failed operation `op`.
pub open spec fn api_error_text(op: Seq<char>, failure: ApiFailure) -> Seq<char> {
    match failure {
        ApiFailure::Status { code, url, body } => op + " failed (HTTP "@ + decimal(code as nat) + " on "@ + url@
            + ")\n  "@ + error_detail(json_document(body@), body@) + status_hint(code),
        ApiFailure::Transport(m) => op + " failed: "@ + m@,
    }
}

fn error_detail_exec(json: &Option<JsonValue>, body: &str) -> (r: Vec<char>)
    ensures
        r@ == error_detail(*json, body@),
{
    let from_json = match json {
        Some(v) => match str_exec(member_exec(v, "message")) {
            Some(m) => Some(m),
            None => {
                let errors = member_exec(v, "errors");
                let first = match errors {
                    Some(e) => element_exec(e, 0),
                    None => None,
                };
                let title = match first {
                    Some(f) => member_exec(f, "title"),
                    None => None,
                };
                str_exec(title)
            },
        },
        None => None,
    };
    match from_json {
        Some(d) => to_chars(d.as_str()),
        None => {
            let b = to_chars(body);
            if b.len() <= 400 {
                b
            } else {
                let mut r: Vec<char> = Vec::new();
                for i in 0..400
                    invariant
                        b@.len() > 400,
                        r@ == b@.take(i as int),
                {
                    r.push(b[i]);
                    assert(b@.take(i + 1) =~= b@.take(i as int).push(b@[i as int]));
                }
                r
            }
        },
    }
}

/// Turn a failed request into a message that names the operation and
/// carries Confluence's own explanation, read from the response body when
/// it is JSON, with a hint for the statuses that have a usual cause.
pub fn api_error(op: &str, failure: &ApiFailure) -> (r: String)
    ensures
        r@ == api_error_text(op@, *failure),
{
    let mut out = to_chars(op);
    match failure {
        ApiFailure::Status { code, url, body } => {
            push_str(&mut out, " failed (HTTP ");
            push_decimal(&mut out, *code as u64);
            push_str(&mut out, " on ");
            push_str(&mut out, url.as_str());
            push_str(&mut out, ")\n  ");
            let json = parse_json(body.as_str());
            let detail = error_detail_exec(&json, body.as_str());
            push_all(&mut out, &detail);
            if *code == 401 {
                push_str(
                    &mut out,
                    "\n  hint: check CONFLUENCE_USER (your Atlassian account email) and CONFLUENCE_TOKEN (an API token from https://id.atlassian.com/manage-profile/security/api-tokens)",
                );
            } else if *code == 403 {
                push_str(&mut out, "\n  hint: authenticated, but this account lacks permission on the space");
            } else if *code == 404 {
                push_str(&mut out, "\n  hint: a 404 here usually means the space or page does not exist, not that the URL is wrong");
            }
        },
        ApiFailure::Transport(m) => {
            push_str(&mut out, " failed: ");
            push_str(&mut out, m.as_str());
        },
    }
    from_chars(&out)
}

/// The operations whose failures are reported.
pub enum Operation {
    LookUpSpace { space_key: String },
    SearchPage { title: String },
    CreatePage { title: String, space_key: String },
    ListAttachments { page_id: String },
    UploadAttachment { filename: String },
    ReadVersion { page_id: String },
    UpdateBody { page_id: String },
}

/// The name of a space lookup.
pub open spec fn look_up_space_text(space_key: Seq<char>) -> Seq<char> {
    "Looking up space "@ + debug_text(space_key)
}

/// The name of a page search.
pub open spec fn search_page_text(title: Seq<char>) -> Seq<char> {
    "Searching for page "@ + debug_text(title)
}

/// The name of a page creation.
pub open spec fn create_page_text(title: Seq<char>, space_key: Seq<char>) -> Seq<char> {
    "Creating page "@ + debug_text(title) + " in space "@ + debug_text(space_key)
}

/// The name of an attachment listing.
pub open spec fn list_attachments_text(page_id: Seq<char>) -> Seq<char> {
    "Listing attachments of page "@ + page_id
}

/// The name of an attachment upload.
pub open spec fn upload_attachment_text(filename: Seq<char>) -> Seq<char> {
    "Uploading attachment "@ + debug_text(filename)
}

/// The name of a version read.
pub open spec fn read_version_text(page_id: Seq<char>) -> Seq<char> {
    "Reading version of page "@ + page_id
}

/// The name of a body update.
pub open spec fn update_body_text(page_id: Seq<char>) -> Seq<char> {
    "Updating body of page "@ + page_id
}

/// How an operation is named in messages.
pub open spec fn operation_text(op: Operation) -> Seq<char> {
    match op {
        Operation::LookUpSpace { space_key } => look_up_space_text(space_key@),
        Operation::SearchPage { title } => search_page_text(title@),
        Operation::CreatePage { title, space_key } => create_page_text(title@, space_key@),
        Operation::ListAttachments { page_id } => list_attachments_text(page_id@),
        Operation::UploadAttachment { filename } => upload_attachment_text(filename@),
        Operation::ReadVersion { page_id } => read_version_text(page_id@),
        Operation::UpdateBody { page_id } => update_body_text(page_id@),
    }
}

impl Operation {
    /// How the operation is named in messages.
    pub fn label(&self) -> (r: String)
        ensures
            r@ == operation_text(*self),
    {
        let mut out: Vec<char> = Vec::new();
        match self {
            Operation::LookUpSpace { space_key } => {
                push_str(&mut out, "Looking up space ");
                push_str(&mut out, debug_quoted(space_key.as_str()).as_str());
            },
            Operation::SearchPage { title } => {
                push_str(&mut out, "Searching for page ");
                push_str(&mut out, debug_quoted(title.as_str()).as_str());
            },
            Operation::CreatePage { title, space_key } => {
                push_str(&mut out, "Creating page ");
                push_str(&mut out, debug_quoted(title.as_str()).as_str());
                push_str(&mut out, " in space ");
                push_str(&mut out, debug_quoted(space_key.as_str()).as_str());
            },
            Operation::ListAttachments { page_id } => {
                push_str(&mut out, "Listing attachments of page ");
                push_str(&mut out, page_id.as_str());
            },
            Operation::UploadAttachment { filename } => {
                push_str(&mut out, "Uploading attachment ");
                push_str(&mut out, debug_quoted(filename.as_str()).as_str());
            },
            Operation::ReadVersion { page_id } => {
                push_str(&mut out, "Reading version of page ");
                push_str(&mut out, page_id.as_str());
            },
            Operation::UpdateBody { page_id } => {
                push_str(&mut out, "Updating body of page ");
                push_str(&mut out, page_id.as_str());
            },
        }
        from_chars(&out)
    }
}

// ---------------------------------------------------------------------------
// The unknown-space message.

/// The note on how personal spaces are keyed.
pub const SPACE_NOTE: &'static str = ".\n  Note that a personal space is keyed \"~<accountId>\" (e.g. \"~712020abc…\"), not by your username.";

/// Whether a space matches the key that was looked for.
pub open spec fn is_hit(sp: (Seq<char>, Seq<char>), needle: Seq<char>) -> bool {
    contains_seq(lowercase(sp.0), needle) || contains_seq(lowercase(sp.1), needle)
}

/// The spaces that match (or, for `hit` false, do not match), in order.
pub open spec fn with_hit(sp: Seq<(Seq<char>, Seq<char>)>, needle: Seq<char>, hit: bool) -> Seq<(Seq<char>, Seq<char>)>
    decreases sp.len(),
{
    if sp.len() == 0 {
        Seq::empty()
    } else if is_hit(sp.last(), needle) == hit {
        with_hit(sp.drop_last(), needle, hit).push(sp.last())
    } else {
        with_hit(sp.drop_last(), needle, hit)
    }
}

/// The spaces that match first, each group in its order.
pub open spec fn hits_first(sp: Seq<(Seq<char>, Seq<char>)>, needle: Seq<char>) -> Seq<(Seq<char>, Seq<char>)> {
    with_hit(sp, needle, true) + with_hit(sp, needle, false)
}

/// `s` padded with spaces to `width` characters.
pub open spec fn padded(s: Seq<char>, width: int) -> Seq<char> {
    if s.len() >= width {
        s
    } else {
        s + Seq::new((width - s.len()) as nat, |i: int| ' ')
    }
}

/// The line of one space: its key padded to 44 characters, then its name.
pub open spec fn space_line(sp: (Seq<char>, Seq<char>)) -> Seq<char> {
    "\n    "@ + padded(sp.0, 44) + seq![' '] + sp.1
}

/// The lines of the spaces, in order.
pub open spec fn space_lines(sp: Seq<(Seq<char>, Seq<char>)>) -> Seq<char>
    decreases sp.len(),
{
    if sp.len() == 0 {
        Seq::empty()
    } else {
        space_lines(sp.drop_last()) + space_line(sp.last())
    }
}

/// The message for a space key that does not exist: with, when the
/// visible spaces are known, up to 25 of them, those matching the key first.
pub open spec fn missing_space_text(key: Seq<char>, user: Seq<char>, spaces: Option<Seq<(Seq<char>, Seq<char>)>>) -> Seq<char> {
    let head = "Confluence space key "@ + debug_text(key) + " does not exist, or is not visible to "@ + user + SPACE_NOTE@;
    match spaces {
        None => head,
        Some(sp) => {
            let sorted = hits_first(sp, lowercase(trim_start_tildes(key)));
            let shown = if sorted.len() > 25 {
                sorted.take(25)
            } else {
                sorted
            };
            let more = if sorted.len() > 25 {
                "\n    … and "@ + decimal((sorted.len() - 25) as nat) + " more"@
            } else {
                Seq::empty()
            };
            head + "\n  Spaces you can see:"@ + space_lines(shown) + more
        },
    }
}

fn lower_chars(s: &String) -> (r: Vec<char>)
    ensures
        r@ == lowercase(s@),
{
    let l = to_lower(s.as_str());
    to_chars(l.as_str())
}

fn is_hit_exec(sp: &(String, String), needle: &Vec<char>) -> (r: bool)
    ensures
        r == is_hit((sp.0@, sp.1@), needle@),
{
    let k = lower_chars(&sp.0);
    if find_chars(&k, needle).is_some() {
        return true;
    }
    let n = lower_chars(&sp.1);
    find_chars(&n, needle).is_some()
}

fn with_hit_exec(sp: &Vec<(String, String)>, needle: &Vec<char>, hit: bool, out: &mut Vec<(String, String)>)
    ensures
        str_pairs(final(out)@) == str_pairs(old(out)@) + with_hit(str_pairs(sp@), needle@, hit),
{
    let ghost start = str_pairs(out@);
    let ghost sv = str_pairs(sp@);
    let n = sp.len();
    for i in 0..n
        invariant
            n == sp@.len(),
            sv == str_pairs(sp@),
            str_pairs(out@) == start + with_hit(sv.take(i as int), needle@, hit),
    {
        assert(sv.take(i + 1).drop_last() =~= sv.take(i as int));
        assert(sv.take(i + 1).last() == (sp@[i as int].0@, sp@[i as int].1@));
        let ghost before = str_pairs(out@);
        if is_hit_exec(&sp[i], needle) == hit {
            out.push((sp[i].0.clone(), sp[i].1.clone()));
            assert(str_pairs(out@) =~= before.push(sv[i as int]));
        }
    }
    assert(sv.take(n as int) =~= sv);
}

/// The message for a space key that does not exist, or is not visible to
/// `user`; `spaces` holds the visible spaces when they could be listed.
pub fn missing_space_message(space_key: &str, user: &str, spaces: &Option<Vec<(String, String)>>) -> (r: String)
    ensures
        r@ == missing_space_text(space_key@, user@, match spaces {
            Some(v) => Some(str_pairs(v@)),
            None => None,
        }),
{
    let mut out = to_chars("Confluence space key ");
    push_str(&mut out, debug_quoted(space_key).as_str());
    push_str(&mut out, " does not exist, or is not visible to ");
    push_str(&mut out, user);
    push_str(&mut out, SPACE_NOTE);
    if let Some(sp) = spaces {
        let trimmed = from_chars(&trim_start_tildes_exec(&to_chars(space_key)));
        let needle = lower_chars(&trimmed);
        let mut sorted: Vec<(String, String)> = Vec::new();
        assert(str_pairs(sorted@) =~= Seq::<(Seq<char>, Seq<char>)>::empty());
        with_hit_exec(sp, &needle, true, &mut sorted);
        with_hit_exec(sp, &needle, false, &mut sorted);
        let ghost sv = str_pairs(sorted@);
        push_str(&mut out, "\n  Spaces you can see:");
        let total = sorted.len();
        let shown = if total > 25 {
            25
        } else {
            total
        };
        let ghost head = out@;
        for i in 0..shown
            invariant
                shown <= total,
                total == sorted@.len(),
                sv == str_pairs(sorted@),
                out@ == head + space_lines(sv.take(i as int)),
        {
            assert(sv.take(i + 1).drop_last() =~= sv.take(i as int));
            assert(sv[i as int] == (sorted@[i as int].0@, sorted@[i as int].1@));
            let ghost before = out@;
            push_str(&mut out, "\n    ");
            let key = to_chars(sorted[i].0.as_str());
            push_all(&mut out, &key);
            if key.len() < 44 {
                let mut k = key.len();
                assert(out@ =~= before + "\n    "@ + key@ + Seq::new((k - key@.len()) as nat, |j: int| ' '));
                while k < 44
                    invariant
                        key@ == sv[i as int].0,
                        key@.len() <= k <= 44,
                        out@ == before + "\n    "@ + key@ + Seq::new((k - key@.len()) as nat, |j: int| ' '),
                    decreases 44 - k,
                {
                    out.push(' ');
                    assert(out@ =~= before + "\n    "@ + key@ + Seq::new((k + 1 - key@.len()) as nat, |j: int| ' '));
                    k += 1;
                }
            }
            assert(out@ =~= before + "\n    "@ + padded(key@, 44));
            out.push(' ');
            push_str(&mut out, sorted[i].1.as_str());
            assert(out@ =~= before + space_line(sv[i as int]));
        }
        assert(sv.take(shown as int) =~= if sv.len() > 25 {
            sv.take(25)
        } else {
            sv
        });
        if total > 25 {
            push_str(&mut out, "\n    … and ");
            push_decimal(&mut out, (total - 25) as u64);
            push_str(&mut out, " more");
        }
    }
    from_chars(&out)
}

// ---------------------------------------------------------------------------
// The page body.

/// Before the slide count of the animation block.
pub const PLAY_HEAD: &'static str = "<ac:structured-macro ac:name=\"expand\">\n  <ac:parameter ac:name=\"title\">▶ Play animation (";

/// Between a slide count and the video's file name.
pub const PLAY_MEDIA: &'static str = " slides)</ac:parameter>\n  <ac:rich-text-body>\n<ac:structured-macro ac:name=\"multimedia\">\n  <ac:parameter ac:name=\"name\"><ri:attachment ri:filename=\"";

/// After a video's file name: the end of its block.
pub const MEDIA_TAIL: &'static str = "\" /></ac:parameter>\n  <ac:parameter ac:name=\"autostart\">false</ac:parameter>\n</ac:structured-macro>\n  </ac:rich-text-body>\n</ac:structured-macro>";

/// Before the number of a section block.
pub const SECTION_HEAD: &'static str = "\n<ac:structured-macro ac:name=\"expand\">\n  <ac:parameter ac:name=\"title\">▶ Animation section ";

/// Between a section number and its video's file name.
pub const SECTION_MEDIA: &'static str = " </ac:parameter>\n  <ac:rich-text-body>\n<ac:structured-macro ac:name=\"multimedia\">\n  <ac:parameter ac:name=\"name\"><ri:attachment ri:filename=\"";

/// Before a slide's file name.
pub const IMAGE_HEAD: &'static str = "<ac:image><ri:attachment ri:filename=\"";

/// After a slide's file name.
pub const IMAGE_TAIL: &'static str = "\" /></ac:image>";

/// Before the slide count of the browsing block.
pub const BROWSE_HEAD: &'static str = "\n<ac:structured-macro ac:name=\"expand\">\n  <ac:parameter ac:name=\"title\">Browse slides (";

/// Between the slide count and the slides of the browsing block.
pub const BROWSE_BODY: &'static str = " slides)</ac:parameter>\n  <ac:rich-text-body>\n";

/// After the slides of the browsing block.
pub const BROWSE_TAIL: &'static str = "\n  </ac:rich-text-body>\n</ac:structured-macro>";

/// The body of a page without slides.
pub const NO_SLIDES: &'static str = "<p>No slides were generated.</p>";

/// The collapsed block of section `n` (counted from 1) playing its video.
pub open spec fn section_block(n: nat, name: Seq<char>) -> Seq<char> {
    SECTION_HEAD@ + decimal(n) + SECTION_MEDIA@ + name + MEDIA_TAIL@
}

/// The blocks of all sections, in order.
pub open spec fn section_blocks(names: Seq<Seq<char>>) -> Seq<char>
    decreases names.len(),
{
    if names.len() == 0 {
        Seq::empty()
    } else {
        section_blocks(names.drop_last()) + section_block(names.len(), names.last())
    }
}

/// The image tag of one slide.
pub open spec fn image_tag(name: Seq<char>) -> Seq<char> {
    IMAGE_HEAD@ + name + IMAGE_TAIL@
}

/// The image tags of every slide after the first, one per line.
pub open spec fn other_images(files: Seq<Seq<char>>) -> Seq<char> {
    join(Seq::new((files.len() - 1) as nat, |i: int| image_tag(files[i + 1])), "\n"@)
}

/// The page body: a collapsed block playing the whole animation and one per
/// section video, then the first slide, shown on the page, then, when there
/// are more slides, a collapsed block holding the others, so that the media
/// viewer can page through all of them.
pub open spec fn page_body(files: Seq<Seq<char>>, mp4: Seq<char>, sections: Seq<Seq<char>>) -> Seq<char> {
    if files.len() == 0 {
        NO_SLIDES@
    } else {
        PLAY_HEAD@ + decimal(files.len()) + PLAY_MEDIA@ + mp4 + MEDIA_TAIL@ + section_blocks(sections) + "\n"@
            + image_tag(files[0]) + if files.len() > 1 {
            BROWSE_HEAD@ + decimal((files.len() - 1) as nat) + BROWSE_BODY@ + other_images(files) + BROWSE_TAIL@
        } else {
            Seq::empty()
        }
    }
}

/// Build the storage-format page body from the slide file names, the file
/// name of the whole animation's video and those of the section videos.
/// The page shows only the first slide; the others sit in a collapsed
/// block, which keeps them in the page content for the media viewer's
/// Prev / Next without stacking them down the page.
pub fn build_page_body(filenames: &Vec<String>, mp4_filename: &str, section_mp4_filenames: &Vec<String>) -> (r: String)
    ensures
        r@ == page_body(filenames@.map_values(|f: String| f@), mp4_filename@, section_mp4_filenames@.map_values(|f: String| f@)),
{
    let ghost fv = filenames@.map_values(|f: String| f@);
    let ghost sv = section_mp4_filenames@.map_values(|f: String| f@);
    let n = filenames.len();
    if n == 0 {
        return String::from_str(NO_SLIDES);
    }
    let mut out = to_chars(PLAY_HEAD);
    push_decimal(&mut out, n as u64);
    push_str(&mut out, PLAY_MEDIA);
    push_str(&mut out, mp4_filename);
    push_str(&mut out, MEDIA_TAIL);
    let ghost head = out@;
    let m = section_mp4_filenames.len();
    for i in 0..m
        invariant
            m == section_mp4_filenames@.len(),
            sv == section_mp4_filenames@.map_values(|f: String| f@),
            out@ == head + section_blocks(sv.take(i as int)),
    {
        assert(sv.take(i + 1).drop_last() =~= sv.take(i as int));
        assert(sv.take(i + 1).len() == i + 1);
        push_str(&mut out, SECTION_HEAD);
        push_decimal(&mut out, i as u64 + 1);
        push_str(&mut out, SECTION_MEDIA);
        push_str(&mut out, section_mp4_filenames[i].as_str());
        push_str(&mut out, MEDIA_TAIL);
    }
    assert(sv.take(m as int) =~= sv);
    push_str(&mut out, "\n");
    push_str(&mut out, IMAGE_HEAD);
    push_str(&mut out, filenames[0].as_str());
    push_str(&mut out, IMAGE_TAIL);
    if n == 1 {
        assert(out@ =~= page_body(fv, mp4_filename@, sv));
        return from_chars(&out);
    }
    push_str(&mut out, BROWSE_HEAD);
    push_decimal(&mut out, (n - 1) as u64);
    push_str(&mut out, BROWSE_BODY);
    let ghost images = Seq::new((fv.len() - 1) as nat, |i: int| image_tag(fv[i + 1]));
    let ghost before = out@;
    for i in 1..n
        invariant
            n == filenames@.len(),
            n > 1,
            fv == filenames@.map_values(|f: String| f@),
            images == Seq::new((fv.len() - 1) as nat, |i: int| image_tag(fv[i + 1])),
            out@ == before + join(images.take(i - 1), "\n"@),
    {
        assert(images.take(i as int).drop_last() =~= images.take(i - 1));
        if i > 1 {
            push_str(&mut out, "\n");
        } else {
            assert(images.take(1) =~= seq![images[0]]);
        }
        push_str(&mut out, IMAGE_HEAD);
        push_str(&mut out, filenames[i].as_str());
        push_str(&mut out, IMAGE_TAIL);
    }
    assert(images.take(n - 1) =~= images);
    push_str(&mut out, BROWSE_TAIL);
    assert(out@ =~= page_body(fv, mp4_filename@, sv));
    from_chars(&out)
}

// ---------------------------------------------------------------------------
// Deciding on each answer.

/// What the space lookup found.
#[derive(Debug)]
pub enum SpaceCheck {
    /// The space exists.
    Exists,
    /// The space does not exist or is not visible: list the visible spaces
    /// for the message.
    Missing,
    /// The lookup failed otherwise; its message.
    Failed(String),
}

/// The decision on the answer to the space lookup: a 404 means the space is
/// missing, any other failure ends the push.
pub fn after_space_lookup(answer: &Result<(), ApiFailure>, space_key: &str) -> (r: SpaceCheck)
    ensures
        match answer {
            Ok(_) => r is Exists,
            Err(ApiFailure::Status { code, .. }) if *code == 404 => r is Missing,
            Err(f) => r matches SpaceCheck::Failed(m) && m@ == api_error_text(look_up_space_text(space_key@), *f),
        },
{
    match answer {
        Ok(_) => SpaceCheck::Exists,
        Err(ApiFailure::Status { code, .. }) if *code == 404 => SpaceCheck::Missing,
        Err(f) => {
            let op = Operation::LookUpSpace { space_key: space_key.to_owned() };
            SpaceCheck::Failed(api_error(op.label().as_str(), f))
        },
    }
}

/// The decision on the answer to the page search: the id of the page
/// found; nothing, so the page is created, when none is found or the search
/// answers 404; or the message of another failure.
pub fn after_page_search(answer: &Result<JsonValue, ApiFailure>, title: &str) -> (r: Result<Option<String>, String>)
    ensures
        match answer {
            Ok(v) => match first_result_id(*v) {
                Some(id) => r matches Ok(Some(x)) && x@ == id,
                None => r matches Ok(None),
            },
            Err(ApiFailure::Status { code, .. }) if *code == 404 => r matches Ok(None),
            Err(f) => r matches Err(m) && m@ == api_error_text(search_page_text(title@), *f),
        },
{
    match answer {
        Ok(v) => Ok(find_first_result_id(v)),
        Err(ApiFailure::Status { code, .. }) if *code == 404 => Ok(None),
        Err(f) => {
            let op = Operation::SearchPage { title: title.to_owned() };
            Err(api_error(op.label().as_str(), f))
        },
    }
}

/// The decision on the answer to the page creation (the response and its
/// text): the new page's id, or the message of a failure or of a response
/// without an id.
pub fn after_page_creation(answer: &Result<(JsonValue, String), ApiFailure>, title: &str, space_key: &str) -> (r: Result<
    String,
    String,
>)
    ensures
        match answer {
            Ok((v, text)) => match str_of(member(*v, "id"@)) {
                Some(id) => r matches Ok(x) && x@ == id,
                None => r matches Err(m) && m@ == "Unexpected response creating page: "@ + text@,
            },
            Err(f) => r matches Err(m) && m@ == api_error_text(create_page_text(title@, space_key@), *f),
        },
{
    match answer {
        Ok((v, text)) => created_page_id(v, text.as_str()),
        Err(f) => {
            let op = Operation::CreatePage { title: title.to_owned(), space_key: space_key.to_owned() };
            Err(api_error(op.label().as_str(), f))
        },
    }
}

/// The decision on the answer to the attachment listing: where to post the
/// attachment, or the message of the failure.
pub fn after_attachment_listing(answer: &Result<JsonValue, ApiFailure>, base: &str, page_id: &str) -> (r: Result<
    String,
    String,
>)
    ensures
        match answer {
            Ok(v) => r matches Ok(url) && url@ == upload_url_text(base@, page_id@, first_result_id(*v)),
            Err(f) => r matches Err(m) && m@ == api_error_text(list_attachments_text(page_id@), *f),
        },
{
    match answer {
        Ok(v) => {
            let existing = find_first_result_id(v);
            Ok(attachment_upload_url(base, page_id, &existing))
        },
        Err(f) => {
            let op = Operation::ListAttachments { page_id: page_id.to_owned() };
            Err(api_error(op.label().as_str(), f))
        },
    }
}

/// The decision on the answer to an attachment upload.
pub fn after_upload(answer: &Result<(), ApiFailure>, filename: &str) -> (r: Result<(), String>)
    ensures
        match answer {
            Ok(_) => r is Ok,
            Err(f) => r matches Err(m) && m@ == api_error_text(upload_attachment_text(filename@), *f),
        },
{
    match answer {
        Ok(_) => Ok(()),
        Err(f) => {
            let op = Operation::UploadAttachment { filename: filename.to_owned() };
            Err(api_error(op.label().as_str(), f))
        },
    }
}

/// The decision on the answer to the version read (the response and its
/// text): the version the update carries, or the message of the failure.
pub fn after_version_read(answer: &Result<(JsonValue, String), ApiFailure>, page_id: &str) -> (r: Result<u64, String>)
    ensures
        match answer {
            Ok((v, text)) => match u64_of(member(member(*v, "version"@), "number"@)) {
                Some(n) if n < u64::MAX => r == Ok::<u64, String>((n + 1) as u64),
                _ => r matches Err(m) && m@ == "Could not read version number of page "@ + page_id@
                    + " from response: "@ + text@,
            },
            Err(f) => r matches Err(m) && m@ == api_error_text(read_version_text(page_id@), *f),
        },
{
    match answer {
        Ok((v, text)) => next_version(v, page_id, text.as_str()),
        Err(f) => {
            let op = Operation::ReadVersion { page_id: page_id.to_owned() };
            Err(api_error(op.label().as_str(), f))
        },
    }
}

/// The decision on the answer to the body update.
pub fn after_body_update(answer: &Result<(), ApiFailure>, page_id: &str) -> (r: Result<(), String>)
    ensures
        match answer {
            Ok(_) => r is Ok,
            Err(f) => r matches Err(m) && m@ == api_error_text(update_body_text(page_id@), *f),
        },
{
    match answer {
        Ok(_) => Ok(()),
        Err(f) => {
            let op = Operation::UpdateBody { page_id: page_id.to_owned() };
            Err(api_error(op.label().as_str(), f))
        },
    }
}

} // verus!
