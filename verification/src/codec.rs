//! Content codec: turns each body variant into its exact bytes (or multipart
//! parts) and header directives, and decodes a response body from its headers
//! with a never-failing fallback to lossy text.
use vstd::prelude::*;
use vstd::slice::slice_to_vec;
use vstd::string::StrSliceExecFns;
use vstd::string::StringExecFns;
use vstd::utf8::{decode_utf8, encode_utf8, valid_utf8};

use crate::encoding::{form_encode, form_urlencode, pairs_bytes};
use crate::error::InterceptorError;
use crate::interop::ContentType;
use crate::json::{json_from_slice, json_parse_of, json_text_of, json_to_string, json_within_parse_depth};
use crate::strutil::{spec_starts_with, str_eq, str_starts_with};

verus! {

/// View of a header mapping: names and value lists as character sequences.
pub open spec fn hview(h: Seq<(String, Vec<String>)>) -> Seq<(Seq<char>, Seq<Seq<char>>)> {
    h.map_values(|e: (String, Vec<String>)| (e.0@, e.1@.map_values(|v: String| v@)))
}

/// View of an optional string.
pub open spec fn opt_view(o: Option<String>) -> Option<Seq<char>> {
    match o {
        Some(s) => Some(s@),
        None => None,
    }
}

/// What `String::from_utf8_lossy` returns on bytes that are not valid UTF-8.
pub uninterp spec fn utf8_lossy_raw(b: Seq<u8>) -> Seq<char>;

/// The lossy text decoding of arbitrary bytes: exact on valid UTF-8, opaque
/// (replacement-character substitution) otherwise.
pub open spec fn utf8_lossy_spec(b: Seq<u8>) -> Seq<char> {
    if valid_utf8(b) {
        decode_utf8(b)
    } else {
        utf8_lossy_raw(b)
    }
}

/// Relies on String::from_utf8_lossy: valid UTF-8 decodes exactly; invalid
/// sequences are replaced, never an error.
#[verifier::external_body]
fn utf8_lossy(b: &[u8]) -> (r: String)
    ensures
        valid_utf8(b@) ==> r@ == decode_utf8(b@),
        !valid_utf8(b@) ==> r@ == utf8_lossy_raw(b@),
{
    String::from_utf8_lossy(b).into_owned()
}

/// What signature sniffing recognizes in the given bytes: the detected file
/// extension and MIME type, or nothing.
pub uninterp spec fn sniff_of(b: Seq<u8>) -> Option<(Seq<char>, Seq<char>)>;

/// Relies on infer::get: magic-byte matching is a function of the bytes alone.
#[verifier::external_body]
fn sniff(b: &[u8]) -> (r: Option<(String, String)>)
    ensures
        match r {
            Some(em) => sniff_of(b@) == Some((em.0@, em.1@)),
            None => sniff_of(b@) is None,
        },
{
    infer::get(b).map(|t| (t.extension().to_owned(), t.mime_type().to_owned()))
}

/// Index of the last `/` in `s`, or -1 when there is none.
pub open spec fn last_slash(s: Seq<char>) -> int
    decreases s.len(),
{
    if s.len() == 0 {
        -1
    } else if s[s.len() - 1] == '/' {
        s.len() - 1
    } else {
        last_slash(s.drop_last())
    }
}

/// The base name of a supplied filename: everything after the last `/`, so
/// that no directory component reaches an outgoing header.
pub open spec fn sanitize_spec(s: Seq<char>) -> Seq<char> {
    s.subrange(last_slash(s) + 1, s.len() as int)
}

proof fn lemma_last_slash_at(s: Seq<char>, i: int)
    requires
        -1 <= i < s.len(),
        forall|j: int| i < j < s.len() ==> s[j] != '/',
        i == -1 || s[i] == '/',
    ensures
        last_slash(s) == i,
    decreases s.len(),
{
    if s.len() == 0 {
    } else if s[s.len() - 1] == '/' {
    } else {
        lemma_last_slash_at(s.drop_last(), if i == s.len() - 1 {
            -1
        } else {
            i
        });
    }
}

/// Strip any directory component from a filename.
pub fn sanitize_filename(s: &str) -> (r: String)
    ensures
        r@ == sanitize_spec(s@),
{
    let len = s.unicode_len();
    let mut i: usize = len;
    while i > 0
        invariant
            len == s@.len(),
            i <= len,
            forall|j: int| i <= j < len ==> s@[j] != '/',
        decreases i,
    {
        if s.get_char(i - 1) == '/' {
            proof {
                lemma_last_slash_at(s@, i - 1);
            }
            let sub = s.substring_char(i, len);
            return sub.to_owned();
        }
        i -= 1;
    }
    proof {
        lemma_last_slash_at(s@, -1);
        assert(s@.subrange(0, len as int) =~= s@);
    }
    s.to_owned()
}

/// The body handed to the transfer session: plain bytes, or multipart parts
/// that the session encodes itself.
pub enum Payload {
    Bytes { data: Vec<u8> },
    Multipart { parts: Vec<FormPart> },
}

/// One part of a multipart form body.
pub struct FormPart {
    pub name: String,
    pub filename: Option<String>,
    pub content_type: Option<String>,
    pub data: Vec<u8>,
}

/// View of one multipart part.
pub open spec fn part_view(p: FormPart) -> (
    Seq<char>,
    Option<Seq<char>>,
    Option<Seq<char>>,
    Seq<u8>,
) {
    (p.name@, opt_view(p.filename), opt_view(p.content_type), p.data@)
}

/// The part one form field encodes to: a recognized file signature makes a
/// file part with a synthesized name and the detected type; anything else is
/// an opaque data part.
pub open spec fn form_part_spec(e: (String, Vec<u8>)) -> (
    Seq<char>,
    Option<Seq<char>>,
    Option<Seq<char>>,
    Seq<u8>,
) {
    match sniff_of(e.1@) {
        Some(em) => (e.0@, Some("file."@ + em.0), Some(em.1), e.1@),
        None => (e.0@, None::<Seq<char>>, None::<Seq<char>>, e.1@),
    }
}

/// View of a multipart part list.
pub open spec fn parts_view(parts: Seq<FormPart>) -> Seq<
    (Seq<char>, Option<Seq<char>>, Option<Seq<char>>, Seq<u8>),
> {
    parts.map_values(|p: FormPart| part_view(p))
}

/// The parts a form field list encodes to.
pub open spec fn form_parts_spec(entries: Seq<(String, Vec<u8>)>) -> Seq<
    (Seq<char>, Option<Seq<char>>, Option<Seq<char>>, Seq<u8>),
> {
    entries.map_values(|e: (String, Vec<u8>)| form_part_spec(e))
}

/// The `Content-Disposition` value announcing a sanitized binary filename.
pub open spec fn disposition_spec(name: Seq<char>) -> Seq<char> {
    "form-data; name=\"file\"; filename=\""@ + name + seq!['"']
}

/// The header directives each content kind sets.
pub open spec fn content_headers_spec(c: ContentType) -> Seq<(Seq<char>, Seq<Seq<char>>)> {
    match c {
        ContentType::Text { .. } => seq![("Content-Type"@, seq!["text/plain"@])],
        ContentType::Json { .. } => seq![("Content-Type"@, seq!["application/json"@])],
        ContentType::UrlEncoded { .. } => seq![
            ("Content-Type"@, seq!["application/x-www-form-urlencoded"@]),
        ],
        ContentType::Form { .. } => Seq::empty(),
        ContentType::Binary { media_type, filename, .. } => {
            let ct = match media_type {
                Some(m) => m@,
                None => "application/octet-stream"@,
            };
            match filename {
                Some(f) => seq![("Content-Type"@, seq![ct])] + seq![
                    ("Content-Disposition"@, seq![disposition_spec(sanitize_spec(f@))]),
                ],
                None => seq![("Content-Type"@, seq![ct])],
            }
        },
    }
}

/// The body bytes each non-multipart content kind encodes to.
pub open spec fn body_bytes_spec(c: ContentType) -> Seq<u8> {
    match c {
        ContentType::Text { content } => encode_utf8(content@),
        ContentType::Json { content } => encode_utf8(json_text_of(content)),
        ContentType::UrlEncoded { content } => encode_utf8(form_encode(pairs_bytes(content@))),
        ContentType::Binary { content, .. } => content@,
        ContentType::Form { .. } => Seq::empty(),
    }
}

/// An encoded body: the payload and the header directives that go with it.
pub struct EncodedContent {
    pub payload: Payload,
    pub headers: Vec<(String, Vec<String>)>,
}

pub(crate) fn single_header(name: &str, value: String) -> (r: Vec<(String, Vec<String>)>)
    ensures
        hview(r@) == seq![(name@, seq![value@])],
{
    let ghost gv = value@;
    let mut vals: Vec<String> = Vec::new();
    vals.push(value);
    let mut r: Vec<(String, Vec<String>)> = Vec::new();
    r.push((name.to_owned(), vals));
    proof {
        assert(r@[0].1@.map_values(|v: String| v@) =~= seq![gv]);
        assert(hview(r@) =~= seq![(name@, seq![gv])]);
    }
    r
}

/// Encode a body for transfer: its payload and its header directives. Only
/// serialization of a JSON value can fail; that failure is a parse error.
pub fn encode_content(content: &ContentType) -> (r: Result<EncodedContent, InterceptorError>)
    ensures
        !(content matches ContentType::Json { .. }) ==> r is Ok,
        r matches Err(e) ==> content matches ContentType::Json { .. } && e matches
            InterceptorError::Parse { .. },
        r matches Ok(enc) ==> hview(enc.headers@) == content_headers_spec(*content),
        r matches Ok(enc) ==> match *content {
            ContentType::Form { content: entries } => enc.payload matches Payload::Multipart {
                parts,
            } && parts_view(parts@) == form_parts_spec(entries@),
            _ => enc.payload matches Payload::Bytes { data } && data@ == body_bytes_spec(*content),
        },
        r matches Ok(enc) ==> (match *content {
            ContentType::Json { content: v } => enc.payload matches Payload::Bytes { data }
                ==> (json_within_parse_depth(v) ==> json_parse_of(data@) == Some(v)),
            _ => true,
        }),
{
    match content {
        ContentType::Text { content: text } => {
            let headers = single_header("Content-Type", "text/plain".to_owned());
            let data = text.as_str().as_bytes_vec();
            Ok(EncodedContent { payload: Payload::Bytes { data }, headers })
        },
        ContentType::Json { content: v } => {
            match json_to_string(v) {
                Ok(text) => {
                    let headers = single_header("Content-Type", "application/json".to_owned());
                    let data = text.as_str().as_bytes_vec();
                    proof {
                        assert(data@ == encode_utf8(text@));
                    }
                    Ok(EncodedContent { payload: Payload::Bytes { data }, headers })
                },
                Err(cause) => Err(
                    InterceptorError::Parse {
                        message: "Failed to serialize JSON".to_owned(),
                        cause: Some(cause),
                    },
                ),
            }
        },
        ContentType::UrlEncoded { content: pairs } => {
            let headers = single_header(
                "Content-Type",
                "application/x-www-form-urlencoded".to_owned(),
            );
            let text = form_urlencode(pairs);
            let data = text.as_str().as_bytes_vec();
            Ok(EncodedContent { payload: Payload::Bytes { data }, headers })
        },
        ContentType::Binary { content: bytes, media_type, filename } => {
            let ct = match media_type {
                Some(m) => m.clone(),
                None => "application/octet-stream".to_owned(),
            };
            let mut headers = single_header("Content-Type", ct);
            match filename {
                Some(f) => {
                    let safe = sanitize_filename(f.as_str());
                    let mut disp = "form-data; name=\"file\"; filename=\"".to_owned();
                    disp.append(safe.as_str());
                    disp.append("\"");
                    proof {
                        assert("\""@ =~= seq!['"']) by {
                            reveal_strlit("\"");
                        }
                        assert(disp@ == disposition_spec(sanitize_spec(f@)));
                    }
                    let mut h2 = single_header("Content-Disposition", disp);
                    let ghost prev_entries = headers@;
                    let ghost hv1 = hview(headers@);
                    let ghost hv2 = hview(h2@);
                    headers.append(&mut h2);
                    proof {
                        assert forall|j: int| 0 <= j < headers@.len() implies hview(headers@)[j]
                            == (hv1 + hv2)[j] by {
                            if j < hv1.len() {
                                assert(headers@[j] == prev_entries[j]);
                            }
                        }
                        assert(hview(headers@) =~= hv1 + hv2);
                        assert(hview(headers@) =~= content_headers_spec(*content));
                    }
                },
                None => {
                    proof {
                        assert(hview(headers@) =~= content_headers_spec(*content));
                    }
                },
            }
            let data = slice_to_vec(bytes.as_slice());
            Ok(EncodedContent { payload: Payload::Bytes { data }, headers })
        },
        ContentType::Form { content: entries } => {
            let mut parts: Vec<FormPart> = Vec::new();
            let n = entries.len();
            let mut i: usize = 0;
            while i < n
                invariant
                    n == entries@.len(),
                    i <= n,
                    parts_view(parts@) == form_parts_spec(entries@.subrange(0, i as int)),
                decreases n - i,
            {
                let key = entries[i].0.clone();
                let data = slice_to_vec(entries[i].1.as_slice());
                let part = match sniff(data.as_slice()) {
                    Some(em) => {
                        let mut fname = "file.".to_owned();
                        fname.append(em.0.as_str());
                        FormPart {
                            name: key,
                            filename: Some(fname),
                            content_type: Some(em.1),
                            data,
                        }
                    },
                    None => FormPart { name: key, filename: None, content_type: None, data },
                };
                proof {
                    assert(part_view(part) == form_part_spec(entries@[i as int]));
                }
                let ghost prev = parts@;
                parts.push(part);
                proof {
                    assert(entries@.subrange(0, i as int).push(entries@[i as int]) =~= entries@
                        .subrange(0, i + 1));
                    let m1 = parts_view(parts@);
                    let m2 = form_parts_spec(entries@.subrange(0, i + 1));
                    assert(parts_view(prev).len() == prev.len());
                    assert(form_parts_spec(entries@.subrange(0, i as int)).len() == entries@
                        .subrange(0, i as int).len());
                    assert(prev.len() == i);
                    assert(m1.len() == parts@.len());
                    assert(m2.len() == entries@.subrange(0, i + 1).len());
                    assert(m1.len() == m2.len());
                    assert forall|j: int| 0 <= j < m1.len() implies m1[j] == m2[j] by {
                        assert(m1[j] == part_view(parts@[j]));
                        assert(m2[j] == form_part_spec(entries@.subrange(0, i + 1)[j]));
                        if j < i {
                            assert(parts@[j] == prev[j]);
                            assert(parts_view(prev)[j] == part_view(prev[j]));
                            assert(form_parts_spec(entries@.subrange(0, i as int))[j]
                                == form_part_spec(entries@.subrange(0, i as int)[j]));
                            assert(entries@.subrange(0, i as int)[j] == entries@.subrange(
                                0,
                                i + 1,
                            )[j]);
                        } else {
                            assert(parts@[j] == part);
                            assert(entries@.subrange(0, i + 1)[j] == entries@[i as int]);
                        }
                    }
                    assert(m1 =~= m2);
                }
                i += 1;
            }
            proof {
                assert(entries@.subrange(0, n as int) =~= entries@);
            }
            let headers: Vec<(String, Vec<String>)> = Vec::new();
            proof {
                assert(hview(headers@) =~= content_headers_spec(*content));
            }
            Ok(EncodedContent { payload: Payload::Multipart { parts }, headers })
        },
    }
}

/// The value list of the first entry named `name`.
pub open spec fn find_values(h: Seq<(Seq<char>, Seq<Seq<char>>)>, name: Seq<char>) -> Option<
    Seq<Seq<char>>,
>
    decreases h.len(),
{
    if h.len() == 0 {
        None
    } else if h[0].0 == name {
        Some(h[0].1)
    } else {
        find_values(h.drop_first(), name)
    }
}

proof fn lemma_find_values_at(h: Seq<(Seq<char>, Seq<Seq<char>>)>, name: Seq<char>, i: int)
    requires
        0 <= i <= h.len(),
        forall|j: int| 0 <= j < i ==> h[j].0 != name,
        i == h.len() || h[i].0 == name,
    ensures
        find_values(h, name) == if i == h.len() {
            None::<Seq<Seq<char>>>
        } else {
            Some(h[i].1)
        },
    decreases i,
{
    if i == 0 {
    } else {
        lemma_find_values_at(h.drop_first(), name, i - 1);
    }
}

/// Whether a header mapping declares a JSON body: its first `Content-Type`
/// value starts with `application/json`.
pub open spec fn declares_json(h: Seq<(Seq<char>, Seq<Seq<char>>)>) -> bool {
    match find_values(h, "Content-Type"@) {
        Some(vals) => vals.len() > 0 && spec_starts_with(vals[0], "application/json"@),
        None => false,
    }
}

/// How a decoded response body relates to the headers and bytes it came from:
/// a declared JSON body that parses becomes a JSON value; everything else
/// degrades to lossy text, never an error.
pub open spec fn decode_rel(h: Seq<(Seq<char>, Seq<Seq<char>>)>, b: Seq<u8>, r: ContentType) -> bool {
    if declares_json(h) {
        match json_parse_of(b) {
            Some(v) => r matches ContentType::Json { content } && content == v,
            None => r matches ContentType::Text { content } && content@ == utf8_lossy_spec(b),
        }
    } else {
        r matches ContentType::Text { content } && content@ == utf8_lossy_spec(b)
    }
}

/// Decode a response body according to its headers. Never fails: a JSON body
/// that does not parse, and any non-JSON body, becomes lossy text.
pub fn decode_content(headers: &Vec<(String, Vec<String>)>, body: &Vec<u8>) -> (r: ContentType)
    ensures
        decode_rel(hview(headers@), body@, r),
{
    let n = headers.len();
    let mut i: usize = 0;
    let mut found: Option<usize> = None;
    while i < n
        invariant
            n == headers@.len(),
            i <= n,
            match found {
                Some(k) => k < n && hview(headers@)[k as int].0 == "Content-Type"@ && forall|j: int|
                    0 <= j < k ==> hview(headers@)[j].0 != "Content-Type"@,
                None => forall|j: int| 0 <= j < i ==> hview(headers@)[j].0 != "Content-Type"@,
            },
        decreases n - i,
    {
        proof {
            assert(hview(headers@)[i as int].0 == headers@[i as int].0@);
        }
        if found.is_none() && str_eq(headers[i].0.as_str(), "Content-Type") {
            found = Some(i);
        }
        i += 1;
    }
    let is_json = match found {
        Some(k) => {
            proof {
                lemma_find_values_at(hview(headers@), "Content-Type"@, k as int);
            }
            if headers[k].1.len() > 0 {
                let first = &headers[k].1[0];
                proof {
                    assert(hview(headers@)[k as int].1 == headers@[k as int].1@.map_values(
                        |v: String| v@,
                    ));
                    assert(hview(headers@)[k as int].1[0] == headers@[k as int].1@[0]@);
                }
                str_starts_with(first.as_str(), "application/json")
            } else {
                false
            }
        },
        None => {
            proof {
                lemma_find_values_at(hview(headers@), "Content-Type"@, n as int);
            }
            false
        },
    };
    if is_json {
        match json_from_slice(body.as_slice()) {
            Ok(v) => ContentType::Json { content: v },
            Err(_) => ContentType::Text { content: utf8_lossy(body.as_slice()) },
        }
    } else {
        ContentType::Text { content: utf8_lossy(body.as_slice()) }
    }
}

/// View of a string-pair list.
pub open spec fn pview(p: Seq<(String, String)>) -> Seq<(Seq<char>, Seq<char>)> {
    p.map_values(|q: (String, String)| (q.0@, q.1@))
}

/// Round trip for text bodies: decoding what the text codec encoded, under
/// the headers it set, reconstructs the text exactly.
pub proof fn lemma_text_round_trip(
    c: ContentType,
    h: Seq<(Seq<char>, Seq<Seq<char>>)>,
    b: Seq<u8>,
    r: ContentType,
)
    requires
        c matches ContentType::Text { .. },
        h == content_headers_spec(c),
        b == body_bytes_spec(c),
        decode_rel(h, b, r),
    ensures
        c matches ContentType::Text { content: orig } ==> r matches ContentType::Text {
            content: dec,
        } && dec@ == orig@,
{
    reveal_strlit("text/plain");
    reveal_strlit("application/json");
    if let ContentType::Text { content: orig } = c {
        assert(h[0].0 == "Content-Type"@);
        assert(find_values(h, "Content-Type"@) == Some(h[0].1));
        assert(h[0].1[0] == "text/plain"@);
        assert("text/plain"@.len() == 10);
        assert("application/json"@.len() == 16);
        assert(!declares_json(h));
        vstd::utf8::encode_utf8_valid_utf8(orig@);
        vstd::utf8::encode_utf8_decode_utf8(orig@);
        assert(utf8_lossy_spec(b) == orig@);
    }
}

/// Round trip for JSON bodies: a serialized value, decoded under the JSON
/// header the codec set, parses back to an equal value. The parse-back
/// premise is what the codec's contract gives for every value whose nesting
/// the parser admits; a value nested beyond the parser's recursion limit
/// serializes but falls back to text on decode.
pub proof fn lemma_json_round_trip(
    c: ContentType,
    h: Seq<(Seq<char>, Seq<Seq<char>>)>,
    b: Seq<u8>,
    r: ContentType,
)
    requires
        c matches ContentType::Json { .. },
        h == content_headers_spec(c),
        b == body_bytes_spec(c),
        c matches ContentType::Json { content: v } ==> json_parse_of(b) == Some(v),
        decode_rel(h, b, r),
    ensures
        c matches ContentType::Json { content: v } ==> r matches ContentType::Json { content: w }
            && w == v,
{
    if let ContentType::Json { content: v } = c {
        assert(h[0].0 == "Content-Type"@);
        assert(find_values(h, "Content-Type"@) == Some(h[0].1));
        assert(h[0].1[0] == "application/json"@);
        assert("application/json"@.subrange(0, "application/json"@.len() as int) =~=
            "application/json"@);
        assert(spec_starts_with("application/json"@, "application/json"@));
        assert(declares_json(h));
    }
}

/// Round trip for URL-encoded bodies: the decoded content is the encoded
/// text itself, which pins the field pairs exactly (see
/// `lemma_urlencoded_lossless`).
pub proof fn lemma_urlencoded_round_trip(
    c: ContentType,
    h: Seq<(Seq<char>, Seq<Seq<char>>)>,
    b: Seq<u8>,
    r: ContentType,
)
    requires
        c matches ContentType::UrlEncoded { .. },
        h == content_headers_spec(c),
        b == body_bytes_spec(c),
        decode_rel(h, b, r),
    ensures
        c matches ContentType::UrlEncoded { content: pairs } ==> r matches ContentType::Text {
            content: t,
        } && t@ == form_encode(pairs_bytes(pairs@)),
{
    reveal_strlit("application/x-www-form-urlencoded");
    reveal_strlit("application/json");
    if let ContentType::UrlEncoded { content: pairs } = c {
        assert(h[0].0 == "Content-Type"@);
        assert(find_values(h, "Content-Type"@) == Some(h[0].1));
        let v0 = "application/x-www-form-urlencoded"@;
        let jp = "application/json"@;
        assert(h[0].1[0] == v0);
        assert(v0.len() == 33);
        assert(jp.len() == 16);
        if spec_starts_with(v0, jp) {
            assert(v0.subrange(0, 16)[12] == v0[12]);
            assert(v0[12] == 'x');
            assert(jp[12] == 'j');
            assert(false);
        }
        assert(!declares_json(h));
        let text = form_encode(pairs_bytes(pairs@));
        vstd::utf8::encode_utf8_valid_utf8(text);
        vstd::utf8::encode_utf8_decode_utf8(text);
        assert(utf8_lossy_spec(b) == text);
    }
}

/// The URL-form encoding loses nothing: two field lists that encode to the
/// same text hold the same names and values in the same order.
pub proof fn lemma_urlencoded_lossless(p1: Seq<(String, String)>, p2: Seq<(String, String)>)
    requires
        form_encode(pairs_bytes(p1)) == form_encode(pairs_bytes(p2)),
    ensures
        pview(p1) == pview(p2),
{
    crate::encoding::lemma_form_encode_injective(pairs_bytes(p1), pairs_bytes(p2));
    assert(pairs_bytes(p1).len() == p1.len());
    assert(pairs_bytes(p2).len() == p2.len());
    assert forall|i: int| 0 <= i < p1.len() implies pview(p1)[i] == pview(p2)[i] by {
        assert(pairs_bytes(p1)[i] == (encode_utf8(p1[i].0@), encode_utf8(p1[i].1@)));
        assert(pairs_bytes(p2)[i] == (encode_utf8(p2[i].0@), encode_utf8(p2[i].1@)));
        vstd::utf8::encode_utf8_decode_utf8(p1[i].0@);
        vstd::utf8::encode_utf8_decode_utf8(p2[i].0@);
        vstd::utf8::encode_utf8_decode_utf8(p1[i].1@);
        vstd::utf8::encode_utf8_decode_utf8(p2[i].1@);
        assert(pview(p1)[i] == (p1[i].0@, p1[i].1@));
        assert(pview(p2)[i] == (p2[i].0@, p2[i].1@));
    }
    assert(pview(p1).len() == pview(p2).len());
    assert(pview(p1) =~= pview(p2));
}

} // verus!
