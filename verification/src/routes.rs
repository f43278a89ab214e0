//! What the HTTP endpoints decide: refusals, upload fields, callback URLs
//! and the framing of prepared responses.

use vstd::prelude::*;
use vstd::string::*;

use crate::text::{
    ascii_lower_all, chars_of, eq_ignore_ascii_case, range_eq_ignore_ascii_case, str_eq,
};

verus! {

/// Why a request is refused.
#[derive(Debug, Clone, Copy, PartialEq, Eq, Structural)]
pub enum ApiError {
    BadRequest,
    PayloadTooLarge,
}

impl ApiError {
    /// The HTTP status of the refusal: 400 or 413.
    pub fn status_code(&self) -> (code: u16)
        ensures
            *self == ApiError::BadRequest ==> code == 400,
            *self == ApiError::PayloadTooLarge ==> code == 413,
    {
        match self {
            ApiError::BadRequest => 400,
            ApiError::PayloadTooLarge => 413,
        }
    }

    /// The refusal for a failed multipart read with HTTP status `status`:
    /// a body over the limit (413) is `PayloadTooLarge`, anything else
    /// `BadRequest`.
    pub fn from_multipart_status(status: u16) -> (e: ApiError)
        ensures
            e == (if status == 413 { ApiError::PayloadTooLarge } else { ApiError::BadRequest }),
    {
        if status == 413 {
            ApiError::PayloadTooLarge
        } else {
            ApiError::BadRequest
        }
    }
}

/// The body of the health endpoint.
pub fn healthz() -> (body: &'static str)
    ensures
        body@ == "ok"@,
{
    "ok"
}

/// The service's identity and the Ghostscript version it runs.
#[derive(Debug)]
pub struct VersionInfo {
    pub name: &'static str,
    pub version: &'static str,
    pub source_url: &'static str,
    pub license: &'static str,
    pub ghostscript_version: String,
}

/// The version report for package version `version` and the Ghostscript
/// version found.
pub fn version_info(version: &'static str, ghostscript_version: String) -> (info: VersionInfo)
    ensures
        info.name@ == "preflight-rs"@,
        info.version == version,
        info.source_url@ == "https://github.com/cygnusdevs/preflight-rs"@,
        info.license@ == "AGPL-3.0-or-later"@,
        info.ghostscript_version == ghostscript_version,
{
    VersionInfo {
        name: "preflight-rs",
        version,
        source_url: "https://github.com/cygnusdevs/preflight-rs",
        license: "AGPL-3.0-or-later",
        ghostscript_version,
    }
}

/// The multipart fields an upload understands.
#[derive(Debug, Clone, Copy, PartialEq, Eq, Structural)]
pub enum UploadField {
    File,
    CallbackUrl,
    CallbackToken,
    MaxPages,
    MarginMm,
    MinDpi,
    ColourThreshold,
    ColorMode,
    FitToPage,
    Ignored,
}

/// The field that a multipart part name selects (exact match).
pub open spec fn spec_upload_field(name: Seq<char>) -> UploadField {
    if name == "file"@ {
        UploadField::File
    } else if name == "callback_url"@ {
        UploadField::CallbackUrl
    } else if name == "callback_token"@ {
        UploadField::CallbackToken
    } else if name == "max_pages"@ {
        UploadField::MaxPages
    } else if name == "margin_mm"@ {
        UploadField::MarginMm
    } else if name == "min_dpi"@ {
        UploadField::MinDpi
    } else if name == "colour_threshold"@ {
        UploadField::ColourThreshold
    } else if name == "color_mode"@ {
        UploadField::ColorMode
    } else if name == "fit_to_page"@ {
        UploadField::FitToPage
    } else {
        UploadField::Ignored
    }
}

/// Which field a multipart part is, by its name; unknown names are ignored.
pub fn upload_field(name: &str) -> (field: UploadField)
    ensures
        field == spec_upload_field(name@),
{
    if str_eq(name, "file") {
        UploadField::File
    } else if str_eq(name, "callback_url") {
        UploadField::CallbackUrl
    } else if str_eq(name, "callback_token") {
        UploadField::CallbackToken
    } else if str_eq(name, "max_pages") {
        UploadField::MaxPages
    } else if str_eq(name, "margin_mm") {
        UploadField::MarginMm
    } else if str_eq(name, "min_dpi") {
        UploadField::MinDpi
    } else if str_eq(name, "colour_threshold") {
        UploadField::ColourThreshold
    } else if str_eq(name, "color_mode") {
        UploadField::ColorMode
    } else if str_eq(name, "fit_to_page") {
        UploadField::FitToPage
    } else {
        UploadField::Ignored
    }
}

/// Accepts an uploaded file of `len` bytes under the limit `max_bytes`.
pub fn check_file_size(len: usize, max_bytes: u64) -> (res: Result<(), ApiError>)
    ensures
        res == (if len > max_bytes {
            Err::<(), ApiError>(ApiError::PayloadTooLarge)
        } else {
            Ok(())
        }),
{
    if len as u64 > max_bytes {
        Err(ApiError::PayloadTooLarge)
    } else {
        Ok(())
    }
}

/// The scheme and host (if any) of a URL, as `reqwest::Url::parse`,
/// `Url::scheme` and `Url::host_str` give them; `None` when it does not
/// parse.
pub uninterp spec fn parsed_url(value: Seq<char>) -> Option<(Seq<char>, Option<Seq<char>>)>;

/// `reqwest::Url::parse`, then the scheme and host of the result.
#[verifier::external_body]
fn parse_url(value: &str) -> (res: Option<(String, Option<String>)>)
    ensures
        match res {
            None => parsed_url(value@) is None,
            Some((scheme, host)) => parsed_url(value@) matches Some((s, h)) && scheme@ == s && match host {
                None => h is None,
                Some(x) => h == Some(x@),
            },
        },
{
    match reqwest::Url::parse(value) {
        Ok(url) => Some((url.scheme().to_owned(), url.host_str().map(|h| h.to_owned()))),
        Err(_) => None,
    }
}

/// The parts of a callback URL that decide whether it may be called.
#[derive(Debug)]
pub struct CallbackEndpoint {
    pub scheme: String,
    pub host: String,
}

/// The scheme and host of a callback URL; `None` when it does not parse or
/// names no host.
pub fn callback_endpoint(value: &str) -> (res: Option<CallbackEndpoint>)
    ensures
        match parsed_url(value@) {
            Some((s, Some(h))) => res matches Some(e) && e.scheme@ == s && e.host@ == h,
            _ => res is None,
        },
{
    match parse_url(value) {
        None => None,
        Some((scheme, host)) => match host {
            None => None,
            Some(host) => Some(CallbackEndpoint { scheme, host }),
        },
    }
}

/// Whether some allowed host equals `host` up to ASCII case.
pub open spec fn host_listed(host: Seq<char>, allowed: Seq<String>) -> bool {
    exists|i: int| 0 <= i < allowed.len() && eq_ignore_ascii_case(host, #[trigger] allowed[i]@)
}

/// Whether a callback endpoint may be called: over `https`, or over `http`
/// to a loopback IP address, and only to an allowed host (ASCII case
/// ignored).
pub fn callback_allowed(endpoint: &CallbackEndpoint, host_is_loopback_ip: bool, allowed: &Vec<String>) -> (ok: bool)
    ensures
        ok == ((endpoint.scheme@ == "https"@ || (endpoint.scheme@ == "http"@ && host_is_loopback_ip))
            && host_listed(endpoint.host@, allowed@)),
{
    let secure = str_eq(endpoint.scheme.as_str(), "https") || (str_eq(
        endpoint.scheme.as_str(),
        "http",
    ) && host_is_loopback_ip);
    if !secure {
        return false;
    }
    let host = chars_of(endpoint.host.as_str());
    assert(host@.subrange(0, host@.len() as int) =~= host@);
    let mut i: usize = 0;
    while i < allowed.len()
        invariant
            i <= allowed@.len(),
            host@ == endpoint.host@,
            host@.subrange(0, host@.len() as int) == host@,
            endpoint.scheme@ == "https"@ || (endpoint.scheme@ == "http"@ && host_is_loopback_ip),
            forall|k: int| 0 <= k < i ==> !eq_ignore_ascii_case(host@, #[trigger] allowed@[k]@),
        decreases allowed.len() - i,
    {
        let candidate = chars_of(allowed[i].as_str());
        assert(candidate@ == allowed@[i as int]@);
        if range_eq_ignore_ascii_case(&host, 0, host.len(), &candidate) {
            assert(eq_ignore_ascii_case(host@, allowed@[i as int]@));
            return true;
        }
        i = i + 1;
    }
    false
}

/// Whether an upload whose fields are all read may be analysed: a required
/// callback URL is present, not empty and allowed; the page limit is not
/// zero; the measures (margin, resolution, threshold) are in range; and a
/// file was sent.
pub open spec fn upload_acceptable(
    require_callback: bool,
    callback_url: Option<Seq<char>>,
    callback_is_allowed: bool,
    max_pages: u32,
    measures_in_range: bool,
    has_file: bool,
) -> bool {
    &&& require_callback ==> (callback_url matches Some(u) && u.len() > 0 && callback_is_allowed)
    &&& max_pages != 0
    &&& measures_in_range
    &&& has_file
}

/// Decides an upload once all fields are read: anything short of
/// `upload_acceptable` is `BadRequest`.
pub fn check_upload(
    require_callback: bool,
    callback_url: Option<&str>,
    callback_is_allowed: bool,
    max_pages: u32,
    measures_in_range: bool,
    has_file: bool,
) -> (res: Result<(), ApiError>)
    ensures
        res == (if upload_acceptable(
            require_callback,
            match callback_url {
                Some(u) => Some(u@),
                None => None,
            },
            callback_is_allowed,
            max_pages,
            measures_in_range,
            has_file,
        ) {
            Ok::<(), ApiError>(())
        } else {
            Err(ApiError::BadRequest)
        }),
{
    let url_empty = match callback_url {
        None => true,
        Some(u) => u.unicode_len() == 0,
    };
    if require_callback && url_empty {
        return Err(ApiError::BadRequest);
    }
    if require_callback && !(callback_url.is_some() && callback_is_allowed) {
        return Err(ApiError::BadRequest);
    }
    if max_pages == 0 || !measures_in_range {
        return Err(ApiError::BadRequest);
    }
    if !has_file {
        return Err(ApiError::BadRequest);
    }
    Ok(())
}

/// The bytes of a `multipart/mixed` response: the JSON result, then, when
/// there is one, the prepared PDF as an attachment, each part opened by the
/// boundary line, and the closing boundary line.
pub open spec fn spec_mixed_body(boundary: Seq<u8>, json: Seq<u8>, pdf: Option<Seq<u8>>) -> Seq<u8> {
    let open_line = "--".spec_bytes() + boundary + "\r\n".spec_bytes();
    let json_part = open_line + "Content-Type: application/json\r\n\r\n".spec_bytes() + json
        + "\r\n".spec_bytes();
    let pdf_part = match pdf {
        Some(p) => open_line + "Content-Type: application/pdf\r\n".spec_bytes()
            + "Content-Disposition: attachment; filename=\"prepared.pdf\"\r\n\r\n".spec_bytes() + p
            + "\r\n".spec_bytes(),
        None => Seq::empty(),
    };
    json_part + pdf_part + "--".spec_bytes() + boundary + "--\r\n".spec_bytes()
}

fn append_bytes(body: &mut Vec<u8>, bytes: &[u8])
    ensures
        final(body)@ == old(body)@ + bytes@,
{
    let mut i: usize = 0;
    while i < bytes.len()
        invariant
            i <= bytes@.len(),
            body@ == old(body)@ + bytes@.take(i as int),
        decreases bytes.len() - i,
    {
        body.push(bytes[i]);
        i = i + 1;
        assert(body@ =~= old(body)@ + bytes@.take(i as int));
    }
    assert(bytes@.take(i as int) =~= bytes@);
}

/// Frames the result of a prepare request as a `multipart/mixed` body.
pub fn mixed_body(boundary: &str, json: &[u8], pdf: Option<&[u8]>) -> (body: Vec<u8>)
    ensures
        body@ == spec_mixed_body(
            boundary.spec_bytes(),
            json@,
            match pdf {
                Some(p) => Some(p@),
                None => None,
            },
        ),
{
    let b = boundary.as_bytes();
    let mut body: Vec<u8> = Vec::new();
    append_bytes(&mut body, "--".as_bytes());
    append_bytes(&mut body, b);
    append_bytes(&mut body, "\r\n".as_bytes());
    append_bytes(&mut body, "Content-Type: application/json\r\n\r\n".as_bytes());
    append_bytes(&mut body, json);
    append_bytes(&mut body, "\r\n".as_bytes());
    let ghost json_part = body@;
    match pdf {
        Some(p) => {
            append_bytes(&mut body, "--".as_bytes());
            append_bytes(&mut body, b);
            append_bytes(&mut body, "\r\n".as_bytes());
            append_bytes(&mut body, "Content-Type: application/pdf\r\n".as_bytes());
            append_bytes(
                &mut body,
                "Content-Disposition: attachment; filename=\"prepared.pdf\"\r\n\r\n".as_bytes(),
            );
            append_bytes(&mut body, p);
            append_bytes(&mut body, "\r\n".as_bytes());
        },
        None => {},
    }
    let ghost with_pdf = body@;
    append_bytes(&mut body, "--".as_bytes());
    append_bytes(&mut body, b);
    append_bytes(&mut body, "--\r\n".as_bytes());
    proof {
        let open_line = "--".spec_bytes() + b@ + "\r\n".spec_bytes();
        let spec_json = open_line + "Content-Type: application/json\r\n\r\n".spec_bytes() + json@
            + "\r\n".spec_bytes();
        assert(json_part =~= spec_json);
        match pdf {
            Some(p) => {
                let spec_pdf = open_line + "Content-Type: application/pdf\r\n".spec_bytes()
                    + "Content-Disposition: attachment; filename=\"prepared.pdf\"\r\n\r\n".spec_bytes()
                    + p@ + "\r\n".spec_bytes();
                assert(with_pdf =~= spec_json + spec_pdf);
            },
            None => {
                assert(with_pdf =~= spec_json + Seq::<u8>::empty());
            },
        }
    }
    assert(body@ =~= with_pdf + "--".spec_bytes() + b@ + "--\r\n".spec_bytes());
    body
}

/// The `Content-Type` of a prepared response with boundary `boundary`.
pub fn mixed_content_type(boundary: &str) -> (value: String)
    ensures
        value@ == "multipart/mixed; boundary="@ + boundary@,
{
    let mut value = "multipart/mixed; boundary=".to_owned();
    value.append(boundary);
    value
}

} // verus!
