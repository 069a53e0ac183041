//! The engine client's pure half: the endpoint paths and serialized request
//! bytes for create, start, wait, attach and remove, and the interpretation
//! of each call's response into a typed result.
//!
//! Success rules, one call each: create succeeds exactly on HTTP 201 with a
//! JSON object carrying a string `Id`; start and remove succeed on any 2xx;
//! wait succeeds on a 2xx whose JSON body carries a `StatusCode` that fits
//! in a byte; attach succeeds on an informational status that declares one
//! of the two known stream content types.

use vstd::prelude::*;
use vstd::string::StringSliceAdditionalSpecFns;
use vstd::string::StringExecFns;
use vstd::utf8::encode_utf8;
use crate::ascii::{append_bytes, bytes_eq, bytes_eq_ignore_case, eq_ignore_case};
use crate::error::{DockerError, ErrorView};
use crate::http::{build_request, spec_request, Method};
use crate::json::{json_is_valid, json_str_field, json_string_field, json_u64_field,
    json_u64_field_get, json_well_formed};
use crate::text::{bytes_to_text, dec_chars, text_of_bytes, u64_to_dec_string};

verus! {

/// A status in the 2xx success class.
pub open spec fn spec_is_success(code: u16) -> bool {
    200 <= code < 300
}

/// A status in the 1xx informational class, which is what a granted attach
/// upgrade answers with.
pub open spec fn spec_is_informational(code: u16) -> bool {
    100 <= code < 200
}

pub fn is_success(code: u16) -> (r: bool)
    ensures
        r == spec_is_success(code),
{
    200 <= code && code < 300
}

pub fn is_informational(code: u16) -> (r: bool)
    ensures
        r == spec_is_informational(code),
{
    100 <= code && code < 200
}

pub open spec fn spec_create_path() -> Seq<u8> {
    "/containers/create".spec_bytes()
}

pub open spec fn spec_start_path(id: Seq<char>) -> Seq<u8> {
    "/containers/".spec_bytes() + encode_utf8(id) + "/start".spec_bytes()
}

pub open spec fn spec_wait_path(id: Seq<char>) -> Seq<u8> {
    "/containers/".spec_bytes() + encode_utf8(id) + "/wait?condition=next-exit".spec_bytes()
}

pub open spec fn spec_attach_path(id: Seq<char>) -> Seq<u8> {
    "/containers/".spec_bytes() + encode_utf8(id)
        + "/attach?stream=true&stdin=true&stdout=true&stderr=true".spec_bytes()
}

pub open spec fn spec_remove_path(id: Seq<char>) -> Seq<u8> {
    "/containers/".spec_bytes() + encode_utf8(id)
}

fn container_path(id: &str, suffix: &str) -> (r: Vec<u8>)
    ensures
        r@ == "/containers/".spec_bytes() + encode_utf8(id@) + suffix.spec_bytes(),
{
    let mut out: Vec<u8> = Vec::new();
    append_bytes(&mut out, "/containers/".as_bytes());
    append_bytes(&mut out, id.as_bytes());
    append_bytes(&mut out, suffix.as_bytes());
    proof {
        assert(out@ =~= "/containers/".spec_bytes() + encode_utf8(id@) + suffix.spec_bytes());
    }
    out
}

/// The serialized request that creates a container from the given JSON body.
pub fn create_request(body: &Vec<u8>) -> (r: Vec<u8>)
    ensures
        r@ == spec_request(Method::Post, spec_create_path(), false, Some(body@)),
{
    let mut path: Vec<u8> = Vec::new();
    append_bytes(&mut path, "/containers/create".as_bytes());
    proof {
        assert(path@ =~= spec_create_path());
    }
    build_request(Method::Post, path.as_slice(), false, Some(body))
}

/// The serialized request that starts a container.
pub fn start_request(id: &str) -> (r: Vec<u8>)
    ensures
        r@ == spec_request(Method::Post, spec_start_path(id@), false, None),
{
    let path = container_path(id, "/start");
    build_request(Method::Post, path.as_slice(), false, None)
}

/// The serialized request that waits for the next exit of a container. The
/// `next-exit` condition makes a wait issued before the container starts
/// still block until it exits.
pub fn wait_request(id: &str) -> (r: Vec<u8>)
    ensures
        r@ == spec_request(Method::Post, spec_wait_path(id@), false, None),
{
    let path = container_path(id, "/wait?condition=next-exit");
    build_request(Method::Post, path.as_slice(), false, None)
}

/// The serialized upgrade request that attaches to a container's standard
/// streams on a dedicated connection.
pub fn attach_request(id: &str) -> (r: Vec<u8>)
    ensures
        r@ == spec_request(Method::Post, spec_attach_path(id@), true, None),
{
    let path = container_path(id, "/attach?stream=true&stdin=true&stdout=true&stderr=true");
    build_request(Method::Post, path.as_slice(), true, None)
}

/// The serialized request that removes a container.
pub fn remove_request(id: &str) -> (r: Vec<u8>)
    ensures
        r@ == spec_request(Method::Delete, spec_remove_path(id@), false, None),
{
    let path = container_path(id, "");
    proof {
        reveal_strlit("");
        assert(""@.len() == 0);
        assert("".spec_bytes() =~= Seq::<u8>::empty());
        assert(path@ =~= spec_remove_path(id@));
    }
    build_request(Method::Delete, path.as_slice(), false, None)
}

/// The value of an optional byte vector reference as an optional byte string.
pub open spec fn opt_body(b: Option<&Vec<u8>>) -> Option<Seq<u8>> {
    match b {
        Some(v) => Some(v@),
        None => None,
    }
}

/// The content type declares JSON.
pub open spec fn declares_json(ct: Option<Seq<u8>>) -> bool {
    ct matches Some(c) && eq_ignore_case(c, "application/json".spec_bytes())
}

/// Checks a response body against its declared content type: a body is kept
/// only when it is declared as JSON and parses as JSON; a JSON-declared body
/// that does not parse is an invalid-JSON failure, any other body an
/// invalid-response failure. A response without a body passes through.
pub fn validate_json_body(code: u16, content_type: Option<&Vec<u8>>, body: Option<Vec<u8>>) -> (r:
    Result<Option<Vec<u8>>, DockerError>)
    ensures
        body is None ==> (r matches Ok(rb) && rb is None),
        body is Some && declares_json(opt_body(content_type)) && json_well_formed(body->0@)
            ==> (r matches Ok(rb) && rb matches Some(v) && v@ == body->0@),
        body is Some && declares_json(opt_body(content_type)) && !json_well_formed(body->0@)
            ==> (r matches Err(e) && e@ == ErrorView::InvalidJson(code, text_of_bytes(body->0@))),
        body is Some && !declares_json(opt_body(content_type)) ==> (r matches Err(e)
            && e@ == ErrorView::InvalidResponse(code, text_of_bytes(body->0@))),
{
    match body {
        None => Ok(None),
        Some(b) => {
            let is_json = match content_type {
                Some(c) => bytes_eq_ignore_case(c.as_slice(), "application/json".as_bytes()),
                None => false,
            };
            if is_json {
                if json_is_valid(b.as_slice()) {
                    Ok(Some(b))
                } else {
                    let txt = bytes_to_text(b.as_slice());
                    Err(DockerError::InvalidJson(code, txt))
                }
            } else {
                let txt = bytes_to_text(b.as_slice());
                Err(DockerError::InvalidResponse(code, txt))
            }
        },
    }
}

/// The failure built from a non-success response: its status code and the
/// body's `message` field, or the per-call fallback text when the body
/// carries none.
pub open spec fn spec_error_response(code: u16, body: Seq<u8>, fallback: Seq<char>) -> ErrorView {
    ErrorView::ErrorResponse(
        code,
        match json_string_field(body, "message"@) {
            Some(m) => m,
            None => fallback,
        },
    )
}

/// Builds the failure for a non-success response.
pub fn make_error_response(code: u16, body: &Vec<u8>, fallback: &str) -> (e: DockerError)
    ensures
        e@ == spec_error_response(code, body@, fallback@),
{
    match json_str_field(body.as_slice(), "message") {
        Some(m) => DockerError::ErrorResponse(code, m),
        None => DockerError::ErrorResponse(code, String::from_str(fallback)),
    }
}

/// Interprets the creation response: exactly HTTP 201 with a JSON body
/// carrying a string `Id` succeeds and yields that id; 201 without an `Id`
/// is an invalid response; any other status with a body is an engine error
/// under the creation fallback message; a missing body is invalid.
pub fn interpret_create(status: u16, body: Option<&Vec<u8>>) -> (r: Result<String, DockerError>)
    ensures
        r is Ok <==> status == 201 && opt_body(body) is Some && json_string_field(
            opt_body(body)->0,
            "Id"@,
        ) is Some,
        r matches Ok(id) ==> (opt_body(body) is Some && json_string_field(opt_body(body)->0, "Id"@)
            == Some(id@)),
        status == 201 && opt_body(body) is Some && json_string_field(opt_body(body)->0, "Id"@)
            is None ==> (r matches Err(e) && e@ == ErrorView::InvalidResponse(
            status,
            text_of_bytes(opt_body(body)->0),
        )),
        status != 201 && opt_body(body) is Some ==> (r matches Err(e) && e@
            == spec_error_response(status, opt_body(body)->0, "Container creation failed"@)),
        opt_body(body) is None ==> (r matches Err(e) && e@ == ErrorView::InvalidResponse(
            status,
            Seq::<char>::empty(),
        )),
{
    match body {
        Some(b) => {
            if status == 201 {
                match json_str_field(b.as_slice(), "Id") {
                    Some(id) => Ok(id),
                    None => Err(DockerError::InvalidResponse(status, bytes_to_text(b.as_slice()))),
                }
            } else {
                Err(make_error_response(status, b, "Container creation failed"))
            }
        },
        None => Err(DockerError::InvalidResponse(status, String::new())),
    }
}

/// Interprets the wait response: a 2xx whose JSON body carries a
/// `StatusCode` of at most 255 succeeds with that exit code; a larger value
/// is an invalid response, never a silent truncation.
pub fn interpret_wait(status: u16, body: Option<&Vec<u8>>) -> (r: Result<u8, DockerError>)
    ensures
        r is Ok <==> spec_is_success(status) && opt_body(body) is Some && json_u64_field(
            opt_body(body)->0,
            "StatusCode"@,
        ) is Some && json_u64_field(opt_body(body)->0, "StatusCode"@)->0 <= 255,
        r matches Ok(c) ==> (opt_body(body) is Some && json_u64_field(
            opt_body(body)->0,
            "StatusCode"@,
        ) == Some(c as u64)),
        spec_is_success(status) && opt_body(body) is Some && json_u64_field(
            opt_body(body)->0,
            "StatusCode"@,
        ) is Some && json_u64_field(opt_body(body)->0, "StatusCode"@)->0 > 255 ==> (
        r matches Err(e) && e@ == ErrorView::InvalidResponse(
            status,
            "container status code >255: "@ + dec_chars(
                json_u64_field(opt_body(body)->0, "StatusCode"@)->0 as int,
            ),
        )),
        spec_is_success(status) && opt_body(body) is Some && json_u64_field(
            opt_body(body)->0,
            "StatusCode"@,
        ) is None ==> (r matches Err(e) && e@ == ErrorView::InvalidResponse(
            status,
            text_of_bytes(opt_body(body)->0),
        )),
        !spec_is_success(status) && opt_body(body) is Some ==> (r matches Err(e) && e@
            == spec_error_response(status, opt_body(body)->0, "Container wait failed"@)),
        opt_body(body) is None ==> (r matches Err(e) && e@ == ErrorView::InvalidResponse(
            status,
            Seq::<char>::empty(),
        )),
{
    match body {
        Some(b) => {
            if is_success(status) {
                match json_u64_field_get(b.as_slice(), "StatusCode") {
                    Some(n) => {
                        if n <= 255 {
                            Ok(n as u8)
                        } else {
                            let msg = String::from_str("container status code >255: ").concat(
                                u64_to_dec_string(n).as_str(),
                            );
                            Err(DockerError::InvalidResponse(status, msg))
                        }
                    },
                    None => Err(
                        DockerError::InvalidResponse(status, bytes_to_text(b.as_slice())),
                    ),
                }
            } else {
                Err(make_error_response(status, b, "Container wait failed"))
            }
        },
        None => Err(DockerError::InvalidResponse(status, String::new())),
    }
}

/// Interprets the start response: any 2xx succeeds; anything else is an
/// engine error under the start fallback message, or invalid when no body
/// explains it.
pub fn interpret_start(status: u16, body: Option<&Vec<u8>>) -> (r: Result<(), DockerError>)
    ensures
        r is Ok <==> spec_is_success(status),
        !spec_is_success(status) && opt_body(body) is Some ==> (r matches Err(e) && e@
            == spec_error_response(status, opt_body(body)->0, "Container start failed"@)),
        !spec_is_success(status) && opt_body(body) is None ==> (r matches Err(e) && e@
            == ErrorView::InvalidResponse(status, Seq::<char>::empty())),
{
    if is_success(status) {
        Ok(())
    } else {
        match body {
            Some(b) => Err(make_error_response(status, b, "Container start failed")),
            None => Err(DockerError::InvalidResponse(status, String::new())),
        }
    }
}

/// Interprets the remove response: any 2xx succeeds; anything else is an
/// engine error under the remove fallback message, or invalid when no body
/// explains it.
pub fn interpret_remove(status: u16, body: Option<&Vec<u8>>) -> (r: Result<(), DockerError>)
    ensures
        r is Ok <==> spec_is_success(status),
        !spec_is_success(status) && opt_body(body) is Some ==> (r matches Err(e) && e@
            == spec_error_response(status, opt_body(body)->0, "Container remove failed"@)),
        !spec_is_success(status) && opt_body(body) is None ==> (r matches Err(e) && e@
            == ErrorView::InvalidResponse(status, Seq::<char>::empty())),
{
    if is_success(status) {
        Ok(())
    } else {
        match body {
            Some(b) => Err(make_error_response(status, b, "Container remove failed")),
            None => Err(DockerError::InvalidResponse(status, String::new())),
        }
    }
}

/// The content type that declares the multiplexed stream format.
pub open spec fn multiplexed_content() -> Seq<u8> {
    "application/vnd.docker.multiplexed-stream".spec_bytes()
}

/// The content type that declares a raw byte stream.
pub open spec fn raw_content() -> Seq<u8> {
    "application/vnd.docker.raw-stream".spec_bytes()
}

/// Classifies an attach response, before any byte of the stream is pumped:
/// the status must be informational and the content type one of the two
/// recognized stream formats; `true` means multiplexed, `false` raw. Any
/// other response is a protocol failure and no pumping may begin.
pub fn classify_attach(code: u16, reason: &Vec<u8>, content_type: Option<&Vec<u8>>) -> (r: Result<
    bool,
    DockerError,
>)
    ensures
        r is Ok <==> spec_is_informational(code) && (opt_body(content_type) == Some(
            multiplexed_content(),
        ) || opt_body(content_type) == Some(raw_content())),
        r matches Ok(m) ==> m == (opt_body(content_type) == Some(multiplexed_content())),
        !spec_is_informational(code) ==> (r matches Err(e) && e@ == ErrorView::InvalidResponse(
            code,
            text_of_bytes(reason@),
        )),
        spec_is_informational(code) && opt_body(content_type) != Some(multiplexed_content())
            && opt_body(content_type) != Some(raw_content()) ==> (r matches Err(e) && e@
            == ErrorView::InvalidResponse(
            code,
            "Unrecognized content-type from attach: "@ + text_of_bytes(
                match opt_body(content_type) {
                    Some(c) => c,
                    None => Seq::<u8>::empty(),
                },
            ),
        )),
{
    if !is_informational(code) {
        return Err(DockerError::InvalidResponse(code, bytes_to_text(reason.as_slice())));
    }
    let is_mult = match content_type {
        Some(c) => bytes_eq(
            c.as_slice(),
            "application/vnd.docker.multiplexed-stream".as_bytes(),
        ),
        None => false,
    };
    if is_mult {
        return Ok(true);
    }
    let is_raw = match content_type {
        Some(c) => bytes_eq(c.as_slice(), "application/vnd.docker.raw-stream".as_bytes()),
        None => false,
    };
    if is_raw {
        return Ok(false);
    }
    let txt = match content_type {
        Some(c) => bytes_to_text(c.as_slice()),
        None => {
            proof {
                vstd::utf8::encode_utf8_decode_utf8(Seq::<char>::empty());
            }
            String::new()
        },
    };
    Err(
        DockerError::InvalidResponse(
            code,
            String::from_str("Unrecognized content-type from attach: ").concat(txt.as_str()),
        ),
    )
}

} // verus!
