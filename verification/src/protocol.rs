//! The dispatch protocol handler's decision path: given the one message a
//! connection sent, classify it (misrouted HTTP-style request, malformed
//! request, well-formed request), drive the ledger for a well-formed one,
//! and produce the one response to send back. The embedding program only
//! reads and writes bytes around `handle_message`.
use vstd::prelude::*;
use vstd::utf8::encode_utf8;
use crate::codec::{
    decode_request, match_bytes, push_u32, spec_decode_request, spec_match, spec_u32_bytes,
};
use crate::ledger::{
    DispatchRequest, Ledger, RejectReason, post_submit, spec_process_items,
};

verus! {

/// The fixed response for a client that speaks the HTTP-style query
/// protocol on the dispatch channel.
pub open spec fn http_misroute_bytes() -> Seq<u8> {
    encode_utf8(
        "HTTP/1.1 404 Not Found\r\nContent-Type: application/json\r\n\r\n{\"error\":\"This is a TCP JSON API endpoint. HTTP requests should go to port 5001.\"}"@,
    )
}

/// The acknowledgement for an accepted dispatch.
pub open spec fn ok_response_bytes() -> Seq<u8> {
    encode_utf8("{\"status\":\"WMS_OK\",\"message\":\"Dispatch received\"}"@)
}

/// The error response carrying a reason.
pub open spec fn error_response_bytes(msg: Seq<u8>) -> Seq<u8> {
    encode_utf8("{\"status\":\"WMS_ERROR\",\"message\":\""@) + msg + encode_utf8("\"}"@)
}

/// The reason line for a message that did not decode.
pub open spec fn invalid_format_message() -> Seq<u8> {
    encode_utf8("Invalid JSON format"@)
}

/// The reason line for each business-rule rejection.
pub open spec fn reason_message(e: RejectReason) -> Seq<u8> {
    match e {
        RejectReason::UnknownItem(id) => encode_utf8("Error: Item "@) + spec_u32_bytes(id as nat)
            + encode_utf8(" not found in inventory"@),
        RejectReason::InsufficientStock(id) => encode_utf8(
            "Error: Insufficient inventory for item "@,
        ) + spec_u32_bytes(id as nat),
    }
}

/// The message opens like an HTTP-style request line. This is the narrow
/// compatibility shim that guides a misconfigured client to the query
/// surface; it is a prefix check, not protocol negotiation.
pub open spec fn spec_is_http_verb(s: Seq<u8>) -> bool {
    ||| spec_match(s, 0, encode_utf8("GET "@))
    ||| spec_match(s, 0, encode_utf8("POST "@))
    ||| spec_match(s, 0, encode_utf8("PUT "@))
    ||| spec_match(s, 0, encode_utf8("DELETE "@))
}

/// Append the UTF-8 bytes of a literal.
fn push_str_bytes(out: &mut Vec<u8>, s: &str)
    ensures
        final(out)@ == old(out)@ + encode_utf8(s@),
{
    out.extend_from_slice(s.as_bytes());
    proof {
        assert forall|i: int| 0 <= i < out@.len() implies out@[i] == (old(out)@ + encode_utf8(
            s@,
        ))[i] by {
            if i >= old(out)@.len() {
                assert(cloned::<u8>(encode_utf8(s@)[i - old(out)@.len()], out@[i]));
            }
        }
        assert(out@ =~= old(out)@ + encode_utf8(s@));
    }
}

/// The fixed misrouted-endpoint rejection.
pub fn http_misroute_response() -> (r: Vec<u8>)
    ensures
        r@ == http_misroute_bytes(),
{
    let mut out: Vec<u8> = Vec::new();
    push_str_bytes(
        &mut out,
        "HTTP/1.1 404 Not Found\r\nContent-Type: application/json\r\n\r\n{\"error\":\"This is a TCP JSON API endpoint. HTTP requests should go to port 5001.\"}",
    );
    proof {
        assert(out@ =~= http_misroute_bytes());
    }
    out
}

/// The acknowledgement for an accepted dispatch.
pub fn ok_response() -> (r: Vec<u8>)
    ensures
        r@ == ok_response_bytes(),
{
    let mut out: Vec<u8> = Vec::new();
    push_str_bytes(&mut out, "{\"status\":\"WMS_OK\",\"message\":\"Dispatch received\"}");
    proof {
        assert(out@ =~= ok_response_bytes());
    }
    out
}

/// The error response around a reason line.
pub fn error_response(msg: &Vec<u8>) -> (r: Vec<u8>)
    ensures
        r@ == error_response_bytes(msg@),
{
    let mut out: Vec<u8> = Vec::new();
    push_str_bytes(&mut out, "{\"status\":\"WMS_ERROR\",\"message\":\"");
    let ghost head = out@;
    out.extend_from_slice(msg.as_slice());
    proof {
        assert forall|i: int| 0 <= i < out@.len() implies out@[i] == (head + msg@)[i] by {
            if i >= head.len() {
                assert(cloned::<u8>(msg@[i - head.len()], out@[i]));
            }
        }
        assert(out@ =~= head + msg@);
    }
    push_str_bytes(&mut out, "\"}");
    proof {
        assert(out@ =~= error_response_bytes(msg@));
    }
    out
}

/// The reason line for a rejection.
pub fn reject_message(e: RejectReason) -> (r: Vec<u8>)
    ensures
        r@ == reason_message(e),
{
    let mut out: Vec<u8> = Vec::new();
    match e {
        RejectReason::UnknownItem(id) => {
            push_str_bytes(&mut out, "Error: Item ");
            push_u32(&mut out, id);
            push_str_bytes(&mut out, " not found in inventory");
            proof {
                assert(out@ =~= reason_message(e));
            }
        },
        RejectReason::InsufficientStock(id) => {
            push_str_bytes(&mut out, "Error: Insufficient inventory for item ");
            push_u32(&mut out, id);
            proof {
                assert(out@ =~= reason_message(e));
            }
        },
    }
    out
}

/// Whether the message opens like an HTTP-style request line.
pub fn is_http_verb(s: &[u8]) -> (r: bool)
    ensures
        r == spec_is_http_verb(s@),
{
    match_bytes(s, 0, "GET ".as_bytes()) || match_bytes(s, 0, "POST ".as_bytes()) || match_bytes(
        s,
        0,
        "PUT ".as_bytes(),
    ) || match_bytes(s, 0, "DELETE ".as_bytes())
}

/// One whole protocol exchange after the read: classify the message and
/// answer it. A misrouted or malformed message leaves the ledger untouched
/// and earns its fixed error; a well-formed request causes exactly one
/// `submit`, and the response reports that submission's outcome.
pub fn handle_message(ledger: &mut Ledger, input: &[u8]) -> (r: Vec<u8>)
    requires
        old(ledger).wf(),
        old(ledger).dispatches@.len() + 2 <= u32::MAX,
    ensures
        final(ledger).wf(),
        spec_is_http_verb(input@) ==> *final(ledger) == *old(ledger) && r@
            == http_misroute_bytes(),
        !spec_is_http_verb(input@) ==> match spec_decode_request(input@) {
            None => *final(ledger) == *old(ledger) && r@ == error_response_bytes(
                invalid_format_message(),
            ),
            Some(p) => post_submit(*old(ledger), *final(ledger), p.0, p.1) && r@ == match
                spec_process_items(old(ledger).inventory@, p.1) {
                Ok(_) => ok_response_bytes(),
                Err(e) => error_response_bytes(reason_message(e)),
            },
        },
{
    if is_http_verb(input) {
        return http_misroute_response();
    }
    match decode_request(input) {
        None => {
            let msg = invalid_format_msg();
            error_response(&msg)
        },
        Some((order_id, items)) => {
            let req = DispatchRequest { order_id, items };
            let reason = ledger.check_request(&req);
            let _rec = ledger.submit(req);
            match reason {
                None => ok_response(),
                Some(e) => {
                    let msg = reject_message(e);
                    error_response(&msg)
                },
            }
        },
    }
}

/// The reason line for a message that did not decode.
fn invalid_format_msg() -> (r: Vec<u8>)
    ensures
        r@ == invalid_format_message(),
{
    let mut out: Vec<u8> = Vec::new();
    push_str_bytes(&mut out, "Invalid JSON format");
    proof {
        assert(out@ =~= invalid_format_message());
    }
    out
}

} // verus!
