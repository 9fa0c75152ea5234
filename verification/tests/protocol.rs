use mock_wms::codec::decode_request;
use mock_wms::ledger::{DispatchStatus, Ledger};
use mock_wms::protocol::handle_message;

fn answer(l: &mut Ledger, message: &str) -> String {
    let bytes = message.as_bytes();
    String::from_utf8(handle_message(l, bytes)).expect("responses are UTF-8")
}

#[test]
fn accepted_request_gets_wms_ok() {
    let mut l = Ledger::new();
    let resp = answer(
        &mut l,
        "{\"order_id\":1,\"items\":[{\"item_id\":1,\"quantity\":30}]}\n",
    );
    assert_eq!(
        resp,
        "{\"status\":\"WMS_OK\",\"message\":\"Dispatch received\"}"
    );
    assert_eq!(l.lookup(1).unwrap().quantity, 70);
    assert_eq!(l.list_dispatches().len(), 1);
    assert_eq!(l.list_dispatches()[0].status, DispatchStatus::Processing);
}

#[test]
fn unknown_item_gets_wms_error_naming_it() {
    let mut l = Ledger::new();
    let resp = answer(
        &mut l,
        "{\"order_id\":2,\"items\":[{\"item_id\":99,\"quantity\":1}]}\n",
    );
    assert_eq!(
        resp,
        "{\"status\":\"WMS_ERROR\",\"message\":\"Error: Item 99 not found in inventory\"}"
    );
    assert_eq!(l.lookup(1).unwrap().quantity, 100);
    assert_eq!(l.lookup(2).unwrap().quantity, 200);
    assert_eq!(l.lookup(3).unwrap().quantity, 50);
    // The rejection is still recorded.
    assert_eq!(l.list_dispatches().len(), 1);
    assert_eq!(l.list_dispatches()[0].status, DispatchStatus::Rejected);
}

#[test]
fn insufficient_stock_gets_wms_error() {
    let mut l = Ledger::new();
    let resp = answer(
        &mut l,
        "{\"order_id\":3,\"items\":[{\"item_id\":3,\"quantity\":51}]}\n",
    );
    assert_eq!(
        resp,
        "{\"status\":\"WMS_ERROR\",\"message\":\"Error: Insufficient inventory for item 3\"}"
    );
    assert_eq!(l.lookup(3).unwrap().quantity, 50);
}

#[test]
fn http_request_gets_the_fixed_misroute_body() {
    let mut l = Ledger::new();
    let resp = answer(&mut l, "GET / HTTP/1.1\r\nHost: localhost\r\n\r\n");
    assert_eq!(
        resp,
        "HTTP/1.1 404 Not Found\r\nContent-Type: application/json\r\n\r\n{\"error\":\"This is a TCP JSON API endpoint. HTTP requests should go to port 5001.\"}"
    );
    // A misrouted request is answered before any decode: no dispatch exists.
    assert!(l.list_dispatches().is_empty());
}

#[test]
fn other_http_verbs_are_misroutes_too() {
    for msg in ["POST /inventory HTTP/1.1\r\n", "PUT /x HTTP/1.1\r\n", "DELETE /x HTTP/1.1\r\n"] {
        let mut l = Ledger::new();
        let resp = answer(&mut l, msg);
        assert!(resp.starts_with("HTTP/1.1 404 Not Found"));
        assert!(l.list_dispatches().is_empty());
    }
}

#[test]
fn malformed_message_gets_invalid_format() {
    let mut l = Ledger::new();
    for msg in [
        "hello\n",
        "{\"order_id\":1}\n",
        "{\"items\":[],\"order_id\":1}\n",
        "{\"order_id\":1,\"items\":[{\"item_id\":1,\"quantity\":30}]",
        "{\"order_id\":-1,\"items\":[]}\n",
        "",
    ] {
        let resp = answer(&mut l, msg);
        assert_eq!(
            resp,
            "{\"status\":\"WMS_ERROR\",\"message\":\"Invalid JSON format\"}"
        );
    }
    // No decode succeeded, so no dispatch was created and no stock moved.
    assert!(l.list_dispatches().is_empty());
    assert_eq!(l.lookup(1).unwrap().quantity, 100);
}

#[test]
fn blank_space_between_tokens_is_accepted() {
    let mut l = Ledger::new();
    let resp = answer(
        &mut l,
        " {\t\"order_id\" : 9 ,\r\n \"items\" : [ { \"item_id\" : 2 , \"quantity\" : 5 } , {\"item_id\": 3, \"quantity\": 1} ] } \n",
    );
    assert_eq!(
        resp,
        "{\"status\":\"WMS_OK\",\"message\":\"Dispatch received\"}"
    );
    assert_eq!(l.lookup(2).unwrap().quantity, 195);
    assert_eq!(l.lookup(3).unwrap().quantity, 49);
}

#[test]
fn decode_request_reads_the_fields() {
    let decoded = decode_request(
        "{\"order_id\":42,\"items\":[{\"item_id\":7,\"quantity\":8},{\"item_id\":9,\"quantity\":10}]}".as_bytes(),
    )
    .expect("well-formed request");
    assert_eq!(decoded.0, 42);
    assert_eq!(decoded.1.len(), 2);
    assert_eq!(decoded.1[0].item_id, 7);
    assert_eq!(decoded.1[0].quantity, 8);
    assert_eq!(decoded.1[1].item_id, 9);
    assert_eq!(decoded.1[1].quantity, 10);
}

#[test]
fn decode_request_accepts_an_empty_line_list() {
    let decoded = decode_request("{\"order_id\":0,\"items\":[]}\n".as_bytes())
        .expect("well-formed request");
    assert_eq!(decoded.0, 0);
    assert!(decoded.1.is_empty());
}

#[test]
fn decode_request_bounds_numbers_to_u32() {
    assert!(decode_request("{\"order_id\":4294967295,\"items\":[]}".as_bytes()).is_some());
    assert!(decode_request("{\"order_id\":4294967296,\"items\":[]}".as_bytes()).is_none());
    assert!(
        decode_request(
            "{\"order_id\":1,\"items\":[{\"item_id\":1,\"quantity\":99999999999}]}".as_bytes()
        )
        .is_none()
    );
}

#[test]
fn decode_request_rejects_trailing_garbage() {
    assert!(decode_request("{\"order_id\":1,\"items\":[]} x".as_bytes()).is_none());
    assert!(decode_request("{\"order_id\":1,\"items\":[]}{}".as_bytes()).is_none());
    assert!(decode_request("{\"order_id\":1,\"items\":[]} \r\n".as_bytes()).is_some());
}

#[test]
fn large_item_id_is_echoed_in_full() {
    let mut l = Ledger::new();
    let resp = answer(
        &mut l,
        "{\"order_id\":5,\"items\":[{\"item_id\":4294967295,\"quantity\":1}]}\n",
    );
    assert_eq!(
        resp,
        "{\"status\":\"WMS_ERROR\",\"message\":\"Error: Item 4294967295 not found in inventory\"}"
    );
}
