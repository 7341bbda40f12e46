use remote_mouse::handshake::{
    check_request, make_rejection, Rejection, Settings, TungsteniteCallback, BAD_REQUEST,
    FORBIDDEN, HEADER_CAPACITY, HEADER_LIMIT, SUBPROTOCOL,
};
use tokio_tungstenite::tungstenite::http::{HeaderName, Request, Response, Version};

fn settings(origin: &[&str]) -> Settings {
    Settings {
        origin: origin.iter().map(|o| (*o).to_owned()).collect(),
        ping_time: 0,
    }
}

fn request(headers: &[(&str, &str)]) -> Request<()> {
    let mut builder = Request::builder().uri("/mouse/ws");
    for (name, value) in headers {
        builder = builder.header(*name, *value);
    }
    builder.body(()).unwrap()
}

fn response() -> Response<()> {
    Response::builder()
        .status(101)
        .header("Upgrade", "websocket")
        .body(())
        .unwrap()
}

fn rejected(origin: &[&str], headers: &[(&str, &str)], status: u16, message: &str) {
    let settings = settings(origin);
    let callback = TungsteniteCallback {
        settings: &settings,
    };
    let rejection = callback
        .on_request(&request(headers), response())
        .unwrap_err();
    assert_eq!(rejection.status().as_u16(), status);
    assert_eq!(rejection.headers().len(), 1);
    assert_eq!(
        rejection.headers()["content-type"],
        "text/plain; charset=UTF-8"
    );
    assert_eq!(rejection.body().as_deref(), Some(message));
}

fn accepted(origin: &[&str], headers: &[(&str, &str)]) {
    let settings = settings(origin);
    let callback = TungsteniteCallback {
        settings: &settings,
    };
    let response = callback.on_request(&request(headers), response()).unwrap();
    assert_eq!(response.status().as_u16(), 101);
    assert_eq!(response.headers().len(), 2);
    assert_eq!(response.headers()["upgrade"], "websocket");
    assert_eq!(response.headers()["sec-websocket-protocol"], SUBPROTOCOL);
}

#[test]
fn subprotocol_name() {
    assert_eq!(SUBPROTOCOL, "ca.chead.remote-mouse.packets");
}

#[test]
fn request_without_subprotocol_is_rejected() {
    rejected(&[], &[], 400, "Subprotocol not specified");
    rejected(
        &["https://example.com"],
        &[("Origin", "https://example.com")],
        400,
        "Subprotocol not specified",
    );
}

#[test]
fn request_for_another_subprotocol_is_rejected() {
    rejected(
        &[],
        &[("Sec-WebSocket-Protocol", "chat")],
        400,
        "Requested subprotocol not supported",
    );
    rejected(
        &[],
        &[("Sec-WebSocket-Protocol", "ca.chead.remote-mouse.packets, chat")],
        400,
        "Requested subprotocol not supported",
    );
}

#[test]
fn only_the_first_subprotocol_header_counts() {
    rejected(
        &[],
        &[
            ("Sec-WebSocket-Protocol", "chat"),
            ("Sec-WebSocket-Protocol", SUBPROTOCOL),
        ],
        400,
        "Requested subprotocol not supported",
    );
    accepted(
        &[],
        &[
            ("Sec-WebSocket-Protocol", SUBPROTOCOL),
            ("Sec-WebSocket-Protocol", "chat"),
        ],
    );
}

#[test]
fn any_origin_is_accepted_by_default() {
    accepted(&[], &[("Sec-WebSocket-Protocol", SUBPROTOCOL)]);
    accepted(
        &[],
        &[
            ("Sec-WebSocket-Protocol", SUBPROTOCOL),
            ("Origin", "https://elsewhere.example"),
        ],
    );
}

#[test]
fn request_without_origin_is_rejected() {
    rejected(
        &["https://example.com"],
        &[("Sec-WebSocket-Protocol", SUBPROTOCOL)],
        400,
        "Origin not specified",
    );
}

#[test]
fn request_from_another_origin_is_rejected() {
    rejected(
        &["https://example.com"],
        &[
            ("Sec-WebSocket-Protocol", SUBPROTOCOL),
            ("Origin", "https://example.org"),
        ],
        403,
        "Non-permitted origin",
    );
    rejected(
        &["https://example.com"],
        &[
            ("Sec-WebSocket-Protocol", SUBPROTOCOL),
            ("Origin", "https://example.com/"),
        ],
        403,
        "Non-permitted origin",
    );
}

#[test]
fn request_from_a_permitted_origin_is_accepted() {
    for origin in ["https://example.com", "https://example.org"] {
        accepted(
            &["https://example.com", "https://example.org"],
            &[("Sec-WebSocket-Protocol", SUBPROTOCOL), ("Origin", origin)],
        );
    }
}

#[test]
fn subprotocol_replaces_an_earlier_one() {
    let settings = settings(&[]);
    let response = Response::builder()
        .header("Sec-WebSocket-Protocol", "chat")
        .body(())
        .unwrap();
    let response = TungsteniteCallback {
        settings: &settings,
    }
    .on_request(
        &request(&[("Sec-WebSocket-Protocol", SUBPROTOCOL)]),
        response,
    )
    .unwrap();
    let values: Vec<_> = response
        .headers()
        .get_all("sec-websocket-protocol")
        .iter()
        .collect();
    assert_eq!(values, vec![SUBPROTOCOL]);
}

#[test]
fn ordinary_responses_can_be_answered() {
    let settings = settings(&[]);
    let callback = TungsteniteCallback {
        settings: &settings,
    };
    let answer = callback
        .try_on_request(
            &request(&[("Sec-WebSocket-Protocol", SUBPROTOCOL)]),
            response(),
        )
        .unwrap()
        .unwrap();
    assert_eq!(answer.headers()["sec-websocket-protocol"], SUBPROTOCOL);
    let rejection = callback
        .try_on_request(&request(&[]), response())
        .unwrap()
        .unwrap_err();
    assert_eq!(rejection.status().as_u16(), 400);
}

/// A response with `count` different headers.
fn crowded(count: usize) -> Response<()> {
    let mut response = response();
    for i in 1..count {
        let name = HeaderName::from_bytes(format!("x-{i}").as_bytes()).unwrap();
        response
            .headers_mut()
            .insert(name, "1".parse().unwrap());
    }
    assert_eq!(response.headers().keys_len(), count);
    response
}

#[test]
fn crowded_response_can_accept_while_there_is_room() {
    let settings = settings(&[]);
    let callback = TungsteniteCallback {
        settings: &settings,
    };
    let good = request(&[("Sec-WebSocket-Protocol", SUBPROTOCOL)]);
    for count in [HEADER_LIMIT - 1, HEADER_LIMIT, 7000, HEADER_CAPACITY - 1] {
        let answer = callback
            .try_on_request(&good, crowded(count))
            .unwrap()
            .unwrap();
        assert_eq!(answer.headers().keys_len(), count + 1);
        assert_eq!(answer.headers()["sec-websocket-protocol"], SUBPROTOCOL);
    }
}

#[test]
fn full_response_cannot_accept() {
    let settings = settings(&[]);
    let callback = TungsteniteCallback {
        settings: &settings,
    };
    let good = request(&[("Sec-WebSocket-Protocol", SUBPROTOCOL)]);
    assert!(callback
        .try_on_request(&good, crowded(HEADER_CAPACITY))
        .is_none());
    assert!(callback
        .try_on_request(&request(&[]), crowded(HEADER_CAPACITY))
        .unwrap()
        .is_err());
}

#[test]
fn version_and_extensions_of_the_response_are_kept() {
    let settings = settings(&[]);
    let response = Response::builder()
        .version(Version::HTTP_10)
        .extension(17_u8)
        .body(())
        .unwrap();
    let response = TungsteniteCallback {
        settings: &settings,
    }
    .on_request(
        &request(&[("Sec-WebSocket-Protocol", SUBPROTOCOL)]),
        response,
    )
    .unwrap();
    assert_eq!(response.version(), Version::HTTP_10);
    assert_eq!(response.extensions().len(), 1);
    assert_eq!(response.extensions().get::<u8>(), Some(&17));
}

#[test]
fn rejections_carry_status_and_text() {
    let rejection = make_rejection(418, "Short and stout");
    assert_eq!(rejection.status().as_u16(), 418);
    assert_eq!(
        rejection.headers()["content-type"],
        "text/plain; charset=UTF-8"
    );
    assert_eq!(rejection.body().as_deref(), Some("Short and stout"));
    assert_eq!(rejection.version(), Version::HTTP_11);
    assert!(rejection.extensions().is_empty());
}

#[test]
fn header_values_are_checked() {
    let settings = settings(&["https://example.com"]);
    assert_eq!(
        check_request(&settings, Some(SUBPROTOCOL.as_bytes()), Some(b"\xFF")),
        Err(Rejection {
            status: FORBIDDEN,
            message: "Non-permitted origin"
        })
    );
    assert_eq!(
        check_request(&settings, None, None),
        Err(Rejection {
            status: BAD_REQUEST,
            message: "Subprotocol not specified"
        })
    );
    assert_eq!(
        check_request(
            &settings,
            Some(SUBPROTOCOL.as_bytes()),
            Some(b"https://example.com")
        ),
        Ok(())
    );
}

#[test]
fn more_origins_accept_more() {
    let few = settings(&["https://example.com"]);
    let many = settings(&["https://example.com", "https://example.org"]);
    let protocol = Some(SUBPROTOCOL.as_bytes());
    let first: Option<&[u8]> = Some(b"https://example.com");
    let second: Option<&[u8]> = Some(b"https://example.org");
    assert!(check_request(&few, protocol, first).is_ok());
    assert!(check_request(&many, protocol, first).is_ok());
    assert!(check_request(&few, protocol, second).is_err());
    assert!(check_request(&many, protocol, second).is_ok());
}
