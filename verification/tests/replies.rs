use webability_rust::mail::{queue_status, Address, Mail, Recipient, SendRequest};
use webability_rust::{interpret_reply, ErrorBody, Reply, WaApi, WaError};

#[test]
fn received_reply_is_the_response() {
    let r = interpret_reply(Reply::Received { status_code: 200, text: "{\"ok\":\"ñ\"}".to_string() });
    let resp = r.unwrap();
    assert_eq!(resp.status_code, 200);
    assert_eq!(resp.body, "{\"ok\":\"ñ\"}".as_bytes().to_vec());
}

#[test]
fn refused_with_message_is_api_error() {
    let r = interpret_reply(Reply::Refused {
        status_code: 422,
        error_body: Some(ErrorBody { code: Some(3025), message: Some("plantilla".to_string()) }),
    });
    match r {
        Err(WaError::Api { status_code, code, message }) => {
            assert_eq!(status_code, 422);
            assert_eq!(code, Some(3025));
            assert_eq!(message, "plantilla");
        }
        _ => panic!("expected an API error"),
    }
}

#[test]
fn refused_without_message_names_the_status() {
    let r = interpret_reply(Reply::Refused {
        status_code: 404,
        error_body: Some(ErrorBody { code: Some(1), message: None }),
    });
    match r {
        Err(WaError::Transport(m)) => assert_eq!(m, "error HTTP 404"),
        _ => panic!("expected a transport error"),
    }
    let r = interpret_reply(Reply::Refused { status_code: 503, error_body: None });
    match r {
        Err(WaError::Transport(m)) => assert_eq!(m, "error HTTP 503"),
        _ => panic!("expected a transport error"),
    }
}

#[test]
fn failed_reply_is_transport_error() {
    match interpret_reply(Reply::Failed { detail: "connection refused".to_string() }) {
        Err(WaError::Transport(m)) => assert_eq!(m, "connection refused"),
        _ => panic!("expected a transport error"),
    }
}

#[test]
fn error_texts() {
    let e = WaError::Api { status_code: 400, code: Some(-7), message: "bad".to_string() };
    assert_eq!(e.describe(), "wa api error Some(-7): bad");
    let e = WaError::Api { status_code: 400, code: None, message: "bad".to_string() };
    assert_eq!(e.describe(), "wa api error None: bad");
    assert_eq!(WaError::Transport("x".to_string()).describe(), "enviando request: x");
    assert_eq!(WaError::Decode("y".to_string()).describe(), "decodificando respuesta: y");
}

fn request() -> SendRequest {
    SendRequest {
        from: Address { email: "a@b.c".to_string(), name: "A".to_string() },
        to: Recipient {
            email: "d@e.f".to_string(),
            name: "D".to_string(),
            vars: std::collections::HashMap::new(),
        },
        template: String::new(),
        subject: "s".to_string(),
        html: String::new(),
        text: "t".to_string(),
        tags: vec![],
        track_opens: false,
        track_clicks: false,
        wait_send: false,
    }
}

#[test]
fn mail_is_not_offered_yet() {
    let api = WaApi::new("c", "t");
    let mail = Mail::new(&api);
    match mail.send(request()) {
        Err(WaError::Decode(m)) => {
            assert_eq!(m, "Mail::send() aún no está implementado en el SDK de Rust")
        }
        _ => panic!("expected a decode error"),
    }
    match mail.status(5) {
        Err(WaError::Decode(m)) => {
            assert_eq!(m, "Mail::status() aún no está implementado en el SDK de Rust")
        }
        _ => panic!("expected a decode error"),
    }
}

#[test]
fn queue_status_values() {
    assert_eq!(queue_status::PENDING, "pending");
    assert_eq!(queue_status::PROCESSING, "processing");
    assert_eq!(queue_status::SENT, "sent");
    assert_eq!(queue_status::ERROR, "error");
}

#[test]
fn received_reply_keeps_redirect_status() {
    let resp = interpret_reply(Reply::Received { status_code: 399, text: String::new() }).unwrap();
    assert_eq!(resp.status_code, 399);
    assert!(resp.body.is_empty());
}

#[test]
fn refused_at_400_is_an_error() {
    match interpret_reply(Reply::Refused { status_code: 400, error_body: None }) {
        Err(WaError::Transport(m)) => assert_eq!(m, "error HTTP 400"),
        _ => panic!("expected a transport error"),
    }
}
