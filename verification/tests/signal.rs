use viewpoint::signal::{
    offer_body, succeeded, AnswerPoll, IceConfig, Method, Reply, SignalClient, SignalError,
};

fn client() -> SignalClient {
    match SignalClient::new(
        "http://127.0.0.1:8080/",
        "https://example.org//",
        "secret".to_owned(),
        Ok(()),
    ) {
        Ok(client) => client,
        Err(error) => panic!("{}", error.message()),
    }
}

fn lost<T>() -> Reply<T> {
    Reply::Lost { status: None, source: "unreachable".to_owned() }
}

fn text_of<T>(result: Result<T, SignalError>) -> (Option<u16>, String) {
    match result {
        Ok(_) => panic!("no error"),
        Err(error) => (error.status, error.message()),
    }
}

#[test]
fn clients_need_an_http_client() {
    let error = text_of(SignalClient::new("a", "b", "c".to_owned(), Err("no tls".to_owned())));
    assert_eq!(error, (None, "build http client: no tls".to_owned()));
}

#[test]
fn requests_go_to_the_operators_address() {
    let client = client();
    assert_eq!(client.ticket_url("L1"), "https://example.org/v/L1");
    let request = client.mint_link_request();
    assert_eq!(request.method, Method::Post);
    assert_eq!(request.url, "http://127.0.0.1:8080/api/links");
    assert_eq!(request.bearer, Some("secret".to_owned()));
    assert_eq!(request.body, None);
    let request = client.list_sessions_request("L1");
    assert_eq!(request.method, Method::Get);
    assert_eq!(request.url, "http://127.0.0.1:8080/api/links/L1/sessions");
    assert_eq!(request.bearer, Some("secret".to_owned()));
    let request = client.fetch_ice_request("L1");
    assert_eq!(request.url, "http://127.0.0.1:8080/api/session/L1/ice");
    assert_eq!(request.bearer, None);
    let request = client.leave_count_request("L1", "S1");
    assert_eq!(request.url, "http://127.0.0.1:8080/api/session/L1/S1/leave");
    assert_eq!(request.bearer, Some("secret".to_owned()));
    let request = client.poll_answer_request("L1", "S1");
    assert_eq!(request.method, Method::Get);
    assert_eq!(request.url, "http://127.0.0.1:8080/api/session/L1/S1/answer");
}

#[test]
fn offers_are_sent_as_json() {
    let request = client().publish_offer_request("L1", "S1", "v=0\r\no=\"x\"\\");
    assert_eq!(request.method, Method::Post);
    assert_eq!(request.url, "http://127.0.0.1:8080/api/session/L1/S1/offer");
    assert_eq!(request.body, Some("{\"sdp\":\"v=0\\r\\no=\\\"x\\\"\\\\\"}".to_owned()));
    assert_eq!(offer_body("1"), "{\"sdp\":1}");
    let controls: String = (0..0x20u8).map(char::from).collect();
    let request = client().publish_offer_request("L1", "S1", &controls);
    assert_eq!(
        request.body,
        Some(
            "{\"sdp\":\"\\u0000\\u0001\\u0002\\u0003\\u0004\\u0005\\u0006\\u0007\\b\\t\\n\\u000b\\f\\r\
             \\u000e\\u000f\\u0010\\u0011\\u0012\\u0013\\u0014\\u0015\\u0016\\u0017\\u0018\\u0019\\u001a\
             \\u001b\\u001c\\u001d\\u001e\\u001f\"}"
                .to_owned()
        )
    );
    let request = client().publish_offer_request("L1", "S1", "/ \u{7f}\u{e9}\u{2028}\u{1f600}");
    assert_eq!(request.body, Some("{\"sdp\":\"/ \u{7f}\u{e9}\u{2028}\u{1f600}\"}".to_owned()));
}

#[test]
fn replies_bring_values() {
    let client = client();
    let reply = Reply::Answered { code: 201, body: Ok("L2".to_owned()) };
    assert!(matches!(client.mint_link(reply), Ok(link) if link == "L2"));
    let reply = Reply::Answered { code: 200, body: Ok(vec!["a".to_owned(), "b".to_owned()]) };
    assert!(matches!(client.list_sessions(reply), Ok(sessions) if sessions.len() == 2));
    let reply = Reply::Answered { code: 200, body: Ok(3) };
    assert!(matches!(client.leave_count(reply), Ok(3)));
    let config = IceConfig {
        stun_urls: vec![],
        turn_url: "turn:x".to_owned(),
        turn_username: "u".to_owned(),
        turn_password: "p".to_owned(),
    };
    let reply = Reply::Answered { code: 200, body: Ok(config) };
    assert!(matches!(client.fetch_ice(reply), Ok(config) if config.turn_url == "turn:x"));
    assert!(client.publish_offer(Reply::Answered { code: 204, body: Ok(()) }).is_ok());
}

#[test]
fn refusals_name_the_status() {
    let client = client();
    let body: Result<String, String> = Ok("L2".to_owned());
    let error = text_of(client.mint_link(Reply::Answered { code: 403, body }));
    assert_eq!(error, (Some(403), "mint link: server said 403 Forbidden".to_owned()));
    let reply = Reply::Answered { code: 404, body: Err(String::new()) };
    match client.list_sessions(reply) {
        Err(error) => {
            assert!(error.not_found());
            assert_eq!(error.message(), "list sessions: server said 404 Not Found");
        }
        Ok(_) => panic!("listed"),
    }
    let error = text_of(client.publish_offer(Reply::Answered { code: 200, body: Ok(()) }));
    assert_eq!(error, (Some(200), "publish offer: server said 200 OK".to_owned()));
    let reply = Reply::Answered { code: 500, body: Err(String::new()) };
    let error = text_of(client.fetch_ice(reply));
    assert_eq!(
        error,
        (Some(500), "fetch ice: server said 500 Internal Server Error".to_owned())
    );
    let error = SignalError::refused(799, "x");
    assert_eq!(error.message(), "x: server said 799 <unknown status code>");
}

#[test]
fn lost_and_unreadable_replies_are_told_apart() {
    let client = client();
    assert_eq!(text_of(client.mint_link(lost())), (None, "mint link: unreachable".to_owned()));
    assert_eq!(
        text_of(client.list_sessions(lost())),
        (None, "list sessions: unreachable".to_owned())
    );
    assert_eq!(
        text_of(client.publish_offer(lost())),
        (None, "publish offer: unreachable".to_owned())
    );
    assert_eq!(text_of(client.fetch_ice(lost())), (None, "fetch ice: unreachable".to_owned()));
    assert_eq!(text_of(client.leave_count(lost())), (None, "leave count: unreachable".to_owned()));
    let reply = Reply::Answered { code: 200, body: Err("not a number".to_owned()) };
    assert_eq!(text_of(client.leave_count(reply)), (None, "read leaves: not a number".to_owned()));
    let reply = Reply::Answered { code: 200, body: Err("eof".to_owned()) };
    assert_eq!(text_of(client.mint_link(reply)), (None, "read link: eof".to_owned()));
    let reply = Reply::Answered { code: 200, body: Err("eof".to_owned()) };
    assert_eq!(text_of(client.list_sessions(reply)), (None, "read sessions: eof".to_owned()));
    let reply = Reply::Answered { code: 200, body: Err("eof".to_owned()) };
    assert_eq!(text_of(client.fetch_ice(reply)), (None, "read ice: eof".to_owned()));
}

#[test]
fn answers_are_polled_for_until_the_deadline() {
    let client = client();
    let none = || Reply::Answered { code: 204, body: Err(String::new()) };
    assert!(matches!(client.poll_answer(none(), 9, 10), AnswerPoll::Pause(500)));
    match client.poll_answer(none(), 10, 10) {
        AnswerPoll::Fail(error) => {
            assert_eq!(error.message(), "no viewer answered in time; open the link and retry");
        }
        _ => panic!("went on"),
    }
    let reply = Reply::Answered { code: 200, body: Ok("v=0".to_owned()) };
    assert!(matches!(client.poll_answer(reply, 99, 10), AnswerPoll::Answer(sdp) if sdp == "v=0"));
    let reply = Reply::Answered { code: 200, body: Err("eof".to_owned()) };
    match client.poll_answer(reply, 0, 10) {
        AnswerPoll::Fail(error) => assert_eq!(error.message(), "read answer: eof"),
        _ => panic!("went on"),
    }
    let reply = Reply::Answered { code: 410, body: Ok(String::new()) };
    match client.poll_answer(reply, 0, 10) {
        AnswerPoll::Fail(error) => {
            assert_eq!(error.status, Some(410));
            assert_eq!(error.message(), "poll answer: server said 410 Gone");
        }
        _ => panic!("went on"),
    }
    match client.poll_answer(lost(), 0, 10) {
        AnswerPoll::Fail(error) => assert_eq!(error.message(), "poll answer: unreachable"),
        _ => panic!("went on"),
    }
}

#[test]
fn success_lies_in_the_two_hundreds() {
    assert!(succeeded(200));
    assert!(succeeded(299));
    assert!(!succeeded(199));
    assert!(!succeeded(300));
}

#[test]
fn errors_are_made_of_texts() {
    let error = SignalError::failed("x".to_owned());
    assert_eq!((error.status, error.message()), (None, "x".to_owned()));
    assert!(!error.not_found());
    assert_eq!(SignalError::from("y").message(), "y");
    assert_eq!(SignalError::from("z".to_owned()).message(), "z");
    let error = SignalError::transport(Some(404), "gone", "ask");
    assert!(error.not_found());
    assert_eq!(error.message(), "ask: gone");
    assert_eq!(SignalError::refused_with(400, "400 Bad", "ask").message(), "ask: server said 400 Bad");
}
