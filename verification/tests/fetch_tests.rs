use smart_devices::fetch::{evaluate_response, fetch_outcome, FetchError, FetchEvent};
use smart_devices::endpoint::Endpoint;
use smart_devices::is_success_status;

const ONE_DEVICE_BODY: &str = "[{\"id\":1,\"name\":\"Sensor A\",\"model\":\"X1\",\"avg_data_rate\":1.5,\"data_per_hour\":36.0,\"namespace_url\":\"ns://a\",\"description\":\"hallway sensor\",\"protocol\":\"MQTT\"}]";

#[test]
fn status_503_with_empty_body_is_an_http_status_error() {
    let r = evaluate_response(503, "");
    match r {
        Err(FetchError::HttpStatusError(status)) => assert_eq!(status, 503),
        _ => panic!("expected an http status error"),
    }
}

#[test]
fn any_non_2xx_status_wins_over_a_valid_body() {
    for status in [100u16, 199, 300, 301, 404, 500] {
        let r = evaluate_response(status, ONE_DEVICE_BODY);
        match r {
            Err(FetchError::HttpStatusError(s)) => assert_eq!(s, status),
            _ => panic!("expected an http status error for {}", status),
        }
    }
}

#[test]
fn every_2xx_status_is_a_success() {
    assert!(is_success_status(200));
    assert!(is_success_status(204));
    assert!(is_success_status(299));
    assert!(!is_success_status(199));
    assert!(!is_success_status(300));
    assert!(!is_success_status(503));
}

#[test]
fn transport_failure_is_a_network_error() {
    let r = fetch_outcome(FetchEvent::TransportFailed(String::from("connection refused")));
    match r {
        Err(FetchError::NetworkError(d)) => assert_eq!(d, "connection refused"),
        _ => panic!("expected a network error"),
    }
}

#[test]
fn a_response_event_is_judged_like_the_response() {
    let r = fetch_outcome(FetchEvent::Responded(200, String::from(ONE_DEVICE_BODY)));
    let ds = r.expect("the body decodes");
    assert_eq!(ds.len(), 1);
    assert_eq!(ds[0].id, 1);
}

#[test]
fn repeated_fetches_of_an_unchanged_response_agree() {
    let r1 = fetch_outcome(FetchEvent::Responded(200, String::from(ONE_DEVICE_BODY)));
    let r2 = fetch_outcome(FetchEvent::Responded(200, String::from(ONE_DEVICE_BODY)));
    let d1 = r1.expect("decodes");
    let d2 = r2.expect("decodes");
    assert_eq!(d1, d2);
    let e1 = fetch_outcome(FetchEvent::Responded(503, String::from("")));
    let e2 = fetch_outcome(FetchEvent::Responded(503, String::from("")));
    assert_eq!(e1.unwrap_err().message(), e2.unwrap_err().message());
}

#[test]
fn messages_name_the_error_kind() {
    let net = FetchError::NetworkError(String::from("no route to host")).message();
    assert_eq!(net, "network error: no route to host");
    let status = FetchError::HttpStatusError(503).message();
    assert_eq!(status, "http status error: 503");
    let decode = evaluate_response(200, "nonsense").unwrap_err().message();
    assert_eq!(decode, "decode error: response body is not a JSON array of smart devices");
}

#[test]
fn the_default_endpoint_names_the_local_service() {
    let e = Endpoint::local_default();
    assert_eq!(e.url(), "http://192.168.1.12:3000/api/smart-devices");
}

#[test]
fn the_url_follows_host_and_port() {
    let e = Endpoint { host: String::from("localhost"), port: 65535 };
    assert_eq!(e.url(), "http://localhost:65535/api/smart-devices");
    let e = Endpoint { host: String::from("10.0.0.7"), port: 80 };
    assert_eq!(e.url(), "http://10.0.0.7:80/api/smart-devices");
}
