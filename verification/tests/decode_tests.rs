use smart_devices::fetch::{evaluate_response, FetchError};
use smart_devices::device::SmartDevice;

fn ok_of(r: Result<Vec<SmartDevice>, FetchError>) -> Vec<SmartDevice> {
    match r {
        Ok(ds) => ds,
        Err(e) => panic!("expected devices, got error: {}", e.message()),
    }
}

fn is_decode(r: &Result<Vec<SmartDevice>, FetchError>) -> bool {
    matches!(r, Err(FetchError::DecodeError(_)))
}

const ONE_DEVICE: &str = "[{\"id\":1,\"name\":\"Sensor A\",\"model\":\"X1\",\"avg_data_rate\":1.5,\"data_per_hour\":36.0,\"namespace_url\":\"ns://a\",\"description\":\"hallway sensor\",\"protocol\":\"MQTT\"}]";

#[test]
fn one_device_decodes_with_exact_fields() {
    let ds = ok_of(evaluate_response(200, ONE_DEVICE));
    assert_eq!(ds.len(), 1);
    let d = &ds[0];
    assert_eq!(d.id, 1);
    assert_eq!(d.name, "Sensor A");
    assert_eq!(d.model, "X1");
    assert_eq!(d.avg_data_rate, "1.5");
    assert_eq!(d.data_per_hour, "36.0");
    assert_eq!(d.namespace_url, "ns://a");
    assert_eq!(d.description, "hallway sensor");
    assert_eq!(d.protocol, "MQTT");
    assert_eq!(d.avg_data_rate.parse::<f64>().unwrap(), 1.5);
    assert_eq!(d.data_per_hour.parse::<f64>().unwrap(), 36.0);
}

#[test]
fn empty_array_decodes_to_no_devices() {
    let ds = ok_of(evaluate_response(200, "  [ ]  "));
    assert_eq!(ds.len(), 0);
}

#[test]
fn two_devices_keep_their_order() {
    let body = "[\n  {\"id\":2,\"name\":\"B\",\"model\":\"M\",\"avg_data_rate\":2,\"data_per_hour\":3,\"namespace_url\":\"n\",\"description\":\"d\",\"protocol\":\"p\"},\n  {\"id\":1,\"name\":\"A\",\"model\":\"M\",\"avg_data_rate\":4,\"data_per_hour\":5,\"namespace_url\":\"n\",\"description\":\"d\",\"protocol\":\"p\"}\n]";
    let ds = ok_of(evaluate_response(204, body));
    assert_eq!(ds.len(), 2);
    assert_eq!(ds[0].id, 2);
    assert_eq!(ds[0].name, "B");
    assert_eq!(ds[1].id, 1);
    assert_eq!(ds[1].name, "A");
}

#[test]
fn field_order_does_not_matter() {
    let body = "[{\"protocol\":\"p\",\"description\":\"d\",\"namespace_url\":\"n\",\"data_per_hour\":3,\"avg_data_rate\":2,\"model\":\"M\",\"name\":\"A\",\"id\":7}]";
    let ds = ok_of(evaluate_response(200, body));
    assert_eq!(ds[0].id, 7);
    assert_eq!(ds[0].name, "A");
}

#[test]
fn unknown_fields_are_ignored() {
    let body = "[{\"id\":1,\"extra\":{\"nested\":[1,2,{\"x\":null}],\"b\":true},\"name\":\"A\",\"model\":\"M\",\"avg_data_rate\":2,\"data_per_hour\":3,\"namespace_url\":\"n\",\"description\":\"d\",\"protocol\":\"p\",\"later\":false}]";
    let ds = ok_of(evaluate_response(200, body));
    assert_eq!(ds[0].id, 1);
}

#[test]
fn not_an_array_is_a_decode_error() {
    let r = evaluate_response(200, "{\"not\":\"an array\"}");
    assert!(is_decode(&r));
}

#[test]
fn malformed_json_is_a_decode_error() {
    assert!(is_decode(&evaluate_response(200, "[{\"id\":1")));
    assert!(is_decode(&evaluate_response(200, "")));
    assert!(is_decode(&evaluate_response(200, "devices")));
}

#[test]
fn missing_field_is_a_decode_error() {
    let body = "[{\"name\":\"A\",\"model\":\"M\",\"avg_data_rate\":2,\"data_per_hour\":3,\"namespace_url\":\"n\",\"description\":\"d\",\"protocol\":\"p\"}]";
    assert!(is_decode(&evaluate_response(200, body)));
}

#[test]
fn mistyped_id_is_a_decode_error() {
    let body = "[{\"id\":\"1\",\"name\":\"A\",\"model\":\"M\",\"avg_data_rate\":2,\"data_per_hour\":3,\"namespace_url\":\"n\",\"description\":\"d\",\"protocol\":\"p\"}]";
    assert!(is_decode(&evaluate_response(200, body)));
}

#[test]
fn fractional_id_is_a_decode_error() {
    let body = "[{\"id\":1.0,\"name\":\"A\",\"model\":\"M\",\"avg_data_rate\":2,\"data_per_hour\":3,\"namespace_url\":\"n\",\"description\":\"d\",\"protocol\":\"p\"}]";
    assert!(is_decode(&evaluate_response(200, body)));
}

#[test]
fn duplicate_field_is_a_decode_error() {
    let body = "[{\"id\":1,\"id\":2,\"name\":\"A\",\"model\":\"M\",\"avg_data_rate\":2,\"data_per_hour\":3,\"namespace_url\":\"n\",\"description\":\"d\",\"protocol\":\"p\"}]";
    assert!(is_decode(&evaluate_response(200, body)));
}

#[test]
fn id_at_the_32_bit_limit_decodes() {
    let body = "[{\"id\":4294967295,\"name\":\"A\",\"model\":\"M\",\"avg_data_rate\":2,\"data_per_hour\":3,\"namespace_url\":\"n\",\"description\":\"d\",\"protocol\":\"p\"}]";
    let ds = ok_of(evaluate_response(200, body));
    assert_eq!(ds[0].id, u32::MAX);
}

#[test]
fn id_past_the_32_bit_limit_is_a_decode_error() {
    let body = "[{\"id\":4294967296,\"name\":\"A\",\"model\":\"M\",\"avg_data_rate\":2,\"data_per_hour\":3,\"namespace_url\":\"n\",\"description\":\"d\",\"protocol\":\"p\"}]";
    assert!(is_decode(&evaluate_response(200, body)));
}

#[test]
fn rates_accept_every_number_shape() {
    let body = "[{\"id\":1,\"name\":\"A\",\"model\":\"M\",\"avg_data_rate\":-1.5e-3,\"data_per_hour\":0,\"namespace_url\":\"n\",\"description\":\"d\",\"protocol\":\"p\"}]";
    let ds = ok_of(evaluate_response(200, body));
    assert_eq!(ds[0].avg_data_rate, "-1.5e-3");
    assert_eq!(ds[0].avg_data_rate.parse::<f64>().unwrap(), -0.0015);
    assert_eq!(ds[0].data_per_hour, "0");
}

#[test]
fn rate_as_string_is_a_decode_error() {
    let body = "[{\"id\":1,\"name\":\"A\",\"model\":\"M\",\"avg_data_rate\":\"1.5\",\"data_per_hour\":3,\"namespace_url\":\"n\",\"description\":\"d\",\"protocol\":\"p\"}]";
    assert!(is_decode(&evaluate_response(200, body)));
}

#[test]
fn leading_zero_number_is_a_decode_error() {
    let body = "[{\"id\":01,\"name\":\"A\",\"model\":\"M\",\"avg_data_rate\":2,\"data_per_hour\":3,\"namespace_url\":\"n\",\"description\":\"d\",\"protocol\":\"p\"}]";
    assert!(is_decode(&evaluate_response(200, body)));
}

#[test]
fn string_escapes_are_resolved() {
    let body = "[{\"id\":1,\"name\":\"a\\\"b\\\\c\\nd\\u0041\",\"model\":\"M\",\"avg_data_rate\":2,\"data_per_hour\":3,\"namespace_url\":\"n\",\"description\":\"d\",\"protocol\":\"p\"}]";
    let ds = ok_of(evaluate_response(200, body));
    assert_eq!(ds[0].name, "a\"b\\c\ndA");
}

#[test]
fn surrogate_pair_escape_decodes() {
    let body = "[{\"id\":1,\"name\":\"\\uD83D\\uDE00\",\"model\":\"M\",\"avg_data_rate\":2,\"data_per_hour\":3,\"namespace_url\":\"n\",\"description\":\"d\",\"protocol\":\"p\"}]";
    let ds = ok_of(evaluate_response(200, body));
    assert_eq!(ds[0].name, "\u{1F600}");
}

#[test]
fn lone_surrogate_escape_is_a_decode_error() {
    let body = "[{\"id\":1,\"name\":\"\\uD83D\",\"model\":\"M\",\"avg_data_rate\":2,\"data_per_hour\":3,\"namespace_url\":\"n\",\"description\":\"d\",\"protocol\":\"p\"}]";
    assert!(is_decode(&evaluate_response(200, body)));
}

#[test]
fn raw_control_character_is_a_decode_error() {
    let body = "[{\"id\":1,\"name\":\"a\nb\",\"model\":\"M\",\"avg_data_rate\":2,\"data_per_hour\":3,\"namespace_url\":\"n\",\"description\":\"d\",\"protocol\":\"p\"}]";
    assert!(is_decode(&evaluate_response(200, body)));
}

#[test]
fn non_ascii_text_decodes() {
    let body = "[{\"id\":1,\"name\":\"Датчик температуры\",\"model\":\"M\",\"avg_data_rate\":2,\"data_per_hour\":3,\"namespace_url\":\"n\",\"description\":\"d\",\"protocol\":\"p\"}]";
    let ds = ok_of(evaluate_response(200, body));
    assert_eq!(ds[0].name, "Датчик температуры");
}

#[test]
fn trailing_text_after_the_array_is_a_decode_error() {
    assert!(is_decode(&evaluate_response(200, "[] []")));
    assert!(is_decode(&evaluate_response(200, "[]x")));
}

#[test]
fn empty_object_is_a_decode_error() {
    assert!(is_decode(&evaluate_response(200, "[{}]")));
}

#[test]
fn trailing_comma_is_a_decode_error() {
    let body = "[{\"id\":1,\"name\":\"A\",\"model\":\"M\",\"avg_data_rate\":2,\"data_per_hour\":3,\"namespace_url\":\"n\",\"description\":\"d\",\"protocol\":\"p\"},]";
    assert!(is_decode(&evaluate_response(200, body)));
}
