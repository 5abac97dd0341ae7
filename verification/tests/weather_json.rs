use weather_forecast::json::{
    fetch_weather, is_weather_layout, numbers_fit_in, parse_weather_json, utf8_bytes,
    weather_from_response, Json, JsonNumber,
};
use weather_forecast::types::HttpError;

const LONDON: &str = r#"{"coord":{"lon":-0.13,"lat":51.51},"weather":[{"id":803,"main":"Clouds","description":"broken clouds","icon":"04n"}],"base":"stations","main":{"temp":277.69,"feels_like":272.73,"temp_min":275.93,"temp_max":279.15,"pressure":1033,"humidity":81},"visibility":10000,"wind":{"speed":4.6,"deg":240},"clouds":{"all":51},"dt":1578119710,"sys":{"type":1,"id":1414,"country":"GB","sunrise":1578125144,"sunset":1578153856},"timezone":0,"id":2643743,"name":"London","cod":200}"#;

fn whole(n: u64) -> JsonNumber {
    JsonNumber { integer: n, fraction: 0, fraction_length: 0, exponent: 0, negative: false }
}

#[test]
fn reads_the_sample_response() {
    let report = weather_from_response(200, LONDON.as_bytes()).unwrap().unwrap();
    assert_eq!(report.main, b"Clouds".to_vec());
    assert_eq!(report.description, b"broken clouds".to_vec());
    assert_eq!(report.icon, b"04n".to_vec());
    assert_eq!(report.city, b"London".to_vec());
    assert_eq!(
        report.temp,
        JsonNumber { integer: 277, fraction: 69, fraction_length: 2, exponent: 0, negative: false }
    );
    assert_eq!(report.humidity, whole(81));
    assert_eq!(
        report.wind,
        JsonNumber { integer: 4, fraction: 6, fraction_length: 1, exponent: 0, negative: false }
    );
    assert_eq!(report.clouds, whole(51));
    assert_eq!(report.time, whole(1578119710));
    assert_eq!(report.sunrise, whole(1578125144));
    assert_eq!(report.sunset, whole(1578153856));
}

#[test]
fn readings_are_taken_by_position() {
    let renamed = LONDON.replace("\"name\"", "\"town\"").replace("London", "Paris");
    let report = weather_from_response(200, renamed.as_bytes()).unwrap().unwrap();
    assert_eq!(report.city, b"Paris".to_vec());
}

#[test]
fn a_status_other_than_200_is_refused() {
    match weather_from_response(404, LONDON.as_bytes()) {
        Some(Err(e)) => assert_eq!(e, HttpError::Unknown),
        other => panic!("unexpected {:?}", other),
    }
}

#[test]
fn bad_bodies_give_no_report() {
    assert!(weather_from_response(200, &[0xff, 0xfe]).is_none());
    assert!(weather_from_response(200, b"{\"weather\": ").is_none());
    assert!(weather_from_response(200, b"{\"a\": 1}").is_none());
}

#[test]
fn layout_check_and_direct_parse_agree() {
    let short = Json::Object(vec![(vec!['a'], Json::Null)]);
    assert!(!is_weather_layout(&short));

    let text = |s: &str| Json::Text(s.chars().collect());
    let num = |n: u64| Json::Number(whole(n));
    let obj = |items: Vec<Json>| Json::Object(items.into_iter().map(|v| (vec!['k'], v)).collect());
    let json = obj(vec![
        Json::Null,
        Json::Array(vec![obj(vec![num(1), text("Rain"), text("light rain"), text("10d")])]),
        Json::Null,
        obj(vec![num(280), num(0), num(0), num(0), num(0), num(90)]),
        Json::Null,
        obj(vec![num(3)]),
        obj(vec![num(75)]),
        num(100),
        obj(vec![num(0), num(0), text("FR"), num(50), num(60)]),
        Json::Null,
        Json::Null,
        text("Nîmes"),
    ]);
    assert!(is_weather_layout(&json));
    let report = parse_weather_json(&json);
    assert_eq!(report.main, b"Rain".to_vec());
    assert_eq!(report.icon, b"10d".to_vec());
    assert_eq!(report.city, "Nîmes".as_bytes().to_vec());
    assert_eq!(report.temp, whole(280));
    assert_eq!(report.humidity, whole(90));
    assert_eq!(report.wind, whole(3));
    assert_eq!(report.clouds, whole(75));
    assert_eq!(report.time, whole(100));
    assert_eq!(report.sunrise, whole(50));
    assert_eq!(report.sunset, whole(60));
}

#[test]
fn utf8_bytes_of_every_width() {
    let chars: Vec<char> = vec!['a', 'é', '€', '𝄞'];
    assert_eq!(utf8_bytes(&chars), "aé€𝄞".as_bytes().to_vec());
    assert_eq!(utf8_bytes(&vec!['é']), vec![0xC3, 0xA9]);
    assert!(utf8_bytes(&vec![]).is_empty());
}

#[test]
fn readings_ignore_appended_members() {
    let longer = LONDON.replace("\"cod\":200}", "\"cod\":200,\"extra\":[1,2]}");
    let a = weather_from_response(200, LONDON.as_bytes()).unwrap().unwrap();
    let b = weather_from_response(200, longer.as_bytes()).unwrap().unwrap();
    assert_eq!(a.city, b.city);
    assert_eq!(a.temp, b.temp);
    assert_eq!(a.sunset, b.sunset);
}

#[test]
fn numbers_the_parser_cannot_hold_give_no_report() {
    let long_int = LONDON.replace("1578119710", "123456789012345678901");
    assert!(weather_from_response(200, long_int.as_bytes()).is_none());
    let long_fraction = LONDON.replace("277.69", "277.69000000000000000001");
    assert!(weather_from_response(200, long_fraction.as_bytes()).is_none());
    let long_exponent = LONDON.replace("4.6", "4.6e+2147483648");
    assert!(weather_from_response(200, long_exponent.as_bytes()).is_none());
}

#[test]
fn number_length_limits() {
    assert!(numbers_fit_in("[1234567890123456789]"));
    assert!(numbers_fit_in("[18446744073709551615]"));
    assert!(!numbers_fit_in("[18446744073709551616]"));
    assert!(!numbers_fit_in("[99999999999999999999]"));
    assert!(numbers_fit_in("[1.5e123456789]"));
    assert!(numbers_fit_in("[1.5e2147483647]"));
    assert!(!numbers_fit_in("[1.5e2147483648]"));
    assert!(!numbers_fit_in("[1.5E-2147483648]"));
    assert!(numbers_fit_in("[1.5e+0000000000000000000001]"));
    assert!(numbers_fit_in("[0.00000000000000000000000001]"));
    assert!(numbers_fit_in("[1.5, 1234567890]"));
    assert!(numbers_fit_in(""));
}

#[test]
fn digits_inside_strings_are_not_numbers() {
    assert!(numbers_fit_in("[\"99999999999999999999\"]"));
    assert!(numbers_fit_in("[\"a\\\"99999999999999999999\"]"));
    assert!(!numbers_fit_in("[\"a\", 99999999999999999999]"));
    let long_name = LONDON.replace("\"London\"", "\"London 99999999999999999999\"");
    let report = weather_from_response(200, long_name.as_bytes()).unwrap().unwrap();
    assert_eq!(report.city, b"London 99999999999999999999".to_vec());
}

#[test]
fn fetch_weather_reads_a_readable_body() {
    let report = fetch_weather(200, LONDON.as_bytes()).unwrap();
    assert_eq!(report.icon, b"04n".to_vec());
    assert_eq!(fetch_weather(500, b"").unwrap_err(), HttpError::Unknown);
}
