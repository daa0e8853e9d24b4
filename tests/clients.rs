use weather::decimal::{is_coordinate_within, is_decimal_within, is_small_scientific, parse_integer};
use weather::http_client::{accepted_body, ClientError, HttpResponse, WasmError};
use weather::location::{decode_location, Location, LocationClient};
use weather::request::RequestParams;
use weather::weather::{
    decode_weather, speed_unit, temperature_scale, weather_client_for, SpeedUnit,
    TemperatureScale, WeatherClient,
};

const LOCATION_BODY: &str =
    r#"{"zip":"N7L","name":"Lakeshore","lat":42.14,"lon":-82.65,"country":"CA"}"#;

fn weather_body(main: &str, wind: &str) -> String {
    format!(
        r#"{{"coord":{{"lon":-82.65,"lat":42.14}},"weather":[{{"id":800,"main":"Clear","description":"clear sky","icon":"01d"}}],"base":"stations","main":{},"visibility":10000,"wind":{},"clouds":{{"all":0}},"dt":1700000000,"sys":{{"type":2,"id":2001,"country":"CA","sunrise":1699990000,"sunset":1700030000}},"timezone":-18000,"id":6049429,"name":"Lakeshore","cod":200}}"#,
        main, wind
    )
}

const FULL_MAIN: &str = r#"{"temp":21.5,"feels_like":20.9,"temp_min":19.0,"temp_max":23.1,"pressure":1013,"humidity":60,"sea_level":1013,"grnd_level":990}"#;
const FULL_WIND: &str = r#"{"speed":3.6,"deg":250,"gust":5.2}"#;

fn ok(body: &str) -> Result<HttpResponse, WasmError> {
    Ok(HttpResponse { status: 200, body: body.to_string() })
}

fn lakeshore() -> Location {
    LocationClient::new("N7L".to_string(), "CA".to_string(), "k".to_string())
        .location_from(ok(LOCATION_BODY))
        .unwrap()
}

#[test]
fn geocode_query_holds_zip_and_country() {
    let c = LocationClient::new("N7L".to_string(), "CA".to_string(), "SECRET-REDACTED".to_string());
    assert_eq!(c.params().query(), "zip=N7L,CA&appid=SECRET-REDACTED");
    assert_eq!(
        c.url(),
        "https://api.openweathermap.org/geo/1.0/zip?zip=N7L,CA&appid=SECRET-REDACTED"
    );
}

#[test]
fn geocode_debug_line_redacts_credential() {
    let c = LocationClient::new("N7L".to_string(), "CA".to_string(), "s3cr3t-value".to_string());
    let line = c.debug_endpoint();
    assert_eq!(
        line,
        "https://api.openweathermap.org/geo/1.0/zip?zip=N7L,CA&appid={api_key}"
    );
    assert!(!line.contains("s3cr3t-value"));
    let other = LocationClient::new("N7L".to_string(), "CA".to_string(), "another".to_string());
    assert_eq!(other.debug_endpoint(), line);
}

#[test]
fn weather_debug_line_redacts_credential() {
    let c = WeatherClient::new(lakeshore(), "metric".to_string(), "topsecret".to_string());
    let line = c.debug_endpoint();
    assert_eq!(
        line,
        "https://api.openweathermap.org/data/2.5/weather?lat=42.14&lon=-82.65&units=metric&appid={api_key}"
    );
    assert!(!line.contains("topsecret"));
}

#[test]
fn end_to_end_lakeshore_metric() {
    let loc = lakeshore();
    assert_eq!(loc.zip, "N7L");
    assert_eq!(loc.name, "Lakeshore");
    assert_eq!(loc.lat, "42.14");
    assert_eq!(loc.lon, "-82.65");
    assert_eq!(loc.country, "CA");
    let c = WeatherClient::new(loc, "metric".to_string(), "k".to_string());
    assert_eq!(c.params().query(), "lat=42.14&lon=-82.65&units=metric&appid=k");
    let w = c.weather_from(ok(&weather_body(FULL_MAIN, FULL_WIND))).unwrap();
    assert_eq!(w.main.temp, "21.5");
    assert_eq!(temperature_scale(&c.units), TemperatureScale::Celsius);
    assert_eq!(temperature_scale(&c.units).symbol(), "°C");
    assert_eq!(w.name, "Lakeshore");
    assert_eq!(w.weather.len(), 1);
    assert_eq!(w.weather[0].description, "clear sky");
    assert_eq!(w.main.sea_level, Some(1013));
    assert_eq!(w.wind.gust, Some("5.2".to_string()));
    assert_eq!(w.sys.sys_type, Some(2));
    assert_eq!(w.timezone, -18000);
}

#[test]
fn weather_without_optional_members_decodes() {
    let main = r#"{"temp":21.5,"feels_like":20.9,"temp_min":19.0,"temp_max":23.1,"pressure":1013,"humidity":60}"#;
    let wind = r#"{"speed":3.6,"deg":250}"#;
    let w = decode_weather(&weather_body(main, wind)).unwrap();
    assert_eq!(w.main.sea_level, None);
    assert_eq!(w.main.grnd_level, None);
    assert_eq!(w.wind.gust, None);
    assert_eq!(w.main.temp, "21.5");
}

#[test]
fn weather_null_optional_members_read_as_absent() {
    let main = r#"{"temp":1,"feels_like":1,"temp_min":1,"temp_max":1,"pressure":1,"humidity":1,"sea_level":null,"grnd_level":null}"#;
    let w = decode_weather(&weather_body(main, r#"{"speed":0,"deg":0,"gust":null}"#)).unwrap();
    assert_eq!(w.main.sea_level, None);
    assert_eq!(w.wind.gust, None);
    assert_eq!(w.main.temp, "1");
}

#[test]
fn weather_missing_temp_fails() {
    let main = r#"{"feels_like":20.9,"temp_min":19.0,"temp_max":23.1,"pressure":1013,"humidity":60}"#;
    assert!(matches!(decode_weather(&weather_body(main, FULL_WIND)), Err(ClientError::Decode)));
}

#[test]
fn weather_fractional_integer_member_fails() {
    let main = r#"{"temp":21.5,"feels_like":20.9,"temp_min":19.0,"temp_max":23.1,"pressure":1013.5,"humidity":60}"#;
    assert!(matches!(decode_weather(&weather_body(main, FULL_WIND)), Err(ClientError::Decode)));
}

#[test]
fn weather_empty_condition_list_decodes() {
    let body = weather_body(FULL_MAIN, FULL_WIND).replace(
        r#"[{"id":800,"main":"Clear","description":"clear sky","icon":"01d"}]"#,
        "[]",
    );
    let w = decode_weather(&body).unwrap();
    assert!(w.weather.is_empty());
}

#[test]
fn status_other_than_200_is_request_failed() {
    let c = LocationClient::new("N7L".to_string(), "CA".to_string(), "k".to_string());
    for status in [401u16, 404, 429] {
        let r = c.location_from(Ok(HttpResponse { status, body: LOCATION_BODY.to_string() }));
        assert!(matches!(r, Err(ClientError::RequestFailed(s)) if s == status));
    }
    let w = WeatherClient::new(lakeshore(), "metric".to_string(), "k".to_string());
    let r = w.weather_from(Ok(HttpResponse { status: 404, body: "not json".to_string() }));
    assert!(matches!(r, Err(ClientError::RequestFailed(404))));
}

#[test]
fn transport_failure_is_passed_on() {
    let c = LocationClient::new("N7L".to_string(), "CA".to_string(), "k".to_string());
    let r = c.location_from(Err(WasmError::new("connection refused".to_string())));
    assert!(matches!(r, Err(ClientError::Transport(m)) if m == "connection refused"));
}

#[test]
fn accepted_body_keeps_body_of_200() {
    let r = accepted_body(ok("abc"));
    assert!(matches!(r, Ok(b) if b == "abc"));
}

#[test]
fn location_body_that_is_not_json_fails() {
    assert!(matches!(decode_location("<html>"), Err(ClientError::Decode)));
    assert!(matches!(decode_location(r#"{"zip":"N7L"}"#), Err(ClientError::Decode)));
    assert!(matches!(
        decode_location(r#"{"zip":"N7L","name":"X","lat":"42","lon":1,"country":"CA"}"#),
        Err(ClientError::Decode)
    ));
}

#[test]
fn location_out_of_range_fails() {
    let body = |lat: &str, lon: &str| {
        format!(r#"{{"zip":"1","name":"X","lat":{},"lon":{},"country":"CA"}}"#, lat, lon)
    };
    assert!(decode_location(&body("90", "180")).is_ok());
    assert!(decode_location(&body("-90.0", "-180.0")).is_ok());
    assert!(matches!(decode_location(&body("90.5", "0")), Err(ClientError::Decode)));
    assert!(matches!(decode_location(&body("0", "-180.25")), Err(ClientError::Decode)));
    assert!(matches!(decode_location(&body("123", "0")), Err(ClientError::Decode)));
}

#[test]
fn resolving_twice_gives_same_location() {
    let a = lakeshore();
    let b = lakeshore();
    assert_eq!((a.zip, a.name, a.lat, a.lon, a.country), (b.zip, b.name, b.lat, b.lon, b.country));
}

#[test]
fn integers_parse_within_bounds() {
    assert_eq!(parse_integer("123", i64::MIN, i64::MAX), Some(123));
    assert_eq!(parse_integer("-5", -10, 10), Some(-5));
    assert_eq!(parse_integer("-11", -10, 10), None);
    assert_eq!(parse_integer("9223372036854775807", i64::MIN, i64::MAX), Some(i64::MAX));
    assert_eq!(parse_integer("-9223372036854775808", i64::MIN, i64::MAX), Some(i64::MIN));
    assert_eq!(parse_integer("9223372036854775808", i64::MIN, i64::MAX), None);
    assert_eq!(parse_integer("123456789012345678901234567890", i64::MIN, i64::MAX), None);
    assert_eq!(parse_integer("12a", i64::MIN, i64::MAX), None);
    assert_eq!(parse_integer("", i64::MIN, i64::MAX), None);
    assert_eq!(parse_integer("-", i64::MIN, i64::MAX), None);
    assert_eq!(parse_integer("1.0", i64::MIN, i64::MAX), None);
}

#[test]
fn decimals_checked_against_bound() {
    assert!(is_decimal_within("90", 90));
    assert!(is_decimal_within("90.000", 90));
    assert!(is_decimal_within("-89.9999", 90));
    assert!(!is_decimal_within("90.01", 90));
    assert!(!is_decimal_within("1000", 90));
    assert!(!is_decimal_within("1.", 90));
    assert!(!is_decimal_within(".5", 90));
    assert!(!is_decimal_within("-", 90));
    assert!(!is_decimal_within("1e-7", 90));
    assert!(!is_decimal_within("4x", 90));
}

#[test]
fn params_insert_replaces_existing_name() {
    let mut p = RequestParams::new();
    assert_eq!(p.query(), "");
    p.insert("a".to_string(), "1".to_string());
    p.insert("b".to_string(), "2".to_string());
    p.insert("a".to_string(), "3".to_string());
    assert_eq!(p.query(), "a=3&b=2");
    assert_eq!(p.url("http://h/p"), "http://h/p?a=3&b=2");
    assert_eq!(RequestParams::new().url("http://h/p"), "http://h/p");
    p.insert("appid".to_string(), "xyz".to_string());
    assert_eq!(p.redacted(), "a=3&b=2&appid={api_key}");
    assert_eq!(p.debug_url("u"), "u?a=3&b=2&appid={api_key}");
}

#[test]
fn geocode_failure_short_circuits() {
    let r = weather_client_for(Err(ClientError::RequestFailed(404)), "metric".to_string(), "k".to_string());
    assert!(matches!(r, Err(ClientError::RequestFailed(404))));
    let c = weather_client_for(Ok(lakeshore()), "imperial".to_string(), "k".to_string()).unwrap();
    assert_eq!(c.units, "imperial");
    assert_eq!(c.location.name, "Lakeshore");
}

#[test]
fn unit_labels() {
    assert_eq!(temperature_scale("imperial"), TemperatureScale::Fahrenheit);
    assert_eq!(temperature_scale("standard"), TemperatureScale::Kelvin);
    assert_eq!(temperature_scale("kelvinish"), TemperatureScale::Kelvin);
    assert_eq!(TemperatureScale::Kelvin.symbol(), "°K");
    assert_eq!(TemperatureScale::Fahrenheit.symbol(), "°F");
    assert_eq!(speed_unit("imperial"), SpeedUnit::MilesPerHour);
    assert_eq!(speed_unit("metric"), SpeedUnit::MetersPerSecond);
    assert_eq!(speed_unit("standard").symbol(), "m/s");
    assert_eq!(SpeedUnit::MilesPerHour.symbol(), "mph");
}

#[test]
fn wasm_error_message() {
    let e = WasmError::new("No window object available".to_string());
    assert_eq!(e.message, "No window object available");
    assert_eq!(e.describe(), "WASM Error: No window object available");
}

#[test]
fn location_display_lines() {
    let l = lakeshore();
    assert_eq!(
        l.detailed_display(),
        "name: [Lakeshore]\ncountry: [CA]\nzip: [N7L]\nlat: [42.14]\nlon: [-82.65]"
    );
    assert_eq!(
        l.debug_lines(),
        "zip: N7L\nname: Lakeshore\ncountry: CA\nlat: 42.14\nlon: -82.65"
    );
}

#[test]
fn small_scientific_notation() {
    assert!(is_small_scientific("1e-7"));
    assert!(is_small_scientific("-2.5e-06"));
    assert!(!is_small_scientific("1e+16"));
    assert!(!is_small_scientific("12e-3"));
    assert!(!is_small_scientific("1.e-3"));
    assert!(!is_small_scientific("1e-"));
    assert!(!is_small_scientific("1e-3x"));
    assert!(!is_small_scientific("0.5"));
    assert!(is_coordinate_within("3e-9", 90));
    assert!(is_coordinate_within("-90", 90));
    assert!(!is_coordinate_within("3e-9", 5));
    assert!(!is_coordinate_within("1e16", 180));
}

#[test]
fn tiny_coordinates_decode() {
    let l = decode_location(r#"{"zip":"0","name":"Null Island","lat":0.0000001,"lon":-0.00000025,"country":"XX"}"#)
        .unwrap();
    assert!(l.lat.contains('e'));
    assert_eq!(l.lat.parse::<f64>().unwrap(), 0.0000001);
    assert_eq!(l.lon.parse::<f64>().unwrap(), -0.00000025);
}
