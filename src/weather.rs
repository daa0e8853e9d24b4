//! Current conditions at a place, through the weather endpoint.
use crate::http_client::{accepted_body, ClientError, HttpResponse, WasmError};
use crate::location::Location;
use crate::request::{credential_key, debug_text, redacted_params, url_text, ParamView, RequestParams};
use crate::json::{
    get_member, int_member, json_of_text, member, number_member, number_of, opt_int_member,
    opt_i32_of, opt_number_member, opt_number_of, parse_json, string_member, text_of, i32_of,
    i64_of, Json,
};
use vstd::prelude::*;

verus! {

pub open spec fn opt_int_view(o: Option<i32>) -> Option<int> {
    match o {
        Some(v) => Some(v as int),
        None => None,
    }
}

pub open spec fn opt_text_view(o: Option<String>) -> Option<Seq<char>> {
    match o {
        Some(s) => Some(s@),
        None => None,
    }
}

fn read_i32(j: &Json, key: &str) -> (r: Option<i32>)
    ensures
        r matches Some(v) ==> i32_of(member(*j, key@)) == Some(v as int),
        r is None <==> i32_of(member(*j, key@)) is None,
{
    match int_member(j, key, i32::MIN as i64, i32::MAX as i64) {
        Some(v) => Some(v as i32),
        None => None,
    }
}

fn read_i64(j: &Json, key: &str) -> (r: Option<i64>)
    ensures
        r matches Some(v) ==> i64_of(member(*j, key@)) == Some(v as int),
        r is None <==> i64_of(member(*j, key@)) is None,
{
    int_member(j, key, i64::MIN, i64::MAX)
}

fn read_opt_i32(j: &Json, key: &str) -> (r: Option<Option<i32>>)
    ensures
        r matches Some(v) ==> opt_i32_of(member(*j, key@)) == Some(opt_int_view(v)),
        r is None <==> opt_i32_of(member(*j, key@)) is None,
{
    match opt_int_member(j, key, i32::MIN as i64, i32::MAX as i64) {
        Some(Some(v)) => Some(Some(v as i32)),
        Some(None) => Some(None),
        None => None,
    }
}

/// Coordinates as the provider echoes them, in decimal degrees.
#[derive(Debug)]
pub struct Coord {
    pub lon: String,
    pub lat: String,
}

pub open spec fn coord_decodes(j: Json) -> bool {
    &&& number_of(member(j, "lon"@)) is Some
    &&& number_of(member(j, "lat"@)) is Some
}

impl Coord {
    pub open spec fn read_from(&self, j: Json) -> bool {
        &&& number_of(member(j, "lon"@)) == Some(self.lon@)
        &&& number_of(member(j, "lat"@)) == Some(self.lat@)
    }

    pub fn from_json(j: &Json) -> (r: Option<Coord>)
        ensures
            r is Some <==> coord_decodes(*j),
            r matches Some(c) ==> c.read_from(*j),
    {
        let lon = number_member(j, "lon")?;
        let lat = number_member(j, "lat")?;
        Some(Coord { lon, lat })
    }
}

/// One weather condition.
#[derive(Debug)]
pub struct Weather {
    pub id: i32,
    pub main: String,
    pub description: String,
    pub icon: String,
}

pub open spec fn weather_decodes(j: Json) -> bool {
    &&& i32_of(member(j, "id"@)) is Some
    &&& text_of(member(j, "main"@)) is Some
    &&& text_of(member(j, "description"@)) is Some
    &&& text_of(member(j, "icon"@)) is Some
}

impl Weather {
    pub open spec fn read_from(&self, j: Json) -> bool {
        &&& i32_of(member(j, "id"@)) == Some(self.id as int)
        &&& text_of(member(j, "main"@)) == Some(self.main@)
        &&& text_of(member(j, "description"@)) == Some(self.description@)
        &&& text_of(member(j, "icon"@)) == Some(self.icon@)
    }

    pub fn from_json(j: &Json) -> (r: Option<Weather>)
        ensures
            r is Some <==> weather_decodes(*j),
            r matches Some(w) ==> w.read_from(*j),
    {
        let id = read_i32(j, "id")?;
        let main = string_member(j, "main")?;
        let description = string_member(j, "description")?;
        let icon = string_member(j, "icon")?;
        Some(Weather { id, main, description, icon })
    }
}

/// Temperatures (decimal text), pressure and humidity.
#[derive(Debug)]
pub struct Main {
    pub temp: String,
    pub feels_like: String,
    pub temp_min: String,
    pub temp_max: String,
    pub pressure: i32,
    pub humidity: i32,
    pub sea_level: Option<i32>,
    pub grnd_level: Option<i32>,
}

pub open spec fn main_decodes(j: Json) -> bool {
    &&& number_of(member(j, "temp"@)) is Some
    &&& number_of(member(j, "feels_like"@)) is Some
    &&& number_of(member(j, "temp_min"@)) is Some
    &&& number_of(member(j, "temp_max"@)) is Some
    &&& i32_of(member(j, "pressure"@)) is Some
    &&& i32_of(member(j, "humidity"@)) is Some
    &&& opt_i32_of(member(j, "sea_level"@)) is Some
    &&& opt_i32_of(member(j, "grnd_level"@)) is Some
}

impl Main {
    pub open spec fn read_from(&self, j: Json) -> bool {
        &&& number_of(member(j, "temp"@)) == Some(self.temp@)
        &&& number_of(member(j, "feels_like"@)) == Some(self.feels_like@)
        &&& number_of(member(j, "temp_min"@)) == Some(self.temp_min@)
        &&& number_of(member(j, "temp_max"@)) == Some(self.temp_max@)
        &&& i32_of(member(j, "pressure"@)) == Some(self.pressure as int)
        &&& i32_of(member(j, "humidity"@)) == Some(self.humidity as int)
        &&& opt_i32_of(member(j, "sea_level"@)) == Some(opt_int_view(self.sea_level))
        &&& opt_i32_of(member(j, "grnd_level"@)) == Some(opt_int_view(self.grnd_level))
    }

    pub fn from_json(j: &Json) -> (r: Option<Main>)
        ensures
            r is Some <==> main_decodes(*j),
            r matches Some(m) ==> m.read_from(*j),
    {
        let temp = number_member(j, "temp")?;
        let feels_like = number_member(j, "feels_like")?;
        let temp_min = number_member(j, "temp_min")?;
        let temp_max = number_member(j, "temp_max")?;
        let pressure = read_i32(j, "pressure")?;
        let humidity = read_i32(j, "humidity")?;
        let sea_level = read_opt_i32(j, "sea_level")?;
        let grnd_level = read_opt_i32(j, "grnd_level")?;
        Some(Main { temp, feels_like, temp_min, temp_max, pressure, humidity, sea_level, grnd_level })
    }
}

/// Wind speed (decimal text), direction in degrees, and gust when reported.
#[derive(Debug)]
pub struct Wind {
    pub speed: String,
    pub deg: i32,
    pub gust: Option<String>,
}

pub open spec fn wind_decodes(j: Json) -> bool {
    &&& number_of(member(j, "speed"@)) is Some
    &&& i32_of(member(j, "deg"@)) is Some
    &&& opt_number_of(member(j, "gust"@)) is Some
}

impl Wind {
    pub open spec fn read_from(&self, j: Json) -> bool {
        &&& number_of(member(j, "speed"@)) == Some(self.speed@)
        &&& i32_of(member(j, "deg"@)) == Some(self.deg as int)
        &&& opt_number_of(member(j, "gust"@)) == Some(opt_text_view(self.gust))
    }

    pub fn from_json(j: &Json) -> (r: Option<Wind>)
        ensures
            r is Some <==> wind_decodes(*j),
            r matches Some(w) ==> w.read_from(*j),
    {
        let speed = number_member(j, "speed")?;
        let deg = read_i32(j, "deg")?;
        let gust = opt_number_member(j, "gust")?;
        Some(Wind { speed, deg, gust })
    }
}

/// Cloud cover in percent.
#[derive(Debug)]
pub struct Clouds {
    pub all: i32,
}

pub open spec fn clouds_decodes(j: Json) -> bool {
    i32_of(member(j, "all"@)) is Some
}

impl Clouds {
    pub open spec fn read_from(&self, j: Json) -> bool {
        i32_of(member(j, "all"@)) == Some(self.all as int)
    }

    pub fn from_json(j: &Json) -> (r: Option<Clouds>)
        ensures
            r is Some <==> clouds_decodes(*j),
            r matches Some(c) ==> c.read_from(*j),
    {
        let all = read_i32(j, "all")?;
        Some(Clouds { all })
    }
}

/// Visibility in meters.
#[derive(Debug)]
pub struct Visibility {
    pub visibility: i32,
}

pub open spec fn visibility_decodes(j: Json) -> bool {
    i32_of(member(j, "visibility"@)) is Some
}

impl Visibility {
    pub open spec fn read_from(&self, j: Json) -> bool {
        i32_of(member(j, "visibility"@)) == Some(self.visibility as int)
    }

    pub fn from_json(j: &Json) -> (r: Option<Visibility>)
        ensures
            r is Some <==> visibility_decodes(*j),
            r matches Some(v) ==> v.read_from(*j),
    {
        let visibility = read_i32(j, "visibility")?;
        Some(Visibility { visibility })
    }
}

/// Country, sunrise and sunset (Unix time), and the provider's source ids.
#[derive(Debug)]
pub struct Sys {
    pub sys_type: Option<i32>,
    pub id: Option<i32>,
    pub country: String,
    pub sunrise: i64,
    pub sunset: i64,
}

pub open spec fn sys_decodes(j: Json) -> bool {
    &&& opt_i32_of(member(j, "type"@)) is Some
    &&& opt_i32_of(member(j, "id"@)) is Some
    &&& text_of(member(j, "country"@)) is Some
    &&& i64_of(member(j, "sunrise"@)) is Some
    &&& i64_of(member(j, "sunset"@)) is Some
}

impl Sys {
    pub open spec fn read_from(&self, j: Json) -> bool {
        &&& opt_i32_of(member(j, "type"@)) == Some(opt_int_view(self.sys_type))
        &&& opt_i32_of(member(j, "id"@)) == Some(opt_int_view(self.id))
        &&& text_of(member(j, "country"@)) == Some(self.country@)
        &&& i64_of(member(j, "sunrise"@)) == Some(self.sunrise as int)
        &&& i64_of(member(j, "sunset"@)) == Some(self.sunset as int)
    }

    pub fn from_json(j: &Json) -> (r: Option<Sys>)
        ensures
            r is Some <==> sys_decodes(*j),
            r matches Some(s) ==> s.read_from(*j),
    {
        let sys_type = read_opt_i32(j, "type")?;
        let id = read_opt_i32(j, "id")?;
        let country = string_member(j, "country")?;
        let sunrise = read_i64(j, "sunrise")?;
        let sunset = read_i64(j, "sunset")?;
        Some(Sys { sys_type, id, country, sunrise, sunset })
    }
}

/// Address of the current-weather endpoint.
pub const WEATHER_API_BASE_URL: &'static str = "https://api.openweathermap.org/data/2.5/weather";

/// Every item holds a weather condition.
pub open spec fn all_conditions(items: Seq<Json>) -> bool {
    forall|i: int| 0 <= i < items.len() ==> weather_decodes(#[trigger] items[i])
}

/// An array whose every item holds a weather condition.
pub open spec fn conditions_decode(o: Option<Json>) -> bool {
    match o {
        Some(Json::Array(items)) => all_conditions(items@),
        _ => false,
    }
}

/// `v` holds, in order, the conditions that the array `o` holds.
pub open spec fn conditions_read(o: Option<Json>, v: Seq<Weather>) -> bool {
    match o {
        Some(Json::Array(items)) => items@.len() == v.len() && forall|i: int|
            0 <= i < v.len() ==> (#[trigger] v[i]).read_from(items@[i]),
        _ => false,
    }
}

fn read_conditions(j: &Json) -> (r: Option<Vec<Weather>>)
    ensures
        r is Some <==> conditions_decode(member(*j, "weather"@)),
        r matches Some(v) ==> conditions_read(member(*j, "weather"@), v@),
{
    match get_member(j, "weather") {
        Some(Json::Array(items)) => {
            let mut out: Vec<Weather> = Vec::new();
            let mut i: usize = 0;
            while i < items.len()
                invariant
                    member(*j, "weather"@) == Some(Json::Array(*items)),
                    i <= items.len(),
                    out@.len() == i,
                    forall|k: int| 0 <= k < i ==> weather_decodes(#[trigger] items@[k]),
                    forall|k: int| 0 <= k < i ==> (#[trigger] out@[k]).read_from(items@[k]),
                decreases items.len() - i,
            {
                let item = &items[i];
                match Weather::from_json(item) {
                    Some(w) => out.push(w),
                    None => {
                        assert(!weather_decodes(items@[i as int]));
                        assert(!all_conditions(items@));
                        return None;
                    },
                }
                i = i + 1;
            }
            Some(out)
        },
        _ => None,
    }
}

/// Current conditions at a place, as the weather endpoint reports them.
#[derive(Debug)]
pub struct WeatherResponse {
    pub coord: Coord,
    pub weather: Vec<Weather>,
    pub base: String,
    pub main: Main,
    pub visibility: i32,
    pub wind: Wind,
    pub clouds: Clouds,
    pub dt: i64,
    pub sys: Sys,
    pub timezone: i32,
    pub id: i64,
    pub name: String,
    pub cod: i32,
}

/// A JSON value holds a weather report: each member present with its type;
/// only `sea_level`, `grnd_level`, `gust` and the two ids of `sys` may be
/// absent or null.
pub open spec fn response_decodes(j: Json) -> bool {
    &&& member(j, "coord"@) matches Some(c) && coord_decodes(c)
    &&& conditions_decode(member(j, "weather"@))
    &&& text_of(member(j, "base"@)) is Some
    &&& member(j, "main"@) matches Some(m) && main_decodes(m)
    &&& i32_of(member(j, "visibility"@)) is Some
    &&& member(j, "wind"@) matches Some(w) && wind_decodes(w)
    &&& member(j, "clouds"@) matches Some(c) && clouds_decodes(c)
    &&& i64_of(member(j, "dt"@)) is Some
    &&& member(j, "sys"@) matches Some(s) && sys_decodes(s)
    &&& i32_of(member(j, "timezone"@)) is Some
    &&& i64_of(member(j, "id"@)) is Some
    &&& text_of(member(j, "name"@)) is Some
    &&& i32_of(member(j, "cod"@)) is Some
}

impl WeatherResponse {
    pub open spec fn read_from(&self, j: Json) -> bool {
        &&& member(j, "coord"@) matches Some(c) && self.coord.read_from(c)
        &&& conditions_read(member(j, "weather"@), self.weather@)
        &&& text_of(member(j, "base"@)) == Some(self.base@)
        &&& member(j, "main"@) matches Some(m) && self.main.read_from(m)
        &&& i32_of(member(j, "visibility"@)) == Some(self.visibility as int)
        &&& member(j, "wind"@) matches Some(w) && self.wind.read_from(w)
        &&& member(j, "clouds"@) matches Some(c) && self.clouds.read_from(c)
        &&& i64_of(member(j, "dt"@)) == Some(self.dt as int)
        &&& member(j, "sys"@) matches Some(s) && self.sys.read_from(s)
        &&& i32_of(member(j, "timezone"@)) == Some(self.timezone as int)
        &&& i64_of(member(j, "id"@)) == Some(self.id as int)
        &&& text_of(member(j, "name"@)) == Some(self.name@)
        &&& i32_of(member(j, "cod"@)) == Some(self.cod as int)
    }

    pub fn from_json(j: &Json) -> (r: Option<WeatherResponse>)
        ensures
            r is Some <==> response_decodes(*j),
            r matches Some(w) ==> w.read_from(*j),
    {
        let coord = Coord::from_json(get_member(j, "coord")?)?;
        let weather = read_conditions(j)?;
        let base = string_member(j, "base")?;
        let main = Main::from_json(get_member(j, "main")?)?;
        let visibility = read_i32(j, "visibility")?;
        let wind = Wind::from_json(get_member(j, "wind")?)?;
        let clouds = Clouds::from_json(get_member(j, "clouds")?)?;
        let dt = read_i64(j, "dt")?;
        let sys = Sys::from_json(get_member(j, "sys")?)?;
        let timezone = read_i32(j, "timezone")?;
        let id = read_i64(j, "id")?;
        let name = string_member(j, "name")?;
        let cod = read_i32(j, "cod")?;
        Some(
            WeatherResponse {
                coord,
                weather,
                base,
                main,
                visibility,
                wind,
                clouds,
                dt,
                sys,
                timezone,
                id,
                name,
                cod,
            },
        )
    }
}

/// The weather report that the JSON text `body` holds.
pub fn decode_weather(body: &str) -> (r: Result<WeatherResponse, ClientError>)
    ensures
        r matches Ok(w) ==> (json_of_text(body@) matches Some(j) && w.read_from(j)),
        r is Ok <==> (json_of_text(body@) matches Some(j) && response_decodes(j)),
        r is Err ==> r matches Err(ClientError::Decode),
{
    match parse_json(body) {
        None => Err(ClientError::Decode),
        Some(j) => match WeatherResponse::from_json(&j) {
            Some(w) => Ok(w),
            None => Err(ClientError::Decode),
        },
    }
}

/// The parameters of a weather request: latitude, longitude, unit system,
/// then the credential.
pub open spec fn weather_params(
    lat: Seq<char>,
    lon: Seq<char>,
    units: Seq<char>,
    api_key: Seq<char>,
) -> Seq<ParamView> {
    seq![("lat"@, lat), ("lon"@, lon), ("units"@, units), (credential_key(), api_key)]
}

/// Fetches the current conditions at one place.
#[derive(Debug)]
pub struct WeatherClient {
    pub location: Location,
    pub units: String,
    pub api_key: String,
}

impl WeatherClient {
    pub fn new(location: Location, units: String, api_key: String) -> (r: Self)
        ensures
            r.location == location,
            r.units@ == units@,
            r.api_key@ == api_key@,
    {
        WeatherClient { location, units, api_key }
    }

    pub open spec fn params_view(&self) -> Seq<ParamView> {
        weather_params(self.location.lat@, self.location.lon@, self.units@, self.api_key@)
    }

    /// The request's parameters; the unit system is passed on as given.
    pub fn params(&self) -> (r: RequestParams)
        ensures
            r@ == self.params_view(),
    {
        let key = "appid";
        proof {
            reveal_strlit("appid");
            reveal_strlit("lat");
            reveal_strlit("lon");
            reveal_strlit("units");
            assert(key@ =~= credential_key());
        }
        let mut p = RequestParams::new();
        let n1 = String::from_str("lat");
        let n2 = String::from_str("lon");
        let n3 = String::from_str("units");
        let n4 = String::from_str(key);
        let ghost (v1, v2, v3, v4) = (
            self.location.lat@,
            self.location.lon@,
            self.units@,
            self.api_key@,
        );
        assert(n1@[1] != n2@[1]);
        assert(n3@[0] != n4@[0]);
        assert(n1@ != n2@ && n1@ != n3@ && n1@ != n4@ && n2@ != n3@ && n2@ != n4@ && n3@ != n4@);
        p.insert(n1, self.location.lat.clone());
        assert(p@ =~= seq![("lat"@, v1)]);
        p.insert(n2, self.location.lon.clone());
        assert(p@ =~= seq![("lat"@, v1), ("lon"@, v2)]);
        p.insert(n3, self.units.clone());
        assert(p@ =~= seq![("lat"@, v1), ("lon"@, v2), ("units"@, v3)]);
        p.insert(n4, self.api_key.clone());
        assert(p@ =~= self.params_view());
        p
    }

    /// The address that a fetch-style transport requests.
    pub fn url(&self) -> (r: String)
        ensures
            r@ == url_text(WEATHER_API_BASE_URL@, self.params_view()),
    {
        self.params().url(WEATHER_API_BASE_URL)
    }

    /// The endpoint line of debug output, the credential replaced by a placeholder.
    pub fn debug_endpoint(&self) -> (r: String)
        ensures
            r@ == debug_text(WEATHER_API_BASE_URL@, self.params_view()),
    {
        self.params().debug_url(WEATHER_API_BASE_URL)
    }

    /// The weather report that the outcome of the weather request holds.
    pub fn weather_from(&self, outcome: Result<HttpResponse, WasmError>) -> (r: Result<
        WeatherResponse,
        ClientError,
    >)
        ensures
            outcome matches Err(e) ==> (r matches Err(ClientError::Transport(m)) && m@
                == e.message@),
            outcome matches Ok(resp) ==> (resp.status != 200 ==> r == Err::<
                WeatherResponse,
                ClientError,
            >(ClientError::RequestFailed(resp.status))),
            outcome matches Ok(resp) ==> (resp.status == 200 ==> (r is Ok <==> (json_of_text(
                resp.body@,
            ) matches Some(j) && response_decodes(j)))),
            outcome matches Ok(resp) ==> (resp.status == 200 ==> (r is Err ==> r matches Err(
                ClientError::Decode,
            ))),
            r matches Ok(w) ==> (outcome matches Ok(resp) && json_of_text(resp.body@) matches Some(
                j,
            ) && w.read_from(j)),
    {
        let body = accepted_body(outcome)?;
        decode_weather(body.as_str())
    }
}

/// Two weather requests that differ only in the credential have the same
/// debug line.
pub proof fn lemma_weather_debug_hides_key(
    lat: Seq<char>,
    lon: Seq<char>,
    units: Seq<char>,
    key1: Seq<char>,
    key2: Seq<char>,
)
    ensures
        debug_text(WEATHER_API_BASE_URL@, weather_params(lat, lon, units, key1)) == debug_text(
            WEATHER_API_BASE_URL@,
            weather_params(lat, lon, units, key2),
        ),
{
    reveal_strlit("lat");
    reveal_strlit("lon");
    reveal_strlit("units");
    let a = weather_params(lat, lon, units, key1);
    let b = weather_params(lat, lon, units, key2);
    assert(a[0].0 != credential_key());
    assert(a[1].0 != credential_key());
    assert(a[2].0 != credential_key());
    crate::request::lemma_redaction_ignores_credential(a, b);
}

/// How a temperature in a unit system is labelled.
#[derive(PartialEq, Eq, Structural, Clone, Copy, Debug)]
pub enum TemperatureScale {
    Kelvin,
    Celsius,
    Fahrenheit,
}

/// How a speed in a unit system is labelled.
#[derive(PartialEq, Eq, Structural, Clone, Copy, Debug)]
pub enum SpeedUnit {
    MetersPerSecond,
    MilesPerHour,
}

pub open spec fn scale_of(units: Seq<char>) -> TemperatureScale {
    if units == "metric"@ {
        TemperatureScale::Celsius
    } else if units == "imperial"@ {
        TemperatureScale::Fahrenheit
    } else {
        TemperatureScale::Kelvin
    }
}

pub open spec fn speed_unit_of(units: Seq<char>) -> SpeedUnit {
    if units == "imperial"@ {
        SpeedUnit::MilesPerHour
    } else {
        SpeedUnit::MetersPerSecond
    }
}

/// The temperature scale of a unit system: `metric` is Celsius, `imperial`
/// Fahrenheit, anything else Kelvin.
pub fn temperature_scale(units: &str) -> (r: TemperatureScale)
    ensures
        r == scale_of(units@),
{
    if crate::request::same_text(units, "metric") {
        TemperatureScale::Celsius
    } else if crate::request::same_text(units, "imperial") {
        TemperatureScale::Fahrenheit
    } else {
        TemperatureScale::Kelvin
    }
}

/// The speed unit of a unit system: `imperial` is miles per hour, anything
/// else meters per second.
pub fn speed_unit(units: &str) -> (r: SpeedUnit)
    ensures
        r == speed_unit_of(units@),
{
    if crate::request::same_text(units, "imperial") {
        SpeedUnit::MilesPerHour
    } else {
        SpeedUnit::MetersPerSecond
    }
}

impl TemperatureScale {
    /// The symbol written after a temperature.
    pub fn symbol(&self) -> (r: &'static str)
        ensures
            *self == TemperatureScale::Celsius ==> r@ == "°C"@,
            *self == TemperatureScale::Fahrenheit ==> r@ == "°F"@,
            *self == TemperatureScale::Kelvin ==> r@ == "°K"@,
    {
        match self {
            TemperatureScale::Celsius => "°C",
            TemperatureScale::Fahrenheit => "°F",
            TemperatureScale::Kelvin => "°K",
        }
    }
}

impl SpeedUnit {
    /// The symbol written after a speed.
    pub fn symbol(&self) -> (r: &'static str)
        ensures
            *self == SpeedUnit::MetersPerSecond ==> r@ == "m/s"@,
            *self == SpeedUnit::MilesPerHour ==> r@ == "mph"@,
    {
        match self {
            SpeedUnit::MetersPerSecond => "m/s",
            SpeedUnit::MilesPerHour => "mph",
        }
    }
}

/// The weather request follows only a resolved place: a failed geocoding
/// result passes through unchanged and no weather client is made.
pub fn weather_client_for(
    resolved: Result<Location, ClientError>,
    units: String,
    api_key: String,
) -> (r: Result<WeatherClient, ClientError>)
    ensures
        resolved matches Ok(l) ==> (r matches Ok(c) && c.location == l && c.units@ == units@
            && c.api_key@ == api_key@),
        resolved matches Err(e) ==> r == Err::<WeatherClient, ClientError>(e),
{
    match resolved {
        Ok(l) => Ok(WeatherClient::new(l, units, api_key)),
        Err(e) => Err(e),
    }
}

/// A report whose `main` has no `temp` does not decode.
pub proof fn lemma_missing_temp_fails(j: Json)
    requires
        member(j, "main"@) matches Some(m) && member(m, "temp"@) is None,
    ensures
        !response_decodes(j),
{
}

/// Absent `sea_level` and `grnd_level` ask nothing of a `main` object: it
/// decodes exactly when its required members do, and the two levels read as
/// not reported.
pub proof fn lemma_main_levels_optional(m: Json, v: Main)
    requires
        member(m, "sea_level"@) is None,
        member(m, "grnd_level"@) is None,
    ensures
        main_decodes(m) <==> (number_of(member(m, "temp"@)) is Some && number_of(
            member(m, "feels_like"@),
        ) is Some && number_of(member(m, "temp_min"@)) is Some && number_of(
            member(m, "temp_max"@),
        ) is Some && i32_of(member(m, "pressure"@)) is Some && i32_of(member(m, "humidity"@)) is Some),
        v.read_from(m) ==> v.sea_level is None && v.grnd_level is None,
{
}

/// An absent `gust` asks nothing of a `wind` object: it decodes exactly when
/// `speed` and `deg` do, and the gust reads as not reported.
pub proof fn lemma_wind_gust_optional(w: Json, v: Wind)
    requires
        member(w, "gust"@) is None,
    ensures
        wind_decodes(w) <==> (number_of(member(w, "speed"@)) is Some && i32_of(member(w, "deg"@)) is Some),
        v.read_from(w) ==> v.gust is None,
{
}

} // verus!
