//! Resolving a postal code to a place, through the geocoding endpoint.
use crate::decimal::{coordinate_within, is_coordinate_within};
use crate::http_client::{accepted_body, ClientError, HttpResponse, WasmError};
use crate::request::{credential_key, debug_text, placeholder, query_text, redacted_params, url_text, ParamView, RequestParams};
use crate::json::{json_of_text, member, number_member, number_of, parse_json, string_member, text_of, Json};
use vstd::prelude::*;

verus! {

/// Address of the geocoding endpoint.
pub const GEOCODING_API_BASE_URL: &'static str = "https://api.openweathermap.org/geo/1.0/zip";

/// A resolved place. Latitude and longitude are decimal degrees, held as the
/// decimal text in which the provider gave them.
#[derive(Debug, Clone)]
pub struct Location {
    pub zip: String,
    pub name: String,
    pub lat: String,
    pub lon: String,
    pub country: String,
}

/// A JSON value holds a place: text members `zip`, `name` and `country`, and
/// number members `lat` within 90 and `lon` within 180 degrees of zero.
pub open spec fn location_decodes(j: Json) -> bool {
    &&& text_of(member(j, "zip"@)) is Some
    &&& text_of(member(j, "name"@)) is Some
    &&& text_of(member(j, "country"@)) is Some
    &&& number_of(member(j, "lat"@)) matches Some(t) && coordinate_within(t, 90)
    &&& number_of(member(j, "lon"@)) matches Some(t) && coordinate_within(t, 180)
}

impl Location {
    /// Latitude within [-90, 90], longitude within [-180, 180].
    pub open spec fn wf(&self) -> bool {
        coordinate_within(self.lat@, 90) && coordinate_within(self.lon@, 180)
    }

    /// Each field holds the member of `j` of its name.
    pub open spec fn read_from(&self, j: Json) -> bool {
        &&& text_of(member(j, "zip"@)) == Some(self.zip@)
        &&& text_of(member(j, "name"@)) == Some(self.name@)
        &&& text_of(member(j, "country"@)) == Some(self.country@)
        &&& number_of(member(j, "lat"@)) == Some(self.lat@)
        &&& number_of(member(j, "lon"@)) == Some(self.lon@)
    }

    /// The place that `j` holds.
    pub fn from_json(j: &Json) -> (r: Option<Location>)
        ensures
            r is Some <==> location_decodes(*j),
            r matches Some(l) ==> l.read_from(*j) && l.wf(),
    {
        let zip = string_member(j, "zip")?;
        let name = string_member(j, "name")?;
        let lat = number_member(j, "lat")?;
        let lon = number_member(j, "lon")?;
        let country = string_member(j, "country")?;
        if !is_coordinate_within(lat.as_str(), 90) || !is_coordinate_within(lon.as_str(), 180) {
            return None;
        }
        Some(Location { zip, name, lat, lon, country })
    }
}

/// The place that the JSON text `body` holds.
pub fn decode_location(body: &str) -> (r: Result<Location, ClientError>)
    ensures
        r matches Ok(l) ==> (json_of_text(body@) matches Some(j) && l.read_from(j) && l.wf()),
        r is Ok <==> (json_of_text(body@) matches Some(j) && location_decodes(j)),
        r is Err ==> r matches Err(ClientError::Decode),
{
    match parse_json(body) {
        None => Err(ClientError::Decode),
        Some(j) => match Location::from_json(&j) {
            Some(l) => Ok(l),
            None => Err(ClientError::Decode),
        },
    }
}

/// The parameters of a geocoding request: `zip` as `<postal code>,<country>`,
/// then the credential.
pub open spec fn geocode_params(zip: Seq<char>, country: Seq<char>, api_key: Seq<char>) -> Seq<
    ParamView,
> {
    seq![("zip"@, zip + seq![','] + country), (credential_key(), api_key)]
}

/// Resolves one postal code of one country.
#[derive(Debug)]
pub struct LocationClient {
    pub api_key: String,
    pub zip: String,
    pub country: String,
}

impl LocationClient {
    pub fn new(zip: String, country: String, api_key: String) -> (r: Self)
        ensures
            r.zip@ == zip@,
            r.country@ == country@,
            r.api_key@ == api_key@,
    {
        LocationClient { zip, country, api_key }
    }

    pub open spec fn params_view(&self) -> Seq<ParamView> {
        geocode_params(self.zip@, self.country@, self.api_key@)
    }

    /// The request's parameters.
    pub fn params(&self) -> (r: RequestParams)
        ensures
            r@ == self.params_view(),
    {
        let mut p = RequestParams::new();
        let mut zip_value = self.zip.clone();
        let comma = ",";
        let key = "appid";
        proof {
            reveal_strlit(",");
            reveal_strlit("appid");
            assert(key@ =~= credential_key());
        }
        zip_value.append(comma);
        zip_value.append(self.country.as_str());
        let ghost zv = zip_value@;
        assert(zv =~= self.zip@ + seq![','] + self.country@);
        proof {
            reveal_strlit("zip");
            assert("zip"@ != credential_key());
        }
        let zip_name = String::from_str("zip");
        assert(zip_name@ == "zip"@);
        p.insert(zip_name, zip_value);
        assert(p@ =~= seq![("zip"@, zv)]);
        p.insert(String::from_str(key), self.api_key.clone());
        assert(p@ =~= self.params_view());
        p
    }

    /// The address that a fetch-style transport requests.
    pub fn url(&self) -> (r: String)
        ensures
            r@ == url_text(GEOCODING_API_BASE_URL@, self.params_view()),
    {
        self.params().url(GEOCODING_API_BASE_URL)
    }

    /// The endpoint line of debug output, the credential replaced by a placeholder.
    pub fn debug_endpoint(&self) -> (r: String)
        ensures
            r@ == debug_text(GEOCODING_API_BASE_URL@, self.params_view()),
    {
        self.params().debug_url(GEOCODING_API_BASE_URL)
    }

    /// The place that the outcome of the geocoding request holds.
    pub fn location_from(&self, outcome: Result<HttpResponse, WasmError>) -> (r: Result<
        Location,
        ClientError,
    >)
        ensures
            outcome matches Err(e) ==> (r matches Err(ClientError::Transport(m)) && m@
                == e.message@),
            outcome matches Ok(resp) ==> (resp.status != 200 ==> r == Err::<Location, ClientError>(
                ClientError::RequestFailed(resp.status),
            )),
            outcome matches Ok(resp) ==> (resp.status == 200 ==> (r is Ok <==> (json_of_text(
                resp.body@,
            ) matches Some(j) && location_decodes(j)))),
            outcome matches Ok(resp) ==> (resp.status == 200 ==> (r is Err ==> r matches Err(
                ClientError::Decode,
            ))),
            r matches Ok(l) ==> (outcome matches Ok(resp) && json_of_text(resp.body@) matches Some(
                j,
            ) && l.read_from(j) && l.wf()),
    {
        let body = accepted_body(outcome)?;
        decode_location(body.as_str())
    }
}

/// The debug line of a geocoding request is the endpoint, `?zip=`, the postal
/// code, a comma, the country, and `&appid=` with the placeholder: the same
/// line whatever the credential.
pub proof fn lemma_geocode_debug_hides_key(
    zip: Seq<char>,
    country: Seq<char>,
    key1: Seq<char>,
    key2: Seq<char>,
)
    ensures
        debug_text(GEOCODING_API_BASE_URL@, geocode_params(zip, country, key1)) == debug_text(
            GEOCODING_API_BASE_URL@,
            geocode_params(zip, country, key2),
        ),
        debug_text(GEOCODING_API_BASE_URL@, geocode_params(zip, country, key1))
            == GEOCODING_API_BASE_URL@ + seq!['?'] + "zip"@ + seq!['='] + zip + seq![','] + country
            + seq!['&'] + credential_key() + seq!['='] + placeholder(),
{
    let a = geocode_params(zip, country, key1);
    let b = geocode_params(zip, country, key2);
    reveal_strlit("zip");
    assert("zip"@ != credential_key());
    crate::request::lemma_redaction_ignores_credential(a, b);
    let r = redacted_params(a);
    assert(r =~= seq![("zip"@, zip + seq![','] + country), (credential_key(), placeholder())]);
    assert(r.drop_last() =~= seq![("zip"@, zip + seq![','] + country)]);
    assert(query_text(r.drop_last()) == crate::request::pair_text(r[0]));
    assert(debug_text(GEOCODING_API_BASE_URL@, a) =~= GEOCODING_API_BASE_URL@ + seq!['?'] + "zip"@
        + seq!['='] + zip + seq![','] + country + seq!['&'] + credential_key() + seq!['=']
        + placeholder());
}

/// `label`, the text, and `end`, appended to `out`.
fn push_labelled(out: &mut String, label: &str, text: &str, end: &str)
    ensures
        final(out)@ == old(out)@ + label@ + text@ + end@,
{
    out.append(label);
    out.append(text);
    out.append(end);
    assert(final(out)@ =~= old(out)@ + label@ + text@ + end@);
}

impl Location {
    /// The fields as five bracketed lines: name, country, zip, lat, lon.
    pub fn detailed_display(&self) -> (r: String)
        ensures
            r@ == "name: ["@ + self.name@ + "]\ncountry: ["@ + self.country@ + "]\nzip: ["@
                + self.zip@ + "]\nlat: ["@ + self.lat@ + "]\nlon: ["@ + self.lon@ + "]"@,
    {
        let mut out = String::new();
        push_labelled(&mut out, "name: [", self.name.as_str(), "]\n");
        push_labelled(&mut out, "country: [", self.country.as_str(), "]\n");
        push_labelled(&mut out, "zip: [", self.zip.as_str(), "]\n");
        push_labelled(&mut out, "lat: [", self.lat.as_str(), "]\n");
        push_labelled(&mut out, "lon: [", self.lon.as_str(), "]");
        proof {
            reveal_strlit("]\n");
            reveal_strlit("]\ncountry: [");
            reveal_strlit("]\nzip: [");
            reveal_strlit("]\nlat: [");
            reveal_strlit("]\nlon: [");
            reveal_strlit("]");
            reveal_strlit("country: [");
            reveal_strlit("zip: [");
            reveal_strlit("lat: [");
            reveal_strlit("lon: [");
        }
        assert(out@ =~= "name: ["@ + self.name@ + "]\ncountry: ["@ + self.country@ + "]\nzip: ["@
            + self.zip@ + "]\nlat: ["@ + self.lat@ + "]\nlon: ["@ + self.lon@ + "]"@);
        out
    }

    /// The lines that debug output echoes for a resolved place: zip, name,
    /// country, lat, lon.
    pub fn debug_lines(&self) -> (r: String)
        ensures
            r@ == "zip: "@ + self.zip@ + "\nname: "@ + self.name@ + "\ncountry: "@
                + self.country@ + "\nlat: "@ + self.lat@ + "\nlon: "@ + self.lon@,
    {
        let mut out = String::new();
        push_labelled(&mut out, "zip: ", self.zip.as_str(), "\n");
        push_labelled(&mut out, "name: ", self.name.as_str(), "\n");
        push_labelled(&mut out, "country: ", self.country.as_str(), "\n");
        push_labelled(&mut out, "lat: ", self.lat.as_str(), "\n");
        push_labelled(&mut out, "lon: ", self.lon.as_str(), "");
        proof {
            reveal_strlit("\n");
            reveal_strlit("");
            reveal_strlit("\nname: ");
            reveal_strlit("\ncountry: ");
            reveal_strlit("\nlat: ");
            reveal_strlit("\nlon: ");
            reveal_strlit("name: ");
            reveal_strlit("country: ");
            reveal_strlit("lat: ");
            reveal_strlit("lon: ");
        }
        assert(out@ =~= "zip: "@ + self.zip@ + "\nname: "@ + self.name@ + "\ncountry: "@
            + self.country@ + "\nlat: "@ + self.lat@ + "\nlon: "@ + self.lon@);
        out
    }
}

/// Resolving is idempotent: two places read from the same answer body are
/// the same place, field for field.
pub proof fn lemma_resolve_idempotent(body: Seq<char>, a: Location, b: Location)
    requires
        json_of_text(body) matches Some(j) && a.read_from(j),
        json_of_text(body) matches Some(j) && b.read_from(j),
    ensures
        a.zip@ == b.zip@,
        a.name@ == b.name@,
        a.lat@ == b.lat@,
        a.lon@ == b.lon@,
        a.country@ == b.country@,
{
}

} // verus!
