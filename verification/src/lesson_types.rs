//! Typed payloads of the live-execution collaborator.
//!
//! Query lessons are graded by sending a query to a running database and
//! inspecting its reply.  The network call lives outside this crate; what
//! matters here are the typed request and reply shapes, and the pure
//! decisions over them: whether a reply matches the lesson's input.  The
//! caller performs the call and hands the decoded reply to the decision
//! functions below.  Shapes whose payloads are floating-point (country
//! statistics, embeddings) stay outside with the caller.

use vstd::prelude::*;

verus! {

pub struct AddContinentInput {
    pub name: String,
}

pub struct ContinentData {
    pub id: String,
    pub name: String,
}

pub struct AddContinentResult {
    pub continent: ContinentData,
}

pub struct AddCityInput {
    pub country_id: String,
    pub name: String,
    pub description: String,
}

pub struct CityData {
    pub id: String,
    pub name: String,
    pub description: String,
}

pub struct AddCityResult {
    pub city: CityData,
}

pub struct AddCapitalInput {
    pub country_id: String,
    pub city_id: String,
}

pub struct CapitalEdgeData {
    pub id: String,
    pub from_node: String,
    pub to_node: String,
    pub label: String,
}

pub struct AddCapitalResult {
    pub country_capital: CapitalEdgeData,
}

pub struct CityEmbeddingEdgeData {
    pub id: String,
    pub from_node: String,
    pub to_node: String,
    pub label: String,
}

pub struct GetContinentInput {
    pub continent_id: String,
}

pub struct GetContinentResult {
    pub continent: ContinentData,
}

pub struct GetCountryInput {
    pub country_id: String,
}

pub struct GetCityInput {
    pub city_id: String,
}

pub struct GetCityResult {
    pub city: CityData,
}

pub struct GetAllContinentsResult {
    pub continents: Vec<ContinentData>,
}

pub struct GetAllCitiesResult {
    pub cities: Vec<CityData>,
}

pub struct GetCountriesInContinentInput {
    pub continent_id: String,
}

pub struct GetCitiesInCountryInput {
    pub country_id: String,
}

pub struct GetCitiesInCountryResult {
    pub cities: Vec<CityData>,
}

pub struct GetCapitalInput {
    pub country_id: String,
}

pub struct GetCapitalResult {
    pub capital: Vec<CityData>,
}

pub struct CountryNameData {
    pub name: Vec<String>,
    pub population: Vec<u64>,
}

pub struct GetCountryNamesResult {
    pub countries: Vec<CountryNameData>,
}

pub struct GetContinentByNameInput {
    pub continent_name: String,
}

pub struct GetContinentByNameResult {
    pub continent: Vec<ContinentData>,
}

pub struct GetCountryByNameInput {
    pub country_name: String,
}

pub struct GetCityByNameInput {
    pub city_name: String,
}

pub struct GetCityByNameResult {
    pub city: Vec<CityData>,
}

pub struct GetCountriesByCurrencyInput {
    pub currency: String,
}

pub struct GetCountriesByPopulationInput {
    pub max_population: u64,
}

pub struct GetCountriesByCurrPopInput {
    pub currency: String,
    pub max_population: i64,
}

pub struct GetContinentCitiesInput {
    pub continent_name: String,
    pub k: u64,
}

pub struct GetContinentCitiesResult {
    pub cities: Vec<CityData>,
}

pub struct CountCapitalsResult {
    pub num_capital: u64,
}

/// A continent-creation reply matches when it echoes the requested name.
pub fn continent_result_matches(input: &AddContinentInput, result: &AddContinentResult) -> (r: bool)
    ensures
        r == (result.continent.name@ == input.name@),
{
    crate::strutil::str_eq(result.continent.name.as_str(), input.name.as_str())
}

/// A city-creation reply matches when it echoes the requested name and
/// description.
pub fn city_result_matches(input: &AddCityInput, result: &AddCityResult) -> (r: bool)
    ensures
        r == (result.city.name@ == input.name@ && result.city.description@ == input.description@),
{
    crate::strutil::str_eq(result.city.name.as_str(), input.name.as_str())
        && crate::strutil::str_eq(result.city.description.as_str(), input.description.as_str())
}

/// A capital-edge reply matches when the edge runs from the requested
/// country to the requested city.
pub fn capital_edge_matches(result: &AddCapitalResult, country_id: &str, city_id: &str) -> (r: bool)
    ensures
        r == (result.country_capital.from_node@ == country_id@ && result.country_capital.to_node@
            == city_id@),
{
    crate::strutil::str_eq(result.country_capital.from_node.as_str(), country_id)
        && crate::strutil::str_eq(result.country_capital.to_node.as_str(), city_id)
}

/// A continent lookup succeeded when it returned a non-empty id and name.
pub fn continent_lookup_ok(result: &GetContinentResult) -> (r: bool)
    ensures
        r == (result.continent.id@.len() > 0 && result.continent.name@.len() > 0),
{
    !result.continent.id.as_str().is_empty() && !result.continent.name.as_str().is_empty()
}

/// A city lookup succeeded when it returned a non-empty id and name.
pub fn city_lookup_ok(result: &GetCityResult) -> (r: bool)
    ensures
        r == (result.city.id@.len() > 0 && result.city.name@.len() > 0),
{
    !result.city.id.as_str().is_empty() && !result.city.name.as_str().is_empty()
}

/// A capital lookup succeeded when it returned at least one city whose
/// id and name are non-empty.
pub fn capital_lookup_ok(result: &GetCapitalResult) -> (r: bool)
    ensures
        r == (result.capital@.len() > 0 && result.capital@[0].id@.len() > 0
            && result.capital@[0].name@.len() > 0),
{
    result.capital.len() > 0 && !result.capital[0].id.as_str().is_empty()
        && !result.capital[0].name.as_str().is_empty()
}

} // verus!
