//! Places from the database of names: how they are searched, ordered and told
//! apart.

use crate::order::{
    is_text_before, lemma_text_before_asymmetric, lemma_text_before_splits, lemma_text_before_total,
    stable_sort, stable_sorted, text_before, Ranking,
};
use crate::text::same;
use vstd::prelude::*;

verus! {

/// A place. Numbers that are no whole numbers are held by their bits, by their
/// place in the order of all of them, or as they are shown.
#[derive(Debug)]
pub struct GeoLocation {
    pub name: String,
    pub country_code: String,
    pub latitude_bits: u64,
    pub longitude_bits: u64,
    pub population: i64,
    pub elevation: Option<i64>,
    /// How far the place is from where it is searched, as it is shown.
    pub distance: String,
    /// The place of the distance in the order of distances.
    pub distance_rank: i64,
    /// Whether the distance is no more than the radius that was searched.
    pub within_radius: bool,
}

/// Whether two entries are the same place.
pub open spec fn same_place(left: GeoLocation, right: GeoLocation) -> bool {
    &&& left.name@ == right.name@
    &&& left.country_code@ == right.country_code@
    &&& left.latitude_bits == right.latitude_bits
    &&& left.longitude_bits == right.longitude_bits
    &&& left.population == right.population
}

/// Whether two places are one.
pub fn is_same_geo_location(left: &GeoLocation, right: &GeoLocation) -> (r: bool)
    ensures
        r == same_place(*left, *right),
{
    same(left.name.as_str(), right.name.as_str()) && same(
        left.country_code.as_str(),
        right.country_code.as_str(),
    ) && left.latitude_bits == right.latitude_bits && left.longitude_bits == right.longitude_bits
        && left.population == right.population
}

/// Places by distance, then by country, name and population.
pub struct ByDistance {}

impl Ranking<GeoLocation> for ByDistance {
    open spec fn before(a: &GeoLocation, b: &GeoLocation) -> bool {
        if a.distance_rank != b.distance_rank {
            a.distance_rank < b.distance_rank
        } else if a.country_code@ != b.country_code@ {
            text_before(a.country_code@, b.country_code@)
        } else if a.name@ != b.name@ {
            text_before(a.name@, b.name@)
        } else {
            a.population < b.population
        }
    }

    fn is_before(a: &GeoLocation, b: &GeoLocation) -> (r: bool) {
        if a.distance_rank != b.distance_rank {
            a.distance_rank < b.distance_rank
        } else if !same(a.country_code.as_str(), b.country_code.as_str()) {
            is_text_before(a.country_code.as_str(), b.country_code.as_str())
        } else if !same(a.name.as_str(), b.name.as_str()) {
            is_text_before(a.name.as_str(), b.name.as_str())
        } else {
            a.population < b.population
        }
    }

    proof fn lemma_asymmetric(a: &GeoLocation, b: &GeoLocation) {
        lemma_text_before_asymmetric(a.country_code@, b.country_code@);
        lemma_text_before_asymmetric(a.name@, b.name@);
    }

    proof fn lemma_splits(a: &GeoLocation, middle: &GeoLocation, b: &GeoLocation) {
        if a.country_code@ != b.country_code@ && text_before(a.country_code@, b.country_code@) {
            lemma_text_before_splits(a.country_code@, middle.country_code@, b.country_code@);
        }
        if a.name@ != b.name@ && text_before(a.name@, b.name@) {
            lemma_text_before_splits(a.name@, middle.name@, b.name@);
        }
        if a.country_code@ == b.country_code@ && a.country_code@ != middle.country_code@ {
            if !text_before(a.country_code@, middle.country_code@) && !text_before(
                middle.country_code@,
                a.country_code@,
            ) {
                lemma_text_before_total(a.country_code@, middle.country_code@);
            }
        }
        if a.name@ == b.name@ && a.name@ != middle.name@ {
            if !text_before(a.name@, middle.name@) && !text_before(middle.name@, a.name@) {
                lemma_text_before_total(a.name@, middle.name@);
            }
        }
    }
}

/// Sorts places, the nearest first.
pub fn sort_locations_by_distance(locations: Vec<GeoLocation>) -> (r: Vec<GeoLocation>)
    ensures
        r@ == stable_sorted::<GeoLocation, ByDistance>(locations@),
{
    stable_sort::<GeoLocation, ByDistance>(locations)
}

/// How many of the nearest places are shown.
pub const NEAREST_LOCATION_LIMIT: usize = 5;

/// What the population of a place has to exceed for it to count as a city.
pub const NEAREST_CITY_MINIMUM_POPULATION: i64 = 200_000;

/// The radius that a search starts with, in kilometres.
pub const FIRST_SEARCH_RADIUS: u32 = 25;

/// The radius that no search goes beyond.
pub const LAST_SEARCH_RADIUS: u32 = 20_000;

/// What there is to do next in the search for the nearest places.
pub enum NearestStep {
    /// Search within this radius.
    Search(u32),
    /// These are the nearest places.
    Found(Vec<GeoLocation>),
}

/// Whether a search within a radius found enough: as many places as are wanted,
/// all of them within the radius.
pub open spec fn is_enough(sorted: Seq<GeoLocation>, limit: nat) -> bool {
    0 < limit <= sorted.len() && sorted[limit - 1].within_radius
}

/// The first `limit` of a list.
pub open spec fn first_of(locations: Seq<GeoLocation>, limit: nat) -> Seq<GeoLocation> {
    if limit < locations.len() {
        locations.take(limit as int)
    } else {
        locations
    }
}

/// Starts a search for the nearest places: none are found where none are wanted.
pub fn nearest_locations(limit: usize) -> (r: NearestStep)
    ensures
        if limit == 0 {
            r matches NearestStep::Found(none) && none@.len() == 0
        } else {
            r == NearestStep::Search(FIRST_SEARCH_RADIUS)
        },
{
    if limit == 0 {
        NearestStep::Found(Vec::new())
    } else {
        NearestStep::Search(FIRST_SEARCH_RADIUS)
    }
}

/// Goes on after a search within a radius: with twice the radius, until enough
/// is found or the earth is searched.
pub fn continue_search(radius: u32, limit: usize, candidates: Vec<GeoLocation>) -> (r: NearestStep)
    requires
        0 < radius <= LAST_SEARCH_RADIUS,
        limit > 0,
    ensures
        ({
            let sorted = stable_sorted::<GeoLocation, ByDistance>(candidates@);
            if !is_enough(sorted, limit as nat) && 2 * radius <= LAST_SEARCH_RADIUS {
                r == NearestStep::Search((2 * radius) as u32)
            } else {
                r matches NearestStep::Found(found) && found@ == first_of(sorted, limit as nat)
            }
        }),
{
    let mut sorted = sort_locations_by_distance(candidates);
    let enough = sorted.len() >= limit && sorted[limit - 1].within_radius;
    if !enough && 2 * radius <= LAST_SEARCH_RADIUS {
        return NearestStep::Search(2 * radius);
    }
    if limit < sorted.len() {
        sorted.truncate(limit);
    }
    NearestStep::Found(sorted)
}

/// What a search for the places of a name asks the database: those that bear it
/// in any letter case, the largest first.
pub const LOCATIONS_BY_NAME_QUERY: &'static str = "
        SELECT name, country_code, latitude, longitude, population, elevation
        FROM locations
        WHERE name = ?1 COLLATE NOCASE
        ORDER BY population DESC, country_code ASC, name ASC
        ";

/// What a search for places in a range of coordinates asks the database. The
/// longitudes are two ranges where the search crosses the date line, and the
/// population has a lower bound where one is asked for.
pub open spec fn candidate_query_text(wraps_date_line: bool, has_minimum: bool) -> Seq<char> {
    "\n        SELECT name, country_code, latitude, longitude, population, elevation\n        FROM locations\n        WHERE latitude BETWEEN ?1 AND ?2\n"@
        + (if wraps_date_line {
        "          AND (longitude >= ?3 OR longitude <= ?4)\n"@
    } else {
        "          AND longitude BETWEEN ?3 AND ?4\n"@
    }) + (if has_minimum {
        "          AND population > ?5\n"@
    } else {
        ""@
    }) + "\n        "@
}

/// The query for the places around a position.
pub fn candidate_query(wraps_date_line: bool, has_minimum: bool) -> (r: String)
    ensures
        r@ == candidate_query_text(wraps_date_line, has_minimum),
{
    let mut query =
        "\n        SELECT name, country_code, latitude, longitude, population, elevation\n        FROM locations\n        WHERE latitude BETWEEN ?1 AND ?2\n".to_owned();
    query.push_str(
        if wraps_date_line {
            "          AND (longitude >= ?3 OR longitude <= ?4)\n"
        } else {
            "          AND longitude BETWEEN ?3 AND ?4\n"
        },
    );
    query.push_str(
        if has_minimum {
            "          AND population > ?5\n"
        } else {
            ""
        },
    );
    query.push_str("\n        ");
    query
}

/// Every place that a search finds is one of the candidates, and no candidate
/// that was left out comes before one that was found.
pub proof fn law_nearest_come_first(candidates: Seq<GeoLocation>, limit: nat)
    ensures
        ({
            let sorted = stable_sorted::<GeoLocation, ByDistance>(candidates);
            let found = first_of(sorted, limit);
            &&& forall|i: int| 0 <= i < found.len() ==> candidates.contains(#[trigger] found[i])
            &&& forall|i: int, j: int|
                0 <= i < found.len() <= j < sorted.len() ==> !ByDistance::before(
                    #[trigger] &sorted[j],
                    #[trigger] &found[i],
                )
        }),
{
    broadcast use vstd::seq_lib::group_to_multiset_ensures;

    let sorted = stable_sorted::<GeoLocation, ByDistance>(candidates);
    let found = first_of(sorted, limit);
    crate::order::law_stable_sorted_is_ordered_permutation::<GeoLocation, ByDistance>(candidates);
    assert forall|i: int| 0 <= i < found.len() implies candidates.contains(#[trigger] found[i]) by {
        assert(found[i] == sorted[i]);
        assert(sorted.contains(sorted[i]));
        assert(sorted.to_multiset().count(sorted[i]) > 0);
        assert(candidates.to_multiset().count(sorted[i]) > 0);
    }
    assert forall|i: int, j: int| 0 <= i < found.len() <= j < sorted.len() implies !ByDistance::before(
        #[trigger] &sorted[j],
        #[trigger] &found[i],
    ) by {
        assert(found[i] == sorted[i]);
    }
}

} // verus!
