//! Processing of stored rides: extracting the endpoints that the address
//! and travel-time collaborators need, assembling the enriched record from
//! their answers, reading the travel times out of a distance-matrix
//! answer, and aggregating surface tags.

use vstd::prelude::*;

use crate::geom::TrackPoint;
use crate::nominatim::Address;
use crate::ride::ProcessedRide;
use crate::ride::QueryRide;
use crate::ride::RideError;

verus! {

/// The start and end point of a stored ride, as the collaborators need
/// them; a ride whose document lacks either cannot be processed.
pub fn ride_endpoints(ride: &QueryRide) -> (r: Result<(TrackPoint, TrackPoint), RideError>)
    ensures
        match r {
            Ok(pts) => {
                &&& ride.start_point == Some(pts.0)
                &&& ride.end_point == Some(pts.1)
            },
            Err(RideError::NoStartPoint) => ride.start_point is None,
            Err(RideError::NoEndPoint) => {
                &&& ride.start_point is Some
                &&& ride.end_point is None
            },
        },
{
    match ride.start_point {
        Some(s) => match ride.end_point {
            Some(e) => Ok((s, e)),
            None => Err(RideError::NoEndPoint),
        },
        None => Err(RideError::NoStartPoint),
    }
}

/// Assembles the enriched record from the stored ride, its endpoints, the
/// collaborators' addresses for them, and the travel times where an
/// origin was given.
pub fn process_ride(
    ride: QueryRide,
    start_point: TrackPoint,
    end_point: TrackPoint,
    start_address: Address,
    end_address: Address,
    times: Option<(i64, i64)>,
) -> (r: ProcessedRide)
    ensures
        r.id == ride.id,
        r.name == ride.name,
        r.total_distance == ride.total_distance,
        r.geo_json == ride.geo_json,
        r.ways == ride.ways,
        r.start_point == start_point,
        r.end_point == end_point,
        r.start_address == start_address,
        r.end_address == end_address,
        r.time_from_origin_to_start == match times {
            Some(t) => Some(t.0),
            None => None::<i64>,
        },
        r.time_from_end_to_origin == match times {
            Some(t) => Some(t.1),
            None => None::<i64>,
        },
{
    let (to_start, from_end) = match times {
        Some(t) => (Some(t.0), Some(t.1)),
        None => (None, None),
    };
    ProcessedRide {
        id: ride.id,
        name: ride.name,
        total_distance: ride.total_distance,
        geo_json: ride.geo_json,
        ways: ride.ways,
        start_point,
        end_point,
        start_address,
        end_address,
        time_from_origin_to_start: to_start,
        time_from_end_to_origin: from_end,
    }
}

/// What can be missing in a distance-matrix answer, in the order the
/// extraction looks: the first row, its first element, that element's
/// duration; then the second row, its second element, and that element's
/// duration.
#[derive(Clone, Copy, PartialEq, Eq, Structural, Debug)]
pub enum MatrixError {
    NoRow0,
    NoElement0,
    NoDuration0,
    NoRow1,
    NoElement1,
    NoDuration1,
}

/// Reads the two travel times out of a distance-matrix answer, given as
/// rows of optional durations in seconds: the time from the origin to the
/// ride's start is element 0 of row 0, the time from the ride's end back
/// to the origin is element 1 of row 1. Each missing piece is reported
/// distinctly, in lookup order.
pub fn matrix_durations(rows: &Vec<Vec<Option<i64>>>) -> (r: Result<(i64, i64), MatrixError>)
    ensures
        match r {
            Ok(t) => {
                &&& rows@.len() >= 2
                &&& rows@[0]@.len() >= 1
                &&& rows@[1]@.len() >= 2
                &&& rows@[0]@[0] == Some(t.0)
                &&& rows@[1]@[1] == Some(t.1)
            },
            Err(MatrixError::NoRow0) => rows@.len() == 0,
            Err(MatrixError::NoElement0) => rows@.len() >= 1 && rows@[0]@.len() == 0,
            Err(MatrixError::NoDuration0) => {
                &&& rows@.len() >= 1
                &&& rows@[0]@.len() >= 1
                &&& rows@[0]@[0] is None
            },
            Err(MatrixError::NoRow1) => {
                &&& rows@.len() == 1
                &&& rows@[0]@.len() >= 1
                &&& rows@[0]@[0] is Some
            },
            Err(MatrixError::NoElement1) => {
                &&& rows@.len() >= 2
                &&& rows@[0]@.len() >= 1
                &&& rows@[0]@[0] is Some
                &&& rows@[1]@.len() < 2
            },
            Err(MatrixError::NoDuration1) => {
                &&& rows@.len() >= 2
                &&& rows@[0]@.len() >= 1
                &&& rows@[0]@[0] is Some
                &&& rows@[1]@.len() >= 2
                &&& rows@[1]@[1] is None
            },
        },
{
    if rows.len() == 0 {
        return Err(MatrixError::NoRow0);
    }
    if rows[0].len() == 0 {
        return Err(MatrixError::NoElement0);
    }
    let origin_to_start = match rows[0][0] {
        Some(t) => t,
        None => {
            return Err(MatrixError::NoDuration0);
        },
    };
    if rows.len() < 2 {
        return Err(MatrixError::NoRow1);
    }
    if rows[1].len() < 2 {
        return Err(MatrixError::NoElement1);
    }
    let end_to_origin = match rows[1][1] {
        Some(t) => t,
        None => {
            return Err(MatrixError::NoDuration1);
        },
    };
    Ok((origin_to_start, end_to_origin))
}

/// Whether the characters of `s` equal those of `t`.
fn str_is(s: &str, t: &str) -> (r: bool)
    ensures
        r == (s@ == t@),
{
    s.to_owned().eq(&t.to_owned())
}

/// The aggregation of a raw surface tag into a coarse class, as the
/// specification sees it.
pub open spec fn spec_aggregate_surface(s: Seq<char>) -> Seq<char> {
    if s == "gravel"@ || s == "unpaved"@ || s == "dirt"@ || s == "fine_gravel"@ || s == "rock"@ {
        "dirt"@
    } else if s == "asphalt"@ || s == "paved"@ {
        "tarmac"@
    } else {
        s
    }
}

/// Aggregates a raw surface tag into a coarse class: the unpaved variants
/// become "dirt", the paved ones "tarmac", anything else passes through.
pub fn aggregate_surface<'a>(surface: &'a str) -> (r: &'a str)
    ensures
        r@ == spec_aggregate_surface(surface@),
{
    if str_is(surface, "gravel") || str_is(surface, "unpaved") || str_is(surface, "dirt")
        || str_is(surface, "fine_gravel") || str_is(surface, "rock") {
        "dirt"
    } else if str_is(surface, "asphalt") || str_is(surface, "paved") {
        "tarmac"
    } else {
        surface
    }
}

} // verus!
