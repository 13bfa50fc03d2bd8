//! Addressing: which image a request's coordinates are in, and where an action aims.

use serde_json::Value;
use vstd::prelude::*;

use crate::capture::{self, Display};
use crate::elements::{self, ControlNow, Entry, EntryView};
use crate::json::{self, Json};
use crate::observation::{
    self, Observation, ObservationView, Observations, ObservationsView, Refusal,
};
use crate::target;
use crate::text;
use crate::wire::{self, Failure, FailureView};

verus! {

/// The image a request names.
pub open spec fn image_named(
    observation_id: Option<Seq<char>>,
    table: ObservationsView,
    now_ms: u64,
) -> Result<Option<ObservationView>, FailureView> {
    match observation_id {
        None => Ok(None),
        Some(id) => match table.named(id, now_ms) {
            Ok(named) => Ok(Some(named)),
            Err(refusal) => Err(capture::refused_view(refusal)),
        },
    }
}

/// The image a request names, when it names one.
pub fn named_observation(
    observation_id: Option<&str>,
    observations: &Observations,
    now_ms: u64,
) -> (r: Result<Option<Observation>, Failure>)
    ensures
        (match r {
            Ok(Some(named)) => Ok(Some(named@)),
            Ok(None) => Ok(None),
            Err(failure) => Err(failure@),
        }) == image_named(text::slice_of(observation_id), observations@, now_ms),
{
    match observation_id {
        None => Ok(None),
        Some(id) => match observations.resolve(id, now_ms) {
            Ok(named) => Ok(Some(named.copy())),
            Err(refusal) => Err(capture::refused(refusal)),
        },
    }
}

/// The image an action's coordinates were read in, or why it cannot be used.
pub open spec fn image_required(
    observation_id: Option<Seq<char>>,
    table: ObservationsView,
    now_ms: u64,
) -> Result<ObservationView, FailureView> {
    match image_named(observation_id, table, now_ms) {
        Ok(Some(named)) => Ok(named),
        Ok(None) => Err(wire::coded("observation_required"@)),
        Err(failure) => Err(failure),
    }
}

/// The image an action's coordinates were read in, as the table holds it.
pub fn held<'a>(observation_id: Option<&str>, observations: &'a Observations, now_ms: u64) -> (r:
    Result<&'a Observation, Failure>)
    ensures
        (match r {
            Ok(named) => Ok(named@),
            Err(failure) => Err(failure@),
        }) == image_required(text::slice_of(observation_id), observations@, now_ms),
{
    match observation_id {
        None => Err(Failure::coded("observation_required")),
        Some(id) => match observations.resolve(id, now_ms) {
            Ok(named) => Ok(named),
            Err(refusal) => Err(capture::refused(refusal)),
        },
    }
}

/// The control a reference names in the image it is sent with: the table's own refusal
/// where that image is not held any more, and otherwise what that image listed under
/// the reference.
pub open spec fn control_named(
    table: ObservationsView,
    observation_id: Seq<char>,
    element_ref: Option<Seq<char>>,
    now_ms: u64,
) -> Result<EntryView, FailureView> {
    match table.named(observation_id, now_ms) {
        Err(refusal) => Err(capture::refused_view(refusal)),
        Ok(named) => elements::addressed(named.elements, element_ref),
    }
}

/// The control a reference names in the image it is sent with.
pub fn element_named<'a>(
    observations: &'a Observations,
    observation_id: &str,
    element_ref: Option<&str>,
    now_ms: u64,
) -> (r: Result<&'a Entry, Failure>)
    ensures
        elements::found(r) == control_named(
            observations@,
            observation_id@,
            text::slice_of(element_ref),
            now_ms,
        ),
{
    match observations.resolve(observation_id, now_ms) {
        Ok(named) => elements::element_in(named, element_ref),
        Err(refusal) => Err(capture::refused(refusal)),
    }
}

/// An observation found, with what it says in place of what it holds.
pub open spec fn seen(r: Result<Observation, Failure>) -> Result<ObservationView, FailureView> {
    match r {
        Ok(named) => Ok(named@),
        Err(failure) => Err(failure@),
    }
}

/// The image an action's coordinates were read in. Copied, so that the action can
/// mint an image of its own into the same table.
pub fn observed(observation_id: Option<&str>, observations: &Observations, now_ms: u64) -> (r:
    Result<Observation, Failure>)
    ensures
        seen(r) == image_required(text::slice_of(observation_id), observations@, now_ms),
{
    match named_observation(observation_id, observations, now_ms) {
        Ok(Some(named)) => Ok(named),
        Ok(None) => Err(Failure::coded("observation_required")),
        Err(failure) => Err(failure),
    }
}

/// Whether a point may be used in an image: one outside it is refused and never moved
/// onto an edge.
pub open spec fn inside(named: ObservationView, x: i64, y: i64) -> Result<(), FailureView> {
    if named.encloses(x as int, y as int) {
        Ok(())
    } else {
        Err(
            capture::refused_view(
                Refusal::OutsidePoint { x, y, w: named.sent_w, h: named.sent_h },
            ),
        )
    }
}

/// Whether a point was read inside the image it names.
pub fn point_in(observation: &Observation, x: i64, y: i64) -> (r: Result<(), Failure>)
    ensures
        target::told(r) == inside(observation@, x, y),
{
    match observation.contains(x, y) {
        Ok(()) => Ok(()),
        Err(refusal) => Err(capture::refused(refusal)),
    }
}

/// Whether a display is the one an image was made on, unchanged.
pub open spec fn still_there(named: ObservationView, display: Display) -> bool {
    named.display_id == display.id && named.facts == display.facts
}

/// The display an image was made on, where it is still the one in front of us.
pub fn same_display(observation: &Observation, display: Display) -> (r: Result<Display, Failure>)
    ensures
        target::told(r) == (if still_there(observation@, display) {
            Ok(display)
        } else {
            Err(capture::refused_view(Refusal::Stale))
        }),
{
    if observation.matches_display(display.id, &display.facts) {
        Ok(display)
    } else {
        Err(capture::refused(Refusal::Stale))
    }
}

/// The display an action's check is taken on and, for a point, proof that it is still
/// the one the image was made on. A control needs none: its place is read at the
/// moment of the action.
pub fn display_for(names_element: bool, observation: &Observation, display: Display) -> (r: Result<
    Display,
    Failure,
>)
    ensures
        target::told(r) == (if names_element || still_there(observation@, display) {
            Ok(display)
        } else {
            Err(capture::refused_view(Refusal::Stale))
        }),
{
    if names_element {
        Ok(display)
    } else {
        same_display(observation, display)
    }
}

/// The point a request gives.
pub open spec fn coords_of(req: Json) -> Result<(i64, i64), FailureView> {
    match (json::field_length(req, "x"@), json::field_length(req, "y"@)) {
        (None, _) => Err(wire::coded("missing x"@)),
        (Some(_), None) => Err(wire::coded("missing y"@)),
        (Some(x), Some(y)) => Ok((x, y)),
    }
}

/// The point a request gives.
pub fn coords(req: &Value) -> (r: Result<(i64, i64), Failure>)
    ensures
        target::told(r) == coords_of(json::json_of(*req)),
{
    let x: i64 = match json::length_at(req, "x") {
        Some(x) => x,
        None => return Err(Failure::coded("missing x")),
    };
    let y: i64 = match json::length_at(req, "y") {
        Some(y) => y,
        None => return Err(Failure::coded("missing y")),
    };
    Ok((x, y))
}

/// The point a value describes: an object with both members, or a list of the two.
pub open spec fn point_of(value: Option<Json>) -> Option<(i64, i64)> {
    match value {
        Some(Json::List(items)) => if items.len() == 2 {
            match (json::length_of(items[0]), json::length_of(items[1])) {
                (Some(x), Some(y)) => Some((x, y)),
                _ => None,
            }
        } else {
            None
        },
        Some(value) => match (json::field_length(value, "x"@), json::field_length(value, "y"@)) {
            (Some(x), Some(y)) => Some((x, y)),
            _ => None,
        },
        None => None,
    }
}

fn read_point(value: &Value) -> (r: Option<(i64, i64)>)
    ensures
        r == point_of(Some(json::json_of(*value))),
{
    let (x, y) = match value.as_array() {
        Some(items) => {
            let ghost said = json::json_list(items@);
            if items.len() != 2 {
                return None;
            }
            assert(said[0] == json::json_of(items@[0]) && said[1] == json::json_of(items@[1]));
            (json::length(&items[0]), json::length(&items[1]))
        },
        None => (json::length_at(value, "x"), json::length_at(value, "y")),
    };
    match (x, y) {
        (Some(x), Some(y)) => Some((x, y)),
        _ => None,
    }
}

/// A point a request gives under a name.
pub fn parse_point(req: &Value, field: &str) -> (r: Result<(i64, i64), Failure>)
    ensures
        target::told(r) == (match point_of(json::field(json::json_of(*req), field@)) {
            Some(point) => Ok(point),
            None => Err(wire::coded("bad "@ + field@ + " point"@)),
        }),
{
    let found = match json::member(req, field) {
        Some(value) => read_point(value),
        None => None,
    };
    match found {
        Some(point) => Ok(point),
        None => {
            let mut code = "bad ".to_owned();
            code.append(field);
            code.append(" point");
            Err(Failure { code, detail: None })
        },
    }
}

/// Where a pointer action aims.
#[derive(Clone, Copy, Debug, PartialEq)]
pub enum Aim {
    /// A point of the image the request names, to be mapped through the mapping that
    /// image was made with.
    InImage(i64, i64),
    /// The middle of a control as it is now, in global points.
    At(i32, i32),
}

/// Where a pointer action aims: at the point it gives in the image it names, or at
/// the control that image listed under the reference it gives, as the platform finds
/// it now.
pub open spec fn aim_of(
    req: Json,
    named: ObservationView,
    element_ref: Option<Seq<char>>,
    started_at: Option<u64>,
    role: Option<Seq<char>>,
    enabled: bool,
    centre: Option<(i64, i64)>,
) -> Result<Aim, FailureView> {
    match elements::maybe_addressed(named.elements, element_ref) {
        Err(failure) => Err(failure),
        Ok(None) => match coords_of(req) {
            Err(failure) => Err(failure),
            Ok((x, y)) => match inside(named, x, y) {
                Err(failure) => Err(failure),
                Ok(()) => Ok(Aim::InImage(x, y)),
            },
        },
        Ok(Some(entry)) => match elements::presence(named.elements, entry, started_at, role, enabled) {
            Err(failure) => Err(failure),
            Ok(()) => match elements::aimed(centre) {
                Err(failure) => Err(failure),
                Ok((x, y)) => Ok(Aim::At(x, y)),
            },
        },
    }
}

/// Where a pointer action aims. `now` and `centre` are what the platform says of the
/// control it names, where it names one.
pub fn aim(
    req: &Value,
    observation: &Observation,
    element_ref: Option<&str>,
    now: &ControlNow,
    centre: Option<(i64, i64)>,
) -> (r: Result<Aim, Failure>)
    ensures
        target::told(r) == aim_of(
            json::json_of(*req),
            observation@,
            text::slice_of(element_ref),
            now.started_at,
            text::text_of(now.role),
            now.enabled,
            centre,
        ),
{
    let entry = match elements::addressed_element(observation, element_ref) {
        Ok(entry) => entry,
        Err(failure) => return Err(failure),
    };
    match entry {
        None => {
            let (x, y) = match coords(req) {
                Ok(point) => point,
                Err(failure) => return Err(failure),
            };
            match point_in(observation, x, y) {
                Ok(()) => Ok(Aim::InImage(x, y)),
                Err(failure) => Err(failure),
            }
        },
        Some(entry) => {
            match elements::present(observation, entry, now) {
                Ok(()) => {},
                Err(failure) => return Err(failure),
            }
            match elements::aim_at(centre) {
                Ok((x, y)) => Ok(Aim::At(x, y)),
                Err(failure) => Err(failure),
            }
        },
    }
}

/// A control that moved is aimed at where it is now, whatever was listed: where it
/// was plays no part, and a control that is gone, or that the image never listed, is
/// refused and never aimed at.
pub proof fn a_control_is_aimed_at_where_it_is_now(
    req: Json,
    named: ObservationView,
    element_ref: Seq<char>,
    started_at: Option<u64>,
    role: Option<Seq<char>>,
    enabled: bool,
    centre: Option<(i64, i64)>,
)
    ensures
        match aim_of(req, named, Some(element_ref), started_at, role, enabled, centre) {
            Ok(aim) => {
                &&& named.elements matches Some(listed) && started_at == Some(listed.started_at)
                &&& elements::addressed(named.elements, Some(element_ref)) matches Ok(entry)
                    && role == Some(entry.role)
                &&& enabled
                &&& centre matches Some((x, y)) && aim == Aim::At(
                    elements::pointed(x as int),
                    elements::pointed(y as int),
                )
            },
            Err(failure) => failure.code == "stale_element"@ || failure.code
                == "element_disabled"@,
        },
{
}

/// A point is never used outside the image it was read in.
pub proof fn a_point_stays_in_its_image(
    req: Json,
    named: ObservationView,
    element_ref: Option<Seq<char>>,
    started_at: Option<u64>,
    role: Option<Seq<char>>,
    enabled: bool,
    centre: Option<(i64, i64)>,
    x: i64,
    y: i64,
)
    requires
        aim_of(req, named, element_ref, started_at, role, enabled, centre) == Ok::<
            Aim,
            FailureView,
        >(Aim::InImage(x, y)),
    ensures
        named.encloses(x as int, y as int),
{
}

/// A reference belongs to the image that listed it: right after that image is minted,
/// what it names there is what was listed under it, for as long as the image may be
/// addressed, and from then on it is refused as the image is.
pub proof fn a_reference_belongs_to_its_image(
    table: ObservationsView,
    minted: ObservationView,
    element_ref: Option<Seq<char>>,
    minted_at_ms: u64,
    now_ms: u64,
)
    requires
        table.valid(),
        minted.id == observation::id_of(table.prefix, table.counter + 1),
    ensures
        control_named(table.with(minted, minted_at_ms), minted.id, element_ref, now_ms) == (
        if minted.fresh(now_ms) {
            elements::addressed(minted.elements, element_ref)
        } else {
            Err(capture::refused_view(Refusal::Expired))
        }),
{
    observation::what_was_minted_is_what_is_named(table, minted, minted_at_ms, now_ms);
}

/// A reference dies with its image: where the image is expired, pushed out, cleared or
/// was never minted, no reference sent with it names anything, and where one does, the
/// image it is sent with is held, fresh, and listed it itself.
pub proof fn a_reference_dies_with_its_image(
    table: ObservationsView,
    observation_id: Seq<char>,
    element_ref: Option<Seq<char>>,
    now_ms: u64,
)
    requires
        table.valid(),
    ensures
        table.named(observation_id, now_ms) matches Err(refusal) ==> control_named(
            table,
            observation_id,
            element_ref,
            now_ms,
        ) == Err::<EntryView, FailureView>(capture::refused_view(refusal)),
        control_named(
            ObservationsView { entries: Seq::empty(), ..table },
            observation_id,
            element_ref,
            now_ms,
        ) == Err::<EntryView, FailureView>(capture::refused_view(Refusal::Unknown)),
        control_named(table, observation_id, element_ref, now_ms) matches Ok(entry) ==> {
            &&& table.named(observation_id, now_ms) matches Ok(named) && {
                &&& named.id == observation_id
                &&& named.fresh(now_ms)
                &&& named.elements matches Some(listed) && listed.entries.contains(entry)
            }
            &&& element_ref == Some(entry.reference)
        },
{
    observation::only_what_was_minted_is_named(table, observation_id, now_ms);
    if let Ok(named) = table.named(observation_id, now_ms) {
        if let Some(listed) = named.elements {
            if let Some(reference) = element_ref {
                elements::an_entry_found_is_listed(listed.entries, reference);
            }
        }
    }
}

/// One image's references are nothing to another: minting an image leaves what every
/// reference names in the newest two that had not expired.
pub proof fn minting_keeps_the_references(
    table: ObservationsView,
    minted: ObservationView,
    element_ref: Option<Seq<char>>,
    minted_at_ms: u64,
    now_ms: u64,
    i: int,
)
    requires
        table.valid(),
        minted.id == observation::id_of(table.prefix, table.counter + 1),
        0 <= i < observation::still_fresh(table.entries, minted_at_ms).len(),
        i + 2 >= observation::still_fresh(table.entries, minted_at_ms).len(),
    ensures
        ({
            let kept = observation::still_fresh(table.entries, minted_at_ms)[i];
            control_named(table.with(minted, minted_at_ms), kept.id, element_ref, now_ms) == (
            if kept.fresh(now_ms) {
                elements::addressed(kept.elements, element_ref)
            } else {
                Err(capture::refused_view(Refusal::Expired))
            })
        }),
{
    observation::minting_keeps_the_newest(table, minted, minted_at_ms, now_ms, i);
}

/// A display is the one an image was made on exactly where it has the same number, stands
/// in the same place, and has the same size and scale.
pub proof fn a_display_that_changed_is_another(named: ObservationView, display: Display)
    ensures
        still_there(named, display) <==> {
            &&& display.id == named.display_id
            &&& display.facts.x == named.facts.x
            &&& display.facts.y == named.facts.y
            &&& display.facts.width == named.facts.width
            &&& display.facts.height == named.facts.height
            &&& display.facts.scale_factor == named.facts.scale_factor
        },
{
}

/// Coordinates are the numbers under their own names, and both have to be there.
pub proof fn coordinates_are_read_as_written(req: Json)
    ensures
        coords_of(req) is Ok <==> json::field_length(req, "x"@) is Some && json::field_length(
            req,
            "y"@,
        ) is Some,
        coords_of(req) matches Ok((x, y)) ==> json::field_length(req, "x"@) == Some(x)
            && json::field_length(req, "y"@) == Some(y),
{
}

/// A point is read from a list of two numbers or from an object with both members, the
/// first across and the second down; nothing else is one.
pub proof fn a_point_is_read_as_written(value: Json)
    ensures
        match value {
            Json::List(items) => point_of(Some(value)) is Some <==> items.len() == 2
                && json::length_of(items[0]) is Some && json::length_of(items[1]) is Some,
            _ => point_of(Some(value)) is Some <==> json::field_length(value, "x"@) is Some
                && json::field_length(value, "y"@) is Some,
        },
        point_of(Some(value)) matches Some((x, y)) ==> match value {
            Json::List(items) => json::length_of(items[0]) == Some(x) && json::length_of(items[1])
                == Some(y),
            _ => json::field_length(value, "x"@) == Some(x) && json::field_length(value, "y"@)
                == Some(y),
        },
        point_of(None) is None,
{
}

/// A point may be used in an image exactly where its pixel is one of the image's, and one
/// that may not is refused by what it is and how large the image is.
pub proof fn a_point_outside_is_refused(named: ObservationView, x: i64, y: i64)
    ensures
        inside(named, x, y) is Ok <==> 0 <= x && 0 <= y && x as int / 1_000_000 < named.sent_w && y
            as int / 1_000_000 < named.sent_h,
        inside(named, x, y) matches Err(failure) ==> failure.code == "point_outside_observation"@,
{
    observation::a_point_is_inside_with_its_pixel(named, x as int, y as int);
}

/// An action that has to name an image is refused by its own code where it names none,
/// by the table's where that image cannot be used, and otherwise has the image it named.
pub proof fn an_image_is_required_by_name(
    observation_id: Option<Seq<char>>,
    table: ObservationsView,
    now_ms: u64,
)
    ensures
        observation_id is None ==> image_named(observation_id, table, now_ms) == Ok::<
            Option<ObservationView>,
            FailureView,
        >(None) && image_required(observation_id, table, now_ms) == Err::<
            ObservationView,
            FailureView,
        >(wire::coded("observation_required"@)),
        observation_id matches Some(id) ==> match table.named(id, now_ms) {
            Ok(named) => image_named(observation_id, table, now_ms) == Ok::<
                Option<ObservationView>,
                FailureView,
            >(Some(named)) && image_required(observation_id, table, now_ms) == Ok::<
                ObservationView,
                FailureView,
            >(named),
            Err(refusal) => image_named(observation_id, table, now_ms) == Err::<
                Option<ObservationView>,
                FailureView,
            >(capture::refused_view(refusal)) && image_required(observation_id, table, now_ms)
                == Err::<ObservationView, FailureView>(capture::refused_view(refusal)),
        },
{
}

} // verus!
