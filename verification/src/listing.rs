//! Listings: the controls and the windows a reply publishes, the badges drawn for
//! them, and the application a view is about.

use serde_json::Value;
use vstd::prelude::*;

use crate::address;
use crate::capture::{self, Display};
use crate::elements::{self, Elements, Entry, EntryView, ViewNode, Viewed};
use crate::geometry::{Geometry, Region};
use crate::json::{self, Json};
use crate::measure;
use crate::observation::{Kind, ObservationView, Observations, ObservationsView, Refusal};
use crate::overlay::{self, Paint};
use crate::picture::Picture;
use crate::text;
use crate::view;
use crate::wire::{self, Failure};

verus! {

/// A place or a rectangle in whole pixels.
pub open spec fn rect_json(x: int, y: int, w: int, h: int) -> Json {
    Json::Object(
        Map::<Seq<char>, Json>::empty().insert("x"@, json::integer(x)).insert(
            "y"@,
            json::integer(y),
        ).insert("w"@, json::integer(w)).insert("h"@, json::integer(h)),
    )
}

/// A rectangle as the whole pixels it is drawn in.
pub open spec fn region_json(region: Region) -> Json {
    let (x, y, w, h) = view::drawn(region);
    rect_json(x, y, w, h)
}

fn rect_value(x: i64, y: i64, w: i64, h: i64) -> (r: Value)
    ensures
        json::json_of(r) == rect_json(x as int, y as int, w as int, h as int),
{
    let mut rect = json::object();
    json::insert(&mut rect, "x", json::signed(x));
    json::insert(&mut rect, "y", json::signed(y));
    json::insert(&mut rect, "w", json::signed(w));
    json::insert(&mut rect, "h", json::signed(h));
    rect
}

/// A rectangle as the whole pixels it is drawn in.
pub fn region_value(region: &Region) -> (r: Value)
    ensures
        json::json_of(r) == region_json(*region),
{
    rect_value(
        measure::round(region.x),
        measure::round(region.y),
        measure::round(region.w),
        measure::round(region.h),
    )
}

/// Texts as a list of strings.
pub open spec fn text_list(texts: Seq<Seq<char>>) -> Json {
    Json::List(texts.map_values(|t: Seq<char>| Json::Text(t)))
}

fn text_values(texts: &Vec<String>) -> (r: Value)
    ensures
        json::json_of(r) == text_list(text::texts(texts@)),
{
    let mut items: Vec<Value> = Vec::new();
    let mut i: usize = 0;
    while i < texts.len()
        invariant
            i <= texts@.len(),
            items@.len() == i,
            forall|k: int|
                0 <= k < i ==> json::json_of(#[trigger] items@[k]) == Json::Text(texts@[k]@),
        decreases texts@.len() - i,
    {
        items.push(json::string(texts[i].as_str()));
        i += 1;
    }
    assert(json::json_list(items@) =~= text::texts(texts@).map_values(
        |t: Seq<char>| Json::Text(t),
    ));
    json::list(items)
}

/// One control, as the wire publishes it. A reply that cannot resolve references
/// offers none, and no action that would need one.
pub open spec fn element_json(listed: ViewNode, reference: Option<Seq<char>>) -> Json {
    let node = listed.node;
    let (x, y, w, h) = view::drawn(listed.bounds);
    let plain = Map::<Seq<char>, Json>::empty().insert("role"@, Json::Text(node.role@)).insert(
        "enabled"@,
        Json::Bool(node.enabled),
    ).insert("settable"@, Json::Bool(node.settable)).insert(
        "bounds"@,
        rect_json(x, y, view::most(w, 1), view::most(h, 1)),
    ).insert("x"@, json::integer(listed.point.0 as int)).insert(
        "y"@,
        json::integer(listed.point.1 as int),
    );
    let named = match reference {
        Some(reference) => plain.insert("element_ref"@, Json::Text(reference)).insert(
            "actions"@,
            Json::List(
                if node.press {
                    seq![Json::Text("press"@)]
                } else {
                    Seq::empty()
                },
            ),
        ),
        None => plain,
    };
    let labelled = match node.label {
        Some(label) => named.insert("label"@, Json::Text(label@)),
        None => named,
    };
    let valued = match node.value {
        Some(value) => labelled.insert("value"@, Json::Text(value@)),
        None => labelled,
    };
    Json::Object(
        if node.path@.len() == 0 {
            valued
        } else {
            valued.insert("path"@, text_list(text::texts(node.path@)))
        },
    )
}

fn at_least_one_pixel(length: i64) -> (r: i64)
    ensures
        r == view::most(measure::rounded(length as int), 1),
{
    let whole: i64 = measure::round(length);
    if whole >= 1 {
        whole
    } else {
        1
    }
}

/// One control, as the wire publishes it.
pub fn element_value(listed: &ViewNode, reference: Option<&str>) -> (r: Value)
    ensures
        json::json_of(r) == element_json(*listed, text::slice_of(reference)),
{
    let node = &listed.node;
    let mut item = json::object();
    json::insert(&mut item, "role", json::string(node.role.as_str()));
    json::insert(&mut item, "enabled", json::boolean(node.enabled));
    json::insert(&mut item, "settable", json::boolean(node.settable));
    json::insert(
        &mut item,
        "bounds",
        rect_value(
            measure::round(listed.bounds.x),
            measure::round(listed.bounds.y),
            at_least_one_pixel(listed.bounds.w),
            at_least_one_pixel(listed.bounds.h),
        ),
    );
    json::insert(&mut item, "x", json::signed(listed.point.0 as i64));
    json::insert(&mut item, "y", json::signed(listed.point.1 as i64));
    if let Some(reference) = reference {
        json::insert(&mut item, "element_ref", json::string(reference));
        let mut actions: Vec<Value> = Vec::new();
        if node.press {
            actions.push(json::string("press"));
        }
        assert(json::json_list(actions@) =~= if node.press {
            seq![Json::Text("press"@)]
        } else {
            Seq::empty()
        });
        json::insert(&mut item, "actions", json::list(actions));
    }
    if let Some(label) = &node.label {
        json::insert(&mut item, "label", json::string(label.as_str()));
    }
    if let Some(value) = &node.value {
        json::insert(&mut item, "value", json::string(value.as_str()));
    }
    if node.path.len() > 0 {
        json::insert(&mut item, "path", text_values(&node.path));
    }
    item
}

/// What a listing hands out for a control at a place in it.
pub open spec fn entry_at(nodes: Seq<ViewNode>, i: int) -> EntryView {
    EntryView {
        reference: elements::reference_at(i),
        role: nodes[i].node.role@,
        secure: nodes[i].node.secure,
        handle: nodes[i].node.handle,
    }
}

/// What a listing hands out, in order.
pub open spec fn entries_of(nodes: Seq<ViewNode>, count: nat) -> Seq<EntryView> {
    Seq::new(count, |i: int| entry_at(nodes, i))
}

/// The reference a listing publishes at a place: none where there is no process to
/// check it against.
pub open spec fn published(owner: Option<(i32, u64)>, i: int) -> Option<Seq<char>> {
    match owner {
        Some(_) => Some(elements::reference_at(i)),
        None => None,
    }
}

fn entry_for_node(listed: &ViewNode, reference: String) -> (r: Entry)
    ensures
        r@ == (EntryView {
            reference: reference@,
            role: listed.node.role@,
            secure: listed.node.secure,
            handle: listed.node.handle,
        }),
{
    Entry {
        reference,
        role: listed.node.role.clone(),
        secure: listed.node.secure,
        handle: listed.node.handle,
    }
}

/// The members of an element listing.
pub open spec fn listing_json(viewed: Viewed) -> Json {
    let nodes = viewed.nodes@;
    let listed = Map::<Seq<char>, Json>::empty().insert("ok"@, Json::Bool(true)).insert(
        "elements"@,
        Json::List(
            Seq::new(nodes.len(), |i: int| element_json(nodes[i], published(viewed.owner, i))),
        ),
    );
    let noted = match viewed.note {
        Some(note) => listed.insert("ax_activation"@, Json::Text(note@)),
        None => listed,
    };
    Json::Object(
        match viewed.truncated {
            Some(truncation) => noted.insert("truncated"@, Json::Text(truncation@)),
            None => noted,
        },
    )
}

/// The element list and the references behind it.
pub fn elements_for(viewed: &Viewed) -> (r: (Value, Option<Elements>))
    ensures
        json::json_of(r.0) == listing_json(*viewed),
        elements::table(r.1) == elements::kept(
            viewed.owner,
            entries_of(viewed.nodes@, viewed.nodes@.len()),
        ),
{
    let names = viewed.owner.is_some();
    let mut items: Vec<Value> = Vec::new();
    let mut listed: Vec<Entry> = Vec::new();
    let mut i: usize = 0;
    while i < viewed.nodes.len()
        invariant
            i <= viewed.nodes@.len(),
            names == (viewed.owner is Some),
            items@.len() == i,
            listed@.len() == i,
            forall|k: int|
                0 <= k < i ==> json::json_of(#[trigger] items@[k]) == element_json(
                    viewed.nodes@[k],
                    published(viewed.owner, k),
                ),
            forall|k: int| 0 <= k < i ==> (#[trigger] listed@[k])@ == entry_at(viewed.nodes@, k),
        decreases viewed.nodes@.len() - i,
    {
        let reference = elements::reference_for(i);
        let node = &viewed.nodes[i];
        let item = if names {
            element_value(node, Some(reference.as_str()))
        } else {
            element_value(node, None)
        };
        items.push(item);
        listed.push(entry_for_node(node, reference));
        i += 1;
    }
    let ghost nodes = viewed.nodes@;
    assert(json::json_list(items@) =~= Seq::new(
        nodes.len(),
        |i: int| element_json(nodes[i], published(viewed.owner, i)),
    ));
    assert(elements::entry_views(listed@) =~= entries_of(nodes, nodes.len()));
    let mut payload = json::object();
    json::insert(&mut payload, "ok", json::boolean(true));
    json::insert(&mut payload, "elements", json::list(items));
    if let Some(note) = &viewed.note {
        json::insert(&mut payload, "ax_activation", json::string(note.as_str()));
    }
    if let Some(truncation) = &viewed.truncated {
        json::insert(&mut payload, "truncated", json::string(truncation.as_str()));
    }
    (payload, elements::retained(viewed.owner, listed))
}

/// What a listing is named by: where the list's points are read, and the references
/// behind it, which live and die with it. A listing has no picture, so no hash.
pub open spec fn listing_observation(
    table: ObservationsView,
    viewed: Viewed,
    display: Display,
    geometry: Geometry,
    region: Region,
    sent: (u32, u32),
    now_ns: u128,
) -> ObservationView {
    table.next_observation(
        Kind::Semantic,
        display.id,
        display.facts,
        geometry,
        region,
        sent,
        elements::kept(viewed.owner, entries_of(viewed.nodes@, viewed.nodes@.len())),
        now_ns,
    )
}

/// The element list, minted and named before it leaves: its points are read in the image
/// it names, and its references are that image's own.
pub fn elements(
    viewed: &Viewed,
    display: &Display,
    geometry: Geometry,
    region: Region,
    sent: (u32, u32),
    observations: &mut Observations,
    now_ms: u64,
    now_ns: u128,
) -> (r: Value)
    requires
        old(observations)@.valid(),
        old(observations)@.counter < u64::MAX,
        old(observations)@.frame_seq < u64::MAX,
        now_ns <= u64::MAX,
    ensures
        final(observations)@.valid(),
        ({
            let named = listing_observation(
                old(observations)@,
                *viewed,
                *display,
                geometry,
                region,
                sent,
                now_ns,
            );
            &&& final(observations)@ == old(observations)@.with(named, now_ms)
            &&& json::json_of(r) == Json::Object(
                capture::with_name(listing_json(*viewed)->Object_0, named),
            )
        }),
{
    let (mut payload, listed) = elements_for(viewed);
    let named = observations.mint(
        Kind::Semantic,
        display.id,
        display.facts,
        geometry,
        region,
        sent,
        listed,
        now_ms,
        now_ns,
    );
    capture::name_observation(&mut payload, &named);
    payload
}

proof fn references_are_their_own(a: int, b: int)
    requires
        0 <= a,
        0 <= b,
        elements::reference_at(a) == elements::reference_at(b),
    ensures
        a == b,
{
    let x = elements::reference_at(a);
    let y = elements::reference_at(b);
    let head = "e"@.len() as int;
    assert(x.skip(head) =~= text::decimal((a + 1) as nat));
    assert(y.skip(head) =~= text::decimal((b + 1) as nat));
    text::decimals_are_their_own((a + 1) as nat, (b + 1) as nat);
}

proof fn a_listed_reference_is_found_after(nodes: Seq<ViewNode>, count: nat, from: int, i: int)
    requires
        0 <= from <= i < count,
        count <= nodes.len(),
    ensures
        elements::entry_for(entries_of(nodes, count).skip(from), elements::reference_at(i)) == Some(
            entry_at(nodes, i),
        ),
    decreases i - from,
{
    let rest = entries_of(nodes, count).skip(from);
    assert(rest[0] == entry_at(nodes, from));
    if from < i {
        if elements::reference_at(from) == elements::reference_at(i) {
            references_are_their_own(from, i);
        }
        a_listed_reference_is_found_after(nodes, count, from + 1, i);
        assert(rest.skip(1) =~= entries_of(nodes, count).skip(from + 1));
    }
}

/// Every reference a listing publishes resolves, in the table kept with it, to the
/// control it was published for, and where no table is kept no reference is
/// published.
pub proof fn what_is_published_can_be_named(viewed: Viewed, i: int)
    requires
        0 <= i < viewed.nodes@.len(),
    ensures
        ({
            let kept = elements::kept(
                viewed.owner,
                entries_of(viewed.nodes@, viewed.nodes@.len()),
            );
            match published(viewed.owner, i) {
                Some(reference) => elements::addressed(kept, Some(reference)) == Ok::<
                    EntryView,
                    wire::FailureView,
                >(entry_at(viewed.nodes@, i)),
                None => kept is None,
            }
        }),
{
    let all = entries_of(viewed.nodes@, viewed.nodes@.len());
    a_listed_reference_is_found_after(viewed.nodes@, viewed.nodes@.len(), 0, i);
    assert(all.skip(0) =~= all);
}

/// Every reference a listing publishes is named by the image that listing is: sent with
/// that image it finds the control it was published for, until the image expires, and
/// then it is refused as the image is.
pub proof fn a_published_reference_is_its_images(
    table: ObservationsView,
    viewed: Viewed,
    display: Display,
    geometry: Geometry,
    region: Region,
    sent: (u32, u32),
    minted_at_ms: u64,
    now_ns: u128,
    now_ms: u64,
    i: int,
)
    requires
        table.valid(),
        viewed.owner is Some,
        0 <= i < viewed.nodes@.len(),
    ensures
        ({
            let named = listing_observation(
                table,
                viewed,
                display,
                geometry,
                region,
                sent,
                now_ns,
            );
            address::control_named(
                table.with(named, minted_at_ms),
                named.id,
                Some(elements::reference_at(i)),
                now_ms,
            ) == (if named.fresh(now_ms) {
                Ok(entry_at(viewed.nodes@, i))
            } else {
                Err(capture::refused_view(Refusal::Expired))
            })
        }),
{
    let named = listing_observation(table, viewed, display, geometry, region, sent, now_ns);
    what_is_published_can_be_named(viewed, i);
    address::a_reference_belongs_to_its_image(
        table,
        named,
        Some(elements::reference_at(i)),
        minted_at_ms,
        now_ms,
    );
}

/// How many badges a marked picture carries.
pub const MAX_MARKS: usize = 60;

/// How many of a view's controls are badged.
pub open spec fn marked(nodes: Seq<ViewNode>) -> nat {
    if nodes.len() > MAX_MARKS {
        MAX_MARKS as nat
    } else {
        nodes.len()
    }
}

/// The badges of the first controls of a view, each over the ones before it.
pub open spec fn badges(nodes: Seq<ViewNode>, count: nat) -> Paint
    decreases count,
{
    if count == 0 {
        overlay::blank()
    } else {
        overlay::over(
            overlay::badge_mark(
                nodes[count - 1].point.0 as int,
                nodes[count - 1].point.1 as int,
                count,
            ),
            badges(nodes, (count - 1) as nat),
        )
    }
}

/// One badge, as the table beside the picture lists it.
pub open spec fn mark_json(listed: ViewNode, id: nat, reference: Option<Seq<char>>) -> Json {
    let plain = Map::<Seq<char>, Json>::empty().insert("id"@, Json::Unsigned(id as u64)).insert(
        "role"@,
        Json::Text(listed.node.role@),
    ).insert("x"@, json::integer(listed.point.0 as int)).insert(
        "y"@,
        json::integer(listed.point.1 as int),
    );
    let named = match reference {
        Some(reference) => plain.insert("element_ref"@, Json::Text(reference)),
        None => plain,
    };
    Json::Object(
        match listed.node.label {
            Some(label) => named.insert("label"@, Json::Text(label@)),
            None => named,
        },
    )
}

/// What a marked picture carries beside its pixels.
#[derive(Debug)]
pub struct MarksInfo {
    pub entries: Vec<Value>,
    pub ax_activation: Option<String>,
    /// How many controls were found beyond the badge cap.
    pub truncated: usize,
    /// Why the walk stopped early, when it did.
    pub truncated_walk: Option<String>,
    /// The references behind these badges, to live with the picture they are drawn
    /// on.
    pub elements: Option<Elements>,
}

/// What the marks of a view are.
pub open spec fn marks_of(viewed: Viewed, info: MarksInfo) -> bool {
    let nodes = viewed.nodes@;
    &&& json::json_list(info.entries@) == Seq::new(
        marked(nodes),
        |i: int| mark_json(nodes[i], (i + 1) as nat, published(viewed.owner, i)),
    )
    &&& text::text_of(info.ax_activation) == text::text_of(viewed.note)
    &&& info.truncated == nodes.len() - marked(nodes)
    &&& text::text_of(info.truncated_walk) == text::text_of(viewed.truncated)
    &&& elements::table(info.elements) == elements::kept(
        viewed.owner,
        entries_of(nodes, marked(nodes)),
    )
}

/// What is said where there is no accessibility to read.
pub open spec fn unmarked(code: Seq<char>, info: MarksInfo) -> bool {
    &&& info.entries@.len() == 0
    &&& text::text_of(info.ax_activation) == Some(code)
    &&& info.truncated == 0
    &&& info.truncated_walk is None
    &&& info.elements is None
}

fn mark_value(listed: &ViewNode, id: usize, reference: Option<&str>) -> (r: Value)
    ensures
        json::json_of(r) == mark_json(*listed, id as nat, text::slice_of(reference)),
{
    let mut entry = json::object();
    json::insert(&mut entry, "id", json::unsigned(id as u64));
    json::insert(&mut entry, "role", json::string(listed.node.role.as_str()));
    json::insert(&mut entry, "x", json::signed(listed.point.0 as i64));
    json::insert(&mut entry, "y", json::signed(listed.point.1 as i64));
    if let Some(reference) = reference {
        json::insert(&mut entry, "element_ref", json::string(reference));
    }
    if let Some(label) = &listed.node.label {
        json::insert(&mut entry, "label", json::string(label.as_str()));
    }
    entry
}

fn badge_view(viewed: &Viewed, img: &mut Picture) -> (r: MarksInfo)
    ensures
        overlay::shows(old(img)@, final(img)@, badges(viewed.nodes@, marked(viewed.nodes@))),
        marks_of(*viewed, r),
{
    let ghost start = img@;
    let _ = img.width();
    let names = viewed.owner.is_some();
    let count: usize = if viewed.nodes.len() > MAX_MARKS {
        MAX_MARKS
    } else {
        viewed.nodes.len()
    };
    let mut entries: Vec<Value> = Vec::new();
    let mut listed: Vec<Entry> = Vec::new();
    let mut i: usize = 0;
    assert(overlay::shows(start, img@, badges(viewed.nodes@, 0)));
    while i < count
        invariant
            i <= count <= viewed.nodes@.len(),
            count <= MAX_MARKS,
            names == (viewed.owner is Some),
            entries@.len() == i,
            listed@.len() == i,
            overlay::shows(start, img@, badges(viewed.nodes@, i as nat)),
            forall|k: int|
                0 <= k < i ==> json::json_of(#[trigger] entries@[k]) == mark_json(
                    viewed.nodes@[k],
                    (k + 1) as nat,
                    published(viewed.owner, k),
                ),
            forall|k: int| 0 <= k < i ==> (#[trigger] listed@[k])@ == entry_at(viewed.nodes@, k),
        decreases count - i,
    {
        let ghost middle = img@;
        let reference = elements::reference_for(i);
        let node = &viewed.nodes[i];
        overlay::badge(img, node.point.0, node.point.1, i + 1);
        proof {
            overlay::painted_over(
                start,
                middle,
                img@,
                badges(viewed.nodes@, i as nat),
                overlay::badge_mark(node.point.0 as int, node.point.1 as int, (i + 1) as nat),
            );
        }
        let entry = if names {
            mark_value(node, i + 1, Some(reference.as_str()))
        } else {
            mark_value(node, i + 1, None)
        };
        entries.push(entry);
        listed.push(entry_for_node(node, reference));
        i += 1;
    }
    let ghost nodes = viewed.nodes@;
    assert(json::json_list(entries@) =~= Seq::new(
        marked(nodes),
        |i: int| mark_json(nodes[i], (i + 1) as nat, published(viewed.owner, i)),
    ));
    assert(elements::entry_views(listed@) =~= entries_of(nodes, marked(nodes)));
    MarksInfo {
        entries,
        ax_activation: text::copy_text(&viewed.note),
        truncated: viewed.nodes.len() - count,
        truncated_walk: text::copy_text(&viewed.truncated),
        elements: elements::retained(viewed.owner, listed),
    }
}

/// Badges the controls in view and answers their table. Where there is no
/// accessibility to read nothing is drawn, and the code of the failure says why.
pub fn collect_marks(viewed: &Result<Viewed, Failure>, img: &mut Picture) -> (r: MarksInfo)
    ensures
        match *viewed {
            Ok(viewed) => overlay::shows(
                old(img)@,
                final(img)@,
                badges(viewed.nodes@, marked(viewed.nodes@)),
            ) && marks_of(viewed, r),
            Err(unsupported) => final(img)@ == old(img)@ && unmarked(unsupported.code@, r),
        },
{
    match viewed {
        Ok(viewed) => badge_view(viewed, img),
        Err(unsupported) => MarksInfo {
            entries: Vec::new(),
            ax_activation: Some(unsupported.code.clone()),
            truncated: 0,
            truncated_walk: None,
            elements: None,
        },
    }
}

proof fn member_names_differ()
    ensures
        "x"@.len() == 1 && "x"@[0] == 'x',
        "y"@.len() == 1 && "y"@[0] == 'y',
        "w"@.len() == 1 && "w"@[0] == 'w',
        "h"@.len() == 1 && "h"@[0] == 'h',
        "role"@.len() == 4 && "role"@[0] == 'r',
        "enabled"@.len() == 7 && "enabled"@[0] == 'e',
        "settable"@.len() == 8 && "settable"@[0] == 's',
        "bounds"@.len() == 6,
        "element_ref"@.len() == 11,
        "actions"@.len() == 7 && "actions"@[0] == 'a',
        "label"@.len() == 5 && "label"@[0] == 'l',
        "value"@.len() == 5 && "value"@[0] == 'v',
        "path"@.len() == 4 && "path"@[0] == 'p',
        "id"@.len() == 2 && "id"@[0] == 'i',
        "ok"@.len() == 2 && "ok"@[0] == 'o',
        "elements"@.len() == 8 && "elements"@[0] == 'e',
        "ax_activation"@.len() == 13,
        "truncated"@.len() == 9,
{
    reveal_strlit("x");
    reveal_strlit("y");
    reveal_strlit("w");
    reveal_strlit("h");
    reveal_strlit("role");
    reveal_strlit("enabled");
    reveal_strlit("settable");
    reveal_strlit("bounds");
    reveal_strlit("element_ref");
    reveal_strlit("actions");
    reveal_strlit("label");
    reveal_strlit("value");
    reveal_strlit("path");
    reveal_strlit("id");
    reveal_strlit("ok");
    reveal_strlit("elements");
    reveal_strlit("ax_activation");
    reveal_strlit("truncated");
}

/// A rectangle on the wire says its own place and size.
pub proof fn a_rectangle_reads_back(x: int, y: int, w: int, h: int)
    ensures
        json::field(rect_json(x, y, w, h), "x"@) == Some(json::integer(x)),
        json::field(rect_json(x, y, w, h), "y"@) == Some(json::integer(y)),
        json::field(rect_json(x, y, w, h), "w"@) == Some(json::integer(w)),
        json::field(rect_json(x, y, w, h), "h"@) == Some(json::integer(h)),
{
    member_names_differ();
}

/// A control on the wire is what was read of it, at its own point: what it does not
/// say is absent, and it offers a reference, and the press it takes, only where it was
/// given one.
pub proof fn a_control_reads_back(listed: ViewNode, reference: Option<Seq<char>>)
    ensures
        ({
            let told = element_json(listed, reference);
            let node = listed.node;
            &&& json::field_text(told, "role"@) == Some(node.role@)
            &&& json::field_bool(told, "enabled"@) == Some(node.enabled)
            &&& json::field_bool(told, "settable"@) == Some(node.settable)
            &&& json::field(told, "x"@) == Some(json::integer(listed.point.0 as int))
            &&& json::field(told, "y"@) == Some(json::integer(listed.point.1 as int))
            &&& json::field_text(told, "label"@) == text::text_of(node.label)
            &&& json::field_text(told, "value"@) == text::text_of(node.value)
            &&& json::field_text(told, "element_ref"@) == reference
            &&& reference is None ==> json::field(told, "actions"@) is None
            &&& reference is Some && node.press ==> json::field(told, "actions"@) == Some(
                Json::List(seq![Json::Text("press"@)]),
            )
            &&& reference is Some && !node.press ==> json::field(told, "actions"@) == Some(
                Json::List(Seq::empty()),
            )
            &&& json::field(told, "path"@) is Some <==> node.path@.len() > 0
            &&& node.path@.len() > 0 ==> json::field(told, "path"@) == Some(
                text_list(text::texts(node.path@)),
            )
        }),
{
    member_names_differ();
}

/// A control's rectangle on the wire is the nearest whole pixels to where it is, and
/// never thinner than one.
pub proof fn a_control_is_listed_where_it_is(listed: ViewNode, reference: Option<Seq<char>>)
    ensures
        json::field(element_json(listed, reference), "bounds"@) matches Some(bounds) && {
            &&& json::field(bounds, "x"@) == Some(
                json::integer(measure::rounded(listed.bounds.x as int)),
            )
            &&& json::field(bounds, "y"@) == Some(
                json::integer(measure::rounded(listed.bounds.y as int)),
            )
            &&& json::field(bounds, "w"@) == Some(
                json::integer(view::most(measure::rounded(listed.bounds.w as int), 1)),
            )
            &&& json::field(bounds, "h"@) == Some(
                json::integer(view::most(measure::rounded(listed.bounds.h as int), 1)),
            )
        },
{
    member_names_differ();
}

/// A listing holds every control that was read, in order, and says how the reading
/// went.
pub proof fn a_listing_holds_every_control(viewed: Viewed)
    ensures
        json::field_bool(listing_json(viewed), "ok"@) == Some(true),
        json::field_text(listing_json(viewed), "ax_activation"@) == text::text_of(viewed.note),
        json::field_text(listing_json(viewed), "truncated"@) == text::text_of(viewed.truncated),
        json::field(listing_json(viewed), "elements"@) matches Some(Json::List(controls)) && {
            &&& controls.len() == viewed.nodes@.len()
            &&& forall|i: int|
                0 <= i < controls.len() ==> (#[trigger] controls[i]) == element_json(
                    viewed.nodes@[i],
                    published(viewed.owner, i),
                )
        },
{
    member_names_differ();
}

/// A badge in the table beside a picture says its number, its control and the point it
/// is drawn at.
pub proof fn a_mark_reads_back(listed: ViewNode, id: u64, reference: Option<Seq<char>>)
    ensures
        ({
            let told = mark_json(listed, id as nat, reference);
            &&& json::field_u64(told, "id"@) == Some(id)
            &&& json::field_text(told, "role"@) == Some(listed.node.role@)
            &&& json::field(told, "x"@) == Some(json::integer(listed.point.0 as int))
            &&& json::field(told, "y"@) == Some(json::integer(listed.point.1 as int))
            &&& json::field_text(told, "label"@) == text::text_of(listed.node.label)
            &&& json::field_text(told, "element_ref"@) == reference
        }),
{
    member_names_differ();
}

/// The badges of a view are one for each of its first controls, numbered from one and
/// drawn at the control's point: a pixel has the color of the last of them that
/// reaches it, and no color where none does.
pub proof fn a_badge_stands_on_its_control(nodes: Seq<ViewNode>, count: nat, x: int, y: int)
    ensures
        badges(nodes, count)(x, y) is None <==> forall|i: int|
            0 <= i < count ==> (#[trigger] overlay::badge_mark(
                nodes[i].point.0 as int,
                nodes[i].point.1 as int,
                (i + 1) as nat,
            ))(x, y) is None,
        forall|i: int|
            #![trigger nodes[i]]
            0 <= i < count && overlay::badge_mark(
                nodes[i].point.0 as int,
                nodes[i].point.1 as int,
                (i + 1) as nat,
            )(x, y) is Some && (forall|k: int|
                i < k < count ==> (#[trigger] overlay::badge_mark(
                    nodes[k].point.0 as int,
                    nodes[k].point.1 as int,
                    (k + 1) as nat,
                ))(x, y) is None) ==> badges(nodes, count)(x, y) == overlay::badge_mark(
                nodes[i].point.0 as int,
                nodes[i].point.1 as int,
                (i + 1) as nat,
            )(x, y),
    decreases count,
{
    if count > 0 {
        let last = count - 1;
        a_badge_stands_on_its_control(nodes, (count - 1) as nat, x, y);
        let top = overlay::badge_mark(
            nodes[last].point.0 as int,
            nodes[last].point.1 as int,
            (last + 1) as nat,
        );
        if top(x, y) is Some {
            assert(badges(nodes, count)(x, y) == top(x, y));
        } else {
            assert(badges(nodes, count)(x, y) == badges(nodes, (count - 1) as nat)(x, y));
        }
    }
}

/// The reference a listing publishes for a control leads back to that control: its
/// role, whether it is secure, and the handle it answers to.
pub proof fn a_reference_leads_to_its_control(viewed: Viewed, i: int)
    requires
        0 <= i < viewed.nodes@.len(),
        viewed.owner is Some,
    ensures
        published(viewed.owner, i) matches Some(reference) && elements::addressed(
            elements::kept(viewed.owner, entries_of(viewed.nodes@, viewed.nodes@.len())),
            Some(reference),
        ) matches Ok(entry) && {
            &&& entry.reference == reference
            &&& entry.role == viewed.nodes@[i].node.role@
            &&& entry.secure == viewed.nodes@[i].node.secure
            &&& entry.handle == viewed.nodes@[i].node.handle
        },
{
    what_is_published_can_be_named(viewed, i);
}

/// A marked picture carries a badge for each of the first controls of its view, sixty at
/// most, and says of how many others it carries none.
pub proof fn no_badge_is_left_out(viewed: Viewed, info: MarksInfo)
    requires
        marks_of(viewed, info),
    ensures
        info.entries@.len() == view::least(viewed.nodes@.len() as int, 60),
        info.entries@.len() + info.truncated == viewed.nodes@.len(),
        text::text_of(info.ax_activation) == text::text_of(viewed.note),
        text::text_of(info.truncated_walk) == text::text_of(viewed.truncated),
        info.elements is Some <==> viewed.owner is Some && viewed.nodes@.len() > 0,
        forall|i: int|
            0 <= i < info.entries@.len() ==> json::json_of(#[trigger] info.entries@[i]) == mark_json(
                viewed.nodes@[i],
                (i + 1) as nat,
                published(viewed.owner, i),
            ),
{
    let told = json::json_list(info.entries@);
    assert(told.len() == info.entries@.len());
    assert forall|i: int| 0 <= i < info.entries@.len() implies json::json_of(
        #[trigger] info.entries@[i],
    ) == mark_json(viewed.nodes@[i], (i + 1) as nat, published(viewed.owner, i)) by {
        assert(told[i] == json::json_of(info.entries@[i]));
    }
}

} // verus!
