//! Controls: what an accessibility walk found, the references a reply hands out for
//! it, and whether a reference still names what it named.

use serde_json::Value;
use vstd::prelude::*;

use crate::geometry::Region;
use crate::json::{self, Json};
use crate::measure;
use crate::observation::Observation;
use crate::target;
use crate::text;
use crate::wire::{self, Check, Checked, Effect, Failure, FailureView};

verus! {

/// The accessibility action that presses a control.
pub const PRESS: &'static str = "AXPress";

/// One control, as one walk read it. `handle` is what the platform knows it by.
#[derive(Debug)]
pub struct Node {
    pub role: String,
    pub label: Option<String>,
    /// What the control holds. Never read for a secure field.
    pub value: Option<String>,
    pub enabled: bool,
    pub settable: bool,
    /// Whether the control's own action list has a press.
    pub press: bool,
    pub secure: bool,
    /// The labels of its ancestors, nearest last.
    pub path: Vec<String>,
    pub handle: u64,
}

/// A control inside a view: its click point and its bounds in the pixels of the
/// image the reply names.
#[derive(Debug)]
pub struct ViewNode {
    pub node: Node,
    pub point: (i32, i32),
    pub bounds: Region,
}

/// What one accessibility read found: the controls inside the view, the process they
/// came from and when it started, why the walk stopped early if it did, and the note
/// that explains any of it.
#[derive(Debug)]
pub struct Viewed {
    pub nodes: Vec<ViewNode>,
    pub owner: Option<(i32, u64)>,
    pub truncated: Option<String>,
    pub note: Option<String>,
}

impl Viewed {
    /// A read that found no tree to walk.
    pub fn nothing(note: String) -> (r: Viewed)
        ensures
            r.is_nothing(note@),
    {
        Viewed { nodes: Vec::new(), owner: None, truncated: None, note: Some(note) }
    }

    /// Whether a read found nothing, and says why.
    pub open spec fn is_nothing(self, note: Seq<char>) -> bool {
        &&& self.nodes@.len() == 0
        &&& self.owner is None
        &&& self.truncated is None
        &&& text::text_of(self.note) == Some(note)
    }
}

/// One reference a reply handed out.
#[derive(Debug, PartialEq)]
pub struct Entry {
    pub reference: String,
    pub role: String,
    pub secure: bool,
    pub handle: u64,
}

/// What a reference names.
#[verifier::ext_equal]
pub struct EntryView {
    pub reference: Seq<char>,
    pub role: Seq<char>,
    pub secure: bool,
    pub handle: u64,
}

impl View for Entry {
    type V = EntryView;

    open spec fn view(&self) -> EntryView {
        EntryView {
            reference: self.reference@,
            role: self.role@,
            secure: self.secure,
            handle: self.handle,
        }
    }
}

/// What every entry of a list names.
pub open spec fn entry_views(entries: Seq<Entry>) -> Seq<EntryView> {
    entries.map_values(|entry: Entry| entry@)
}

/// The references one reply handed out, and the process they are good for: a pid is
/// not an identity, so when it started is kept beside it.
#[derive(Debug, PartialEq)]
pub struct Elements {
    pub pid: i32,
    pub started_at: u64,
    pub entries: Vec<Entry>,
}

/// What a table of references holds.
#[verifier::ext_equal]
pub struct ElementsView {
    pub pid: i32,
    pub started_at: u64,
    pub entries: Seq<EntryView>,
}

impl View for Elements {
    type V = ElementsView;

    open spec fn view(&self) -> ElementsView {
        ElementsView {
            pid: self.pid,
            started_at: self.started_at,
            entries: entry_views(self.entries@),
        }
    }
}

/// The reference of the control at a place in a list.
pub open spec fn reference_at(index: int) -> Seq<char> {
    "e"@ + text::decimal((index + 1) as nat)
}

/// The reference of the control at a place in a list.
pub fn reference_for(index: usize) -> (r: String)
    requires
        index < usize::MAX,
    ensures
        r@ == reference_at(index as int),
{
    let mut out = "e".to_owned();
    out.append(text::write_decimal((index + 1) as u64).as_str());
    out
}

/// A reference counts controls from one.
pub proof fn a_reference_counts_from_one(index: int)
    requires
        index >= 0,
    ensures
        reference_at(index)[0] == 'e',
        text::read_decimal(reference_at(index).skip(1)) == index + 1,
{
    reveal_strlit("e");
    text::a_decimal_reads_back((index + 1) as nat);
    assert(reference_at(index).skip(1) =~= text::decimal((index + 1) as nat));
}

/// The first entry with a reference.
pub open spec fn entry_for(entries: Seq<EntryView>, reference: Seq<char>) -> Option<EntryView>
    decreases entries.len(),
{
    if entries.len() == 0 {
        None
    } else if entries[0].reference == reference {
        Some(entries[0])
    } else {
        entry_for(entries.skip(1), reference)
    }
}

/// An entry that is found is one of the list, and has the reference it was found by.
pub proof fn an_entry_found_is_listed(entries: Seq<EntryView>, reference: Seq<char>)
    ensures
        entry_for(entries, reference) matches Some(entry) ==> entry.reference == reference
            && entries.contains(entry),
    decreases entries.len(),
{
    if entries.len() > 0 {
        if entries[0].reference == reference {
            assert(entries[0] == entries[0]);
        } else {
            let rest = entries.skip(1);
            an_entry_found_is_listed(rest, reference);
            if let Some(entry) = entry_for(rest, reference) {
                let k = choose|k: int| 0 <= k < rest.len() && rest[k] == entry;
                assert(entries[k + 1] == entry);
            }
        }
    }
}

/// The first entry that has a reference is the one that is found by it, and nothing is
/// found only where none has it.
pub proof fn the_first_of_a_reference_is_found(
    entries: Seq<EntryView>,
    reference: Seq<char>,
    i: int,
)
    requires
        0 <= i < entries.len(),
        entries[i].reference == reference,
        forall|k: int| 0 <= k < i ==> (#[trigger] entries[k]).reference != reference,
    ensures
        entry_for(entries, reference) == Some(entries[i]),
    decreases i,
{
    if i > 0 {
        assert(entries[0].reference != reference);
        assert forall|k: int| 0 <= k < i - 1 implies (#[trigger] entries.skip(1)[k]).reference
            != reference by {
            assert(entries.skip(1)[k] == entries[k + 1]);
        }
        the_first_of_a_reference_is_found(entries.skip(1), reference, i - 1);
    }
}

/// What an optional entry names.
pub open spec fn named_entry(entry: Option<&Entry>) -> Option<EntryView> {
    match entry {
        Some(entry) => Some(entry@),
        None => None,
    }
}

impl Entry {
    fn copy(&self) -> (r: Entry)
        ensures
            r@ == self@,
    {
        Entry {
            reference: self.reference.clone(),
            role: self.role.clone(),
            secure: self.secure,
            handle: self.handle,
        }
    }
}

impl Elements {
    /// A copy of the table.
    pub fn copy(&self) -> (r: Elements)
        ensures
            r@ == self@,
    {
        let ghost all = entry_views(self.entries@);
        let mut entries: Vec<Entry> = Vec::new();
        let mut i: usize = 0;
        assert(entry_views(entries@) =~= all.take(0));
        while i < self.entries.len()
            invariant
                i <= self.entries@.len(),
                all == entry_views(self.entries@),
                entry_views(entries@) == all.take(i as int),
            decreases self.entries@.len() - i,
        {
            let ghost held = entry_views(entries@);
            entries.push(self.entries[i].copy());
            assert(entry_views(entries@) =~= held.push(all[i as int]));
            assert(all.take(i as int + 1) =~= all.take(i as int).push(all[i as int]));
            i += 1;
        }
        assert(all.take(i as int) =~= all);
        Elements { pid: self.pid, started_at: self.started_at, entries }
    }

    /// The entry a reference names.
    pub fn get(&self, reference: &str) -> (r: Option<&Entry>)
        ensures
            named_entry(r) == entry_for(self@.entries, reference@),
    {
        let ghost all = entry_views(self.entries@);
        let mut i: usize = 0;
        assert(all.skip(0) =~= all);
        while i < self.entries.len()
            invariant
                i <= self.entries@.len(),
                all == entry_views(self.entries@),
                entry_for(all, reference@) == entry_for(all.skip(i as int), reference@),
            decreases self.entries@.len() - i,
        {
            let entry = &self.entries[i];
            assert(all.skip(i as int)[0] == entry@);
            assert(all.skip(i as int).skip(1) =~= all.skip(i as int + 1));
            if text::same(entry.reference.as_str(), reference) {
                return Some(entry);
            }
            i += 1;
        }
        None
    }
}

/// What an optional table of references holds.
pub open spec fn table(elements: Option<Elements>) -> Option<ElementsView> {
    match elements {
        Some(elements) => Some(elements@),
        None => None,
    }
}

/// A copy of an optional table.
pub fn copy_table(elements: &Option<Elements>) -> (r: Option<Elements>)
    ensures
        table(r) == table(*elements),
{
    match elements {
        Some(elements) => Some(elements.copy()),
        None => None,
    }
}

/// The table a reply keeps: none without a process to check references against, and
/// none where it listed nothing.
pub open spec fn kept(owner: Option<(i32, u64)>, entries: Seq<EntryView>) -> Option<ElementsView> {
    match owner {
        Some((pid, started_at)) => if entries.len() == 0 {
            None
        } else {
            Some(ElementsView { pid, started_at, entries })
        },
        None => None,
    }
}

/// The references one reply hands out, or nothing when it listed none: an empty table
/// would be a promise of controls that are not there.
pub fn retained(owner: Option<(i32, u64)>, entries: Vec<Entry>) -> (r: Option<Elements>)
    ensures
        table(r) == kept(owner, entry_views(entries@)),
{
    match owner {
        Some((pid, started_at)) => if entries.len() == 0 {
            None
        } else {
            Some(Elements { pid, started_at, entries })
        },
        None => None,
    }
}

/// What an action is allowed to do to a control, and therefore what has to be true
/// of it.
#[derive(Clone, Copy, Debug, PartialEq, Eq, Structural)]
pub enum Capability {
    Press,
    SetValue,
}

/// Why a control cannot do it, and what to do instead.
pub open spec fn incapable(want: Capability) -> Seq<char> {
    match want {
        Capability::Press => "this control does not list press among its own actions, so it cannot be pressed by name; click it by element_ref or by point instead"@,
        Capability::SetValue => "this control does not report its value as settable, so it cannot be set by name; type or paste into it instead"@,
    }
}

impl Capability {
    pub fn detail(self) -> (r: &'static str)
        ensures
            r@ == incapable(self),
    {
        match self {
            Capability::Press => "this control does not list press among its own actions, so it cannot be pressed by name; click it by element_ref or by point instead",
            Capability::SetValue => "this control does not report its value as settable, so it cannot be set by name; type or paste into it instead",
        }
    }
}

/// The refusal of a reference that is not in the list.
pub open spec fn not_listed(reference: Seq<char>, count: nat) -> FailureView {
    wire::failed(
        "stale_element"@,
        reference + " is not one of the "@ + text::decimal(count)
            + " controls that reply listed; take `elements` again and use a reference from the new list"@,
    )
}

/// The control a request names in the reply that listed it.
pub open spec fn addressed(
    elements: Option<ElementsView>,
    element_ref: Option<Seq<char>>,
) -> Result<EntryView, FailureView> {
    match element_ref {
        None => Err(wire::coded("element_required"@)),
        Some(reference) => match elements {
            None => Err(
                wire::failed(
                    "stale_element"@,
                    "that reply listed no controls, so it holds no references; take `elements` (or a screenshot with marks) and use a reference from it"@,
                ),
            ),
            Some(elements) => match entry_for(elements.entries, reference) {
                Some(entry) => Ok(entry),
                None => Err(not_listed(reference, elements.entries.len())),
            },
        },
    }
}

/// An entry found, with what it names in place of what it holds.
pub open spec fn found(r: Result<&Entry, Failure>) -> Result<EntryView, FailureView> {
    match r {
        Ok(entry) => Ok(entry@),
        Err(failure) => Err(failure@),
    }
}

/// The control a request named, out of the reply that listed it.
pub fn element_in<'a>(observation: &'a Observation, element_ref: Option<&str>) -> (r: Result<
    &'a Entry,
    Failure,
>)
    ensures
        found(r) == addressed(observation@.elements, text::slice_of(element_ref)),
{
    let reference = match element_ref {
        Some(reference) => reference,
        None => return Err(Failure::coded("element_required")),
    };
    let elements = match &observation.elements {
        Some(elements) => elements,
        None => return Err(
            Failure::new(
                "stale_element",
                "that reply listed no controls, so it holds no references; take `elements` (or a screenshot with marks) and use a reference from it".to_owned(),
            ),
        ),
    };
    match elements.get(reference) {
        Some(entry) => Ok(entry),
        None => {
            let mut detail = reference.to_owned();
            detail.append(" is not one of the ");
            detail.append(text::write_decimal(elements.entries.len() as u64).as_str());
            detail.append(
                " controls that reply listed; take `elements` again and use a reference from the new list",
            );
            Err(Failure::new("stale_element", detail))
        },
    }
}

/// The control a request names, when it names one.
pub open spec fn maybe_addressed(
    elements: Option<ElementsView>,
    element_ref: Option<Seq<char>>,
) -> Result<Option<EntryView>, FailureView> {
    if element_ref is None {
        Ok(None)
    } else {
        match addressed(elements, element_ref) {
            Ok(entry) => Ok(Some(entry)),
            Err(failure) => Err(failure),
        }
    }
}

/// The control a request names, when it names one; a request that names none names a
/// point.
pub fn addressed_element<'a>(
    observation: &'a Observation,
    element_ref: Option<&str>,
) -> (r: Result<Option<&'a Entry>, Failure>)
    ensures
        (match r {
            Ok(entry) => Ok(named_entry(entry)),
            Err(failure) => Err(failure@),
        }) == maybe_addressed(observation@.elements, text::slice_of(element_ref)),
{
    match element_ref {
        None => Ok(None),
        Some(reference) => match element_in(observation, Some(reference)) {
            Ok(entry) => Ok(Some(entry)),
            Err(failure) => Err(failure),
        },
    }
}

/// What the platform says about a control now: when its process started, what it is,
/// and whether it will take input. Nothing where it does not answer.
#[derive(Debug)]
pub struct ControlNow {
    pub started_at: Option<u64>,
    pub role: Option<String>,
    pub enabled: bool,
}

/// Whether a control is still the one that was listed and will act at all, or why
/// not: the application first, then what the control says it is, then whether it
/// takes input.
pub open spec fn presence(
    elements: Option<ElementsView>,
    entry: EntryView,
    started_at: Option<u64>,
    role: Option<Seq<char>>,
    enabled: bool,
) -> Result<(), FailureView> {
    if elements is None {
        Err(wire::coded("stale_element"@))
    } else if started_at != Some(elements->0.started_at) {
        Err(
            wire::failed(
                "stale_element"@,
                "the application that listed this control is not the one running now; take `elements` again and use a reference from the new list"@,
            ),
        )
    } else {
        match role {
            None => Err(
                wire::failed(
                    "stale_element"@,
                    "that control is no longer there; take `elements` again and use a reference from the new list"@,
                ),
            ),
            Some(role) => if role != entry.role {
                Err(
                    wire::failed(
                        "stale_element"@,
                        "that reference now answers a "@ + role + " where it listed a "@
                            + entry.role
                            + ", so it is not the control you were shown; take `elements` again"@,
                    ),
                )
            } else if !enabled {
                Err(
                    wire::failed(
                        "element_disabled"@,
                        "that control is disabled, so it will not act; do not retry it — find what enables it first"@,
                    ),
                )
            } else {
                Ok(())
            },
        }
    }
}

/// Whether a control is still the one that was listed, and will act at all.
pub fn present(observation: &Observation, entry: &Entry, now: &ControlNow) -> (r: Result<
    (),
    Failure,
>)
    ensures
        target::told(r) == presence(
            observation@.elements,
            entry@,
            now.started_at,
            text::text_of(now.role),
            now.enabled,
        ),
{
    let elements = match &observation.elements {
        Some(elements) => elements,
        None => return Err(Failure::coded("stale_element")),
    };
    let same_process = match now.started_at {
        Some(started_at) => started_at == elements.started_at,
        None => false,
    };
    if !same_process {
        return Err(
            Failure::new(
                "stale_element",
                "the application that listed this control is not the one running now; take `elements` again and use a reference from the new list".to_owned(),
            ),
        );
    }
    match &now.role {
        None => Err(
            Failure::new(
                "stale_element",
                "that control is no longer there; take `elements` again and use a reference from the new list".to_owned(),
            ),
        ),
        Some(role) => if !text::same(role.as_str(), entry.role.as_str()) {
            let mut detail = "that reference now answers a ".to_owned();
            detail.append(role.as_str());
            detail.append(" where it listed a ");
            detail.append(entry.role.as_str());
            detail.append(", so it is not the control you were shown; take `elements` again");
            Err(Failure::new("stale_element", detail))
        } else if !now.enabled {
            Err(
                Failure::new(
                    "element_disabled",
                    "that control is disabled, so it will not act; do not retry it — find what enables it first".to_owned(),
                ),
            )
        } else {
            Ok(())
        },
    }
}

/// A control acts exactly where its list has an owner that is still running, it still
/// answers the role it was listed with, and it takes input; only one that is all of
/// that but disabled is called so, and everything else is stale.
pub proof fn a_control_acts_while_it_is_the_one_listed(
    elements: Option<ElementsView>,
    entry: EntryView,
    started_at: Option<u64>,
    role: Option<Seq<char>>,
    enabled: bool,
)
    ensures
        ({
            let there = elements is Some && started_at == Some(elements->0.started_at) && role
                == Some(entry.role);
            match presence(elements, entry, started_at, role, enabled) {
                Ok(()) => there && enabled,
                Err(failure) => if there {
                    !enabled && failure.code == "element_disabled"@
                } else {
                    failure.code == "stale_element"@
                },
            }
        }),
{
}

/// Whether a control says it can do what is wanted of it: its own action list has a
/// press, or it reports its value as settable.
pub open spec fn capable(want: Capability, actions: Seq<Seq<char>>, settable: bool) -> bool {
    match want {
        Capability::Press => actions.contains(PRESS@),
        Capability::SetValue => settable,
    }
}

/// Everything `present` checks, and the one capability an action needs, as the
/// control itself says it.
pub fn revalidate(
    observation: &Observation,
    entry: &Entry,
    now: &ControlNow,
    want: Capability,
    actions: &Vec<String>,
    settable: bool,
) -> (r: Result<(), Failure>)
    ensures
        target::told(r) == (match presence(
            observation@.elements,
            entry@,
            now.started_at,
            text::text_of(now.role),
            now.enabled,
        ) {
            Err(failure) => Err(failure),
            Ok(()) => if capable(want, text::texts(actions@), settable) {
                Ok(())
            } else {
                Err(wire::failed("ax_action_unsupported"@, incapable(want)))
            },
        }),
{
    match present(observation, entry, now) {
        Err(failure) => return Err(failure),
        Ok(()) => {},
    }
    let able = match want {
        Capability::Press => lists(actions, PRESS),
        Capability::SetValue => settable,
    };
    if able {
        Ok(())
    } else {
        Err(Failure::new("ax_action_unsupported", want.detail().to_owned()))
    }
}

fn lists(names: &Vec<String>, name: &str) -> (r: bool)
    ensures
        r == text::texts(names@).contains(name@),
{
    let mut i: usize = 0;
    while i < names.len()
        invariant
            i <= names@.len(),
            forall|k: int| 0 <= k < i ==> #[trigger] text::texts(names@)[k] != name@,
        decreases names@.len() - i,
    {
        if text::same(names[i].as_str(), name) {
            assert(text::texts(names@)[i as int] == name@);
            return true;
        }
        assert(text::texts(names@)[i as int] != name@);
        i += 1;
    }
    false
}

/// A refusal of an accessibility message: whether it went out before it was refused,
/// and what the platform said.
#[derive(Debug)]
pub struct AxRefusal {
    pub sent: bool,
    pub detail: String,
}

/// Whether an accessibility message left the process: a success did, and a refusal
/// only where the platform says so.
pub fn went_out(outcome: &Result<(), AxRefusal>) -> (r: bool)
    ensures
        r == (match *outcome {
            Ok(()) => true,
            Err(refusal) => refusal.sent,
        }),
{
    match outcome {
        Ok(()) => true,
        Err(refusal) => refusal.sent,
    }
}

/// An accessibility call that failed: one that went out and was never answered, or
/// one the application refused.
pub fn ax_failure(refusal: AxRefusal) -> (r: Failure)
    ensures
        r@ == wire::failed(
            if refusal.sent {
                "ax_timed_out"@
            } else {
                "ax_action_failed"@
            },
            refusal.detail@,
        ),
{
    let code = if refusal.sent {
        "ax_timed_out"
    } else {
        "ax_action_failed"
    };
    Failure::new(code, refusal.detail)
}

/// Whether an accessibility error says that an attribute is refused or unknown,
/// rather than that the call failed.
pub fn attribute_rejected(code: i32) -> (r: bool)
    ensures
        r == (code == -25205 || code == -25208),
{
    code == -25205 || code == -25208
}

/// A whole number of points no further out than a point can be.
pub open spec fn pointed(length: int) -> i32 {
    let whole = measure::rounded(length);
    if whole > i32::MAX {
        i32::MAX
    } else if whole < i32::MIN {
        i32::MIN
    } else {
        whole as i32
    }
}

/// The whole number of points nearest to a length.
pub fn to_point(length: i64) -> (r: i32)
    ensures
        r == pointed(length as int),
{
    let whole: i64 = measure::round(length);
    if whole > i32::MAX as i64 {
        i32::MAX
    } else if whole < i32::MIN as i64 {
        i32::MIN
    } else {
        whole as i32
    }
}

/// A control is aimed at in the whole point nearest to its middle, as far out as a
/// point can be.
pub proof fn a_middle_is_aimed_at(length: int)
    ensures
        i32::MIN * measure::UNIT <= length <= i32::MAX * measure::UNIT ==> -measure::UNIT <= 2 * (
        pointed(length) * measure::UNIT - length) <= measure::UNIT,
        length > i32::MAX * measure::UNIT ==> pointed(length) == i32::MAX,
        length < i32::MIN * measure::UNIT ==> pointed(length) == i32::MIN,
{
    measure::a_length_rounds_to_the_nearest(length);
}

/// Where a control is aimed at, given the middle of its bounds, or the refusal of one
/// that no longer says where it is.
pub open spec fn aimed(centre: Option<(i64, i64)>) -> Result<(i32, i32), FailureView> {
    match centre {
        Some((x, y)) => Ok((pointed(x as int), pointed(y as int))),
        None => Err(
            wire::failed(
                "stale_element"@,
                "that control no longer reports where it is, so there is nowhere to click; take `elements` again"@,
            ),
        ),
    }
}

/// Where a control is aimed at, given the middle of its bounds as the platform reads
/// them now.
pub fn aim_at(centre: Option<(i64, i64)>) -> (r: Result<(i32, i32), Failure>)
    ensures
        target::told(r) == aimed(centre),
{
    match centre {
        Some((x, y)) => Ok((to_point(x), to_point(y))),
        None => Err(
            Failure::new(
                "stale_element",
                "that control no longer reports where it is, so there is nowhere to click; take `elements` again".to_owned(),
            ),
        ),
    }
}

/// Whether the middle of a control has to be read before it is acted on: only where
/// there is going to be an image to mark it on.
pub fn wants_aimed_point(check: Check) -> (r: bool)
    ensures
        r == (check == Check::Image),
{
    check == Check::Image
}

/// Where a control is, for the mark on the check image.
pub fn aimed_point(check: Check, centre: Option<(i64, i64)>) -> (r: Option<(i32, i32)>)
    ensures
        r == (match centre {
            Some((x, y)) => if check == Check::Image {
                Some((pointed(x as int), pointed(y as int)))
            } else {
                None
            },
            None => None,
        }),
{
    match centre {
        Some((x, y)) => if check == Check::Image {
            Some((to_point(x), to_point(y)))
        } else {
            None
        },
        None => None,
    }
}

/// Whether the foreground moved while an action ran: said only where it could be
/// read both before and after.
pub fn foreground_moved(before: Option<i32>, after: Option<i32>) -> (r: Option<bool>)
    ensures
        r == (match (before, after) {
            (Some(before), Some(after)) => Some(before != after),
            _ => None,
        }),
{
    match (before, after) {
        (Some(before), Some(after)) => Some(before != after),
        _ => None,
    }
}

/// Whether writing a value is verified: only where it was read back and is the same.
/// A secure field is never read back.
pub open spec fn verifies(secure: bool, read_back: Option<Seq<char>>, value: Seq<char>) -> bool {
    !secure && read_back == Some(value)
}

/// Writing a value is verified exactly where the field is not secure, was read back,
/// and holds as many characters as the value and the same one at every place: nothing
/// shorter, nothing longer and nothing else.
pub proof fn only_the_same_value_verifies(
    secure: bool,
    read_back: Option<Seq<char>>,
    value: Seq<char>,
)
    ensures
        verifies(secure, read_back, value) <==> !secure && (read_back matches Some(held)
            && held.len() == value.len() && forall|i: int|
            0 <= i < value.len() ==> #[trigger] held[i] == value[i]),
        read_back is None ==> !verifies(secure, read_back, value),
        read_back is Some && read_back->0.len() != value.len() ==> !verifies(
            secure,
            read_back,
            value,
        ),
{
    if let Some(held) = read_back {
        if held.len() == value.len() && forall|i: int|
            0 <= i < value.len() ==> #[trigger] held[i] == value[i] {
            assert(held =~= value);
        }
    }
}

/// The control whose value is to be read, where one is at all: never a secure field's.
/// It reads back masked, and not asking is a stronger guarantee than asking and
/// discarding.
pub open spec fn value_asked_of(entry: EntryView, answered: bool) -> Option<u64> {
    if answered && !entry.secure {
        Some(entry.handle)
    } else {
        None
    }
}

/// The control to read a value back from after it was written: none where the message
/// failed, and none for a secure field, whose value is never asked for.
pub fn read_back_of(entry: &Entry, outcome: &Result<(), AxRefusal>) -> (r: Option<u64>)
    ensures
        r == value_asked_of(entry@, outcome is Ok),
        r == (if outcome is Ok && !entry.secure {
            Some(entry.handle)
        } else {
            None
        }),
{
    match outcome {
        Ok(()) => if entry.secure {
            None
        } else {
            Some(entry.handle)
        },
        Err(_) => None,
    }
}

/// The control to read a value from when it is read again: none where it no longer
/// answers what it is, and none for a secure field, whose value is never asked for.
pub fn reread_of(entry: &Entry, role: &Option<String>) -> (r: Option<u64>)
    ensures
        r == value_asked_of(entry@, role is Some),
        r == (if role is Some && !entry.secure {
            Some(entry.handle)
        } else {
            None
        }),
{
    match role {
        Some(_) => if entry.secure {
            None
        } else {
            Some(entry.handle)
        },
        None => None,
    }
}

/// A secure field's value is never asked for, and what one was said to hold would
/// reach no answer: neither the verdict on a write, nor the reply to it, nor a control
/// read again.
pub proof fn a_secure_value_is_never_asked_for(
    entry: EntryView,
    answered: bool,
    members: Map<Seq<char>, Json>,
    held: Option<Seq<char>>,
    value: Seq<char>,
    seen: Reread,
)
    requires
        entry.secure,
    ensures
        value_asked_of(entry, answered) is None,
        !verifies(entry.secure, held, value),
        value_answer(members, entry.secure, false, held) == Json::Object(
            members.insert("verified"@, Json::Bool(false)),
        ),
        reread_json(Some(seen), entry.secure) == reread_json(
            Some(Reread { value: None, ..seen }),
            entry.secure,
        ),
{
}

/// What writing a value did, as far as it could be seen.
pub fn value_effect(secure: bool, read_back: Option<&str>, value: &str) -> (r: Effect)
    ensures
        r == (if verifies(secure, text::slice_of(read_back), value@) {
            Effect::Verified
        } else {
            Effect::NotObserved
        }),
        r == Effect::Verified <==> !secure && (read_back matches Some(held) && held@ == value@),
        r == Effect::Verified || r == Effect::NotObserved,
{
    let same = match read_back {
        Some(read_back) => text::same(read_back, value),
        None => false,
    };
    if !secure && same {
        Effect::Verified
    } else {
        Effect::NotObserved
    }
}

/// The text a `set_value` writes, or the refusal of one that gives none.
pub fn value_to_set(req: &Value) -> (r: Result<String, Failure>)
    ensures
        (match r {
            Ok(value) => Ok(value@),
            Err(failure) => Err(failure@),
        }) == (match json::field_text(json::json_of(*req), "value"@) {
            Some(value) => Ok(value),
            None => Err(
                wire::failed(
                    "invalid_argument"@,
                    "set_value needs a string value: the text to put in the control"@,
                ),
            ),
        }),
{
    match json::text_at(req, "value") {
        Some(value) => Ok(value.to_owned()),
        None => Err(
            Failure::new(
                "invalid_argument",
                "set_value needs a string value: the text to put in the control".to_owned(),
            ),
        ),
    }
}

/// The answer of a `set_value`: its check's own members, whether it verified, and
/// what the field holds now, which is withheld for a secure field.
pub open spec fn value_answer(
    members: Map<Seq<char>, Json>,
    secure: bool,
    verified: bool,
    held: Option<Seq<char>>,
) -> Json {
    let said = members.insert("verified"@, Json::Bool(verified));
    match held {
        Some(held) => if secure {
            Json::Object(said)
        } else {
            Json::Object(said.insert("value"@, Json::Text(held)))
        },
        None => Json::Object(said),
    }
}

/// The answer of a `set_value` says whether it verified, holds the field's text only
/// where the field is not secure and was read, and keeps every other member.
pub proof fn a_value_is_answered_as_it_is(
    members: Map<Seq<char>, Json>,
    secure: bool,
    verified: bool,
    held: Option<Seq<char>>,
    key: Seq<char>,
)
    ensures
        ({
            let answer = value_answer(members, secure, verified, held);
            &&& json::field_bool(answer, "verified"@) == Some(verified)
            &&& held is Some && !secure ==> json::field_text(answer, "value"@) == held
            &&& held is None || secure ==> json::field(answer, "value"@) == json::field(
                Json::Object(members),
                "value"@,
            )
            &&& key != "verified"@ && key != "value"@ ==> json::field(answer, key) == json::field(
                Json::Object(members),
                key,
            )
        }),
{
    reveal_strlit("verified");
    reveal_strlit("value");
    assert("verified"@.len() == 8);
    assert("value"@.len() == 5);
}

/// Adds to the answer of a `set_value` whether it verified, and what the field holds
/// now.
pub fn answer_value(payload: &mut Value, secure: bool, verified: bool, held: Option<&str>)
    requires
        json::json_of(*old(payload)) is Object,
    ensures
        json::json_of(*final(payload)) == value_answer(
            json::json_of(*old(payload))->Object_0,
            secure,
            verified,
            text::slice_of(held),
        ),
{
    json::insert(payload, "verified", json::boolean(verified));
    if let Some(held) = held {
        if !secure {
            json::insert(payload, "value", json::string(held));
        }
    }
}

/// What a control says when it is read again. Nothing at all where it does not
/// answer its role, and its value only where that was asked for.
#[derive(Debug)]
pub struct Reread {
    pub role: String,
    pub enabled: bool,
    pub label: Option<String>,
    pub value: Option<String>,
}

/// A control read again, as the wire reports it.
pub open spec fn reread_json(seen: Option<Reread>, secure: bool) -> Json {
    match seen {
        None => Json::Object(
            Map::<Seq<char>, Json>::empty().insert("present"@, Json::Bool(false)),
        ),
        Some(seen) => {
            let told = Map::<Seq<char>, Json>::empty().insert("present"@, Json::Bool(true)).insert(
                "role"@,
                Json::Text(seen.role@),
            ).insert("enabled"@, Json::Bool(seen.enabled));
            let labelled = match seen.label {
                Some(label) => told.insert("label"@, Json::Text(label@)),
                None => told,
            };
            Json::Object(
                match seen.value {
                    Some(value) => if secure {
                        labelled
                    } else {
                        labelled.insert("value"@, Json::Text(value@))
                    },
                    None => labelled,
                },
            )
        },
    }
}

fn reread(seen: &Option<Reread>, secure: bool) -> (r: Value)
    ensures
        json::json_of(r) == reread_json(*seen, secure),
{
    let mut after = json::object();
    match seen {
        None => {
            json::insert(&mut after, "present", json::boolean(false));
        },
        Some(seen) => {
            json::insert(&mut after, "present", json::boolean(true));
            json::insert(&mut after, "role", json::string(seen.role.as_str()));
            json::insert(&mut after, "enabled", json::boolean(seen.enabled));
            if let Some(label) = &seen.label {
                json::insert(&mut after, "label", json::string(label.as_str()));
            }
            if let Some(value) = &seen.value {
                if !secure {
                    json::insert(&mut after, "value", json::string(value.as_str()));
                }
            }
        },
    }
    after
}

/// The evidence of a semantic check: the control the action named, read again, and
/// what the receipt says of it. An action that named none has nothing to read.
pub fn element_after(entry: Option<&Entry>, seen: &Option<Reread>) -> (r: Result<
    (Value, Checked),
    Failure,
>)
    ensures
        (match r {
            Ok((payload, check)) => Ok((json::json_of(payload), check)),
            Err(failure) => Err(failure@),
        }) == (match entry {
            None => Err(
                wire::failed(
                    "check_unsupported"@,
                    "a semantic check re-reads the control the action named, and this action named none"@,
                ),
            ),
            Some(entry) => Ok(
                (
                    Json::Object(
                        Map::<Seq<char>, Json>::empty().insert("ok"@, Json::Bool(true)).insert(
                            "element_after"@,
                            reread_json(*seen, entry.secure),
                        ),
                    ),
                    Checked { kind: Check::Semantic, settle: None, changed: None },
                ),
            ),
        }),
{
    match entry {
        None => Err(
            Failure::new(
                "check_unsupported",
                "a semantic check re-reads the control the action named, and this action named none".to_owned(),
            ),
        ),
        Some(entry) => {
            let mut payload = json::object();
            json::insert(&mut payload, "ok", json::boolean(true));
            json::insert(&mut payload, "element_after", reread(seen, entry.secure));
            Ok((payload, Checked { kind: Check::Semantic, settle: None, changed: None }))
        },
    }
}

/// A reference that is not listed is refused with what it was and how many there are.
pub proof fn a_reference_that_is_not_listed_is_said(reference: Seq<char>, count: nat)
    ensures
        not_listed(reference, count).code == "stale_element"@,
        not_listed(reference, count).detail matches Some(detail) && text::holds(detail, reference)
            && text::holds(detail, text::decimal(count)),
{
    let said = reference + " is not one of the "@;
    let number = text::decimal(count);
    let rest =
        " controls that reply listed; take `elements` again and use a reference from the new list"@;
    let detail = said + number + rest;
    text::a_text_holds_its_parts(said, number, rest);
    let empty = Seq::<char>::empty();
    text::a_text_holds_its_parts(empty, reference, " is not one of the "@ + number + rest);
    assert(detail =~= empty + reference + (" is not one of the "@ + number + rest));
}

/// A control can be pressed where its own list has a press, and its value set where it says
/// so; what the other wants makes no difference.
pub proof fn a_control_can_do_what_it_says(actions: Seq<Seq<char>>, settable: bool)
    ensures
        capable(Capability::Press, actions, settable) <==> exists|i: int|
            0 <= i < actions.len() && #[trigger] actions[i] == "AXPress"@,
        capable(Capability::SetValue, actions, settable) <==> settable,
{
}

/// A control read again says what it is now, and what it holds only where it is not secure;
/// one that is gone says that.
pub proof fn a_control_read_again_reads_back(seen: Option<Reread>, secure: bool)
    ensures
        json::field_bool(reread_json(seen, secure), "present"@) == Some(seen is Some),
        seen matches Some(now) ==> {
            &&& json::field_text(reread_json(seen, secure), "role"@) == Some(now.role@)
            &&& json::field_bool(reread_json(seen, secure), "enabled"@) == Some(now.enabled)
            &&& json::field_text(reread_json(seen, secure), "label"@) == text::text_of(now.label)
            &&& !secure ==> json::field_text(reread_json(seen, secure), "value"@) == text::text_of(
                now.value,
            )
            &&& secure ==> json::field(reread_json(seen, secure), "value"@) is None
        },
        seen is None ==> json::field(reread_json(seen, secure), "value"@) is None,
{
    reveal_strlit("present");
    reveal_strlit("role");
    reveal_strlit("enabled");
    reveal_strlit("label");
    reveal_strlit("value");
    assert("present"@.len() == 7 && "present"@[0] == 'p');
    assert("role"@.len() == 4);
    assert("enabled"@.len() == 7 && "enabled"@[0] == 'e');
    assert("label"@.len() == 5 && "label"@[0] == 'l');
    assert("value"@.len() == 5 && "value"@[0] == 'v');
}

/// A list keeps a table of its references exactly where it has an owner to check them against
/// and listed something.
pub proof fn a_table_is_kept_with_its_owner(
    owner: Option<(i32, u64)>,
    entries: Seq<EntryView>,
)
    ensures
        kept(owner, entries) is Some <==> owner is Some && entries.len() > 0,
        kept(owner, entries) matches Some(table) ==> {
            &&& owner == Some((table.pid, table.started_at))
            &&& table.entries == entries
        },
{
}

} // verus!
