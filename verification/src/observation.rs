//! Observations: the images and coordinate lists this process has handed out, and
//! the mapping each was made with.
//!
//! Coordinates are pixels in the image they name. Every reply that hands out
//! coordinates mints an observation and returns its id; every action that sends
//! coordinates back names one, and the mapping used is the one stored with it.

use std::collections::hash_map::DefaultHasher;
use std::hash::{Hash, Hasher};
use vstd::prelude::*;

use crate::elements::{self, Elements, ElementsView};
use crate::geometry::{Geometry, MonitorFacts, Region};
use crate::measure;
use crate::text;

verus! {

/// How many images a caller may still be holding coordinates from.
pub const MAX_OBSERVATIONS: usize = 3;

/// How long coordinates read off an image stay addressable.
pub const TTL_MS: u64 = 30_000;

/// What a reply handed out.
#[derive(Clone, Copy, Debug, PartialEq, Eq, Structural)]
pub enum Kind {
    /// A picture.
    Image,
    /// A list of coordinates with no picture.
    Semantic,
}

/// The name a kind has on the wire.
pub open spec fn kind_name(kind: Kind) -> Seq<char> {
    match kind {
        Kind::Image => "image"@,
        Kind::Semantic => "semantic"@,
    }
}

impl Kind {
    pub fn as_str(self) -> (r: &'static str)
        ensures
            r@ == kind_name(self),
    {
        match self {
            Kind::Image => "image",
            Kind::Semantic => "semantic",
        }
    }
}

/// A rectangle of a picture, reduced to one number, with what makes two of them
/// comparable: the rectangle it was read over and the size of the picture that held
/// it.
#[derive(Clone, Copy, Debug, PartialEq, Eq)]
pub struct ViewHash {
    pub pixels: u64,
    pub rect: (u32, u32, u32, u32),
    pub frame: (u32, u32),
}

impl ViewHash {
    /// Whether two hashes were read over the same pixels of pictures of one size.
    pub open spec fn comparable(self, before: ViewHash) -> bool {
        self.rect == before.rect && self.frame == before.frame
    }

    /// Whether the view changed, where the two can be compared at all.
    pub open spec fn change(self, before: ViewHash) -> Option<bool> {
        if self.comparable(before) {
            Some(self.pixels != before.pixels)
        } else {
            None
        }
    }

    /// Whether the view changed since `before`; nothing where the two were not read
    /// over the same pixels.
    pub fn changed_from(&self, before: &ViewHash) -> (r: Option<bool>)
        ensures
            r == self.change(*before),
            r is Some <==> self.rect == before.rect && self.frame == before.frame,
            r == Some(true) <==> self.rect == before.rect && self.frame == before.frame
                && self.pixels != before.pixels,
    {
        let same = self.rect.0 == before.rect.0 && self.rect.1 == before.rect.1 && self.rect.2
            == before.rect.2 && self.rect.3 == before.rect.3 && self.frame.0 == before.frame.0
            && self.frame.1 == before.frame.1;
        if same {
            Some(self.pixels != before.pixels)
        } else {
            None
        }
    }

    /// Whether two hashes are the same in every part.
    pub fn agrees(&self, other: &ViewHash) -> (r: bool)
        ensures
            r == (*self == *other),
    {
        match self.changed_from(other) {
            Some(changed) => !changed,
            None => false,
        }
    }
}

/// One thing a caller can point at, and everything needed to map a coordinate in it
/// back onto the screen.
#[derive(Debug, PartialEq)]
pub struct Observation {
    pub id: String,
    pub kind: Kind,
    pub display_id: u32,
    /// What the system said about the display when this was made.
    pub facts: MonitorFacts,
    pub geometry: Geometry,
    /// The rectangle of the full-display image this one covers.
    pub region: Region,
    pub sent_w: u32,
    pub sent_h: u32,
    /// When this was minted, on the process's monotonic clock: the reading expiry
    /// counts from.
    pub captured_at_monotonic_ns: u128,
    /// One counter per process, images only.
    pub frame_seq: Option<u64>,
    /// The references behind the controls it listed. They belong to it alone, and
    /// live and die with it.
    pub elements: Option<Elements>,
    /// What the picture's own view hashed to. A listing has none.
    pub view_hash: Option<ViewHash>,
}

/// What an observation holds.
#[verifier::ext_equal]
pub struct ObservationView {
    pub id: Seq<char>,
    pub kind: Kind,
    pub display_id: u32,
    pub facts: MonitorFacts,
    pub geometry: Geometry,
    pub region: Region,
    pub sent_w: u32,
    pub sent_h: u32,
    pub captured_at_monotonic_ns: u128,
    pub frame_seq: Option<u64>,
    pub elements: Option<ElementsView>,
    pub view_hash: Option<ViewHash>,
}

impl View for Observation {
    type V = ObservationView;

    open spec fn view(&self) -> ObservationView {
        ObservationView {
            id: self.id@,
            kind: self.kind,
            display_id: self.display_id,
            facts: self.facts,
            geometry: self.geometry,
            region: self.region,
            sent_w: self.sent_w,
            sent_h: self.sent_h,
            captured_at_monotonic_ns: self.captured_at_monotonic_ns,
            frame_seq: self.frame_seq,
            elements: elements::table(self.elements),
            view_hash: self.view_hash,
        }
    }
}

impl ObservationView {
    /// When it was minted, in the milliseconds the table expires by.
    pub open spec fn minted_ms(self) -> int {
        (self.captured_at_monotonic_ns as int / 1_000_000) % 0x1_0000_0000_0000_0000
    }

    /// How old it is, never less than nothing.
    pub open spec fn age(self, now_ms: u64) -> int {
        if now_ms >= self.minted_ms() {
            now_ms - self.minted_ms()
        } else {
            0
        }
    }

    /// Whether it may still be addressed.
    pub open spec fn fresh(self, now_ms: u64) -> bool {
        self.age(now_ms) < TTL_MS
    }

    /// Whether a point was read inside it.
    pub open spec fn encloses(self, x: int, y: int) -> bool {
        &&& 0 <= x < self.sent_w * measure::UNIT
        &&& 0 <= y < self.sent_h * measure::UNIT
    }
}

/// Why an observation cannot be used. Each is its own sentence and each means that
/// nothing was done.
#[derive(Clone, Copy, Debug, PartialEq, Eq, Structural)]
pub enum Refusal {
    /// No such id: a made-up one, one from a helper that has since restarted, or
    /// one pushed out by a newer image.
    Unknown,
    /// It was ours and it is too old to trust.
    Expired,
    /// The display moved, changed size or changed mode since the image was made.
    Stale,
    /// The point is not inside the image it names.
    OutsidePoint { x: i64, y: i64, w: u32, h: u32 },
}

/// The code of a refusal.
pub open spec fn refusal_code(refusal: Refusal) -> Seq<char> {
    match refusal {
        Refusal::Unknown => "unknown_observation"@,
        Refusal::Expired => "expired_observation"@,
        Refusal::Stale => "stale_observation"@,
        Refusal::OutsidePoint { .. } => "point_outside_observation"@,
    }
}

/// The sentence of a refusal.
pub open spec fn refusal_detail(refusal: Refusal) -> Seq<char> {
    match refusal {
        Refusal::Unknown =>
            "no image of that name is held; take a fresh screenshot and read the coordinates again"@,
        Refusal::Expired => "that image is more than "@ + text::decimal((TTL_MS / 1000) as nat)
            + " seconds old; take a fresh screenshot and read the coordinates again"@,
        Refusal::Stale => "geometry_changed"@,
        Refusal::OutsidePoint { x, y, w, h } => "("@ + measure::written(x as int) + ", "@
            + measure::written(y as int) + ") is not inside that image, which is "@ + text::decimal(
            w as nat,
        ) + "x"@ + text::decimal(h as nat)
            + " pixels; the point may have been read from a different image"@,
    }
}

impl Refusal {
    pub fn code(&self) -> (r: &'static str)
        ensures
            r@ == refusal_code(*self),
    {
        match self {
            Refusal::Unknown => "unknown_observation",
            Refusal::Expired => "expired_observation",
            Refusal::Stale => "stale_observation",
            Refusal::OutsidePoint { .. } => "point_outside_observation",
        }
    }

    pub fn detail(&self) -> (r: String)
        ensures
            r@ == refusal_detail(*self),
    {
        match self {
            Refusal::Unknown =>
                "no image of that name is held; take a fresh screenshot and read the coordinates again".to_owned(),
            Refusal::Expired => {
                let mut out = "that image is more than ".to_owned();
                out.append(text::write_decimal(TTL_MS / 1000).as_str());
                out.append(
                    " seconds old; take a fresh screenshot and read the coordinates again",
                );
                out
            },
            Refusal::Stale => "geometry_changed".to_owned(),
            Refusal::OutsidePoint { x, y, w, h } => {
                let mut out = "(".to_owned();
                out.append(measure::write(*x).as_str());
                out.append(", ");
                out.append(measure::write(*y).as_str());
                out.append(") is not inside that image, which is ");
                out.append(text::write_decimal(*w as u64).as_str());
                out.append("x");
                out.append(text::write_decimal(*h as u64).as_str());
                out.append(" pixels; the point may have been read from a different image");
                out
            },
        }
    }
}

impl Observation {
    /// Milliseconds on the same clock the table expires by.
    fn captured_at_ms(&self) -> (r: u64)
        ensures
            r == self@.minted_ms(),
    {
        ((self.captured_at_monotonic_ns / 1_000_000) % 0x1_0000_0000_0000_0000) as u64
    }

    fn is_fresh(&self, now_ms: u64) -> (r: bool)
        ensures
            r == self@.fresh(now_ms),
    {
        let minted: u64 = self.captured_at_ms();
        let age: u64 = if now_ms >= minted {
            now_ms - minted
        } else {
            0
        };
        age < TTL_MS
    }

    /// Is this still the display the image was made on? Compared as the system
    /// reports it, because that is readable without a capture.
    pub fn matches_display(&self, display_id: u32, facts: &MonitorFacts) -> (r: bool)
        ensures
            r == (self.display_id == display_id && self.facts == *facts),
    {
        self.display_id == display_id && self.facts == *facts
    }

    /// A point read off this image, in millionths of a pixel. Outside it is refused,
    /// never clamped: one pixel past the edge is a reading error.
    pub fn contains(&self, x: i64, y: i64) -> (r: Result<(), Refusal>)
        ensures
            r == (if self@.encloses(x as int, y as int) {
                Ok(())
            } else {
                Err(Refusal::OutsidePoint { x, y, w: self.sent_w, h: self.sent_h })
            }),
    {
        if x >= 0 && y >= 0 && x < self.sent_w as i64 * measure::UNIT && y < self.sent_h as i64
            * measure::UNIT {
            Ok(())
        } else {
            Err(Refusal::OutsidePoint { x, y, w: self.sent_w, h: self.sent_h })
        }
    }

    /// A copy of the observation.
    pub fn copy(&self) -> (r: Observation)
        ensures
            r@ == self@,
    {
        Observation {
            id: self.id.clone(),
            kind: self.kind,
            display_id: self.display_id,
            facts: self.facts,
            geometry: self.geometry,
            region: self.region,
            sent_w: self.sent_w,
            sent_h: self.sent_h,
            captured_at_monotonic_ns: self.captured_at_monotonic_ns,
            frame_seq: self.frame_seq,
            elements: elements::copy_table(&self.elements),
            view_hash: self.view_hash,
        }
    }
}

/// The writes a text makes when it is hashed.
pub uninterp spec fn text_writes(text: Seq<char>) -> Seq<Seq<u8>>;

/// `<str as Hash>::hash` into a `DefaultHasher`: the text is written, and what is
/// written depends on the text alone.
#[verifier::external_body]
fn hash_text(text: &str, hasher: &mut DefaultHasher)
    ensures
        final(hasher)@ == old(hasher)@ + text_writes(text@),
{
    text.hash(hasher);
}

/// What a `DefaultHasher` made by `new` makes of one text.
pub open spec fn text_hash(text: Seq<char>) -> u64 {
    <DefaultHasher as vstd::std_specs::hash::DefaultHasherAdditionalSpecFns>::spec_finish(
        text_writes(text),
    )
}

/// The table. One per process.
#[derive(Debug)]
pub struct Observations {
    prefix: String,
    counter: u64,
    frame_seq: u64,
    /// Oldest first.
    entries: Vec<Observation>,
}

/// What the table holds.
#[verifier::ext_equal]
pub struct ObservationsView {
    pub prefix: Seq<char>,
    pub counter: nat,
    pub frame_seq: nat,
    pub entries: Seq<ObservationView>,
}

/// What every observation of a list holds.
pub open spec fn views(entries: Seq<Observation>) -> Seq<ObservationView> {
    entries.map_values(|entry: Observation| entry@)
}

/// The id the table's `n`th observation has.
pub open spec fn id_of(prefix: Seq<char>, n: nat) -> Seq<char> {
    prefix + "-"@ + text::decimal(n)
}

/// The entries that may still be addressed.
pub open spec fn still_fresh(entries: Seq<ObservationView>, now_ms: u64) -> Seq<ObservationView> {
    entries.filter(|entry: ObservationView| entry.fresh(now_ms))
}

/// The newest of a list, as many as the table keeps.
pub open spec fn newest(entries: Seq<ObservationView>) -> Seq<ObservationView> {
    if entries.len() > MAX_OBSERVATIONS {
        entries.skip(entries.len() - MAX_OBSERVATIONS)
    } else {
        entries
    }
}

/// The first entry with an id.
pub open spec fn entry_named(entries: Seq<ObservationView>, id: Seq<char>) -> Option<
    ObservationView,
>
    decreases entries.len(),
{
    if entries.len() == 0 {
        None
    } else if entries[0].id == id {
        Some(entries[0])
    } else {
        entry_named(entries.skip(1), id)
    }
}

impl ObservationsView {
    /// At most as many entries as are kept, each with an id this table minted and no
    /// two with the same.
    pub open spec fn valid(self) -> bool {
        &&& self.entries.len() <= MAX_OBSERVATIONS
        &&& forall|i: int|
            0 <= i < self.entries.len() ==> self.minted(#[trigger] self.entries[i].id)
        &&& forall|i: int, j: int|
            0 <= i < j < self.entries.len() ==> (#[trigger] self.entries[i]).id != (
            #[trigger] self.entries[j]).id
    }

    /// Whether this table has minted an id.
    pub open spec fn minted(self, id: Seq<char>) -> bool {
        exists|n: nat| 1 <= n <= self.counter && id == #[trigger] id_of(self.prefix, n)
    }

    /// What the table mints next.
    pub open spec fn next_observation(
        self,
        kind: Kind,
        display_id: u32,
        facts: MonitorFacts,
        geometry: Geometry,
        region: Region,
        sent: (u32, u32),
        elements: Option<ElementsView>,
        now_ns: u128,
    ) -> ObservationView {
        ObservationView {
            id: id_of(self.prefix, self.counter + 1),
            kind,
            display_id,
            facts,
            geometry,
            region,
            sent_w: sent.0,
            sent_h: sent.1,
            captured_at_monotonic_ns: now_ns,
            frame_seq: if kind == Kind::Image {
                Some((self.frame_seq + 1) as u64)
            } else {
                None
            },
            elements,
            view_hash: None,
        }
    }

    /// The table with a hash kept beside the observation an id names.
    pub open spec fn with_view(self, id: Seq<char>, hash: ViewHash) -> ObservationsView {
        ObservationsView {
            entries: self.entries.map_values(
                |entry: ObservationView|
                    if entry.id == id {
                        ObservationView { view_hash: Some(hash), ..entry }
                    } else {
                        entry
                    },
            ),
            ..self
        }
    }

    /// The table with an observation minted: what has expired goes, then the oldest
    /// while there are too many.
    pub open spec fn with(self, observation: ObservationView, now_ms: u64) -> ObservationsView {
        ObservationsView {
            prefix: self.prefix,
            counter: self.counter + 1,
            frame_seq: if observation.kind == Kind::Image {
                self.frame_seq + 1
            } else {
                self.frame_seq
            },
            entries: newest(still_fresh(self.entries, now_ms).push(observation)),
        }
    }

    /// The observation an id names, or why it cannot be used. An id the table never
    /// held and one it has dropped answer the same way.
    pub open spec fn named(self, id: Seq<char>, now_ms: u64) -> Result<ObservationView, Refusal> {
        match entry_named(self.entries, id) {
            None => Err(Refusal::Unknown),
            Some(entry) => if entry.fresh(now_ms) {
                Ok(entry)
            } else {
                Err(Refusal::Expired)
            },
        }
    }
}

impl View for Observations {
    type V = ObservationsView;

    closed spec fn view(&self) -> ObservationsView {
        ObservationsView {
            prefix: self.prefix@,
            counter: self.counter as nat,
            frame_seq: self.frame_seq as nat,
            entries: views(self.entries@),
        }
    }
}

/// A resolution, with what it says in place of what it holds.
pub open spec fn resolution(r: Result<&Observation, Refusal>) -> Result<ObservationView, Refusal> {
    match r {
        Ok(observation) => Ok(observation@),
        Err(refusal) => Err(refusal),
    }
}

/// A table with nothing in it. Its ids begin with four hex characters of a boot
/// identity's hash: short enough to repeat, and enough that an id minted by a helper that
/// has since died is not one of its successor's, unless two boots happen to share those
/// sixteen bits.
pub open spec fn empty_table(hash: u64) -> ObservationsView {
    ObservationsView {
        prefix: text::hex4(hash as nat),
        counter: 0,
        frame_seq: 0,
        entries: Seq::empty(),
    }
}

impl Observations {
    /// An empty table, its ids keyed on the boot identity.
    pub fn new(sidecar_generation: &str) -> (r: Observations)
        ensures
            r@ == empty_table(text_hash(sidecar_generation@)),
            r@.valid(),
    {
        let mut hasher = DefaultHasher::new();
        hash_text(sidecar_generation, &mut hasher);
        assert(hasher@ =~= text_writes(sidecar_generation@));
        Observations::keyed(hasher.finish())
    }

    /// An empty table, its ids keyed on the hash of a boot identity.
    pub fn keyed(hash: u64) -> (r: Observations)
        ensures
            r@ == empty_table(hash),
            r@.valid(),
    {
        let entries: Vec<Observation> = Vec::new();
        assert(views(entries@) =~= Seq::empty());
        Observations { prefix: text::write_hex4(hash), counter: 0, frame_seq: 0, entries }
    }

    /// Records what a reply is about to hand out, with the references behind what it
    /// lists, and answers what names it. The two readings are of one clock.
    pub fn mint(
        &mut self,
        kind: Kind,
        display_id: u32,
        facts: MonitorFacts,
        geometry: Geometry,
        region: Region,
        sent: (u32, u32),
        elements: Option<Elements>,
        now_ms: u64,
        now_ns: u128,
    ) -> (r: Observation)
        requires
            old(self)@.valid(),
            old(self)@.counter < u64::MAX,
            old(self)@.frame_seq < u64::MAX,
        ensures
            r@ == old(self)@.next_observation(
                kind,
                display_id,
                facts,
                geometry,
                region,
                sent,
                elements::table(elements),
                now_ns,
            ),
            final(self)@ == old(self)@.with(r@, now_ms),
            final(self)@.valid(),
    {
        let ghost before = self@;
        let ghost all = views(self.entries@);
        let ghost test = |entry: ObservationView| entry.fresh(now_ms);
        let mut kept: Vec<Observation> = Vec::new();
        let mut i: usize = 0;
        proof {
            reveal(Seq::filter);
            assert(views(kept@) =~= all.take(0).filter(test));
        }
        while i < self.entries.len()
            invariant
                i <= self.entries@.len(),
                all == views(self.entries@),
                self@ == before,
                test == (|entry: ObservationView| entry.fresh(now_ms)),
                views(kept@) == all.take(i as int).filter(test),
            decreases self.entries@.len() - i,
        {
            proof {
                reveal(Seq::filter);
                assert(all.take(i as int + 1).drop_last() =~= all.take(i as int));
                assert(all.take(i as int + 1).last() == self.entries@[i as int]@);
            }
            if self.entries[i].is_fresh(now_ms) {
                let ghost held = views(kept@);
                kept.push(self.entries[i].copy());
                assert(views(kept@) =~= held.push(self.entries@[i as int]@));
            }
            i += 1;
        }
        assert(all.take(i as int) =~= all);
        self.counter = self.counter + 1;
        let frame_seq: Option<u64> = match kind {
            Kind::Image => {
                self.frame_seq = self.frame_seq + 1;
                Some(self.frame_seq)
            },
            Kind::Semantic => None,
        };
        let mut id = self.prefix.clone();
        id.append("-");
        id.append(text::write_decimal(self.counter).as_str());
        let observation = Observation {
            id,
            kind,
            display_id,
            facts,
            geometry,
            region,
            sent_w: sent.0,
            sent_h: sent.1,
            captured_at_monotonic_ns: now_ns,
            frame_seq,
            elements,
            view_hash: None,
        };
        let ghost fresh = views(kept@);
        kept.push(observation.copy());
        assert(views(kept@) =~= fresh.push(observation@));
        let ghost full = views(kept@);
        while kept.len() > MAX_OBSERVATIONS
            invariant
                kept@.len() <= full.len(),
                views(kept@) == full.skip(full.len() - kept@.len()),
                kept@.len() >= MAX_OBSERVATIONS || kept@.len() == full.len(),
            decreases kept@.len(),
        {
            let ghost had = views(kept@);
            kept.remove(0);
            assert(views(kept@) =~= had.skip(1));
            assert(had.skip(1) =~= full.skip(full.len() - kept@.len()));
        }
        assert(views(kept@) =~= newest(full));
        self.entries = kept;
        proof {
            the_table_stays_valid(before, observation@, now_ms);
        }
        observation
    }

    /// The observation an action named, or why it cannot be used.
    pub fn resolve(&self, id: &str, now_ms: u64) -> (r: Result<&Observation, Refusal>)
        ensures
            resolution(r) == self@.named(id@, now_ms),
    {
        let ghost all = views(self.entries@);
        let mut i: usize = 0;
        assert(all.skip(0) =~= all);
        while i < self.entries.len()
            invariant
                i <= self.entries@.len(),
                all == views(self.entries@),
                entry_named(all, id@) == entry_named(all.skip(i as int), id@),
            decreases self.entries@.len() - i,
        {
            let entry = &self.entries[i];
            assert(all.skip(i as int)[0] == entry@);
            assert(all.skip(i as int).skip(1) =~= all.skip(i as int + 1));
            if text::same(entry.id.as_str(), id) {
                if entry.is_fresh(now_ms) {
                    return Ok(entry);
                }
                return Err(Refusal::Expired);
            }
            i += 1;
        }
        Err(Refusal::Unknown)
    }

    /// Keeps the hash of a picture's own view beside it.
    pub fn keep_view(&mut self, id: &str, hash: ViewHash)
        requires
            old(self)@.valid(),
        ensures
            final(self)@ == old(self)@.with_view(id@, hash),
            final(self)@.valid(),
    {
        let ghost before = self@;
        let ghost after = before.with_view(id@, hash);
        let mut i: usize = 0;
        let mut kept: Vec<Observation> = Vec::new();
        while i < self.entries.len()
            invariant
                i <= self.entries@.len(),
                self@ == before,
                after == before.with_view(id@, hash),
                views(kept@) == after.entries.take(i as int),
            decreases self.entries@.len() - i,
        {
            let mut entry = self.entries[i].copy();
            if text::same(entry.id.as_str(), id) {
                entry.view_hash = Some(hash);
            }
            assert(before.entries[i as int] == self.entries@[i as int]@);
            assert(entry@ == after.entries[i as int]);
            let ghost held = views(kept@);
            kept.push(entry);
            assert(views(kept@) =~= held.push(after.entries[i as int]));
            assert(after.entries.take(i as int + 1) =~= after.entries.take(i as int).push(
                after.entries[i as int],
            ));
            i += 1;
        }
        assert(after.entries.take(i as int) =~= after.entries);
        self.entries = kept;
        proof {
            keeping_a_view_keeps_the_table(before, id@, hash);
        }
    }

    /// Whether there is an id and a frame count left to mint with.
    pub fn can_mint(&self) -> (r: bool)
        ensures
            r == (self@.counter < u64::MAX && self@.frame_seq < u64::MAX),
    {
        self.counter < u64::MAX && self.frame_seq < u64::MAX
    }

    /// Lets go of everything a caller could still address. The counters go on, so
    /// no id is ever used twice.
    pub fn clear(&mut self)
        requires
            old(self)@.valid(),
        ensures
            final(self)@ == (ObservationsView { entries: Seq::empty(), ..old(self)@ }),
            final(self)@.valid(),
    {
        self.entries = Vec::new();
        assert(views(self.entries@) =~= Seq::empty());
    }
}

proof fn keeping_a_view_keeps_the_table(table: ObservationsView, id: Seq<char>, hash: ViewHash)
    requires
        table.valid(),
    ensures
        table.with_view(id, hash).valid(),
{
    let after = table.with_view(id, hash);
    assert forall|i: int| 0 <= i < after.entries.len() implies after.minted(
        #[trigger] after.entries[i].id,
    ) by {
        assert(table.minted(table.entries[i].id));
        let n = choose|n: nat|
            1 <= n <= table.counter && table.entries[i].id == #[trigger] id_of(table.prefix, n);
        assert(after.entries[i].id == id_of(after.prefix, n));
    }
    assert forall|i: int, j: int| 0 <= i < j < after.entries.len() implies (
    #[trigger] after.entries[i]).id != (#[trigger] after.entries[j]).id by {
        assert(table.entries[i].id != table.entries[j].id);
    }
}

/// A hash kept beside a picture is found with it, and nothing else about any
/// observation is touched.
pub proof fn a_kept_view_is_found(
    table: ObservationsView,
    id: Seq<char>,
    hash: ViewHash,
    asked: Seq<char>,
    now_ms: u64,
)
    ensures
        table.with_view(id, hash).named(asked, now_ms) == (match table.named(asked, now_ms) {
            Ok(entry) => if asked == id {
                Ok(ObservationView { view_hash: Some(hash), ..entry })
            } else {
                Ok(entry)
            },
            Err(refusal) => Err(refusal),
        }),
    decreases table.entries.len(),
{
    if table.entries.len() > 0 {
        let rest = ObservationsView { entries: table.entries.skip(1), ..table };
        a_kept_view_is_found(rest, id, hash, asked, now_ms);
        assert(table.with_view(id, hash).entries.skip(1) =~= rest.with_view(id, hash).entries);
        assert(table.with_view(id, hash).entries[0].id == table.entries[0].id);
    }
}

proof fn filtered_entry(entries: Seq<ObservationView>, now_ms: u64, i: int)
    requires
        0 <= i < still_fresh(entries, now_ms).len(),
    ensures
        still_fresh(entries, now_ms)[i].fresh(now_ms),
        exists|k: int|
            i <= k < entries.len() && #[trigger] entries[k] == still_fresh(entries, now_ms)[i],
{
    keeps_order(entries, now_ms, i, i);
}

proof fn keeps_order(entries: Seq<ObservationView>, now_ms: u64, i: int, j: int)
    requires
        0 <= i <= j < still_fresh(entries, now_ms).len(),
    ensures
        still_fresh(entries, now_ms)[i].fresh(now_ms),
        exists|k: int, l: int|
            {
                &&& i <= k <= l < entries.len()
                &&& (i < j ==> k < l)
                &&& #[trigger] entries[k] == still_fresh(entries, now_ms)[i]
                &&& #[trigger] entries[l] == still_fresh(entries, now_ms)[j]
            },
    decreases entries.len(),
{
    reveal(Seq::filter);
    let before = entries.drop_last();
    let kept = still_fresh(before, now_ms);
    let all = still_fresh(entries, now_ms);
    before.lemma_filter_len(|entry: ObservationView| entry.fresh(now_ms));
    if j < kept.len() {
        keeps_order(before, now_ms, i, j);
        let (k, l) = choose|k: int, l: int|
            {
                &&& i <= k <= l < before.len()
                &&& (i < j ==> k < l)
                &&& #[trigger] before[k] == kept[i]
                &&& #[trigger] before[l] == kept[j]
            };
        assert(entries[k] == all[i] && entries[l] == all[j]);
    } else {
        let l = entries.len() - 1;
        assert(entries[l] == all[j]);
        if i < kept.len() {
            keeps_order(before, now_ms, i, i);
            let (k, same) = choose|k: int, l: int|
                {
                    &&& i <= k <= l < before.len()
                    &&& (i < i ==> k < l)
                    &&& #[trigger] before[k] == kept[i]
                    &&& #[trigger] before[l] == kept[i]
                };
            assert(entries[k] == all[i]);
        } else {
            assert(entries[l] == all[i]);
        }
    }
}

/// Two ids of one table are equal only if they are the same observation's.
pub proof fn ids_are_their_own(prefix: Seq<char>, a: nat, b: nat)
    requires
        id_of(prefix, a) == id_of(prefix, b),
    ensures
        a == b,
{
    let head = prefix + "-"@;
    assert(id_of(prefix, a).skip(head.len() as int) =~= text::decimal(a));
    assert(id_of(prefix, b).skip(head.len() as int) =~= text::decimal(b));
    text::decimals_are_their_own(a, b);
}

proof fn the_table_stays_valid(
    table: ObservationsView,
    observation: ObservationView,
    now_ms: u64,
)
    requires
        table.valid(),
        observation.id == id_of(table.prefix, table.counter + 1),
    ensures
        table.with(observation, now_ms).valid(),
{
    let after = table.with(observation, now_ms);
    let fresh = still_fresh(table.entries, now_ms);
    let full = fresh.push(observation);
    table.entries.lemma_filter_len(|entry: ObservationView| entry.fresh(now_ms));
    let gone: int = if full.len() > MAX_OBSERVATIONS {
        full.len() - MAX_OBSERVATIONS
    } else {
        0
    };
    assert forall|i: int| 0 <= i < full.len() implies after.minted(#[trigger] full[i].id) by {
        if i < fresh.len() {
            filtered_entry(table.entries, now_ms, i);
            let k = choose|k: int|
                i <= k < table.entries.len() && #[trigger] table.entries[k] == fresh[i];
            assert(table.minted(table.entries[k].id));
            let n = choose|n: nat|
                1 <= n <= table.counter && fresh[i].id == #[trigger] id_of(table.prefix, n);
            assert(full[i].id == id_of(after.prefix, n));
        } else {
            assert(full[i].id == id_of(after.prefix, after.counter));
        }
    }
    assert forall|i: int, j: int| 0 <= i < j < full.len() implies (#[trigger] full[i]).id != (
    #[trigger] full[j]).id by {
        if j < fresh.len() {
            keeps_order(table.entries, now_ms, i, j);
        } else {
            filtered_entry(table.entries, now_ms, i);
            let k = choose|k: int|
                i <= k < table.entries.len() && #[trigger] table.entries[k] == fresh[i];
            assert(table.minted(table.entries[k].id));
            let n = choose|n: nat|
                1 <= n <= table.counter && fresh[i].id == #[trigger] id_of(table.prefix, n);
            if full[i].id == full[j].id {
                ids_are_their_own(table.prefix, n, table.counter + 1);
            }
        }
    }
    assert forall|i: int| 0 <= i < after.entries.len() implies after.minted(
        #[trigger] after.entries[i].id,
    ) by {
        assert(after.entries[i] == full[i + gone]);
    }
    assert forall|i: int, j: int| 0 <= i < j < after.entries.len() implies (
    #[trigger] after.entries[i]).id != (#[trigger] after.entries[j]).id by {
        assert(after.entries[i] == full[i + gone]);
        assert(after.entries[j] == full[j + gone]);
    }
}

proof fn entry_at(entries: Seq<ObservationView>, i: int)
    requires
        0 <= i < entries.len(),
        forall|a: int, b: int|
            0 <= a < b < entries.len() ==> (#[trigger] entries[a]).id != (#[trigger] entries[b]).id,
    ensures
        entry_named(entries, entries[i].id) == Some(entries[i]),
    decreases entries.len(),
{
    if i > 0 {
        let rest = entries.skip(1);
        assert(entries[0].id != entries[i].id);
        assert forall|a: int, b: int| 0 <= a < b < rest.len() implies (#[trigger] rest[a]).id != (
        #[trigger] rest[b]).id by {
            assert(rest[a] == entries[a + 1]);
            assert(rest[b] == entries[b + 1]);
        }
        entry_at(rest, i - 1);
        assert(rest[i - 1] == entries[i]);
    }
}

proof fn named_is_an_entry(entries: Seq<ObservationView>, id: Seq<char>)
    ensures
        entry_named(entries, id) matches Some(entry) ==> entry.id == id && entries.contains(entry),
    decreases entries.len(),
{
    if entries.len() > 0 {
        if entries[0].id == id {
            assert(entries[0] == entries[0]);
        } else {
            let rest = entries.skip(1);
            named_is_an_entry(rest, id);
            if let Some(entry) = entry_named(rest, id) {
                let k = choose|k: int| 0 <= k < rest.len() && rest[k] == entry;
                assert(entries[k + 1] == entry);
            }
        }
    }
}

/// What was minted is what its id names, as it was minted, for thirty seconds of
/// the clock; from then on it is refused as expired.
pub proof fn what_was_minted_is_what_is_named(
    table: ObservationsView,
    observation: ObservationView,
    minted_at_ms: u64,
    now_ms: u64,
)
    requires
        table.valid(),
        observation.id == id_of(table.prefix, table.counter + 1),
    ensures
        table.with(observation, minted_at_ms).named(observation.id, now_ms) == (
        if observation.age(now_ms) < TTL_MS {
            Ok(observation)
        } else {
            Err(Refusal::Expired)
        }),
{
    the_table_stays_valid(table, observation, minted_at_ms);
    let entries = table.with(observation, minted_at_ms).entries;
    entry_at(entries, entries.len() - 1);
}

/// Minting pushes out the oldest and no other: the newest two that had not expired
/// are still named as they were.
pub proof fn minting_keeps_the_newest(
    table: ObservationsView,
    observation: ObservationView,
    minted_at_ms: u64,
    now_ms: u64,
    i: int,
)
    requires
        table.valid(),
        observation.id == id_of(table.prefix, table.counter + 1),
        0 <= i < still_fresh(table.entries, minted_at_ms).len(),
        i + 2 >= still_fresh(table.entries, minted_at_ms).len(),
    ensures
        ({
            let kept = still_fresh(table.entries, minted_at_ms)[i];
            table.with(observation, minted_at_ms).named(kept.id, now_ms) == (if kept.fresh(
                now_ms,
            ) {
                Ok(kept)
            } else {
                Err(Refusal::Expired)
            })
        }),
{
    the_table_stays_valid(table, observation, minted_at_ms);
    let fresh = still_fresh(table.entries, minted_at_ms);
    let full = fresh.push(observation);
    let entries = table.with(observation, minted_at_ms).entries;
    let gone: int = if full.len() > MAX_OBSERVATIONS {
        full.len() - MAX_OBSERVATIONS
    } else {
        0
    };
    table.entries.lemma_filter_len(|entry: ObservationView| entry.fresh(minted_at_ms));
    assert(entries[i - gone] == full[i]);
    entry_at(entries, i - gone);
}

/// Only an id this table minted is ever named, and only while it is fresh, so an id
/// from a helper with another prefix, a made-up one and an expired one are refused.
pub proof fn only_what_was_minted_is_named(table: ObservationsView, id: Seq<char>, now_ms: u64)
    requires
        table.valid(),
    ensures
        table.named(id, now_ms) matches Ok(observation) ==> {
            &&& observation.id == id
            &&& table.minted(id)
            &&& observation.fresh(now_ms)
        },
        !table.minted(id) ==> table.named(id, now_ms) == Err::<ObservationView, Refusal>(
            Refusal::Unknown,
        ),
{
    named_is_an_entry(table.entries, id);
    if let Some(entry) = entry_named(table.entries, id) {
        let k = choose|k: int| 0 <= k < table.entries.len() && table.entries[k] == entry;
        assert(table.minted(table.entries[k].id));
    }
}

/// An image moves the frame count on by one and carries the new count; a listing
/// leaves it and carries none.
pub proof fn only_images_are_counted(
    table: ObservationsView,
    display_id: u32,
    facts: MonitorFacts,
    geometry: Geometry,
    region: Region,
    sent: (u32, u32),
    elements: Option<ElementsView>,
    now_ms: u64,
    now_ns: u128,
)
    requires
        table.frame_seq < u64::MAX,
    ensures
        ({
            let image = table.next_observation(
                Kind::Image,
                display_id,
                facts,
                geometry,
                region,
                sent,
                elements,
                now_ns,
            );
            let listing = table.next_observation(
                Kind::Semantic,
                display_id,
                facts,
                geometry,
                region,
                sent,
                elements,
                now_ns,
            );
            &&& image.frame_seq == Some((table.frame_seq + 1) as u64)
            &&& table.with(image, now_ms).frame_seq == table.frame_seq + 1
            &&& listing.frame_seq is None
            &&& table.with(listing, now_ms).frame_seq == table.frame_seq
        }),
{
}

/// One thing that is done to a table.
pub enum Step {
    /// Something is minted, of any kind and at any reading of the clock.
    Mint {
        kind: Kind,
        display_id: u32,
        facts: MonitorFacts,
        geometry: Geometry,
        region: Region,
        sent: (u32, u32),
        elements: Option<ElementsView>,
        now_ms: u64,
        now_ns: u128,
    },
    /// A hash is kept beside an id.
    Keep { id: Seq<char>, hash: ViewHash },
    /// Everything is let go of.
    Clear,
}

impl Step {
    /// What a step mints on a table, where it mints.
    pub open spec fn mints(self, table: ObservationsView) -> Option<ObservationView> {
        match self {
            Step::Mint {
                kind,
                display_id,
                facts,
                geometry,
                region,
                sent,
                elements,
                now_ms,
                now_ns,
            } => Some(
                table.next_observation(
                    kind,
                    display_id,
                    facts,
                    geometry,
                    region,
                    sent,
                    elements,
                    now_ns,
                ),
            ),
            _ => None,
        }
    }

    /// The table after a step.
    pub open spec fn on(self, table: ObservationsView) -> ObservationsView {
        match self {
            Step::Mint { now_ms, .. } => table.with(self.mints(table)->0, now_ms),
            Step::Keep { id, hash } => table.with_view(id, hash),
            Step::Clear => ObservationsView { entries: Seq::empty(), ..table },
        }
    }
}

/// The table after a run of steps.
pub open spec fn after_steps(table: ObservationsView, steps: Seq<Step>) -> ObservationsView
    decreases steps.len(),
{
    if steps.len() == 0 {
        table
    } else {
        steps.last().on(after_steps(table, steps.drop_last()))
    }
}

/// What a run of steps mints, in order.
pub open spec fn all_minted(table: ObservationsView, steps: Seq<Step>) -> Seq<ObservationView>
    decreases steps.len(),
{
    if steps.len() == 0 {
        Seq::empty()
    } else {
        let before = all_minted(table, steps.drop_last());
        match steps.last().mints(after_steps(table, steps.drop_last())) {
            Some(observation) => before.push(observation),
            None => before,
        }
    }
}

/// Ids count up over everything a table ever mints, whatever kind it is and whatever has
/// expired, been pushed out or been let go of in between: the prefix stays, the counter
/// grows by one a mint, and the `k`th of a run has the id of its number. So no id is
/// minted twice, and a table that was valid stays so.
pub proof fn ids_count_up(table: ObservationsView, steps: Seq<Step>)
    ensures
        after_steps(table, steps).prefix == table.prefix,
        after_steps(table, steps).counter == table.counter + all_minted(table, steps).len(),
        forall|k: int|
            0 <= k < all_minted(table, steps).len() ==> (#[trigger] all_minted(table, steps)[k]).id
                == id_of(table.prefix, (table.counter + k + 1) as nat),
        forall|i: int, j: int|
            0 <= i < j < all_minted(table, steps).len() ==> (#[trigger] all_minted(
                table,
                steps,
            )[i]).id != (#[trigger] all_minted(table, steps)[j]).id,
        table.valid() ==> after_steps(table, steps).valid(),
    decreases steps.len(),
{
    if steps.len() > 0 {
        let first = steps.drop_last();
        ids_count_up(table, first);
        let before = after_steps(table, first);
        if table.valid() {
            match steps.last() {
                Step::Mint { now_ms, .. } => {
                    the_table_stays_valid(before, steps.last().mints(before)->0, now_ms);
                },
                Step::Keep { id, hash } => {
                    keeping_a_view_keeps_the_table(before, id, hash);
                },
                Step::Clear => {},
            }
        }
        let all = all_minted(table, steps);
        assert forall|i: int, j: int| 0 <= i < j < all.len() implies (#[trigger] all[i]).id != (
        #[trigger] all[j]).id by {
            if all[i].id == all[j].id {
                ids_are_their_own(
                    table.prefix,
                    (table.counter + i + 1) as nat,
                    (table.counter + j + 1) as nat,
                );
            }
        }
    }
}

/// The `n`th mint of a table made for a boot is named by that boot's four lower-case hex
/// digits, a dash, and `n`.
pub proof fn an_id_names_its_boot_and_counts_up(hash: u64, steps: Seq<Step>, n: nat)
    requires
        1 <= n <= all_minted(empty_table(hash), steps).len(),
    ensures
        all_minted(empty_table(hash), steps)[n - 1].id == text::hex4(hash as nat) + "-"@
            + text::decimal(n),
        text::hex4(hash as nat).len() == 4,
        forall|i: int| 0 <= i < 4 ==> text::is_hex(#[trigger] text::hex4(hash as nat)[i]),
        after_steps(empty_table(hash), steps).valid(),
{
    ids_count_up(empty_table(hash), steps);
    text::four_digits_are_four(hash as nat);
}

/// An observation may be addressed for the thirty seconds after it was minted, and never
/// again after that.
pub proof fn an_observation_lives_thirty_seconds(observation: ObservationView, now_ms: u64)
    requires
        observation.captured_at_monotonic_ns < 0x1_0000_0000_0000_0000 * 1_000_000,
    ensures
        observation.fresh(now_ms) <==> now_ms < observation.captured_at_monotonic_ns / 1_000_000
            + 30_000,
{
    assert(0 <= observation.captured_at_monotonic_ns as int / 1_000_000 < 0x1_0000_0000_0000_0000);
}

/// A point is inside an image exactly where the pixel it falls in is one of the image's.
pub proof fn a_point_is_inside_with_its_pixel(observation: ObservationView, x: int, y: int)
    ensures
        observation.encloses(x, y) <==> 0 <= x && 0 <= y && x / 1_000_000 < observation.sent_w && y
            / 1_000_000 < observation.sent_h,
{
}

/// What is minted is what it was minted from, part by part, under the next id and with
/// no hash yet.
pub proof fn what_is_minted_is_as_it_was_given(
    table: ObservationsView,
    kind: Kind,
    display_id: u32,
    facts: MonitorFacts,
    geometry: Geometry,
    region: Region,
    sent: (u32, u32),
    elements: Option<ElementsView>,
    now_ns: u128,
)
    ensures
        ({
            let minted = table.next_observation(
                kind,
                display_id,
                facts,
                geometry,
                region,
                sent,
                elements,
                now_ns,
            );
            &&& minted.id == id_of(table.prefix, table.counter + 1)
            &&& minted.kind == kind
            &&& minted.display_id == display_id
            &&& minted.facts == facts
            &&& minted.geometry == geometry
            &&& minted.region == region
            &&& (minted.sent_w, minted.sent_h) == sent
            &&& minted.elements == elements
            &&& minted.captured_at_monotonic_ns == now_ns
            &&& minted.view_hash is None
            &&& minted.frame_seq is Some <==> kind == Kind::Image
        }),
{
}

/// The table holds three observations at most: the one minted last at its end, and
/// before it the newest of those that had not expired, in the order they were minted in.
pub proof fn the_table_holds_the_newest_three(
    table: ObservationsView,
    observation: ObservationView,
    now_ms: u64,
)
    ensures
        ({
            let fresh = still_fresh(table.entries, now_ms);
            let entries = table.with(observation, now_ms).entries;
            &&& entries.len() == (if fresh.len() >= 2 {
                3
            } else {
                fresh.len() + 1
            })
            &&& entries.last() == observation
            &&& forall|i: int|
                0 <= i < entries.len() - 1 ==> #[trigger] entries[i] == fresh[fresh.len() - (
                entries.len() - 1) + i]
        }),
{
}

/// What had not expired when the table was swept is what may be kept, each where it
/// stood: nothing that had expired is, and nothing that had not is left out.
pub proof fn only_the_expired_are_swept(entries: Seq<ObservationView>, now_ms: u64, i: int)
    requires
        0 <= i < entries.len(),
    ensures
        entries[i].fresh(now_ms) <==> still_fresh(entries, now_ms).contains(entries[i]),
        still_fresh(entries.take(i), now_ms) + still_fresh(entries.skip(i), now_ms) == still_fresh(
            entries,
            now_ms,
        ),
{
    let keeps = |entry: ObservationView| entry.fresh(now_ms);
    let kept = still_fresh(entries, now_ms);
    if entries[i].fresh(now_ms) {
        entries.lemma_filter_contains(keeps, i);
    }
    if kept.contains(entries[i]) {
        let k = choose|k: int| 0 <= k < kept.len() && kept[k] == entries[i];
        entries.lemma_filter_pred(keeps, k);
    }
    Seq::filter_distributes_over_add(entries.take(i), entries.skip(i), keeps);
    assert(entries.take(i) + entries.skip(i) =~= entries);
}

/// Each refusal has a code of its own.
pub proof fn refusals_have_their_own_codes(a: Refusal, b: Refusal)
    ensures
        refusal_code(Refusal::Unknown) == "unknown_observation"@,
        refusal_code(Refusal::Expired) == "expired_observation"@,
        refusal_code(Refusal::Stale) == "stale_observation"@,
        a is OutsidePoint ==> refusal_code(a) == "point_outside_observation"@,
        refusal_code(a) == refusal_code(b) <==> (a is Unknown && b is Unknown) || (a is Expired
            && b is Expired) || (a is Stale && b is Stale) || (a is OutsidePoint
            && b is OutsidePoint),
{
    reveal_strlit("unknown_observation");
    reveal_strlit("expired_observation");
    reveal_strlit("stale_observation");
    reveal_strlit("point_outside_observation");
    assert("unknown_observation"@.len() == 19 && "unknown_observation"@[0] == 'u');
    assert("expired_observation"@.len() == 19 && "expired_observation"@[0] == 'e');
    assert("stale_observation"@.len() == 17);
    assert("point_outside_observation"@.len() == 25);
}

/// The two kinds have their own names.
pub proof fn kinds_have_their_own_names()
    ensures
        kind_name(Kind::Image) == "image"@,
        kind_name(Kind::Semantic) == "semantic"@,
        kind_name(Kind::Image) != kind_name(Kind::Semantic),
{
    reveal_strlit("image");
    reveal_strlit("semantic");
    assert("image"@.len() == 5);
    assert("semantic"@.len() == 8);
}

/// Two hashes tell a change exactly where they are of the same pixels of pictures of one size:
/// that there is one where the pixels differ, and that there is none where they do not.
pub proof fn a_change_is_told_between_like_views(a: ViewHash, b: ViewHash)
    ensures
        a.change(b) is Some <==> a.rect == b.rect && a.frame == b.frame,
        a.change(b) == Some(true) <==> a.rect == b.rect && a.frame == b.frame && a.pixels
            != b.pixels,
        a.change(b) == Some(false) <==> a == b,
        a.change(b) == b.change(a),
{
}

/// A point that was refused is said with the image it is not in: across before down, and
/// width before height.
pub proof fn a_point_outside_is_said(x: i64, y: i64, w: u32, h: u32)
    ensures
        ({
            let detail = refusal_detail(Refusal::OutsidePoint { x, y, w, h });
            &&& text::holds(
                detail,
                "("@ + measure::written(x as int) + ", "@ + measure::written(y as int) + ")"@,
            )
            &&& text::holds(detail, text::decimal(w as nat) + "x"@ + text::decimal(h as nat))
        }),
        text::holds(refusal_detail(Refusal::Expired), text::decimal(30)),
{
    reveal_strlit(") is not inside that image, which is ");
    reveal_strlit(")");
    let detail = refusal_detail(Refusal::OutsidePoint { x, y, w, h });
    let open = "("@ + measure::written(x as int) + ", "@ + measure::written(y as int);
    let middle = ") is not inside that image, which is "@;
    let end = " pixels; the point may have been read from a different image"@;
    let size = text::decimal(w as nat) + "x"@ + text::decimal(h as nat);
    let empty = Seq::<char>::empty();
    assert(middle =~= ")"@ + middle.skip(1));
    text::a_text_holds_its_parts(empty, open + ")"@, middle.skip(1) + size + end);
    assert(detail =~= empty + (open + ")"@) + (middle.skip(1) + size + end));
    text::a_text_holds_its_parts(open + middle, size, end);
    assert(detail =~= open + middle + size + end);
    text::a_text_holds_its_parts(
        "that image is more than "@,
        text::decimal(30),
        " seconds old; take a fresh screenshot and read the coordinates again"@,
    );
}

/// A table begins empty and counts from one: its first observation is the first of its ids,
/// and its first image the first frame.
pub proof fn a_table_counts_from_one(
    hash: u64,
    display_id: u32,
    facts: MonitorFacts,
    geometry: Geometry,
    region: Region,
    sent: (u32, u32),
    elements: Option<ElementsView>,
    now_ns: u128,
)
    ensures
        ({
            let table = empty_table(hash);
            let first = table.next_observation(
                Kind::Image,
                display_id,
                facts,
                geometry,
                region,
                sent,
                elements,
                now_ns,
            );
            &&& table.valid()
            &&& table.entries.len() == 0
            &&& first.frame_seq == Some(1u64)
            &&& first.id == text::hex4(hash as nat) + "-"@ + text::decimal(1)
        }),
{
}

} // verus!
