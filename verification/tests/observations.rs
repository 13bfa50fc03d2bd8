use compux::geometry::{Geometry, MonitorFacts, Region};
use compux::observation::{Kind, Observation, Observations, Refusal, TTL_MS};

/// A clock that only moves when a test moves it.
struct TestClock {
    ms: u64,
}

fn pixels(n: f64) -> i64 {
    (n * 1_000_000.0).round() as i64
}

fn facts() -> MonitorFacts {
    MonitorFacts {
        x: 0,
        y: 0,
        width: 1512,
        height: 982,
        scale_factor: pixels(2.0),
    }
}

fn geometry() -> Geometry {
    Geometry {
        phys_w: 3024,
        phys_h: 1964,
        logical_w: pixels(1512.0),
        logical_h: pixels(982.0),
        origin_x: 0,
        origin_y: 0,
        scale_factor: pixels(2.0),
    }
}

fn table() -> Observations {
    Observations::new("boot-1234-5678")
}

fn mint(table: &mut Observations, clock: &TestClock, kind: Kind) -> Observation {
    let region = Region {
        x: 0,
        y: 0,
        w: pixels(3024.0),
        h: pixels(1964.0),
    };
    table.mint(
        kind,
        7,
        facts(),
        geometry(),
        region,
        (1366, 887),
        None,
        clock.ms,
        u128::from(clock.ms) * 1_000_000,
    )
}

#[test]
fn an_id_names_its_boot_and_counts_up() {
    let clock = TestClock { ms: 0 };
    let mut table = table();

    let first = mint(&mut table, &clock, Kind::Image);
    let second = mint(&mut table, &clock, Kind::Image);

    let (prefix, counter) = first.id.split_once('-').expect("prefix-counter");
    assert_eq!(prefix.len(), 4, "{}", first.id);
    assert_eq!(counter, "1");
    assert_eq!(second.id, format!("{prefix}-2"));

    // A different boot mints a different prefix, so an id from a helper that
    // died can never resolve in its successor.
    let mut successor = Observations::new("boot-1234-9999");
    let after_restart = mint(&mut successor, &clock, Kind::Image);
    assert_ne!(
        after_restart.id.split_once('-').unwrap().0,
        prefix,
        "two boots must not share a prefix"
    );
    assert_eq!(
        successor.resolve(&first.id, clock.ms),
        Err(Refusal::Unknown)
    );
}

#[test]
fn only_images_carry_a_frame_sequence() {
    let clock = TestClock { ms: 0 };
    let mut table = table();

    assert_eq!(mint(&mut table, &clock, Kind::Image).frame_seq, Some(1));
    assert_eq!(mint(&mut table, &clock, Kind::Semantic).frame_seq, None);
    assert_eq!(mint(&mut table, &clock, Kind::Image).frame_seq, Some(2));
}

#[test]
fn the_oldest_goes_out_when_a_fourth_arrives() {
    let clock = TestClock { ms: 0 };
    let mut table = table();

    let first = mint(&mut table, &clock, Kind::Image);
    let second = mint(&mut table, &clock, Kind::Image);
    mint(&mut table, &clock, Kind::Image);
    assert!(table.resolve(&first.id, clock.ms).is_ok());

    mint(&mut table, &clock, Kind::Image);
    assert_eq!(table.resolve(&first.id, clock.ms), Err(Refusal::Unknown));
    assert!(
        table.resolve(&second.id, clock.ms).is_ok(),
        "the newer three stay"
    );
}

#[test]
fn an_observation_expires_on_the_clock_not_on_a_sleep() {
    let mut clock = TestClock { ms: 0 };
    let mut table = table();
    let observation = mint(&mut table, &clock, Kind::Image);

    clock.ms += TTL_MS - 1;
    assert!(
        table.resolve(&observation.id, clock.ms).is_ok(),
        "just inside"
    );

    clock.ms += 1;
    assert_eq!(
        table.resolve(&observation.id, clock.ms),
        Err(Refusal::Expired)
    );
}

#[test]
fn an_expired_entry_does_not_cost_a_slot() {
    let mut clock = TestClock { ms: 0 };
    let mut table = table();
    let old = mint(&mut table, &clock, Kind::Image);
    clock.ms = TTL_MS;
    let fresh = mint(&mut table, &clock, Kind::Image);
    assert_eq!(table.resolve(&old.id, clock.ms), Err(Refusal::Unknown));
    assert_eq!(table.resolve(&fresh.id, clock.ms), Ok(&fresh));
}

#[test]
fn a_cleared_table_names_nothing_and_never_reuses_an_id() {
    let clock = TestClock { ms: 0 };
    let mut table = table();
    let first = mint(&mut table, &clock, Kind::Image);
    table.clear();
    assert_eq!(table.resolve(&first.id, clock.ms), Err(Refusal::Unknown));
    assert_ne!(mint(&mut table, &clock, Kind::Image).id, first.id);
}

#[test]
fn a_made_up_id_is_unknown_and_says_what_to_do() {
    let table = table();

    assert_eq!(table.resolve("nope-1", 0), Err(Refusal::Unknown));
    assert_eq!(Refusal::Unknown.code(), "unknown_observation");
    assert!(Refusal::Unknown.detail().contains("fresh screenshot"));
    assert!(Refusal::Expired.detail().contains("30 seconds"));
    assert_eq!(Refusal::Expired.code(), "expired_observation");
    assert_eq!(Refusal::Stale.code(), "stale_observation");
    assert_eq!(Refusal::Stale.detail(), "geometry_changed");
}

// The display moving is the one thing the stored transform cannot survive.
#[test]
fn a_display_that_moved_or_changed_mode_no_longer_matches() {
    let clock = TestClock { ms: 0 };
    let mut table = table();
    let observation = mint(&mut table, &clock, Kind::Image);

    assert!(observation.matches_display(7, &facts()));
    assert!(!observation.matches_display(8, &facts()), "another display");

    for changed in [
        MonitorFacts { x: 1512, ..facts() },
        MonitorFacts {
            width: 1728,
            ..facts()
        },
        MonitorFacts {
            scale_factor: pixels(1.0),
            ..facts()
        },
    ] {
        assert!(
            !observation.matches_display(7, &changed),
            "{changed:?} must not pass for {:?}",
            facts()
        );
    }
}

// A point past the edge is a reading error, never clamped.
#[test]
fn a_point_outside_the_image_is_refused_with_the_size_it_should_have_been_in() {
    let clock = TestClock { ms: 0 };
    let mut table = table();
    let observation = mint(&mut table, &clock, Kind::Image);

    assert!(observation.contains(pixels(0.0), pixels(0.0)).is_ok());
    assert!(observation.contains(pixels(1365.0), pixels(886.0)).is_ok());

    let refusal = observation
        .contains(pixels(1366.0), pixels(10.0))
        .expect_err("past the right edge");
    assert_eq!(refusal.code(), "point_outside_observation");
    assert!(
        refusal.detail().contains("1366x887"),
        "{}",
        refusal.detail()
    );
    assert!(
        refusal
            .detail()
            .starts_with("(1366, 10) is not inside that image"),
        "{}",
        refusal.detail()
    );

    assert!(observation.contains(pixels(-1.0), pixels(10.0)).is_err());
    assert!(observation.contains(pixels(10.0), pixels(887.0)).is_err());

    let between = observation
        .contains(pixels(-0.25), pixels(1366.5))
        .expect_err("outside");
    assert!(
        between.detail().starts_with("(-0.25, 1366.5) is not"),
        "{}",
        between.detail()
    );
}

#[test]
fn a_kind_has_its_own_name() {
    assert_eq!(Kind::Image.as_str(), "image");
    assert_eq!(Kind::Semantic.as_str(), "semantic");
}

// Whatever kind is minted and whatever goes in between, ids count up and none comes twice.
#[test]
fn no_id_is_ever_minted_twice() {
    let mut table = Observations::keyed(0x1_00af);
    let mut clock = TestClock { ms: 0 };
    let mut ids = Vec::new();
    for n in 1..=12u64 {
        let kind = if n % 3 == 0 { Kind::Semantic } else { Kind::Image };
        let minted = mint(&mut table, &clock, kind);
        assert_eq!(minted.id, format!("00af-{n}"));
        assert!(!ids.contains(&minted.id));
        ids.push(minted.id);
        clock.ms += TTL_MS / 2;
        if n == 7 {
            table.clear();
        }
    }
}
