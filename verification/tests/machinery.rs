use artifex::engine::Engine;
use artifex::progression::RandomProgression;

#[test]
fn basic() {
    let mut progression = RandomProgression::new();
    while let Some(position) = progression.next() {
        println!("Progression: {}%", position);
    }
}

#[test]
fn progression_is_sorted_and_ends_at_100() {
    let progression = RandomProgression::new();
    let positions: Vec<u8> = progression.positions.iter().copied().collect();
    assert!(positions.len() >= 2);
    assert!(positions.len() <= 10);
    assert_eq!(*positions.last().unwrap(), 100);
    assert!(positions.windows(2).all(|w| w[0] <= w[1]));
    assert!(positions.iter().all(|p| (1..=100).contains(p)));
    assert!(positions[..positions.len() - 1].iter().all(|p| *p <= 98));
}

#[test]
fn progression_hands_positions_out_in_order() {
    let mut progression = RandomProgression::default();
    let mut previous: u8 = 0;
    let mut count: usize = 0;
    while let Some(position) = progression.next() {
        assert!(position >= previous);
        previous = position;
        count += 1;
    }
    assert_eq!(previous, 100);
    assert!(count >= 2);
    assert!(progression.next().is_none());
}

#[test]
fn engine_inspects_the_running_machine() {
    let engine = Engine::default();
    let info = engine.inspect();
    assert!(info.is_ok());
    let info = info.unwrap();
    assert!(!info.kernel_version.is_empty());
}
