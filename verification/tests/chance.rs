use lazy_archdemon::audio::AudioLibrary;
use lazy_archdemon::utils::{get_random_from_iter, pick};

#[test]
fn nothing_to_pick_from() {
    let items: Vec<u32> = Vec::new();
    assert_eq!(get_random_from_iter(&items), None);
    assert_eq!(pick(&items, 0), None);
}

#[test]
fn the_only_item_is_picked() {
    for _ in 0..50 {
        assert_eq!(get_random_from_iter(&vec![17u32]), Some(&17));
    }
}

#[test]
fn one_of_the_items_is_picked() {
    let items: Vec<u32> = vec![3, 1, 4, 1, 5, 9, 2, 6];
    for _ in 0..500 {
        let got = get_random_from_iter(&items).unwrap();
        assert!(items.contains(got));
    }
}

#[test]
fn every_item_is_picked_sooner_or_later() {
    let items: Vec<usize> = (0..6).collect();
    let mut seen = [0u32; 6];
    for _ in 0..3000 {
        seen[*get_random_from_iter(&items).unwrap()] += 1;
    }
    for count in seen {
        assert!(count > 0);
    }
}

#[test]
fn of_two_items_both_are_picked() {
    let items = vec!['a', 'b'];
    let mut first = 0;
    let mut second = 0;
    for _ in 0..400 {
        match get_random_from_iter(&items) {
            Some('a') => first += 1,
            Some('b') => second += 1,
            other => panic!("picked {:?}", other),
        }
    }
    assert!(first > 0 && second > 0);
}

#[test]
fn the_roll_picks_the_item() {
    let items = vec!["one", "two", "three"];
    assert_eq!(pick(&items, 0), Some(&"one"));
    assert_eq!(pick(&items, 2), Some(&"three"));
    assert_eq!(pick(&items, 3), None);
    assert_eq!(pick(&items, usize::MAX), None);
}

#[test]
fn sounds_and_their_files() {
    assert_eq!(AudioLibrary::default(), AudioLibrary::Arrow);
    assert_eq!(AudioLibrary::Arrow.recording(true), "audio/shoot_bow_01.ogg");
    assert_eq!(AudioLibrary::Arrow.recording(false), "audio/shoot_bow_02.ogg");
    assert_eq!(AudioLibrary::Cannon.recording(true), "audio/cannon_01.ogg");
    assert_eq!(AudioLibrary::Cannon.recording(false), "audio/cannon_01.ogg");
}

#[test]
fn the_cannon_has_one_recording() {
    for _ in 0..20 {
        assert_eq!(AudioLibrary::Cannon.path(), "audio/cannon_01.ogg");
    }
}

#[test]
fn the_bow_has_two_recordings() {
    let mut first = 0;
    let mut second = 0;
    for _ in 0..400 {
        match AudioLibrary::Arrow.path() {
            "audio/shoot_bow_01.ogg" => first += 1,
            "audio/shoot_bow_02.ogg" => second += 1,
            other => panic!("played {}", other),
        }
    }
    assert!(first > 0 && second > 0);
}
