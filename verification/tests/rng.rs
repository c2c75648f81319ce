use riverborn::rng::Rng;

#[test]
fn the_generator_is_splitmix64() {
    let mut r = Rng::new(1234567);
    let drawn: Vec<u64> = (0..5).map(|_| r.next_u64()).collect();
    assert_eq!(
        drawn,
        vec![
            6457827717110365317,
            3203168211198807973,
            9817491932198370423,
            4593380528125082431,
            16408922859458223821,
        ]
    );
}

#[test]
fn a_shuffle_keeps_the_items() {
    let mut items: Vec<u32> = (0..50).collect();
    let mut rng = Rng::new(9);
    rng.shuffle(&mut items);
    assert_ne!(items, (0..50).collect::<Vec<u32>>());
    items.sort();
    assert_eq!(items, (0..50).collect::<Vec<u32>>());
    let mut none: Vec<u32> = vec![];
    rng.shuffle(&mut none);
    assert!(none.is_empty());
}

#[test]
fn equal_seeds_shuffle_equally() {
    let shuffled = |seed: u64| {
        let mut items: Vec<u32> = (0..20).collect();
        Rng::new(seed).shuffle(&mut items);
        items
    };
    assert_eq!(shuffled(3), shuffled(3));
    assert_ne!(shuffled(3), shuffled(4));
}
