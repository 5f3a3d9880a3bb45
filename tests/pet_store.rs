use ecs_inheritance_patterns::pet_module::{Cat, Dog, Mammal, PetState};

fn bits(x: f64) -> u64 {
    x.to_bits()
}

fn scenario_store() -> PetState {
    let ps = PetState::new();
    let (ps, _) = Dog::create(ps, "Shippen", "gray", "schnauzer", true, bits(2.0), 42);
    let (ps, _) = Dog::create(ps, "Waterloo", "blond", "labrador", true, bits(12.0), 4);
    let (ps, _) = Cat::create(ps, "Berlioz", "black", "shorthair", true, true, false);
    ps
}

#[test]
fn shippen_waterloo_berlioz_scenario() {
    let ps = scenario_store();
    assert_eq!(ps.get_all_dogs().len(), 2);
    assert_eq!(ps.get_all_cats().len(), 1);
    let blond = ps.get_mammals_by_hair_color("blond");
    assert_eq!(blond.len(), 1);
    assert_eq!(blond[0].name(), "Waterloo");
    let mammals = ps.get_all_mammals();
    assert_eq!(mammals[2].name(), "Berlioz");
    assert!(mammals[2].is_cat());
}

#[test]
fn add_dog_round_trip() {
    let mut ps = PetState::new();
    let id = ps.add_dog(
        "Rex".to_string(),
        "brown".to_string(),
        "boxer".to_string(),
        false,
        bits(10.5),
        15,
    );
    let dogs = ps.get_all_dogs();
    assert_eq!(dogs.len(), 1);
    assert_eq!(dogs[0].pet.uuid, id);
    assert_eq!(dogs[0].pet.name, "Rex");
    assert_eq!(dogs[0].mammal.hair_color, "brown");
    assert_eq!(dogs[0].mammal.breed, "boxer");
    assert!(!dogs[0].mammal.has_hair);
    assert_eq!(f64::from_bits(dogs[0].dog_specific.tail_length_bits), 10.5);
    assert_eq!(dogs[0].dog_specific.num_commands_known, 15);
    assert!(ps.get_all_cats().is_empty());
}

#[test]
fn add_cat_round_trip() {
    let mut ps = PetState::new();
    let id = ps.add_cat(
        "Luna".to_string(),
        "gray".to_string(),
        "russian_blue".to_string(),
        true,
        false,
        true,
    );
    let cats = ps.get_all_cats();
    assert_eq!(cats.len(), 1);
    assert_eq!(cats[0].pet.uuid, id);
    assert_eq!(cats[0].pet.name, "Luna");
    assert_eq!(cats[0].mammal.hair_color, "gray");
    assert_eq!(cats[0].mammal.breed, "russian_blue");
    assert!(cats[0].mammal.has_hair);
    assert!(!cats[0].cat_specific.declawed);
    assert!(cats[0].cat_specific.sits_on_keyboard);
    assert!(ps.get_all_dogs().is_empty());
}

#[test]
fn empty_store_has_no_records() {
    let ps = PetState::default();
    assert!(ps.get_all_dogs().is_empty());
    assert!(ps.get_all_cats().is_empty());
    assert!(ps.get_all_mammals().is_empty());
    assert!(ps.get_mammals_by_hair_color("gray").is_empty());
    assert!(ps.get_dog_by_id("anything").is_none());
}

#[test]
fn mammal_count_is_dogs_plus_cats() {
    let ps = PetState::new();
    let (ps, _) = Cat::create(ps, "A", "black", "tabby", true, false, false);
    let (ps, _) = Dog::create(ps, "B", "white", "husky", true, bits(12.0), 8);
    let (ps, _) = Cat::create(ps, "C", "orange", "tabby", true, true, true);
    let (ps, _) = Dog::create(ps, "D", "brown", "beagle", true, bits(8.0), 10);
    let (ps, _) = Dog::create(ps, "E", "brown", "mutt", true, bits(9.0), 5);
    assert_eq!(
        ps.get_all_mammals().len(),
        ps.get_all_dogs().len() + ps.get_all_cats().len()
    );
    assert_eq!(ps.get_all_mammals().len(), 5);
}

#[test]
fn dogs_come_before_cats_in_creation_order() {
    let ps = PetState::new();
    let (ps, _) = Cat::create(ps, "Mittens", "white", "persian", true, false, true);
    let (ps, _) = Dog::create(ps, "Buddy", "brown", "retriever", true, bits(11.0), 15);
    let (ps, _) = Cat::create(ps, "Shadow", "black", "bombay", true, true, false);
    let (ps, _) = Dog::create(ps, "Max", "black", "poodle", true, bits(8.0), 20);
    let names: Vec<String> = ps
        .get_all_mammals()
        .iter()
        .map(|m| m.name().to_string())
        .collect();
    assert_eq!(names, vec!["Buddy", "Max", "Mittens", "Shadow"]);
    let kinds: Vec<bool> = ps.get_all_mammals().iter().map(|m| m.is_dog()).collect();
    assert_eq!(kinds, vec![true, true, false, false]);
}

#[test]
fn hair_color_filter_is_exact_and_ordered() {
    let ps = PetState::new();
    let (ps, _) = Dog::create(ps, "Goldie", "golden", "retriever", true, bits(12.0), 15);
    let (ps, _) = Cat::create(ps, "Sunny", "golden", "tabby", true, false, true);
    let (ps, _) = Cat::create(ps, "Shadow", "black", "bombay", true, false, true);
    let (ps, _) = Dog::create(ps, "Gold", "golden", "labrador", true, bits(10.0), 18);
    let (ps, _) = Dog::create(ps, "Pale", "Golden", "labrador", true, bits(10.0), 18);
    let golden = ps.get_mammals_by_hair_color("golden");
    let names: Vec<&str> = golden.iter().map(|m| m.name()).collect();
    assert_eq!(names, vec!["Goldie", "Gold", "Sunny"]);
    assert!(golden.iter().all(|m| m.hair_color() == "golden"));
    assert!(ps.get_mammals_by_hair_color("gold").is_empty());
    assert_eq!(ps.get_mammals_by_hair_color("Golden").len(), 1);
}

#[test]
fn dog_by_id_finds_only_dogs() {
    let ps = PetState::new();
    let (ps, rex) = Dog::create(ps, "Rex", "brown", "boxer", true, bits(10.0), 15);
    let (ps, tom) = Cat::create(ps, "Tom", "gray", "tabby", true, false, false);
    let (ps, fido) = Dog::create(ps, "Fido", "brown", "mutt", true, bits(9.0), 5);
    let found = ps.get_dog_by_id(&fido).expect("dog present");
    assert_eq!(found.pet.name, "Fido");
    assert_eq!(found.pet.uuid, fido);
    let expected: Vec<Dog> = ps
        .get_all_dogs()
        .into_iter()
        .filter(|d| d.pet.uuid == fido)
        .collect();
    assert_eq!(found, expected[0]);
    assert_eq!(ps.get_dog_by_id(&rex).expect("dog present").pet.name, "Rex");
    assert!(ps.get_dog_by_id(&tom).is_none());
    assert!(ps.get_dog_by_id("not-an-id").is_none());
}

#[test]
fn variant_predicates_and_narrowing() {
    let ps = scenario_store();
    let mammals = ps.get_all_mammals();
    for m in &mammals {
        assert!(m.is_dog() != m.is_cat());
        assert_eq!(m.as_dog().is_some(), m.is_dog());
        assert_eq!(m.as_cat().is_some(), m.is_cat());
    }
    assert_eq!(mammals[0].as_dog().unwrap().dog_specific.num_commands_known, 42);
    assert!(mammals[0].as_cat().is_none());
    assert!(mammals[2].as_cat().unwrap().cat_specific.declawed);
    assert!(mammals[2].as_dog().is_none());
}

#[test]
fn sounds_and_accessors() {
    let ps = PetState::new();
    let (ps, dog_id) = Dog::create(ps, "Barky", "white", "husky", true, bits(12.0), 8);
    let (ps, cat_id) = Cat::create(ps, "Meowster", "black", "bombay", true, true, false);
    let mammals = ps.get_all_mammals();
    assert_eq!(mammals[0].make_sound(), "Woof!");
    assert_eq!(mammals[1].make_sound(), "Meow!");
    assert_eq!(mammals[0].uuid(), dog_id);
    assert_eq!(mammals[1].uuid(), cat_id);
    assert_eq!(mammals[0].pet_data().name, "Barky");
    assert_eq!(mammals[1].mammal_data().breed, "bombay");
    assert_eq!(mammals[1].hair_color(), "black");
    assert_eq!(mammals[0].hair_color(), "white");
}

#[test]
fn identical_records_get_distinct_uuids() {
    let ps = PetState::new();
    let (ps, a) = Dog::create(ps, "Twin", "gray", "schnauzer", true, bits(2.0), 42);
    let (ps, b) = Dog::create(ps, "Twin", "gray", "schnauzer", true, bits(2.0), 42);
    let (ps, c) = Cat::create(ps, "Twin", "gray", "tabby", true, false, false);
    let (_ps, d) = Cat::create(ps, "Twin", "gray", "tabby", true, false, false);
    assert_ne!(a, b);
    assert_ne!(c, d);
    assert_ne!(a, c);
}

#[test]
fn uuids_are_hyphenated_and_fresh() {
    let mut ps = PetState::new();
    let id = ps.add_dog(
        "Spot".to_string(),
        "spotted".to_string(),
        "dalmatian".to_string(),
        true,
        bits(11.0),
        12,
    );
    assert_eq!(id.len(), 36);
    let hyphens: Vec<usize> = id
        .char_indices()
        .filter(|(_, ch)| *ch == '-')
        .map(|(i, _)| i)
        .collect();
    assert_eq!(hyphens, vec![8, 13, 18, 23]);
    assert!(id.chars().all(|ch| ch == '-' || ch.is_ascii_hexdigit()));
    assert_eq!(id.chars().nth(14), Some('4'));
}

#[test]
fn tail_length_keeps_every_bit() {
    let ps = PetState::new();
    let odd = 0.1f64 + 0.2f64;
    let (ps, _) = Dog::create(ps, "Precise", "red", "setter", true, bits(odd), -3);
    let dogs = ps.get_all_dogs();
    assert_eq!(dogs[0].dog_specific.tail_length_bits, odd.to_bits());
    assert_eq!(dogs[0].dog_specific.num_commands_known, -3);
}

#[test]
fn queries_return_independent_copies() {
    let ps = scenario_store();
    let mut dogs = ps.get_all_dogs();
    dogs[0].pet.name = "Changed".to_string();
    assert_eq!(ps.get_all_dogs()[0].pet.name, "Shippen");
    let m = Mammal::Cat(ps.get_all_cats()[0].clone());
    assert_eq!(m.name(), "Berlioz");
}
