use spaceship_generator::catalog::PartCatalog;
use spaceship_generator::error::{validate_arg_count, Error};
use spaceship_generator::pipeline::run;
use spaceship_generator::ship::{draw_element, Spaceship};

const FULL_FILE: &str = "ion engine\nlight fuselage\nsmall cabin\nno wings\ntitanium armor\nlaser weapon\n";

#[test]
fn round_trip_no_wings() {
    let out = run(FULL_FILE).unwrap();
    assert_eq!(
        out,
        "A ship with:\nion engine,\nlight fuselage,\nsmall cabin,\ntitanium armor,\nweapons:\nlaser,\n"
    );
}

#[test]
fn round_trip_with_wings() {
    let contents = "ion engine\nlight fuselage\nsmall cabin\nbig wings\ntitanium armor\nlaser weapon";
    let out = run(contents).unwrap();
    assert_eq!(
        out,
        "A ship with:\nion engine,\nlight fuselage,\nsmall cabin,\nbig wings,\nbig wings,\ntitanium armor,\nweapons:\nlaser,\n"
    );
}

#[test]
fn missing_engine_is_reported() {
    let contents = "light fuselage\nsmall cabin\nno wings\ntitanium armor\nlaser weapon\n";
    match run(contents) {
        Err(Error::LackOfPartInTheFile(category)) => assert_eq!(category, "engine"),
        _ => panic!("expected LackOfPartInTheFile(\"engine\")"),
    }
}

#[test]
fn missing_other_categories_are_reported() {
    let contents = "ion engine\nsmall cabin\nno wings\ntitanium armor\nlaser weapon\n";
    match run(contents) {
        Err(Error::LackOfPartInTheFile(category)) => assert_eq!(category, "fuselage"),
        _ => panic!("expected LackOfPartInTheFile(\"fuselage\")"),
    }
    match run("") {
        Err(Error::LackOfPartInTheFile(category)) => assert_eq!(category, "engine"),
        _ => panic!("expected LackOfPartInTheFile(\"engine\")"),
    }
    let contents = "ion engine\nlight fuselage\nsmall cabin\nno wings\ntitanium armor\n";
    match run(contents) {
        Err(Error::LackOfPartInTheFile(category)) => assert_eq!(category, "weapon"),
        _ => panic!("expected LackOfPartInTheFile(\"weapon\")"),
    }
}

#[test]
fn wrong_argument_count() {
    match validate_arg_count(0) {
        Err(Error::WrongNumberOfArguments(n)) => assert_eq!(n, 0),
        _ => panic!("expected WrongNumberOfArguments(0)"),
    }
    match validate_arg_count(3) {
        Err(Error::WrongNumberOfArguments(n)) => assert_eq!(n, 3),
        _ => panic!("expected WrongNumberOfArguments(3)"),
    }
    assert!(validate_arg_count(1).is_ok());
}

#[test]
fn generated_parts_come_from_the_file() {
    let contents = "heavy ion engine\nplasma engine\nlight fuselage\nsturdy fuselage\nsmall cabin\nwide wings\ntitanium armor\nlaser weapon\nrail gun weapon\n";
    let catalog = PartCatalog::from_text(contents);
    let ship = Spaceship::generate_from_file(&catalog).unwrap();
    assert!(ship.engine == "heavy ion" || ship.engine == "plasma");
    assert_eq!(ship.fuselage, "light");
    assert_eq!(ship.cabin, "small");
    assert_eq!(ship.armor, "titanium");
    assert_eq!(ship.weapons, vec!["laser".to_string()]);
    assert_eq!(ship.small_wings.as_deref(), Some("wide"));
    assert_eq!(ship.big_wings.as_deref(), Some("wide"));
}

#[test]
fn wings_no_leaves_both_slots_empty() {
    let catalog = PartCatalog::from_text(FULL_FILE);
    let ship = Spaceship::generate_from_file(&catalog).unwrap();
    assert!(ship.small_wings.is_none());
    assert!(ship.big_wings.is_none());
}

#[test]
fn wings_value_mirrors_into_both_slots() {
    let contents = "ion engine\nlight fuselage\nsmall cabin\ndelta wings\ntitanium armor\nlaser weapon\n";
    let catalog = PartCatalog::from_text(contents);
    let ship = Spaceship::generate_from_file(&catalog).unwrap();
    assert_eq!(ship.small_wings.as_deref(), Some("delta"));
    assert_eq!(ship.big_wings.as_deref(), Some("delta"));
}

#[test]
fn engine_draw_reaches_every_candidate() {
    let contents = "ion engine\nplasma engine\nwarp engine\nlight fuselage\nsmall cabin\nno wings\ntitanium armor\nlaser weapon\n";
    let catalog = PartCatalog::from_text(contents);
    let mut seen = [false; 3];
    for _ in 0..300 {
        let ship = Spaceship::generate_from_file(&catalog).unwrap();
        match ship.engine.as_str() {
            "ion" => seen[0] = true,
            "plasma" => seen[1] = true,
            "warp" => seen[2] = true,
            other => panic!("engine not from the file: {}", other),
        }
    }
    assert!(seen[0] && seen[1] && seen[2]);
}

#[test]
fn parser_joins_tokens_and_keeps_order() {
    let contents = "heavy ion engine\nion engine\nheavy ion engine\n";
    let catalog = PartCatalog::from_text(contents);
    let engines = catalog.get_all("engine").unwrap();
    assert_eq!(engines, vec!["heavy ion".to_string(), "ion".to_string(), "heavy ion".to_string()]);
    assert_eq!(catalog.get_first("engine"), Some("heavy ion".to_string()));
    assert!(catalog.get_all("fuselage").is_none());
    assert!(catalog.get_first("fuselage").is_none());
}

#[test]
fn parser_skips_token_less_lines() {
    let contents = "\n   \nion engine\n\t\n";
    let catalog = PartCatalog::from_text(contents);
    assert_eq!(catalog.get_all("engine").unwrap(), vec!["ion".to_string()]);
    assert!(catalog.get_all("").is_none());
}

#[test]
fn parser_takes_single_token_as_key_with_empty_value() {
    let catalog = PartCatalog::from_text("engine");
    assert_eq!(catalog.get_all("engine").unwrap(), vec![String::new()]);
}

#[test]
fn parser_splits_on_runs_of_whitespace() {
    let catalog = PartCatalog::from_text("  heavy \t ion   engine \r\nlight fuselage");
    assert_eq!(catalog.get_first("engine"), Some("heavy ion".to_string()));
    assert_eq!(catalog.get_first("fuselage"), Some("light".to_string()));
}

#[test]
fn catalog_insert_appends() {
    let mut catalog = PartCatalog::new();
    assert!(catalog.get_all("engine").is_none());
    catalog.insert("engine".to_string(), "ion".to_string());
    catalog.insert("engine".to_string(), "plasma".to_string());
    assert_eq!(
        catalog.get_all("engine").unwrap(),
        vec!["ion".to_string(), "plasma".to_string()]
    );
}

#[test]
fn renderer_lists_each_weapon_or_none() {
    let ship = Spaceship {
        engine: "ion".to_string(),
        fuselage: "light".to_string(),
        cabin: "small".to_string(),
        small_wings: None,
        big_wings: None,
        armor: "titanium".to_string(),
        weapons: vec!["laser".to_string(), "rail gun".to_string()],
    };
    assert_eq!(
        ship.render(),
        "A ship with:\nion engine,\nlight fuselage,\nsmall cabin,\ntitanium armor,\nweapons:\nlaser,\nrail gun,\n"
    );
    let unarmed = Spaceship { weapons: Vec::new(), ..ship };
    assert_eq!(
        unarmed.render(),
        "A ship with:\nion engine,\nlight fuselage,\nsmall cabin,\ntitanium armor,\nweapons:\nNone\n"
    );
}

#[test]
fn draw_element_picks_a_candidate() {
    let parts = vec!["ion".to_string(), "plasma".to_string()];
    for _ in 0..50 {
        let picked = draw_element(&parts);
        assert!(parts.contains(&picked));
    }
}
