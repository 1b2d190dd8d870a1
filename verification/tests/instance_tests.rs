//! Progress-state and lesson-table behavior on concrete values.

use helixir::instance::{
    check_helix_init, create_default_instance_data, get_city_id_by_name, get_completed_lessons,
    get_current_lesson, get_latest_entity_id, is_lesson_completed, mark_lesson_completed,
    resolve_entity_id, save_created_entity, save_current_lesson, EntityRecord, EntityType,
};
use helixir::lesson_types::{
    capital_edge_matches, city_result_matches, continent_result_matches, AddCapitalResult,
    AddCityInput, AddCityResult, AddContinentInput, AddContinentResult, CapitalEdgeData, CityData,
    ContinentData,
};
use helixir::lessons::get_lesson;

fn rec(id: &str, name: &str) -> EntityRecord {
    EntityRecord { id: id.to_string(), name: name.to_string() }
}

#[test]
fn default_instance_is_empty() {
    let d = create_default_instance_data();
    assert_eq!(get_current_lesson(&d), 0);
    assert!(get_completed_lessons(&d).is_empty());
    assert_eq!(get_latest_entity_id(&d, "continents"), None);
}

#[test]
fn latest_entity_id_takes_newest() {
    let mut d = create_default_instance_data();
    save_created_entity(&mut d, "continents", rec("c1", "Europe")).unwrap();
    save_created_entity(&mut d, "continents", rec("c2", "Asia")).unwrap();
    save_created_entity(&mut d, "countries", rec("k1", "France")).unwrap();
    assert_eq!(get_latest_entity_id(&d, "continents"), Some("c2".to_string()));
    assert_eq!(get_latest_entity_id(&d, "countries"), Some("k1".to_string()));
    assert_eq!(get_latest_entity_id(&d, "cities"), None);
    assert_eq!(get_latest_entity_id(&d, "oceans"), None);
}

#[test]
fn save_created_entity_rejects_unknown_kind() {
    let mut d = create_default_instance_data();
    let r = save_created_entity(&mut d, "oceans", rec("o1", "Atlantic"));
    assert_eq!(r.unwrap_err(), "Invalid entity type: oceans");
    assert!(d.continents.is_empty());
}

#[test]
fn lesson_progress_round_trip() {
    let mut d = create_default_instance_data();
    save_current_lesson(&mut d, 7);
    assert_eq!(get_current_lesson(&d), 7);
    mark_lesson_completed(&mut d, 3);
    mark_lesson_completed(&mut d, 1);
    mark_lesson_completed(&mut d, 3);
    mark_lesson_completed(&mut d, 2);
    assert_eq!(get_completed_lessons(&d), vec![1, 2, 3]);
    assert!(is_lesson_completed(&d, 2));
    assert!(!is_lesson_completed(&d, 4));
}

#[test]
fn resolve_named_placeholders() {
    let mut d = create_default_instance_data();
    save_created_entity(&mut d, "continents", rec("c1", "Europe")).unwrap();
    save_created_entity(&mut d, "cities", rec("x1", "London")).unwrap();
    save_created_entity(&mut d, "cities", rec("x2", "Berlin")).unwrap();
    assert_eq!(
        resolve_entity_id(&d, "europe_continent_id", "continents"),
        Ok("c1".to_string())
    );
    assert_eq!(
        resolve_entity_id(&d, "berlin_city_id", "cities"),
        Ok("x2".to_string())
    );
    assert_eq!(
        resolve_entity_id(&d, "uk_country_id", "countries"),
        Err("United Kingdom not found in instance data".to_string())
    );
    assert_eq!(
        resolve_entity_id(&d, "ID", "cities"),
        Ok("x2".to_string())
    );
    assert_eq!(
        resolve_entity_id(&d, "ID", "countries"),
        Err("No countries found. Please create one first.".to_string())
    );
    assert_eq!(
        resolve_entity_id(&d, "whatever", "countries"),
        Err("No countries found for placeholder 'whatever'".to_string())
    );
    assert_eq!(get_city_id_by_name(&d, "London"), Some("x1".to_string()));
    assert_eq!(get_city_id_by_name(&d, "Paris"), None);
}

#[test]
fn entity_type_tables() {
    assert_eq!(EntityType::Continent.storage_key(), "continents");
    assert_eq!(EntityType::Country.storage_key(), "countries");
    assert_eq!(EntityType::City.storage_key(), "cities");
    assert_eq!(EntityType::Country.id_field(), "country_id");
    assert!(EntityType::City.dependency_error().contains("lesson 7"));
}

#[test]
fn check_helix_init_needs_both_files() {
    assert!(check_helix_init(true, true));
    assert!(!check_helix_init(true, false));
    assert!(!check_helix_init(false, true));
    assert!(!check_helix_init(false, false));
}

#[test]
fn lesson_table_ids_and_query_names() {
    for id in 0..30usize {
        let l = get_lesson(id);
        assert_eq!(l.id, id);
        assert_eq!(l.query_name.is_some(), (5..=24).contains(&id));
        assert!(!l.hints.is_empty());
    }
    assert_eq!(get_lesson(5).query_name.unwrap(), vec!["createContinent".to_string()]);
    assert_eq!(get_lesson(99).title, "Lesson Not Found");
}

#[test]
fn creation_reply_decisions() {
    let input = AddContinentInput { name: "Europe".to_string() };
    let good = AddContinentResult {
        continent: ContinentData { id: "c1".to_string(), name: "Europe".to_string() },
    };
    let bad = AddContinentResult {
        continent: ContinentData { id: "c1".to_string(), name: "Asia".to_string() },
    };
    assert!(continent_result_matches(&input, &good));
    assert!(!continent_result_matches(&input, &bad));

    let city_input = AddCityInput {
        country_id: "k1".to_string(),
        name: "Paris".to_string(),
        description: "capital".to_string(),
    };
    let city_good = AddCityResult {
        city: CityData {
            id: "x1".to_string(),
            name: "Paris".to_string(),
            description: "capital".to_string(),
        },
    };
    assert!(city_result_matches(&city_input, &city_good));

    let edge = AddCapitalResult {
        country_capital: CapitalEdgeData {
            id: "e1".to_string(),
            from_node: "k1".to_string(),
            to_node: "x1".to_string(),
            label: "Country_to_Capital".to_string(),
        },
    };
    assert!(capital_edge_matches(&edge, "k1", "x1"));
    assert!(!capital_edge_matches(&edge, "k1", "x2"));
}
