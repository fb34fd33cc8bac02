use gapix_core::geocoding::{
    country_from_fields, describe_place, get_admin1_code, get_admin2_code, get_country, CodeTable,
    Continent, Country, GeocodingOptions, Place,
};

fn countries() -> CodeTable<Country> {
    let mut table = CodeTable::new();
    for (iso, name, continent) in [
        ("GB", "United Kingdom", "EU"),
        ("DK", "Denmark", "EU"),
        ("US", "United States", "NA"),
    ] {
        let country = country_from_fields(iso, name, continent).unwrap();
        table.insert(iso.to_string(), country);
    }
    table
}

fn admin_codes(entries: &[(&str, &str)]) -> CodeTable<String> {
    let mut table = CodeTable::new();
    for (key, name) in entries {
        table.insert(key.to_string(), name.to_string());
    }
    table
}

#[test]
fn test_get_country() {
    let table = countries();
    let result = get_country(&table, "DK").unwrap();
    assert_eq!(result.name, "Denmark");
    assert_eq!(result.continent, Continent::Europe);
}

#[test]
fn test_get_admin1_code() {
    let table = admin_codes(&[("GB.ENG", "England"), ("GB.SCT", "Scotland")]);
    let result = get_admin1_code(&table, "GB.ENG").unwrap();
    assert_eq!(result, "England");
}

#[test]
fn test_get_admin2_code() {
    let table = admin_codes(&[("GB.ENG.J9", "Nottinghamshire"), ("GB.ENG.J8", "Norfolk")]);
    let result = get_admin2_code(&table, "GB.ENG.J9").unwrap();
    assert_eq!(result, "Nottinghamshire");
}

#[test]
fn unknown_codes_are_not_found() {
    let table = countries();
    assert!(get_country(&table, "ZZ").is_none());
    assert!(get_country(&table, "dk").is_none());
    let codes = admin_codes(&[("GB.ENG", "England")]);
    assert!(get_admin1_code(&codes, "GB").is_none());
    assert!(get_admin2_code(&codes, "GB.ENG.J9").is_none());
}

#[test]
fn later_entry_replaces_earlier_one() {
    let mut codes = admin_codes(&[("GB.ENG", "England")]);
    codes.insert("GB.ENG".to_string(), "Angleterre".to_string());
    assert_eq!(codes.len(), 2);
    assert_eq!(get_admin1_code(&codes, "GB.ENG").unwrap(), "Angleterre");
}

#[test]
fn continent_codes_round_trip() {
    for continent in [
        Continent::Africa,
        Continent::Asia,
        Continent::Europe,
        Continent::NorthAmerica,
        Continent::Oceania,
        Continent::SouthAmerica,
        Continent::Antarctica,
    ] {
        assert_eq!(Continent::from_code(continent.as_str()), Some(continent));
    }
    assert_eq!(Continent::Antarctica.as_str(), "AN");
    assert_eq!(Continent::from_code("an"), None);
    assert_eq!(Continent::from_code(""), None);
}

#[test]
fn incomplete_country_lines_make_no_country() {
    assert!(country_from_fields("", "Denmark", "EU").is_none());
    assert!(country_from_fields("DK", "", "EU").is_none());
    assert!(country_from_fields("DK", "Denmark", "").is_none());
    assert!(country_from_fields("DK", "Denmark", "XX").is_none());
}

#[test]
fn geocoding_is_disabled_until_the_folder_exists() {
    let mut options = GeocodingOptions::new(
        Some(std::path::PathBuf::from("data")),
        vec!["GB".to_string(), "FR".to_string()],
        false,
    );
    assert!(options.disable_geocoding());
    options.download_folder_exists = true;
    assert!(!options.disable_geocoding());
    assert!(options.include_country("FR"));
    assert!(!options.include_country("DE"));
    assert_eq!(
        options.get_output_path("GB.zip"),
        std::path::PathBuf::from("data").join("GB.zip")
    );
    let none = GeocodingOptions::new(Some(std::path::PathBuf::from("data")), vec![], true);
    assert!(none.disable_geocoding());
}

#[test]
fn place_is_described_with_its_subdivision() {
    let codes = admin_codes(&[("GB.ENG.J9", "Nottinghamshire")]);
    let place = |admin2: &str| Place {
        name: "Newark".to_string(),
        lat: 530_700_000,
        lon: -8_000_000,
        iso_code: "GB".to_string(),
        admin1: "ENG".to_string(),
        admin2: admin2.to_string(),
    };
    assert_eq!(describe_place(&place("J9"), &codes), "Newark, Nottinghamshire");
    assert_eq!(describe_place(&place("ZZ"), &codes), "Newark");
}
