//! Tests for the raw-record sanitizer, the classification tables, and the
//! dataset lookups.

use chemistru_elements::atomic::AtomicData;
use chemistru_elements::physical::Phase;
use chemistru_elements::raw::RawElement;
use chemistru_elements::table::Category;
use chemistru_elements::utils::ElementTable;
use chemistru_elements::DataError;

/// A well-formed raw record for tests, varying only where a test cares.
fn raw(name: &str, symbol: &str, number: u8, mass: f64, config: &str) -> RawElement {
    RawElement {
        name: name.to_string(),
        appearance: None,
        atomic_mass: mass.to_bits(),
        atomic_mass_floor: mass.floor() as u16,
        boil: None,
        category: "diatomic nonmetal".to_string(),
        density: None,
        discovered_by: None,
        melt: None,
        molar_heat: None,
        named_by: None,
        number,
        period: 1,
        phase: "Gas".to_string(),
        source: "https://en.wikipedia.org/wiki/Chemical_element".to_string(),
        spectral_img: None,
        summary: String::new(),
        symbol: symbol.to_string(),
        xpos: 1,
        ypos: 1,
        shells: vec![1],
        electron_configuration: config.to_string(),
        electron_configuration_semantic: config.to_string(),
        electron_affinity: None,
        electronegativity_pauling: None,
        ionization_energies: Vec::new(),
        cpk_hex: None,
    }
}

fn small_table() -> ElementTable {
    let records = vec![
        raw("Hydrogen", "H", 1, 1.008, "1s1"),
        raw("Helium", "He", 2, 4.0026, "1s2"),
        raw("Aluminium", "Al", 3, 26.98, "1s2 2s2 2p6 3s2 3p1"),
        raw("Sulfur", "S", 4, 32.06, "1s2 2s2 2p6 3s2 3p4"),
        raw("Cesium", "Cs", 5, 132.9, "1s2 2s2 2p6 3s2 3p6 4s2 3d10 4p6 5s2 4d10 5p6 6s1"),
    ];
    ElementTable::from_raw(records).expect("records are well formed")
}

#[test]
fn test_getting_elements_by_atomic_number() {
    let table = small_table();

    let hydrogen = table.element_from_atomic_number(1);
    let helium = table.element_from_atomic_number(2);

    assert_eq!(
        hydrogen.expect("We know this exists").name().to_lowercase(),
        "hydrogen"
    );
    assert_eq!(
        helium.expect("We know this exists").name().to_lowercase(),
        "helium"
    );
}

#[test]
fn test_getting_elements_by_name() {
    let table = small_table();

    let hydrogen = table.element_from_name("hydrogen");
    let helium = table.element_from_name("helium");

    assert_eq!(
        hydrogen
            .expect("We know this exists")
            .atomic_data
            .atomic_number,
        1
    );
    assert_eq!(
        helium
            .expect("We know this exists")
            .atomic_data
            .atomic_number,
        2
    );
}

#[test]
fn atomic_number_zero_and_beyond_range_are_not_found() {
    let table = small_table();
    assert!(table.element_from_atomic_number(0).is_none());
    assert!(table.element_from_atomic_number(6).is_none());
    assert!(table.element_from_atomic_number(200).is_none());
}

#[test]
fn name_lookup_is_case_insensitive() {
    let table = small_table();
    let a = table.element_from_name("CaEsIuM").expect("known spelling");
    let b = table.element_from_name("cesium").expect("canonical name");
    assert_eq!(a, b);
    assert_eq!(a.symbol().as_str(), "Cs");
}

#[test]
fn name_lookup_accepts_alternate_spellings() {
    let table = small_table();
    let al1 = table.element_from_name("aluminum").expect("alternate spelling");
    let al2 = table.element_from_name("aluminium").expect("canonical name");
    assert_eq!(al1, al2);
    let s1 = table.element_from_name("sulphur").expect("alternate spelling");
    let s2 = table.element_from_name("sulfur").expect("canonical name");
    assert_eq!(s1, s2);
}

#[test]
fn name_lookup_misses_unknown_names() {
    let table = small_table();
    assert!(table.element_from_name("unobtainium").is_none());
    assert!(table.element_from_name("").is_none());
}

#[test]
fn phase_names_map_case_sensitively() {
    assert_eq!(Phase::from_name("Solid"), Ok(Phase::Solid));
    assert_eq!(Phase::from_name("Liquid"), Ok(Phase::Liquid));
    assert_eq!(Phase::from_name("Gas"), Ok(Phase::Gas));
    assert_eq!(Phase::from_name("solid"), Err(DataError::UnrecognizedPhase));
    assert_eq!(Phase::from_name("Plasma"), Err(DataError::UnrecognizedPhase));
}

#[test]
fn category_names_map_by_substring() {
    assert_eq!(
        Category::from_name("diatomic nonmetal"),
        Ok(Category::DiatomicNonmetal)
    );
    assert_eq!(Category::from_name("Noble Gas"), Ok(Category::NobleGas));
    assert_eq!(
        Category::from_name("probably a metalloid"),
        Ok(Category::Metalloid)
    );
    assert_eq!(Category::from_name("actinide"), Ok(Category::Actinide));
}

#[test]
fn post_transition_metal_wins_over_transition_metal() {
    // "transition metal" is a substring of "post-transition metal"; the
    // fixed enumeration order must keep the two apart.
    assert_eq!(
        Category::from_name("post-transition metal"),
        Ok(Category::PostTransitionMetal)
    );
    assert_eq!(
        Category::from_name("transition metal"),
        Ok(Category::TransitionMetal)
    );
}

#[test]
fn unknown_category_carries_prediction() {
    assert_eq!(
        Category::from_name("unknown (predicted to be a transition metal)"),
        Ok(Category::Unknown(Some(Box::new(Category::TransitionMetal))))
    );
    assert_eq!(
        Category::from_name("unknown, probably a post-transition metal"),
        Ok(Category::Unknown(Some(Box::new(
            Category::PostTransitionMetal
        ))))
    );
}

#[test]
fn unknown_category_without_known_substring_fails() {
    assert_eq!(
        Category::from_name("unknown (no further guess)"),
        Err(DataError::UnrecognizedCategory)
    );
    assert_eq!(
        Category::from_name("something else entirely"),
        Err(DataError::UnrecognizedCategory)
    );
}

#[test]
fn sanitise_carries_every_field_over() {
    let mut rec = raw("Hydrogen", "H", 1, 1.008, "1s1");
    rec.appearance = Some("colorless gas".to_string());
    rec.boil = Some(20.271f64.to_bits());
    rec.melt = Some(13.99f64.to_bits());
    rec.density = Some(0.08988f64.to_bits());
    rec.molar_heat = Some(28.836f64.to_bits());
    rec.discovered_by = Some("Henry Cavendish".to_string());
    rec.named_by = Some("Antoine Lavoisier".to_string());
    rec.electron_affinity = Some(72.769f64.to_bits());
    rec.electronegativity_pauling = Some(2.2f64.to_bits());
    rec.ionization_energies = vec![1312.0f64.to_bits()];
    rec.cpk_hex = Some("ffffff".to_string());
    rec.xpos = 1;
    rec.ypos = 1;
    rec.shells = vec![1];

    let e = rec.sanitise().expect("record is well formed");
    assert_eq!(e.name().as_str(), "Hydrogen");
    assert_eq!(e.symbol().as_str(), "H");
    assert_eq!(e.atomic_data().proton_count(), 1);
    assert_eq!(e.atomic_data().nucleon_count(), 1);
    assert_eq!(e.atomic_data().neutron_count(), 0);
    assert_eq!(e.atomic_data().atomic_mass(), 1.008f64.to_bits());
    assert_eq!(e.physical_data().phase_in_standard_conditions(), Phase::Gas);
    assert_eq!(e.physical_data().boiling_point(), Some(20.271f64.to_bits()));
    assert_eq!(e.physical_data().melting_point(), Some(13.99f64.to_bits()));
    assert_eq!(e.physical_data().density(), Some(0.08988f64.to_bits()));
    assert_eq!(
        e.physical_data().molar_heat_capacity(),
        Some(28.836f64.to_bits())
    );
    assert_eq!(e.electron_data().configuration().format(true), "1s1");
    assert_eq!(e.electron_data().electron_affinity(), Some(72.769f64.to_bits()));
    assert_eq!(
        e.electron_data().electronegativity(),
        Some(2.2f64.to_bits())
    );
    assert_eq!(
        e.electron_data().ionization_energies(),
        Some(&vec![1312.0f64.to_bits()])
    );
    assert_eq!(e.electron_data().shells(), &vec![1]);
    assert_eq!(e.table_data().group(), 1);
    assert_eq!(e.table_data().period(), 1);
    assert_eq!(e.table_data().category(), &Category::DiatomicNonmetal);
    assert_eq!(e.misc_data().appearance(), Some(&"colorless gas".to_string()));
    assert_eq!(
        e.misc_data().discovered_by(),
        Some(&"Henry Cavendish".to_string())
    );
    assert_eq!(
        e.misc_data().named_by(),
        Some(&"Antoine Lavoisier".to_string())
    );
    assert_eq!(e.misc_data().spectral_image_url(), None);
    assert_eq!(
        e.misc_data().source().as_str(),
        "https://en.wikipedia.org/wiki/Chemical_element"
    );
    assert_eq!(e.misc_data().cpk_color(), Some(&"ffffff".to_string()));
}

#[test]
fn sanitise_normalizes_empty_ionization_energies_to_absent() {
    let rec = raw("Hydrogen", "H", 1, 1.008, "1s1");
    let e = rec.sanitise().expect("record is well formed");
    assert_eq!(e.electron_data().ionization_energies(), None);
}

#[test]
fn sanitise_takes_mass_number_from_the_mass_floor() {
    let rec = raw("Helium", "He", 2, 4.0026, "1s2");
    let e = rec.sanitise().expect("record is well formed");
    assert_eq!(e.atomic_data().nucleon_count(), 4);
    assert_eq!(e.atomic_data().neutron_count(), 2);
}

#[test]
fn sanitise_fails_on_unrecognized_phase() {
    let mut rec = raw("Hydrogen", "H", 1, 1.008, "1s1");
    rec.phase = "Plasma".to_string();
    assert_eq!(rec.sanitise(), Err(DataError::UnrecognizedPhase));
}

#[test]
fn sanitise_fails_on_malformed_configuration() {
    let mut rec = raw("Hydrogen", "H", 1, 1.008, "1s1");
    rec.electron_configuration = "1q1".to_string();
    assert_eq!(
        rec.sanitise(),
        Err(DataError::MalformedConfiguration("1q1".to_string()))
    );
}

#[test]
fn sanitise_fails_on_unrecognized_category() {
    let mut rec = raw("Hydrogen", "H", 1, 1.008, "1s1");
    rec.category = "mystery stuff".to_string();
    assert_eq!(rec.sanitise(), Err(DataError::UnrecognizedCategory));
}

#[test]
fn from_raw_fails_on_the_first_bad_record() {
    let mut bad = raw("Helium", "He", 2, 4.0026, "1s2");
    bad.phase = "Mist".to_string();
    let records = vec![raw("Hydrogen", "H", 1, 1.008, "1s1"), bad];
    assert!(matches!(
        ElementTable::from_raw(records),
        Err(DataError::UnrecognizedPhase)
    ));
}

#[test]
fn atomic_data_counts_nucleons() {
    let a = AtomicData::new(238.02891f64.to_bits(), 92, 238);
    assert_eq!(a.proton_count(), 92);
    assert_eq!(a.nucleon_count(), 238);
    assert_eq!(a.neutron_count(), 146);
    assert_eq!(a.atomic_mass(), 238.02891f64.to_bits());
}

#[test]
fn table_len_counts_loaded_elements() {
    let table = small_table();
    assert_eq!(table.len(), 5);
}
