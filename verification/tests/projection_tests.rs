use neo_trumps::neo_structs::{
    BasicNeoInfo, CloseApproachData, DiameterMinMax, EstimatedDiameter, Links, MissDistance,
    NearEarthObjects, NeoFeed, NeoLinks, NeoLookup, OrbitClass, OrbitalData, RelativeVelocity,
};
use neo_trumps::projection::{feed_link, ProjectionError};
use neo_trumps::top_trumps::TopTrumpsCounter;

fn approach(date: &str, date_full: &str, vel_kmh: &str, dist_km: &str, body: &str) -> CloseApproachData {
    CloseApproachData {
        close_approach_date: date.to_string(),
        close_approach_date_full: date_full.to_string(),
        epoch_date_close_approach: 0,
        relative_velocity: RelativeVelocity {
            kilometers_per_second: "0".to_string(),
            kilometers_per_hour: vel_kmh.to_string(),
            miles_per_hour: "0".to_string(),
        },
        miss_distance: MissDistance {
            astronomical: "0".to_string(),
            lunar: "0".to_string(),
            kilometers: dist_km.to_string(),
            miles: "0".to_string(),
        },
        orbiting_body: body.to_string(),
    }
}

fn diameters(meters_max: i64) -> EstimatedDiameter {
    EstimatedDiameter {
        kilometers: DiameterMinMax { estimated_diameter_min: 0, estimated_diameter_max: 0 },
        meters: DiameterMinMax { estimated_diameter_min: 0, estimated_diameter_max: meters_max },
        miles: DiameterMinMax { estimated_diameter_min: 0, estimated_diameter_max: 0 },
        feet: DiameterMinMax { estimated_diameter_min: 0, estimated_diameter_max: 0 },
    }
}

fn record(
    id: &str,
    name: &str,
    meters_max: i64,
    hazardous: bool,
    approaches: Vec<CloseApproachData>,
) -> BasicNeoInfo {
    BasicNeoInfo {
        links: NeoLinks { field_self: String::new() },
        id: id.to_string(),
        neo_reference_id: id.to_string(),
        name: name.to_string(),
        nasa_jpl_url: String::new(),
        absolute_magnitude_h: 20,
        estimated_diameter: diameters(meters_max),
        is_potentially_hazardous_asteroid: hazardous,
        close_approach_data: approaches,
        is_sentry_object: false,
    }
}

fn feed(element_count: i64, days: Vec<(String, Vec<BasicNeoInfo>)>) -> NeoFeed {
    NeoFeed {
        links: Links {
            next: String::new(),
            prev: String::new(),
            field_self: String::new(),
        },
        element_count,
        near_earth_objects: NearEarthObjects { days },
    }
}

fn orbital(eccentricity: &str, inclination: &str) -> OrbitalData {
    OrbitalData {
        orbit_id: String::new(),
        orbit_determination_date: String::new(),
        first_observation_date: String::new(),
        last_observation_date: String::new(),
        data_arc_in_days: 0,
        observations_used: 0,
        orbit_uncertainty: String::new(),
        minimum_orbit_intersection: String::new(),
        jupiter_tisserand_invariant: String::new(),
        epoch_osculation: String::new(),
        eccentricity: eccentricity.to_string(),
        semi_major_axis: String::new(),
        inclination: inclination.to_string(),
        ascending_node_longitude: String::new(),
        orbital_period: String::new(),
        perihelion_distance: String::new(),
        perihelion_argument: String::new(),
        aphelion_distance: String::new(),
        perihelion_time: String::new(),
        mean_anomaly: String::new(),
        mean_motion: String::new(),
        equinox: String::new(),
        orbit_class: OrbitClass {
            orbit_class_type: String::new(),
            orbit_class_description: String::new(),
            orbit_class_range: String::new(),
        },
    }
}

fn lookup(
    id: &str,
    name: &str,
    meters_max: i64,
    eccentricity: &str,
    inclination: &str,
    approaches: Vec<CloseApproachData>,
) -> NeoLookup {
    NeoLookup {
        links: NeoLinks { field_self: String::new() },
        id: id.to_string(),
        neo_reference_id: id.to_string(),
        name: name.to_string(),
        designation: String::new(),
        nasa_jpl_url: String::new(),
        absolute_magnitude_h: 20,
        estimated_diameter: diameters(meters_max),
        is_potentially_hazardous_asteroid: true,
        close_approach_data: approaches,
        orbital_data: orbital(eccentricity, inclination),
        is_sentry_object: false,
    }
}

#[test]
fn feed_entries_count_sum_of_days_in_order() {
    let day1 = vec![
        record("1", "first", 100, false, vec![approach(
            "2015-09-08",
            "2015-Sep-08 20:28",
            "1000.5",
            "2000.5",
            "Earth",
        )]),
        record("2", "second", 200, true, vec![approach(
            "2015-09-08",
            "2015-Sep-08 21:00",
            "3000.5",
            "4000.5",
            "Earth",
        )]),
    ];
    let day2 = vec![record("3", "third", 300, false, vec![approach(
        "2015-09-09",
        "2015-Sep-09 01:00",
        "5000.5",
        "6000.5",
        "Earth",
    )])];
    let f = feed(3, vec![("2015-09-08".to_string(), day1), ("2015-09-09".to_string(), day2)]);
    let details = f.into_neo_feed_details().unwrap();
    assert_eq!(details.len(), 3);
    assert_eq!(details[0].name, "first");
    assert_eq!(details[1].name, "second");
    assert_eq!(details[2].name, "third");
    assert_eq!(details[0].size, 100);
    assert_eq!(details[0].velocity, 1000);
    assert_eq!(details[0].distance, 2000);
    assert_eq!(details[0].time, "2015-Sep-08 20:28");
    assert!(!details[0].hazardous);
    assert!(details[1].hazardous);
    assert_eq!(details[2].reference_id, "3");
    assert_eq!(details[2].link, "/neo/3");
}

#[test]
fn feed_entry_keeps_first_approach_only() {
    let approaches = vec![
        approach("2015-09-08", "2015-Sep-08 20:28", "65260.5699103704", "45290298.225725659", "Earth"),
        approach("2020-01-01", "2020-Jan-01 00:00", "99999.9", "1.1", "Merc"),
    ];
    let f = feed(1, vec![("2015-09-08".to_string(), vec![record(
        "2465633",
        "465633 (2009 JR5)",
        485,
        true,
        approaches,
    )])]);
    let details = f.into_neo_feed_details().unwrap();
    assert_eq!(details.len(), 1);
    assert_eq!(details[0].velocity, 65260);
    assert_eq!(details[0].distance, 45290298);
    assert_eq!(details[0].time, "2015-Sep-08 20:28");
}

#[test]
fn feed_with_empty_approach_list_fails() {
    let good = record("1", "good", 100, false, vec![approach(
        "2015-09-08",
        "2015-Sep-08 20:28",
        "1000.5",
        "2000.5",
        "Earth",
    )]);
    let bad = record("2", "bad", 200, false, vec![]);
    let f = feed(2, vec![("2015-09-08".to_string(), vec![good, bad])]);
    assert_eq!(f.into_neo_feed_details().unwrap_err(), ProjectionError::MissingApproach);
}

#[test]
fn feed_with_malformed_velocity_fails() {
    let bad = record("2", "bad", 200, false, vec![approach(
        "2015-09-08",
        "2015-Sep-08 20:28",
        "not-a-number",
        "2000.5",
        "Earth",
    )]);
    let f = feed(1, vec![("2015-09-08".to_string(), vec![bad])]);
    assert_eq!(f.into_neo_feed_details().unwrap_err(), ProjectionError::MalformedNumber);
}

#[test]
fn empty_feed_projects_to_no_entries() {
    let f = feed(0, vec![]);
    let details = f.into_neo_feed_details().unwrap();
    assert!(details.is_empty());
}

#[test]
fn feed_link_interpolates_reference_id() {
    assert_eq!(feed_link("2465633"), "/neo/2465633");
}

#[test]
fn lookup_page_keeps_orbital_text_verbatim() {
    let l = lookup(
        "3542519",
        "(2010 PK9)",
        485,
        "0.675827388781843",
        "12.58812105676965",
        vec![approach("1900-06-01", "1900-Jun-01 16:40", "111367.5582113129", "6664518.761844655", "Merc")],
    );
    let stats = TopTrumpsCounter { fastest: 7, closest: 11, total_neos_seen: 3 };
    let page = l.into_hbs_format(stats).unwrap();
    assert_eq!(page.neo_name, "(2010 PK9)");
    assert_eq!(page.diameter, 485);
    assert!(page.hazardous);
    assert_eq!(page.eccentricity, "0.675827388781843");
    assert_eq!(page.inclination, "12.58812105676965");
    assert_eq!(page.fastest, 7);
    assert_eq!(page.closest, 11);
    assert_eq!(page.neos_seen, 3);
}

#[test]
fn lookup_page_maps_every_approach_in_order() {
    let l = lookup(
        "1",
        "one",
        10,
        "0.5",
        "1.5",
        vec![
            approach("1900-06-01", "1900-Jun-01 16:40", "100.9", "200.9", "Merc"),
            approach("2020-01-01", "2020-Jan-01 00:00", "300.9", "400.9", "Earth"),
        ],
    );
    let page = l.into_hbs_format(TopTrumpsCounter::default()).unwrap();
    assert_eq!(page.close_approach.len(), 2);
    assert_eq!(page.close_approach[0].date, "1900-06-01");
    assert_eq!(page.close_approach[0].velocity, 100);
    assert_eq!(page.close_approach[0].miss_distance, 200);
    assert_eq!(page.close_approach[0].orbiting_body, "Merc");
    assert_eq!(page.close_approach[1].date, "2020-01-01");
    assert_eq!(page.close_approach[1].velocity, 300);
    assert_eq!(page.close_approach[1].miss_distance, 400);
    assert_eq!(page.close_approach[1].orbiting_body, "Earth");
}

#[test]
fn lookup_with_malformed_distance_fails() {
    let l = lookup("1", "one", 10, "0.5", "1.5", vec![approach(
        "1900-06-01",
        "1900-Jun-01 16:40",
        "100.9",
        "12..5",
        "Merc",
    )]);
    assert_eq!(
        l.into_hbs_format(TopTrumpsCounter::default()).unwrap_err(),
        ProjectionError::MalformedNumber
    );
}

#[test]
fn lookup_with_no_approaches_projects_empty_list() {
    let l = lookup("1", "one", 10, "0.5", "1.5", vec![]);
    let page = l.into_hbs_format(TopTrumpsCounter::default()).unwrap();
    assert!(page.close_approach.is_empty());
}

#[test]
fn assemble_merges_entries_and_snapshot() {
    let stats = TopTrumpsCounter { fastest: 65260, closest: 45290298, total_neos_seen: 2 };
    let f = feed(1, vec![("2015-09-08".to_string(), vec![record(
        "2465633",
        "465633 (2009 JR5)",
        485,
        true,
        vec![approach("2015-09-08", "2015-Sep-08 20:28", "65260.57", "45290298.23", "Earth")],
    )])]);
    let entries = f.into_neo_feed_details().unwrap();
    let page = neo_trumps::projection::NeoFeedDetailsVec::assemble(entries, stats);
    assert_eq!(page.neos.len(), 1);
    assert_eq!(page.neos[0].link, "/neo/2465633");
    assert_eq!(page.fastest, 65260);
    assert_eq!(page.closest, 45290298);
    assert_eq!(page.neos_seen, 2);
}
