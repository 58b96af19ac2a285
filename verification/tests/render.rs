use contest_core::schedule::{usize_to_string, ContestDay, ContestDetails};

fn sample_day() -> ContestDay {
    ContestDay {
        day: 7,
        species: 42,
        version: "Emerald".to_string(),
        hints: vec!["a".to_string(), "b".to_string()],
    }
}

#[test]
fn hints_render_as_numbered_fields() {
    let fields = sample_day().hints_to_fields();
    assert_eq!(
        fields,
        vec![
            ("Hint 1".to_string(), "a".to_string(), true),
            ("Hint 2".to_string(), "b".to_string(), true),
        ]
    );
}

#[test]
fn title_names_the_day() {
    assert_eq!(sample_day().title(), "Day 7");
    let mut d = sample_day();
    d.day = 0;
    assert_eq!(d.title(), "Day 0");
    d.day = 255;
    assert_eq!(d.title(), "Day 255");
}

#[test]
fn version_field_is_not_inline() {
    assert_eq!(
        sample_day().version_field(),
        ("Version".to_string(), "Emerald".to_string(), false)
    );
}

#[test]
fn full_rendering_round_trip() {
    let fields = sample_day().render_fields();
    assert_eq!(
        fields,
        vec![
            ("Version".to_string(), "Emerald".to_string(), false),
            ("Hint 1".to_string(), "a".to_string(), true),
            ("Hint 2".to_string(), "b".to_string(), true),
        ]
    );
}

#[test]
fn tenth_hint_gets_a_two_digit_label() {
    let mut d = sample_day();
    d.hints = (0..10).map(|i| format!("h{}", i)).collect();
    let fields = d.hints_to_fields();
    assert_eq!(fields[9].0, "Hint 10");
    assert_eq!(fields[9].1, "h9");
}

#[test]
fn decimal_rendering_is_exact() {
    assert_eq!(usize_to_string(0), "0");
    assert_eq!(usize_to_string(9), "9");
    assert_eq!(usize_to_string(10), "10");
    assert_eq!(usize_to_string(255), "255");
    assert_eq!(usize_to_string(1000), "1000");
}

#[test]
fn get_day_returns_the_first_match() {
    let details = ContestDetails(vec![
        ContestDay { day: 1, species: 1, version: "first".to_string(), hints: vec![] },
        ContestDay { day: 1, species: 2, version: "second".to_string(), hints: vec![] },
        ContestDay { day: 3, species: 3, version: "third".to_string(), hints: vec![] },
    ]);
    assert_eq!(details.get_day(1).map(|d| d.version.as_str()), Some("first"));
    assert_eq!(details.get_day(3).map(|d| d.version.as_str()), Some("third"));
    assert!(details.get_day(2).is_none());
}

#[test]
fn get_last_day_is_the_maximum_key() {
    let details = ContestDetails(vec![
        ContestDay { day: 5, species: 1, version: "v".to_string(), hints: vec![] },
        ContestDay { day: 1, species: 2, version: "v".to_string(), hints: vec![] },
        ContestDay { day: 3, species: 3, version: "v".to_string(), hints: vec![] },
    ]);
    assert_eq!(details.get_last_day(), Some(5));
    assert_eq!(ContestDetails(vec![]).get_last_day(), None);
}

#[test]
fn cloned_days_keep_their_content() {
    let d = sample_day();
    let c = d.clone();
    assert_eq!(c.day, d.day);
    assert_eq!(c.species, d.species);
    assert_eq!(c.version, d.version);
    assert_eq!(c.hints, d.hints);
}
