use sonar::logger::Level;

#[test]
fn verbosity_flags_map_to_levels() {
    assert_eq!(Level::from(0), Level::Error);
    assert_eq!(Level::from(1), Level::Warn);
    assert_eq!(Level::from(2), Level::Info);
    assert_eq!(Level::from(3), Level::Debug);
    assert_eq!(Level::from(4), Level::Trace);
    assert_eq!(Level::from(200), Level::Trace);
}
