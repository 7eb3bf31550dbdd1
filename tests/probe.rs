use iai::probe::clock_text;

#[test]
fn clock_from_model_name() {
    let text = "processor\t: 0\nvendor_id\t: GenuineIntel\nmodel name\t: Intel(R) Core(TM) i7-4790 CPU @ 3.60GHz\r\nflags\t: fpu\n";
    assert_eq!(clock_text(text), Some(("3.60".to_string(), 9)));
}

#[test]
fn clock_units_and_failures() {
    assert_eq!(clock_text("model name : X @ 800MHz\n"), Some(("800".to_string(), 6)));
    assert_eq!(clock_text("model name : X @ 5daHz"), Some(("5".to_string(), 1)));
    assert_eq!(clock_text("model name : X @ 7Hz"), Some(("7".to_string(), 0)));
    // a model name without `@` ends the search
    assert_eq!(clock_text("model name : ARM\nmodel name : X @ 1GHz\n"), None);
    // a rate without a known unit is passed over
    assert_eq!(clock_text("model name : X @ fast\nmodel name : Y @ 2GHz\n"), Some(("2".to_string(), 9)));
    assert_eq!(clock_text("cpu MHz : 3600.000\n"), None);
    assert_eq!(clock_text(""), None);
}
