use text_align::config::{config_from, set_config, Alignment, ConfigError};

fn args(list: &[&str]) -> Vec<String> {
    list.iter().map(|a| a.to_string()).collect()
}

#[test]
fn full_argument_list() {
    let c = set_config(&args(&[
        "prog",
        "--align",
        "center",
        "--preserve-indent",
        "--input",
        "a.txt",
        "--output",
        "b.txt",
    ]))
    .unwrap();
    assert_eq!(c.alignment, Alignment::Center);
    assert!(c.preserve_indent);
    assert_eq!(c.in_path, "a.txt");
    assert_eq!(c.out_path, "b.txt");
}

#[test]
fn defaults_to_right_without_indent() {
    let c = set_config(&args(&["prog", "--output", "o", "--input", "i"])).unwrap();
    assert_eq!(c.alignment, Alignment::Right);
    assert!(!c.preserve_indent);
    assert_eq!(c.in_path, "i");
    assert_eq!(c.out_path, "o");
}

#[test]
fn alignment_values() {
    for (v, a) in [
        ("right", Alignment::Right),
        ("Right", Alignment::Right),
        ("center", Alignment::Center),
        ("Center", Alignment::Center),
    ] {
        let c = set_config(&args(&["--align", v, "--input", "i", "--output", "o"])).unwrap();
        assert_eq!(c.alignment, a);
    }
}

#[test]
fn later_flag_overrides_earlier() {
    let c = set_config(&args(&[
        "--align", "center", "--input", "i1", "--output", "o", "--input", "i2", "--align",
        "Right",
    ]))
    .unwrap();
    assert_eq!(c.alignment, Alignment::Right);
    assert_eq!(c.in_path, "i2");
}

#[test]
fn flags_recognised_with_surrounding_whitespace() {
    let c = set_config(&args(&[" --preserve-indent\t", "--input ", "i", "  --output", "o"]))
        .unwrap();
    assert!(c.preserve_indent);
    assert_eq!(c.in_path, "i");
    assert_eq!(c.out_path, "o");
}

#[test]
fn unknown_alignment_refused() {
    let r = set_config(&args(&["--align", "CENTER", "--input", "i", "--output", "o"]));
    assert_eq!(r.err(), Some(ConfigError::InvalidAlignment));
    let r = set_config(&args(&["--align", "left", "--input", "i", "--output", "o"]));
    assert_eq!(r.err(), Some(ConfigError::InvalidAlignment));
}

#[test]
fn missing_input_refused() {
    let r = set_config(&args(&["--output", "o"]));
    assert_eq!(r.err(), Some(ConfigError::MissingInput));
    let r = set_config(&args(&["--output", "o", "--input"]));
    assert_eq!(r.err(), Some(ConfigError::MissingInput));
}

#[test]
fn missing_output_refused() {
    let r = set_config(&args(&["--input", "i"]));
    assert_eq!(r.err(), Some(ConfigError::MissingOutput));
    let r = set_config(&args(&["--input", "i", "--output"]));
    assert_eq!(r.err(), Some(ConfigError::MissingOutput));
}

#[test]
fn trailing_align_without_value_is_passed_over() {
    let c = set_config(&args(&["--input", "i", "--output", "o", "--align"])).unwrap();
    assert_eq!(c.alignment, Alignment::Right);
}

#[test]
fn keys_decide_which_flag_an_argument_is() {
    let a = args(&["x", "center", "--input ", "in", "y", "out"]);
    let k = args(&["--align", "center", "--input", "in", "--output", "out"]);
    let c = config_from(&a, &k).unwrap();
    assert_eq!(c.alignment, Alignment::Center);
    assert_eq!(c.in_path, "in");
    assert_eq!(c.out_path, "out");
    // untrimmed keys are not flags
    assert_eq!(config_from(&a, &a).err(), Some(ConfigError::MissingInput));
}

#[test]
fn flag_value_taken_as_written() {
    let c = set_config(&args(&["--input", " spaced ", "--output", "o"])).unwrap();
    assert_eq!(c.in_path, " spaced ");
}
