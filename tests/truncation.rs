use ironlog::truncate_string;

#[test]
fn truncation_scenario_multibyte() {
    let input = "héllo wörld";
    let out = truncate_string(input, 8);
    assert!(out.len() <= 8);
    assert!(out.len() >= 7);
    assert!(input.starts_with(out.as_str()));
    assert_eq!(out, "héllo w");
}

#[test]
fn truncation_inside_a_character_leaves_fewer_bytes() {
    // 'é' takes bytes 1 and 2; a budget of 2 falls inside it.
    let out = truncate_string("héllo", 2);
    assert_eq!(out, "h");
    assert!(out.len() < 2);
}

#[test]
fn truncation_keeps_short_text() {
    assert_eq!(truncate_string("hello", 5), "hello");
    assert_eq!(truncate_string("hello", 100), "hello");
    assert_eq!(truncate_string("", 0), "");
}

#[test]
fn truncation_to_zero_bytes() {
    assert_eq!(truncate_string("abc", 0), "");
    assert_eq!(truncate_string("é", 0), "");
}

#[test]
fn truncation_of_four_byte_characters() {
    let input = "a😀b";
    assert_eq!(truncate_string(input, 1), "a");
    assert_eq!(truncate_string(input, 4), "a");
    assert_eq!(truncate_string(input, 5), "a😀");
    assert_eq!(truncate_string(input, 6), "a😀b");
}

#[test]
fn truncation_at_exact_boundary() {
    assert_eq!(truncate_string("abcdef", 3), "abc");
    assert_eq!(truncate_string("héllo", 3), "hé");
}
