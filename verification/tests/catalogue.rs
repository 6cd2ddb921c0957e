use pixotope_sync::color_space::{field_value_of, get_color_spaces, ColorSpaceEntry};
use pixotope_sync::state::color_space_names;
use pixotope_sync::text::chars_of;

fn pairs(entries: &[ColorSpaceEntry]) -> Vec<(String, String)> {
    entries.iter().map(|e| (e.family.clone(), e.name.clone())).collect()
}

fn pair(family: &str, name: &str) -> (String, String) {
    (family.to_string(), name.to_string())
}

#[test]
fn two_blocks_give_two_entries_in_file_order() {
    let config = "colorspaces:\n  - !<ColorSpace>\n    name: ACES - ACEScg\n    family: ACES\n  - !<ColorSpace>\n    name: Utility - Raw\n    family: Utility\n";
    let entries = get_color_spaces(config);
    assert_eq!(
        pairs(&entries),
        vec![pair("ACES", "ACES - ACEScg"), pair("Utility", "Utility - Raw")]
    );
}

#[test]
fn block_without_keys_keeps_empty_fields() {
    let config = "- !<ColorSpace>\n  description: nothing else\n- !<ColorSpace>\n  name: B\n  family: F\n";
    let entries = get_color_spaces(config);
    assert_eq!(pairs(&entries), vec![pair("", ""), pair("F", "B")]);
}

#[test]
fn block_with_one_key_keeps_the_other_empty() {
    let entries = get_color_spaces("- !<ColorSpace>\nname: OnlyName\n- !<ColorSpace>\nfamily: OnlyFamily");
    assert_eq!(pairs(&entries), vec![pair("", "OnlyName"), pair("OnlyFamily", "")]);
}

#[test]
fn empty_config_has_no_entries() {
    assert!(get_color_spaces("").is_empty());
    assert!(get_color_spaces("\n\n").is_empty());
    assert!(get_color_spaces("name: stray\nfamily: stray\n").is_empty());
}

#[test]
fn rows_before_the_first_marker_are_ignored() {
    let entries = get_color_spaces("name: early\nfamily: early\n- !<ColorSpace>\nname: late\n");
    assert_eq!(pairs(&entries), vec![pair("", "late")]);
}

#[test]
fn first_name_and_family_of_a_block_count() {
    let config = "- !<ColorSpace>\nname: first\nname: second\nfamily: one\nfamily: two\n";
    assert_eq!(pairs(&get_color_spaces(config)), vec![pair("one", "first")]);
}

#[test]
fn first_key_row_counts_even_when_its_value_is_empty() {
    let config = "- !<ColorSpace>\nname:\nname: later\n";
    assert_eq!(pairs(&get_color_spaces(config)), vec![pair("", "")]);
}

#[test]
fn marker_alone_gives_one_empty_entry() {
    assert_eq!(pairs(&get_color_spaces("- !<ColorSpace>")), vec![pair("", "")]);
}

#[test]
fn marker_may_carry_trailing_text_and_indentation() {
    let config = "\t - !<ColorSpace> # comment\n\t name: X\n";
    assert_eq!(pairs(&get_color_spaces(config)), vec![pair("", "X")]);
}

#[test]
fn carriage_returns_are_trimmed_with_the_line() {
    let config = "- !<ColorSpace>\r\n  name: A\r\n  family: B\r\n";
    assert_eq!(pairs(&get_color_spaces(config)), vec![pair("B", "A")]);
}

#[test]
fn value_ends_at_the_second_colon() {
    let config = "- !<ColorSpace>\nname: left : right\nfamily:a:b\n";
    assert_eq!(pairs(&get_color_spaces(config)), vec![pair("a", "left")]);
}

#[test]
fn keys_must_start_the_trimmed_row() {
    let config = "- !<ColorSpace>\nthe name: no\n  Name: no\n  name : no\n";
    assert_eq!(pairs(&get_color_spaces(config)), vec![pair("", "")]);
}

#[test]
fn other_markers_do_not_open_a_block() {
    let config = "- !<ColorSpace>\nname: A\n- !<Look>\nfamily: L\n";
    assert_eq!(pairs(&get_color_spaces(config)), vec![pair("L", "A")]);
}

#[test]
fn unicode_white_space_is_trimmed_from_values() {
    let config = "- !<ColorSpace>\n\u{2003}name:\u{a0}Caf\u{e9} \u{3000}\n";
    assert_eq!(pairs(&get_color_spaces(config)), vec![pair("", "Caf\u{e9}")]);
}

#[test]
fn parsed_catalogue_agrees_with_line_by_line_reading() {
    let config = "x\n- !<ColorSpace>\n name: a:b\n\n family:  f \n- !<ColorSpace>\nfamily: g\nname: n\nname: m";
    let mut expected: Vec<(String, String)> = Vec::new();
    let mut current: Option<(Option<String>, Option<String>)> = None;
    for line in config.lines() {
        let line = line.trim();
        if line.starts_with("- !<ColorSpace>") {
            if let Some((f, n)) = current.take() {
                expected.push((f.unwrap_or_default(), n.unwrap_or_default()));
            }
            current = Some((None, None));
        } else if let Some((f, n)) = &mut current {
            if line.starts_with("name:") && n.is_none() {
                *n = Some(line.split(':').nth(1).unwrap().trim().to_string());
            } else if line.starts_with("family:") && f.is_none() {
                *f = Some(line.split(':').nth(1).unwrap().trim().to_string());
            }
        }
    }
    if let Some((f, n)) = current.take() {
        expected.push((f.unwrap_or_default(), n.unwrap_or_default()));
    }
    assert_eq!(pairs(&get_color_spaces(config)), expected);
    assert_eq!(expected, vec![pair("f", "a"), pair("g", "n")]);
}

#[test]
fn field_value_of_reads_between_the_colons() {
    let chars = chars_of("name:  ACES - ACEScg  ");
    assert_eq!(field_value_of(&chars, 0, chars.len()), "ACES - ACEScg");
    let chars = chars_of("no colon here");
    assert_eq!(field_value_of(&chars, 0, chars.len()), "");
    let chars = chars_of("k:v:w");
    assert_eq!(field_value_of(&chars, 0, chars.len()), "v");
    assert_eq!(field_value_of(&chars, 2, chars.len()), "w");
}

#[test]
fn default_entry_is_empty() {
    let entry = ColorSpaceEntry::default();
    assert_eq!(entry.family, "");
    assert_eq!(entry.name, "");
}

#[test]
fn known_names_hold_each_name_once_in_first_order() {
    let entries = get_color_spaces(
        "- !<ColorSpace>\nname: B\n- !<ColorSpace>\nname: A\n- !<ColorSpace>\nname: B\n- !<ColorSpace>\n",
    );
    assert_eq!(entries.len(), 4);
    assert_eq!(
        color_space_names(&entries),
        vec!["B".to_string(), "A".to_string(), "".to_string()]
    );
}
