use ucgen::extract;
use ucgen::mappings::CaseMappings;
use ucgen::render::{get_new_line_sequence, render_block};
use ucgen::run;

fn lines(texts: &[&str]) -> Vec<String> {
    texts.iter().map(|t| t.to_string()).collect()
}

#[test]
fn empty_input_yields_bare_block() {
    let out = run(&lines(&[])).unwrap();
    assert_eq!(out, "defaultproperties\n{\n}\n");
}

#[test]
fn blank_lines_contribute_nothing() {
    let out = run(&lines(&["", ""])).unwrap();
    assert_eq!(out, "defaultproperties\n{\n}\n");
}

#[test]
fn capital_a_lowercase_mapping() {
    let input = lines(&["0041;LATIN CAPITAL LETTER A;Lu;0;L;;;;;N;;;;0061;"]);
    let m = extract(&input).unwrap();
    assert_eq!(m.to_lower.len(), 1);
    assert_eq!(m.to_lower[0].from, 0x41);
    assert_eq!(m.to_lower[0].to, 0x61);
    assert_eq!(m.to_upper.len(), 0);
    assert_eq!(m.to_title.len(), 0);
    let out = run(&input).unwrap();
    assert_eq!(out, "defaultproperties\n{\nto_lower(0)=(from=0x41,to=0x61)\n}\n");
}

#[test]
fn record_with_all_three_mappings() {
    // A record may contribute to all three collections at once; the block
    // groups lines by kind in the order lower, upper, title.
    let input = lines(&["01C5;LATIN CAPITAL LETTER D WITH SMALL LETTER Z WITH CARON;Lt;0;L;;;;;N;;;01C4;01C6;01C5"]);
    let m = extract(&input).unwrap();
    assert_eq!(m.to_upper.len(), 1);
    assert_eq!(m.to_upper[0].from, 0x1C5);
    assert_eq!(m.to_upper[0].to, 0x1C4);
    assert_eq!(m.to_lower.len(), 1);
    assert_eq!(m.to_lower[0].to, 0x1C6);
    assert_eq!(m.to_title.len(), 1);
    assert_eq!(m.to_title[0].to, 0x1C5);
    let out = run(&input).unwrap();
    assert_eq!(
        out,
        "defaultproperties\n{\n\
         to_lower(0)=(from=0x1c5,to=0x1c6)\n\
         to_upper(0)=(from=0x1c5,to=0x1c4)\n\
         to_title(0)=(from=0x1c5,to=0x1c5)\n}\n"
    );
}

#[test]
fn insertion_order_follows_input_order() {
    let input = lines(&[
        "0042;LATIN CAPITAL LETTER B;Lu;0;L;;;;;N;;;;0062;",
        "0041;LATIN CAPITAL LETTER A;Lu;0;L;;;;;N;;;;0061;",
    ]);
    let m = extract(&input).unwrap();
    assert_eq!(m.to_lower.len(), 2);
    assert_eq!(m.to_lower[0].from, 0x42);
    assert_eq!(m.to_lower[1].from, 0x41);
    let out = run(&input).unwrap();
    assert_eq!(
        out,
        "defaultproperties\n{\n\
         to_lower(0)=(from=0x42,to=0x62)\n\
         to_lower(1)=(from=0x41,to=0x61)\n}\n"
    );
}

#[test]
fn group_indices_restart_at_zero() {
    let input = lines(&[
        "0061;LATIN SMALL LETTER A;Ll;0;L;;;;;N;;;0041;;0041",
        "0042;LATIN CAPITAL LETTER B;Lu;0;L;;;;;N;;;;0062;",
    ]);
    let out = run(&input).unwrap();
    assert_eq!(
        out,
        "defaultproperties\n{\n\
         to_lower(0)=(from=0x42,to=0x62)\n\
         to_upper(0)=(from=0x61,to=0x41)\n\
         to_title(0)=(from=0x61,to=0x41)\n}\n"
    );
}

#[test]
fn mapping_value_zero_is_a_mapping() {
    // Only an empty field means "no mapping": a parsed zero is a
    // legitimate target and renders as 0x0.
    let input = lines(&["0041;NAME;Lu;0;L;;;;;N;;;;0;"]);
    let out = run(&input).unwrap();
    assert_eq!(out, "defaultproperties\n{\nto_lower(0)=(from=0x41,to=0x0)\n}\n");
}

#[test]
fn bad_code_point_field_aborts() {
    let input = lines(&["004G;NAME;Lu;0;L;;;;;N;;;;0061;"]);
    assert!(run(&input).is_err());
    assert!(extract(&input).is_err());
}

#[test]
fn bad_mapping_field_aborts() {
    let input = lines(&["0041;NAME;Lu;0;L;;;;;N;;;;00x1;"]);
    assert!(run(&input).is_err());
}

#[test]
fn first_bad_line_aborts_whole_run() {
    let input = lines(&[
        "0041;NAME;Lu;0;L;;;;;N;;;;0061;",
        "nothex;NAME;Lu;0;L;;;;;N;;;;0061;",
        "0042;NAME;Lu;0;L;;;;;N;;;;0062;",
    ]);
    assert!(run(&input).is_err());
}

#[test]
fn rendering_is_idempotent_in_content() {
    let input = lines(&[
        "0041;LATIN CAPITAL LETTER A;Lu;0;L;;;;;N;;;;0061;",
        "0061;LATIN SMALL LETTER A;Ll;0;L;;;;;N;;;0041;;0041",
    ]);
    let first = run(&input).unwrap();
    let second = run(&input).unwrap();
    assert_eq!(first, second);
}

#[test]
fn render_block_of_empty_mappings() {
    let m = CaseMappings::new();
    assert_eq!(render_block(&m), "defaultproperties\n{\n}\n");
}

#[test]
fn new_line_sequence_is_uniform() {
    let nl = get_new_line_sequence();
    assert_eq!(nl, "\n");
    let out = run(&lines(&["0041;NAME;Lu;0;L;;;;;N;;;;0061;"])).unwrap();
    assert!(out.ends_with(&nl));
}

#[test]
fn large_code_points_render_in_lowercase_hex() {
    let input = lines(&["10400;DESERET CAPITAL LETTER LONG I;Lu;0;L;;;;;N;;;;10428;"]);
    let out = run(&input).unwrap();
    assert_eq!(out, "defaultproperties\n{\nto_lower(0)=(from=0x10400,to=0x10428)\n}\n");
}
