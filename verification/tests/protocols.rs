use efact_hardware_agent::scale::protocols::{supported_protocols, ScaleProtocol, WeightUnit};

fn value_of(p: ScaleProtocol, line: &str) -> (String, WeightUnit) {
    let parsed = p.parse_line(line).unwrap();
    (parsed.value, parsed.unit)
}

#[test]
fn excell_stream_line() {
    let parsed = ScaleProtocol::Excell.parse_line("     0.525 kg").unwrap();
    let value: f64 = parsed.value.parse().unwrap();
    assert!((value - 0.525).abs() < f64::EPSILON);
    assert_eq!(parsed.unit, WeightUnit::Kg);
}

#[test]
fn cas_wgt_prefix() {
    let parsed = ScaleProtocol::Cas.parse_line("WGT:1.250").unwrap();
    let value: f64 = parsed.value.parse().unwrap();
    assert!((value - 1.250).abs() < f64::EPSILON);
}

#[test]
fn rahul_fixed_width() {
    let parsed = ScaleProtocol::Rahul.parse_line("+00001.250kg").unwrap();
    let value: f64 = parsed.value.parse().unwrap();
    assert!((value - 1.250).abs() < f64::EPSILON);
}

#[test]
fn mettler_sics_response() {
    let parsed = ScaleProtocol::MettlerSics
        .parse_line("S S     0.125 kg")
        .unwrap();
    let value: f64 = parsed.value.parse().unwrap();
    assert!((value - 0.125).abs() < f64::EPSILON);
}

#[test]
fn decimal_literal_is_kept_as_read() {
    assert_eq!(value_of(ScaleProtocol::Rahul, "+00001.250kg"), ("+00001.250".to_string(), WeightUnit::Kg));
    assert_eq!(value_of(ScaleProtocol::Cas, "WGT:1.250"), ("1.250".to_string(), WeightUnit::Unknown));
}

#[test]
fn generic_takes_first_number_after_status_text() {
    assert_eq!(
        value_of(ScaleProtocol::Generic, "ST,GS,+0001.234kg"),
        ("+0001.234".to_string(), WeightUnit::Kg)
    );
}

#[test]
fn generic_reads_comma_as_point() {
    assert_eq!(value_of(ScaleProtocol::Generic, "1,5 kg"), ("1.5".to_string(), WeightUnit::Kg));
}

#[test]
fn generic_units() {
    assert_eq!(value_of(ScaleProtocol::Generic, "525 g").1, WeightUnit::G);
    assert_eq!(value_of(ScaleProtocol::Generic, "1.2 LB").1, WeightUnit::Lb);
    assert_eq!(value_of(ScaleProtocol::Generic, "1.2").1, WeightUnit::Unknown);
    assert_eq!(value_of(ScaleProtocol::Generic, "1.2 KG").1, WeightUnit::Kg);
}

#[test]
fn generic_rejects_malformed_numbers() {
    assert!(ScaleProtocol::Generic.parse_line("1.2.3 kg").is_none());
    assert!(ScaleProtocol::Generic.parse_line("- kg").is_none());
    assert!(ScaleProtocol::Generic.parse_line("+-1 kg").is_none());
    assert!(ScaleProtocol::Generic.parse_line("no weight").is_none());
    assert!(ScaleProtocol::Generic.parse_line("").is_none());
}

#[test]
fn generic_accepts_edge_literals() {
    assert_eq!(value_of(ScaleProtocol::Generic, "-.5").0, "-.5");
    assert_eq!(value_of(ScaleProtocol::Generic, "7.").0, "7.");
}

#[test]
fn sanitize_drops_framing_characters() {
    assert_eq!(
        value_of(ScaleProtocol::Generic, "\u{2}\u{1b} 2.000 kg\u{3}\r\n"),
        ("2.000".to_string(), WeightUnit::Kg)
    );
}

#[test]
fn excell_value_after_separator() {
    assert_eq!(value_of(ScaleProtocol::Excell, "W=1"), ("1".to_string(), WeightUnit::Unknown));
    assert_eq!(value_of(ScaleProtocol::Excell, "W=0.525"), ("0.525".to_string(), WeightUnit::Unknown));
}

#[test]
fn toledo_keeps_the_unit_word() {
    assert_eq!(
        value_of(ScaleProtocol::Toledo, "S S     0.525 kg"),
        ("0.525".to_string(), WeightUnit::Kg)
    );
    assert_eq!(value_of(ScaleProtocol::Toledo, "   500 g"), ("500".to_string(), WeightUnit::G));
    assert_eq!(value_of(ScaleProtocol::Toledo, "1.5 LB"), ("1.5".to_string(), WeightUnit::Lb));
    assert_eq!(value_of(ScaleProtocol::Toledo, "0.525kg"), ("0.525".to_string(), WeightUnit::Kg));
}

#[test]
fn toledo_stx_frame() {
    assert_eq!(
        value_of(ScaleProtocol::ToledoStx, "\u{2}  1.500 kg\u{3}"),
        ("1.500".to_string(), WeightUnit::Kg)
    );
    assert_eq!(
        value_of(ScaleProtocol::ToledoStx, "  250 g"),
        ("250".to_string(), WeightUnit::G)
    );
}

#[test]
fn dibal_value_before_kg() {
    assert_eq!(value_of(ScaleProtocol::Dibal, "PPP001.250kg"), ("001.250".to_string(), WeightUnit::Kg));
    assert_eq!(value_of(ScaleProtocol::Dibal, "12 g"), ("12".to_string(), WeightUnit::G));
}

#[test]
fn kretz_skips_status_characters() {
    assert_eq!(value_of(ScaleProtocol::Kretz, "ST 0.750 kg"), ("0.750".to_string(), WeightUnit::Kg));
}

#[test]
fn magellan_embedded_weight() {
    assert_eq!(value_of(ScaleProtocol::Magellan, "S11 00250"), ("11".to_string(), WeightUnit::Unknown));
}

#[test]
fn avery_comma_decimal() {
    assert_eq!(value_of(ScaleProtocol::Avery, "1,250 kg"), ("1.250".to_string(), WeightUnit::Kg));
}

#[test]
fn mettler_sics_short_reply_falls_back() {
    assert_eq!(value_of(ScaleProtocol::MettlerSics, "SI 0.525 kg"), ("0.525".to_string(), WeightUnit::Kg));
}

#[test]
fn parse_id_normalizes_and_knows_aliases() {
    assert_eq!(ScaleProtocol::parse_id("  EXCELL "), Some(ScaleProtocol::Excell));
    assert_eq!(ScaleProtocol::parse_id("genérico"), Some(ScaleProtocol::Generic));
    assert_eq!(ScaleProtocol::parse_id("Mettler"), Some(ScaleProtocol::Toledo));
    assert_eq!(ScaleProtocol::parse_id("MT-SICS"), Some(ScaleProtocol::MettlerSics));
    assert_eq!(ScaleProtocol::parse_id("stx"), Some(ScaleProtocol::ToledoStx));
    assert_eq!(ScaleProtocol::parse_id("datalogic"), Some(ScaleProtocol::Magellan));
    assert_eq!(ScaleProtocol::parse_id("berkel"), Some(ScaleProtocol::Avery));
    assert_eq!(ScaleProtocol::parse_id("fixed"), Some(ScaleProtocol::Rahul));
    assert_eq!(ScaleProtocol::parse_id("unknown"), None);
    assert_eq!(ScaleProtocol::parse_id(""), None);
}

#[test]
fn every_listed_id_reads_back() {
    let all = supported_protocols();
    assert_eq!(all.len(), 11);
    for info in &all {
        let p = ScaleProtocol::parse_id(info.id).unwrap();
        assert_eq!(p.info(), *info);
        assert_eq!(info.default_baud_rate, 9600);
    }
    assert_eq!(ScaleProtocol::Excell.info().id, "excell");
    assert_eq!(ScaleProtocol::ToledoStx.info().name, "Toledo STX/ETX");
}
