use nuance::decimal::Decimal;
use nuance::extractor::{extract, parse_number_exec, ExtractionError};
use nuance::params::{merge_params, param_bytes, Param};

fn dec(mantissa: i64, scale: u32) -> Decimal {
    Decimal { mantissa, scale }
}

#[test]
fn two_declarations_in_order_and_their_buffer() {
    let src = "#version 450\n#param a(0, 1, 0.5)\n#param b(-1,1,0)\nvoid main() {}\n";
    let x = extract(src.as_bytes()).unwrap();
    assert_eq!(x.params.len(), 2);
    assert_eq!(x.params[0].name, b"a".to_vec());
    assert_eq!(x.params[0].min, dec(0, 0));
    assert_eq!(x.params[0].max, dec(1, 0));
    assert_eq!(x.params[0].default, dec(5, 1));
    assert_eq!(x.params[1].name, b"b".to_vec());
    assert_eq!(x.params[1].min, dec(-1, 0));
    assert_eq!(x.params[1].max, dec(1, 0));
    assert_eq!(x.params[1].default, dec(0, 0));
    assert_eq!(x.source, b"#version 450\n\n\nvoid main() {}\n".to_vec());

    let defaults = vec![0.5f32.to_bits(), 0.0f32.to_bits()];
    let params = merge_params(&Vec::new(), &x.params, &defaults, false);
    let bytes = param_bytes(&params);
    let mut expected = Vec::new();
    expected.extend_from_slice(&0.5f32.to_le_bytes());
    expected.extend_from_slice(&0.0f32.to_le_bytes());
    assert_eq!(bytes, expected);
}

#[test]
fn source_without_declarations_is_unchanged() {
    let src = "void main() {\n  gl_FragColor = vec4(1.0);\n}";
    let x = extract(src.as_bytes()).unwrap();
    assert!(x.params.is_empty());
    assert_eq!(x.source, src.as_bytes().to_vec());
}

#[test]
fn empty_source() {
    let x = extract(b"").unwrap();
    assert!(x.params.is_empty());
    assert!(x.source.is_empty());
}

#[test]
fn blanks_around_every_part_are_allowed() {
    let src = "  \t#param   speed_2 ( -0.25 ,\t+10. , 3 )  \r\n";
    let x = extract(src.as_bytes()).unwrap();
    assert_eq!(x.params.len(), 1);
    assert_eq!(x.params[0].name, b"speed_2".to_vec());
    assert_eq!(x.params[0].min, dec(-25, 2));
    assert_eq!(x.params[0].max, dec(10, 0));
    assert_eq!(x.params[0].default, dec(3, 0));
    assert_eq!(x.source, b"\n".to_vec());
}

#[test]
fn malformed_declaration_fails_whole_extraction() {
    let src = "#param a(0, 1, 0.5)\n#param b(0, 1)\n#param c(0, 1, 1)\n";
    assert_eq!(extract(src.as_bytes()).unwrap_err(), ExtractionError::Malformed);
}

#[test]
fn non_numeric_value_is_malformed() {
    assert_eq!(extract(b"#param a(0, x, 1)").unwrap_err(), ExtractionError::Malformed);
    assert_eq!(extract(b"#param 9a(0, 1, 1)").unwrap_err(), ExtractionError::Malformed);
    assert_eq!(extract(b"#parama(0, 1, 1)").unwrap_err(), ExtractionError::Malformed);
    assert_eq!(extract(b"#param a(0, 1, 1) x").unwrap_err(), ExtractionError::Malformed);
}

#[test]
fn too_many_digits_is_malformed() {
    assert_eq!(
        extract(b"#param a(0, 1234567890123456789, 1)").unwrap_err(),
        ExtractionError::Malformed
    );
    assert!(extract(b"#param a(0, 123456789012345678, 1)").is_ok());
}

#[test]
fn duplicate_name_fails() {
    let src = "#param a(0, 1, 0)\nx\n#param a(0, 2, 0)\n";
    assert_eq!(extract(src.as_bytes()).unwrap_err(), ExtractionError::DuplicateName);
}

#[test]
fn inverted_bounds_fail() {
    assert_eq!(extract(b"#param a(1, 0.5, 0)").unwrap_err(), ExtractionError::InvertedBounds);
    assert_eq!(extract(b"#param a(0.50, 0.5, 0)").unwrap().params.len(), 1);
    assert_eq!(extract(b"#param a(-2, -3, 0)").unwrap_err(), ExtractionError::InvertedBounds);
}

#[test]
fn decimal_comparison() {
    assert!(dec(5, 1).le(&dec(50, 2)));
    assert!(dec(50, 2).le(&dec(5, 1)));
    assert!(!dec(6, 1).le(&dec(59, 2)));
    assert!(dec(-1, 0).le(&dec(0, 3)));
}

#[test]
fn number_parsing() {
    assert_eq!(parse_number_exec(b"-12.50x", 0), Some((dec(-1250, 2), 6)));
    assert_eq!(parse_number_exec(b"7", 0), Some((dec(7, 0), 1)));
    assert_eq!(parse_number_exec(b".5", 0), None);
    assert_eq!(parse_number_exec(b"-", 0), None);
}

#[test]
fn reload_keeps_values_by_name() {
    let kept = vec![
        Param { name: b"b".to_vec(), min: dec(0, 0), max: dec(1, 0), value: 7 },
        Param { name: b"a".to_vec(), min: dec(0, 0), max: dec(1, 0), value: 9 },
    ];
    let x = extract(b"#param a(0, 2, 1)\n#param c(0, 1, 0)\n").unwrap();
    let merged = merge_params(&kept, &x.params, &vec![100, 200], true);
    assert_eq!(merged.len(), 2);
    assert_eq!(merged[0].name, b"a".to_vec());
    assert_eq!(merged[0].value, 9);
    assert_eq!(merged[0].max, dec(2, 0));
    assert_eq!(merged[1].value, 200);
    let fresh = merge_params(&kept, &x.params, &vec![100, 200], false);
    assert_eq!(fresh[0].value, 100);
}

#[test]
fn buffer_length_is_four_per_parameter() {
    for n in 0..5u32 {
        let params: Vec<Param> = (0..n)
            .map(|i| Param { name: vec![b'p', b'0' + i as u8], min: dec(0, 0), max: dec(1, 0), value: i })
            .collect();
        assert_eq!(param_bytes(&params).len(), 4 * n as usize);
    }
    let one = vec![Param { name: b"x".to_vec(), min: dec(0, 0), max: dec(1, 0), value: 0x01020304 }];
    assert_eq!(param_bytes(&one), vec![4, 3, 2, 1]);
}
