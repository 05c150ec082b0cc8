use metrics_bridge::{parse_field, parse_fields, Field, FieldInstruction, FieldValue};
use metrics_bridge::fields::{compute_naming, compute_weight};

fn sfield(name: &str, v: &str) -> Field {
    Field { name: name.to_string(), value: FieldValue::Str(v.to_string()) }
}

fn ifield(name: &str, v: i64) -> Field {
    Field { name: name.to_string(), value: FieldValue::I64(v) }
}

fn ufield(name: &str, v: u64) -> Field {
    Field { name: name.to_string(), value: FieldValue::U64(v) }
}

#[test]
fn unknown_field_yields_no_instruction() {
    assert_eq!(parse_field(&sfield("foo.bar", "baz")), None);
    let instrs = parse_fields(&vec![sfield("foo.bar", "baz"), ifield("elapsed", 12)]);
    assert!(instrs.is_empty());
    assert_eq!(compute_weight(&instrs), 1);
    assert_eq!(compute_naming(&instrs), None);
}

#[test]
fn reserved_fields_parse() {
    assert_eq!(
        parse_field(&sfield("metrics.scope", "db")),
        Some(FieldInstruction::RelativeRename { name: "db".to_string() })
    );
    assert_eq!(
        parse_field(&sfield("metrics.scope.full", "x.y")),
        Some(FieldInstruction::AbsoluteRename { name: "x.y".to_string() })
    );
    assert_eq!(
        parse_field(&ifield("metrics.value", -3)),
        Some(FieldInstruction::ValueOverride { value: -3 })
    );
    assert_eq!(
        parse_field(&sfield("metrics.time", "query")),
        Some(FieldInstruction::StartTimer { name: "query".to_string() })
    );
    assert_eq!(
        parse_field(&sfield("metrics.level", "inflight")),
        Some(FieldInstruction::AdjustLevel { name: "inflight".to_string() })
    );
    assert_eq!(
        parse_field(&sfield("metrics.counter", "rows")),
        Some(FieldInstruction::IncrementCounter { name: "rows".to_string() })
    );
    assert_eq!(
        parse_field(&sfield("metrics.gauge", "queue")),
        Some(FieldInstruction::SetGauge { name: "queue".to_string() })
    );
}

#[test]
fn wrong_typed_reserved_field_is_dropped() {
    assert_eq!(parse_field(&ifield("metrics.counter", 5)), None);
    assert_eq!(parse_field(&sfield("metrics.value", "5")), None);
    assert_eq!(parse_field(&ifield("metrics.scope", 1)), None);
    assert_eq!(
        parse_field(&Field {
            name: "metrics.gauge".to_string(),
            value: FieldValue::Unsupported,
        }),
        None
    );
}

#[test]
fn weight_defaults_to_one_and_last_override_wins() {
    let instrs = parse_fields(&vec![ifield("metrics.value", 3), ifield("metrics.value", 9)]);
    assert_eq!(compute_weight(&instrs), 9);
    let instrs = parse_fields(&vec![ufield("metrics.value", 5)]);
    assert_eq!(compute_weight(&instrs), 5);
    let instrs = parse_fields(&vec![sfield("metrics.counter", "c")]);
    assert_eq!(compute_weight(&instrs), 1);
}

#[test]
fn unsigned_weight_narrows_by_truncation() {
    let instrs = parse_fields(&vec![ufield("metrics.value", u64::MAX)]);
    assert_eq!(compute_weight(&instrs), -1);
}

#[test]
fn last_naming_field_wins() {
    let instrs = parse_fields(&vec![
        sfield("metrics.scope", "a"),
        sfield("metrics.scope.full", "x"),
    ]);
    assert_eq!(
        compute_naming(&instrs),
        Some(FieldInstruction::AbsoluteRename { name: "x".to_string() })
    );
    let instrs = parse_fields(&vec![
        sfield("metrics.scope.full", "x"),
        sfield("metrics.scope", "a"),
    ]);
    assert_eq!(
        compute_naming(&instrs),
        Some(FieldInstruction::RelativeRename { name: "a".to_string() })
    );
}

#[test]
fn instructions_keep_field_order() {
    let instrs = parse_fields(&vec![
        sfield("metrics.counter", "c"),
        sfield("unrelated", "zzz"),
        sfield("metrics.gauge", "g"),
    ]);
    assert_eq!(
        instrs,
        vec![
            FieldInstruction::IncrementCounter { name: "c".to_string() },
            FieldInstruction::SetGauge { name: "g".to_string() },
        ]
    );
}
