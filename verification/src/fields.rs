//! The field router: parses a record's fields into typed metric instructions.
//!
//! Reserved field names (literal, case-sensitive):
//! `metrics.scope` (relative rename), `metrics.scope.full` (absolute rename),
//! `metrics.value` (weight override), `metrics.time` (timer),
//! `metrics.level` (level), `metrics.counter` (counter), `metrics.gauge`
//! (gauge). A field whose name matches but whose value has the wrong type is
//! silently dropped; unknown fields produce no instruction.

use vstd::prelude::*;

verus! {

/// The value carried by one record field. Strings and integers are
/// meaningful to the router; any other value type is unsupported and
/// ignored.
#[derive(Debug, Clone, PartialEq, Eq)]
pub enum FieldValue {
    Str(String),
    I64(i64),
    U64(u64),
    Unsupported,
}

/// One name/value pair of a record's field set.
#[derive(Debug, Clone, PartialEq, Eq)]
pub struct Field {
    pub name: String,
    pub value: FieldValue,
}

/// The parsed meaning of one reserved field.
#[derive(Debug, Clone, PartialEq, Eq)]
pub enum FieldInstruction {
    /// Derive the span's scope from its parent by appending a name segment.
    RelativeRename { name: String },
    /// Replace the span's scope by an absolute (fully qualified) name.
    AbsoluteRename { name: String },
    /// Override the record's weight (the default weight is 1).
    ValueOverride { value: i64 },
    /// Start a duration measurement under the span's scope.
    StartTimer { name: String },
    /// Add the record's weight to the named level.
    AdjustLevel { name: String },
    /// Add the record's weight to the named counter.
    IncrementCounter { name: String },
    /// Set the named gauge to the record's weight.
    SetGauge { name: String },
}

/// The instruction one field parses to, if any. A reserved name with a
/// wrongly typed value yields `None`, as does any unknown field name.
/// An unsigned weight override is narrowed to `i64` by truncation.
pub open spec fn instruction_of(f: Field) -> Option<FieldInstruction> {
    if f.name@ == "metrics.scope"@ {
        match f.value {
            FieldValue::Str(s) => Some(FieldInstruction::RelativeRename { name: s }),
            _ => None,
        }
    } else if f.name@ == "metrics.scope.full"@ {
        match f.value {
            FieldValue::Str(s) => Some(FieldInstruction::AbsoluteRename { name: s }),
            _ => None,
        }
    } else if f.name@ == "metrics.value"@ {
        match f.value {
            FieldValue::I64(v) => Some(FieldInstruction::ValueOverride { value: v }),
            FieldValue::U64(v) => Some(FieldInstruction::ValueOverride { value: v as i64 }),
            _ => None,
        }
    } else if f.name@ == "metrics.time"@ {
        match f.value {
            FieldValue::Str(s) => Some(FieldInstruction::StartTimer { name: s }),
            _ => None,
        }
    } else if f.name@ == "metrics.level"@ {
        match f.value {
            FieldValue::Str(s) => Some(FieldInstruction::AdjustLevel { name: s }),
            _ => None,
        }
    } else if f.name@ == "metrics.counter"@ {
        match f.value {
            FieldValue::Str(s) => Some(FieldInstruction::IncrementCounter { name: s }),
            _ => None,
        }
    } else if f.name@ == "metrics.gauge"@ {
        match f.value {
            FieldValue::Str(s) => Some(FieldInstruction::SetGauge { name: s }),
            _ => None,
        }
    } else {
        None
    }
}

/// The instructions of a whole field set, in field order, one per reserved
/// field that parses.
pub open spec fn instructions_spec(fields: Seq<Field>) -> Seq<FieldInstruction>
    decreases fields.len(),
{
    if fields.len() == 0 {
        Seq::empty()
    } else {
        instructions_spec(fields.drop_last()) + match instruction_of(fields.last()) {
            Some(i) => seq![i],
            None => Seq::<FieldInstruction>::empty(),
        }
    }
}

/// True if the field's name equals the given reserved name.
fn name_is(f: &Field, reserved: &str) -> (r: bool)
    ensures
        r == (f.name@ == reserved@),
{
    let s: String = reserved.to_owned();
    f.name == s
}

/// Parses one field into its instruction, if any.
pub fn parse_field(f: &Field) -> (r: Option<FieldInstruction>)
    ensures
        r == instruction_of(*f),
{
    if name_is(f, "metrics.scope") {
        match &f.value {
            FieldValue::Str(s) => Some(FieldInstruction::RelativeRename { name: s.clone() }),
            _ => None,
        }
    } else if name_is(f, "metrics.scope.full") {
        match &f.value {
            FieldValue::Str(s) => Some(FieldInstruction::AbsoluteRename { name: s.clone() }),
            _ => None,
        }
    } else if name_is(f, "metrics.value") {
        match &f.value {
            FieldValue::I64(v) => Some(FieldInstruction::ValueOverride { value: *v }),
            FieldValue::U64(v) => Some(
                FieldInstruction::ValueOverride { value: #[verifier::truncate] (*v as i64) },
            ),
            _ => None,
        }
    } else if name_is(f, "metrics.time") {
        match &f.value {
            FieldValue::Str(s) => Some(FieldInstruction::StartTimer { name: s.clone() }),
            _ => None,
        }
    } else if name_is(f, "metrics.level") {
        match &f.value {
            FieldValue::Str(s) => Some(FieldInstruction::AdjustLevel { name: s.clone() }),
            _ => None,
        }
    } else if name_is(f, "metrics.counter") {
        match &f.value {
            FieldValue::Str(s) => Some(FieldInstruction::IncrementCounter { name: s.clone() }),
            _ => None,
        }
    } else if name_is(f, "metrics.gauge") {
        match &f.value {
            FieldValue::Str(s) => Some(FieldInstruction::SetGauge { name: s.clone() }),
            _ => None,
        }
    } else {
        None
    }
}

/// One unfolding step of `instructions_spec` along a prefix.
pub proof fn lemma_instructions_step(fields: Seq<Field>, j: int)
    requires
        0 <= j < fields.len(),
    ensures
        instructions_spec(fields.take(j + 1)) == instructions_spec(fields.take(j))
            + match instruction_of(fields[j]) {
            Some(i) => seq![i],
            None => Seq::<FieldInstruction>::empty(),
        },
{
    assert(fields.take(j + 1).drop_last() =~= fields.take(j));
    assert(fields.take(j + 1).last() == fields[j]);
}

/// Parses a whole field set into its instructions, in field order.
pub fn parse_fields(fields: &Vec<Field>) -> (r: Vec<FieldInstruction>)
    ensures
        r@ == instructions_spec(fields@),
{
    let mut r: Vec<FieldInstruction> = Vec::new();
    let n = fields.len();
    for j in 0..n
        invariant
            n == fields.len(),
            r@ == instructions_spec(fields@.take(j as int)),
    {
        proof {
            lemma_instructions_step(fields@, j as int);
        }
        match parse_field(&fields[j]) {
            Some(i) => r.push(i),
            None => (),
        }
    }
    proof {
        assert(fields@.take(n as int) =~= fields@);
    }
    r
}

/// The record's weight: the last weight override wins; without one the
/// weight is 1.
pub open spec fn weight_spec(instrs: Seq<FieldInstruction>) -> i64
    decreases instrs.len(),
{
    if instrs.len() == 0 {
        1i64
    } else {
        match instrs.last() {
            FieldInstruction::ValueOverride { value } => value,
            _ => weight_spec(instrs.drop_last()),
        }
    }
}

/// The naming instruction in force: the last rename field wins, whichever
/// kind it is.
pub open spec fn last_naming(instrs: Seq<FieldInstruction>) -> Option<FieldInstruction>
    decreases instrs.len(),
{
    if instrs.len() == 0 {
        None
    } else {
        match instrs.last() {
            FieldInstruction::RelativeRename { name } => Some(
                FieldInstruction::RelativeRename { name },
            ),
            FieldInstruction::AbsoluteRename { name } => Some(
                FieldInstruction::AbsoluteRename { name },
            ),
            _ => last_naming(instrs.drop_last()),
        }
    }
}

/// One unfolding step of `weight_spec` along a prefix.
pub proof fn lemma_weight_step(instrs: Seq<FieldInstruction>, j: int)
    requires
        0 <= j < instrs.len(),
    ensures
        weight_spec(instrs.take(j + 1)) == match instrs[j] {
            FieldInstruction::ValueOverride { value } => value,
            _ => weight_spec(instrs.take(j)),
        },
{
    assert(instrs.take(j + 1).drop_last() =~= instrs.take(j));
    assert(instrs.take(j + 1).last() == instrs[j]);
}

/// One unfolding step of `last_naming` along a prefix.
pub proof fn lemma_last_naming_step(instrs: Seq<FieldInstruction>, j: int)
    requires
        0 <= j < instrs.len(),
    ensures
        last_naming(instrs.take(j + 1)) == match instrs[j] {
            FieldInstruction::RelativeRename { name } => Some(
                FieldInstruction::RelativeRename { name },
            ),
            FieldInstruction::AbsoluteRename { name } => Some(
                FieldInstruction::AbsoluteRename { name },
            ),
            _ => last_naming(instrs.take(j)),
        },
{
    assert(instrs.take(j + 1).drop_last() =~= instrs.take(j));
    assert(instrs.take(j + 1).last() == instrs[j]);
}

/// The weight of a parsed record, as executed.
pub fn compute_weight(instrs: &Vec<FieldInstruction>) -> (r: i64)
    ensures
        r == weight_spec(instrs@),
{
    let mut r: i64 = 1;
    let n = instrs.len();
    for j in 0..n
        invariant
            n == instrs.len(),
            r == weight_spec(instrs@.take(j as int)),
    {
        proof {
            lemma_weight_step(instrs@, j as int);
        }
        match &instrs[j] {
            FieldInstruction::ValueOverride { value } => {
                r = *value;
            },
            _ => (),
        }
    }
    proof {
        assert(instrs@.take(n as int) =~= instrs@);
    }
    r
}

/// The naming instruction in force, as executed.
pub fn compute_naming(instrs: &Vec<FieldInstruction>) -> (r: Option<FieldInstruction>)
    ensures
        r == last_naming(instrs@),
{
    let mut r: Option<FieldInstruction> = None;
    let n = instrs.len();
    for j in 0..n
        invariant
            n == instrs.len(),
            r == last_naming(instrs@.take(j as int)),
    {
        proof {
            lemma_last_naming_step(instrs@, j as int);
        }
        match &instrs[j] {
            FieldInstruction::RelativeRename { name } => {
                r = Some(FieldInstruction::RelativeRename { name: name.clone() });
            },
            FieldInstruction::AbsoluteRename { name } => {
                r = Some(FieldInstruction::AbsoluteRename { name: name.clone() });
            },
            _ => (),
        }
    }
    proof {
        assert(instrs@.take(n as int) =~= instrs@);
    }
    r
}

} // verus!
