//! Laws of the translation layer, stated and proved over the same spec
//! functions the executable contracts use.

use vstd::prelude::*;
use crate::fields::{
    Field, FieldInstruction, instructions_spec, weight_spec, last_naming, instruction_of,
};
use crate::scope::resolve_path;
use crate::engine::{
    span_ctx_model, span_actions_spec, event_actions_spec, close_receipt_spec, wrap_neg,
    last_timer, last_level, AppliedAction, ancestor_path, LayerModel, CtxModel,
};

verus! {

/// If a span retains an open level, its start raised that level.
proof fn lemma_level_raised_exists(instrs: Seq<FieldInstruction>, w: i64)
    requires
        last_level(instrs) is Some,
    ensures
        ({
            let acts = span_actions_spec(instrs, w);
            exists|k: int|
                0 <= k < acts.len() && acts[k] == (AppliedAction::LevelRaised {
                    name: last_level(instrs).unwrap(),
                    amount: w,
                })
        }),
    decreases instrs.len(),
{
    let acts = span_actions_spec(instrs, w);
    let prefix = span_actions_spec(instrs.drop_last(), w);
    match instrs.last() {
        FieldInstruction::AdjustLevel { name } => {
            if name@.len() > 0 {
                assert(acts[acts.len() - 1] == (AppliedAction::LevelRaised {
                    name,
                    amount: w,
                }));
            } else {
                lemma_level_raised_exists(instrs.drop_last(), w);
                let k = choose|k: int|
                    0 <= k < prefix.len() && prefix[k] == (AppliedAction::LevelRaised {
                        name: last_level(instrs.drop_last()).unwrap(),
                        amount: w,
                    });
                assert(acts[k] == prefix[k]);
            }
        },
        _ => {
            lemma_level_raised_exists(instrs.drop_last(), w);
            let k = choose|k: int|
                0 <= k < prefix.len() && prefix[k] == (AppliedAction::LevelRaised {
                    name: last_level(instrs.drop_last()).unwrap(),
                    amount: w,
                });
            assert(acts[k] == prefix[k]);
        },
    }
}

/// If a span retains an open timer, its start started that timer.
proof fn lemma_timer_started_exists(instrs: Seq<FieldInstruction>, w: i64)
    requires
        last_timer(instrs) is Some,
    ensures
        ({
            let acts = span_actions_spec(instrs, w);
            exists|k: int|
                0 <= k < acts.len() && acts[k] == (AppliedAction::TimerStarted {
                    name: last_timer(instrs).unwrap(),
                })
        }),
    decreases instrs.len(),
{
    let acts = span_actions_spec(instrs, w);
    let prefix = span_actions_spec(instrs.drop_last(), w);
    match instrs.last() {
        FieldInstruction::StartTimer { name } => {
            if name@.len() > 0 {
                assert(acts[acts.len() - 1] == (AppliedAction::TimerStarted { name }));
            } else {
                lemma_timer_started_exists(instrs.drop_last(), w);
                let k = choose|k: int|
                    0 <= k < prefix.len() && prefix[k] == (AppliedAction::TimerStarted {
                        name: last_timer(instrs.drop_last()).unwrap(),
                    });
                assert(acts[k] == prefix[k]);
            }
        },
        _ => {
            lemma_timer_started_exists(instrs.drop_last(), w);
            let k = choose|k: int|
                0 <= k < prefix.len() && prefix[k] == (AppliedAction::TimerStarted {
                    name: last_timer(instrs.drop_last()).unwrap(),
                });
            assert(acts[k] == prefix[k]);
        },
    }
}

/// A level adjustment makes a round trip: a span whose context retains an
/// open level raised it by the span's weight at start, and its close reverts
/// it by exactly that weight, for a net change of zero. (The one weight this
/// cannot hold for is the smallest `i64`, whose negation wraps onto itself.)
pub proof fn lemma_level_round_trip(parent: Seq<Seq<char>>, fields: Seq<Field>)
    requires
        span_ctx_model(parent, fields).level is Some,
        span_ctx_model(parent, fields).weight != i64::MIN,
    ensures
        ({
            let c = span_ctx_model(parent, fields);
            let acts = span_actions_spec(instructions_spec(fields), c.weight);
            &&& close_receipt_spec(c).level_adjusted == Some(
                (c.level.unwrap(), wrap_neg(c.weight)),
            )
            &&& c.weight + wrap_neg(c.weight) == 0
            &&& exists|k: int|
                0 <= k < acts.len() && acts[k] == (AppliedAction::LevelRaised {
                    name: c.level.unwrap(),
                    amount: c.weight,
                })
        }),
{
    let instrs = instructions_spec(fields);
    lemma_level_raised_exists(instrs, weight_spec(instrs));
}

/// A timer makes a round trip: a span's close stops exactly the timer its
/// context retains — one stop per lifecycle, none without an open timer —
/// and a retained timer was started at span start.
pub proof fn lemma_timer_round_trip(parent: Seq<Seq<char>>, fields: Seq<Field>)
    ensures
        ({
            let c = span_ctx_model(parent, fields);
            let acts = span_actions_spec(instructions_spec(fields), c.weight);
            &&& close_receipt_spec(c).timer_stopped == c.timer
            &&& c.timer is Some ==> exists|k: int|
                0 <= k < acts.len() && acts[k] == (AppliedAction::TimerStarted {
                    name: c.timer.unwrap(),
                })
        }),
{
    let c = span_ctx_model(parent, fields);
    let instrs = instructions_spec(fields);
    assert(c.weight == weight_spec(instrs));
    assert(c.timer == last_timer(instrs));
    if c.timer is Some {
        lemma_timer_started_exists(instrs, weight_spec(instrs));
        let acts = span_actions_spec(instrs, c.weight);
        let k = choose|k: int|
            0 <= k < acts.len() && acts[k] == (AppliedAction::TimerStarted {
                name: last_timer(instrs).unwrap(),
            });
        assert(acts[k] == (AppliedAction::TimerStarted { name: c.timer.unwrap() }));
    }
}

/// Relative renames compose: a child scoped by one segment under a parent,
/// then a grandchild scoped by another, resolves to the parent's path with
/// both segments appended.
pub proof fn lemma_relative_rename_composes(parent: Seq<Seq<char>>, b: String, c: String)
    requires
        b@.len() > 0,
        c@.len() > 0,
    ensures
        resolve_path(
            resolve_path(parent, Some(FieldInstruction::RelativeRename { name: b })),
            Some(FieldInstruction::RelativeRename { name: c }),
        ) == parent + seq![b@, c@],
{
    assert(parent.push(b@).push(c@) =~= parent + seq![b@, c@]);
}

/// An absolute rename overrides ancestry: whatever the parent's path, the
/// resolved path is the absolute name alone.
pub proof fn lemma_absolute_rename_overrides(
    p1: Seq<Seq<char>>,
    p2: Seq<Seq<char>>,
    n: String,
)
    requires
        n@.len() > 0,
    ensures
        resolve_path(p1, Some(FieldInstruction::AbsoluteRename { name: n })) == seq![n@],
        resolve_path(p1, Some(FieldInstruction::AbsoluteRename { name: n })) == resolve_path(
            p2,
            Some(FieldInstruction::AbsoluteRename { name: n }),
        ),
{
}

/// An event with no active span acts under the root scope, and each of its
/// counter instructions counts the event's weight there.
pub proof fn lemma_event_counter_at_root(m: LayerModel, fields: Seq<Field>, k: int)
    requires
        0 <= k < instructions_spec(fields).len(),
        instructions_spec(fields)[k] matches FieldInstruction::IncrementCounter { name }
            && name@.len() > 0,
    ensures
        ancestor_path(m, None) == m.root,
        ({
            let instrs = instructions_spec(fields);
            let w = weight_spec(instrs);
            let acts = event_actions_spec(instrs, w);
            instrs[k] matches FieldInstruction::IncrementCounter { name } ==> exists|j: int|
                0 <= j < acts.len() && acts[j] == (AppliedAction::Counted { name, amount: w })
        }),
{
    let instrs = instructions_spec(fields);
    let w = weight_spec(instrs);
    lemma_counter_counted(instrs, w, k);
}

/// Each counter instruction with a non-empty name yields its count among an
/// event's actions.
proof fn lemma_counter_counted(instrs: Seq<FieldInstruction>, w: i64, k: int)
    requires
        0 <= k < instrs.len(),
        instrs[k] matches FieldInstruction::IncrementCounter { name } && name@.len() > 0,
    ensures
        ({
            let acts = event_actions_spec(instrs, w);
            instrs[k] matches FieldInstruction::IncrementCounter { name } ==> exists|j: int|
                0 <= j < acts.len() && acts[j] == (AppliedAction::Counted { name, amount: w })
        }),
    decreases instrs.len(),
{
    let acts = event_actions_spec(instrs, w);
    let prefix = event_actions_spec(instrs.drop_last(), w);
    if k == instrs.len() - 1 {
        if let FieldInstruction::IncrementCounter { name } = instrs[k] {
            assert(acts[acts.len() - 1] == (AppliedAction::Counted { name, amount: w }));
        }
    } else {
        lemma_counter_counted(instrs.drop_last(), w, k);
        if let FieldInstruction::IncrementCounter { name } = instrs[k] {
            let j = choose|j: int|
                0 <= j < prefix.len() && prefix[j] == (AppliedAction::Counted {
                    name,
                    amount: w,
                });
            assert(acts[j] == prefix[j]);
        }
    }
}

/// A record with no weight override keeps the default weight of 1.
pub proof fn lemma_weight_defaults_to_one(instrs: Seq<FieldInstruction>)
    requires
        forall|j: int|
            0 <= j < instrs.len() ==> !(#[trigger] instrs[j] matches
            FieldInstruction::ValueOverride { .. }),
    ensures
        weight_spec(instrs) == 1i64,
    decreases instrs.len(),
{
    if instrs.len() > 0 {
        assert(forall|j: int|
            0 <= j < instrs.drop_last().len() ==> !(#[trigger] instrs.drop_last()[j] matches
            FieldInstruction::ValueOverride { .. }));
        lemma_weight_defaults_to_one(instrs.drop_last());
    }
}

/// Unknown fields are ignored: a record none of whose fields parses to an
/// instruction yields no instruction, the default weight, no rename, and no
/// registry call — at span start, on an event, and at close.
pub proof fn lemma_unknown_fields_ignored(fields: Seq<Field>)
    requires
        forall|j: int| 0 <= j < fields.len() ==> instruction_of(#[trigger] fields[j]) is None,
    ensures
        instructions_spec(fields) == Seq::<FieldInstruction>::empty(),
        weight_spec(instructions_spec(fields)) == 1i64,
        last_naming(instructions_spec(fields)) is None,
        span_actions_spec(instructions_spec(fields), 1i64) == Seq::<AppliedAction>::empty(),
        event_actions_spec(instructions_spec(fields), 1i64) == Seq::<AppliedAction>::empty(),
        forall|parent: Seq<Seq<char>>| #[trigger] span_ctx_model(parent, fields) == (CtxModel {
            path: parent,
            weight: 1i64,
            timer: None,
            level: None,
        }),
    decreases fields.len(),
{
    if fields.len() == 0 {
        assert(instructions_spec(fields) =~= Seq::<FieldInstruction>::empty());
    } else {
        assert(forall|j: int|
            0 <= j < fields.drop_last().len() ==> instruction_of(
                #[trigger] fields.drop_last()[j],
            ) is None);
        lemma_unknown_fields_ignored(fields.drop_last());
        assert(instruction_of(fields.last()) is None);
        assert(instructions_spec(fields) =~= Seq::<FieldInstruction>::empty());
    }
}

} // verus!
