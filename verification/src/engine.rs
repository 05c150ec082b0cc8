//! The span context store: per-span lifecycle bookkeeping.
//!
//! A span's start resolves its metric scope from the nearest live ancestor's
//! stored context (or the root scope), applies the immediate instructions of
//! its fields, and stores a `SpanContext`. An event applies its counter and
//! gauge instructions against the nearest stored scope, or the root scope if
//! no span is active. A span's close removes its context, stops the open
//! timer if one was started, and reverts the open level adjustment by the
//! weight captured at creation.
//!
//! Each mutating entry point returns a receipt: the registry calls it made,
//! as data, pinned by its contract to the parsed instructions.

use vstd::prelude::*;
use std::collections::HashMap;
use crate::fields::{
    Field, FieldInstruction, instructions_spec, weight_spec, last_naming, parse_fields,
    compute_weight, compute_naming,
};
use crate::scope::{MetricScope, resolve_path, resolve_scope};
use crate::registry;

verus! {

broadcast use vstd::std_specs::hash::group_hash_axioms;

/// One registry call made while handling a record, as data. The amount of a
/// counter, gauge or level call is the record's weight.
#[derive(Debug, Clone, PartialEq, Eq)]
pub enum AppliedAction {
    TimerStarted { name: String },
    LevelRaised { name: String, amount: i64 },
    Counted { name: String, amount: i64 },
    GaugeSet { name: String, value: i64 },
}

/// The registry call one instruction gives rise to at span start.
/// Instructions whose metric name is empty are dropped, because the registry
/// refuses empty names; renames and weight overrides act through the scope
/// and the weight, not through a call of their own.
pub open spec fn span_action_entry(i: FieldInstruction, w: i64) -> Seq<AppliedAction> {
    match i {
        FieldInstruction::StartTimer { name } => if name@.len() > 0 {
            seq![AppliedAction::TimerStarted { name }]
        } else {
            Seq::empty()
        },
        FieldInstruction::AdjustLevel { name } => if name@.len() > 0 {
            seq![AppliedAction::LevelRaised { name, amount: w }]
        } else {
            Seq::empty()
        },
        FieldInstruction::IncrementCounter { name } => if name@.len() > 0 {
            seq![AppliedAction::Counted { name, amount: w }]
        } else {
            Seq::empty()
        },
        FieldInstruction::SetGauge { name } => if name@.len() > 0 {
            seq![AppliedAction::GaugeSet { name, value: w }]
        } else {
            Seq::empty()
        },
        _ => Seq::empty(),
    }
}

/// The registry calls made at span start, in instruction order.
pub open spec fn span_actions_spec(instrs: Seq<FieldInstruction>, w: i64) -> Seq<AppliedAction>
    decreases instrs.len(),
{
    if instrs.len() == 0 {
        Seq::empty()
    } else {
        span_actions_spec(instrs.drop_last(), w) + span_action_entry(instrs.last(), w)
    }
}

/// The registry call one instruction gives rise to on an event: only
/// counters and gauges act at event granularity; timer and level
/// instructions on a bare event are ignored.
pub open spec fn event_action_entry(i: FieldInstruction, w: i64) -> Seq<AppliedAction> {
    match i {
        FieldInstruction::IncrementCounter { name } => if name@.len() > 0 {
            seq![AppliedAction::Counted { name, amount: w }]
        } else {
            Seq::empty()
        },
        FieldInstruction::SetGauge { name } => if name@.len() > 0 {
            seq![AppliedAction::GaugeSet { name, value: w }]
        } else {
            Seq::empty()
        },
        _ => Seq::empty(),
    }
}

/// The registry calls made on an event, in instruction order.
pub open spec fn event_actions_spec(instrs: Seq<FieldInstruction>, w: i64) -> Seq<AppliedAction>
    decreases instrs.len(),
{
    if instrs.len() == 0 {
        Seq::empty()
    } else {
        event_actions_spec(instrs.drop_last(), w) + event_action_entry(instrs.last(), w)
    }
}

/// The name of the span's open timer: the last timer instruction with a
/// non-empty name wins; earlier ones still start a measurement, but only the
/// last one's handle is retained for the stop at close.
pub open spec fn last_timer(instrs: Seq<FieldInstruction>) -> Option<String>
    decreases instrs.len(),
{
    if instrs.len() == 0 {
        None
    } else {
        match instrs.last() {
            FieldInstruction::StartTimer { name } => if name@.len() > 0 {
                Some(name)
            } else {
                last_timer(instrs.drop_last())
            },
            _ => last_timer(instrs.drop_last()),
        }
    }
}

/// The name of the span's open level: the last level instruction with a
/// non-empty name wins; earlier ones still adjust their level upward, but
/// only the last one's handle is reverted at close.
pub open spec fn last_level(instrs: Seq<FieldInstruction>) -> Option<String>
    decreases instrs.len(),
{
    if instrs.len() == 0 {
        None
    } else {
        match instrs.last() {
            FieldInstruction::AdjustLevel { name } => if name@.len() > 0 {
                Some(name)
            } else {
                last_level(instrs.drop_last())
            },
            _ => last_level(instrs.drop_last()),
        }
    }
}

/// One unfolding step of `span_actions_spec` along a prefix.
pub proof fn lemma_span_actions_step(instrs: Seq<FieldInstruction>, j: int, w: i64)
    requires
        0 <= j < instrs.len(),
    ensures
        span_actions_spec(instrs.take(j + 1), w) == span_actions_spec(instrs.take(j), w)
            + span_action_entry(instrs[j], w),
{
    assert(instrs.take(j + 1).drop_last() =~= instrs.take(j));
    assert(instrs.take(j + 1).last() == instrs[j]);
}

/// One unfolding step of `event_actions_spec` along a prefix.
pub proof fn lemma_event_actions_step(instrs: Seq<FieldInstruction>, j: int, w: i64)
    requires
        0 <= j < instrs.len(),
    ensures
        event_actions_spec(instrs.take(j + 1), w) == event_actions_spec(instrs.take(j), w)
            + event_action_entry(instrs[j], w),
{
    assert(instrs.take(j + 1).drop_last() =~= instrs.take(j));
    assert(instrs.take(j + 1).last() == instrs[j]);
}

/// One unfolding step of `last_timer` along a prefix.
pub proof fn lemma_last_timer_step(instrs: Seq<FieldInstruction>, j: int)
    requires
        0 <= j < instrs.len(),
    ensures
        last_timer(instrs.take(j + 1)) == match instrs[j] {
            FieldInstruction::StartTimer { name } => if name@.len() > 0 {
                Some(name)
            } else {
                last_timer(instrs.take(j))
            },
            _ => last_timer(instrs.take(j)),
        },
{
    assert(instrs.take(j + 1).drop_last() =~= instrs.take(j));
    assert(instrs.take(j + 1).last() == instrs[j]);
}

/// One unfolding step of `last_level` along a prefix.
pub proof fn lemma_last_level_step(instrs: Seq<FieldInstruction>, j: int)
    requires
        0 <= j < instrs.len(),
    ensures
        last_level(instrs.take(j + 1)) == match instrs[j] {
            FieldInstruction::AdjustLevel { name } => if name@.len() > 0 {
                Some(name)
            } else {
                last_level(instrs.take(j))
            },
            _ => last_level(instrs.take(j)),
        },
{
    assert(instrs.take(j + 1).drop_last() =~= instrs.take(j));
    assert(instrs.take(j + 1).last() == instrs[j]);
}

/// The abstract value of a stored span context.
pub ghost struct CtxModel {
    /// The resolved scope's name segments.
    pub path: Seq<Seq<char>>,
    /// The span's weight, default 1, captured at creation and reused at
    /// close.
    pub weight: i64,
    /// The name of the open timer, if one was started.
    pub timer: Option<String>,
    /// The name of the open level adjustment, if one was made.
    pub level: Option<String>,
}

/// Per-span state, created exactly once at span start and consumed exactly
/// once at span close.
pub struct SpanContext {
    scope: MetricScope,
    weight: i64,
    open_timer: Option<(dipstick::Timer, dipstick::TimeHandle)>,
    open_level: Option<dipstick::Level>,
    timer_name: Option<String>,
    level_name: Option<String>,
}

impl SpanContext {
    /// A timer handle is retained exactly when a timer name is, and likewise
    /// for levels.
    #[verifier::type_invariant]
    closed spec fn wf(self) -> bool {
        &&& self.open_timer is Some <==> self.timer_name is Some
        &&& self.open_level is Some <==> self.level_name is Some
    }

    /// The context's resolved scope.
    pub fn scope(&self) -> (r: &MetricScope)
        ensures
            r@ == self@.path,
    {
        &self.scope
    }

    /// The context's weight.
    pub fn weight(&self) -> (r: i64)
        ensures
            r == self@.weight,
    {
        self.weight
    }
}

impl View for SpanContext {
    type V = CtxModel;

    closed spec fn view(&self) -> CtxModel {
        CtxModel {
            path: self.scope@,
            weight: self.weight,
            timer: self.timer_name,
            level: self.level_name,
        }
    }
}

/// The context a span's start stores, given the nearest live ancestor's path
/// and the span's fields.
pub open spec fn span_ctx_model(parent: Seq<Seq<char>>, fields: Seq<Field>) -> CtxModel {
    let instrs = instructions_spec(fields);
    CtxModel {
        path: resolve_path(parent, last_naming(instrs)),
        weight: weight_spec(instrs),
        timer: last_timer(instrs),
        level: last_level(instrs),
    }
}

/// The abstract value of the whole layer: the root path and the stored
/// contexts, keyed by span identity.
pub ghost struct LayerModel {
    pub root: Seq<Seq<char>>,
    pub spans: Map<u64, CtxModel>,
}

/// The negation a close applies to its open level: exact for every weight
/// but the smallest, which wraps onto itself.
pub open spec fn wrap_neg(w: i64) -> i64 {
    if w == i64::MIN {
        i64::MIN
    } else {
        (-w) as i64
    }
}

/// What a close did: the stopped timer's name, and the reverted level's name
/// with the amount of the reversal.
#[derive(Debug, Clone, PartialEq, Eq)]
pub struct CloseReceipt {
    pub timer_stopped: Option<String>,
    pub level_adjusted: Option<(String, i64)>,
}

/// The receipt a close of a context with the given model must produce.
pub open spec fn close_receipt_spec(c: CtxModel) -> CloseReceipt {
    CloseReceipt {
        timer_stopped: c.timer,
        level_adjusted: match c.level {
            Some(l) => Some((l, wrap_neg(c.weight))),
            None => None,
        },
    }
}

/// The scope path in force for a record: the stored context of the nearest
/// live ancestor span, or the root path when there is none (or when, against
/// the start/close pairing, no context is stored for it).
pub open spec fn ancestor_path(m: LayerModel, current: Option<u64>) -> Seq<Seq<char>> {
    match current {
        Some(p) => if m.spans.contains_key(p) {
            m.spans[p].path
        } else {
            m.root
        },
        None => m.root,
    }
}

/// The record-to-metric translation layer: holds the process root scope and
/// the live span contexts.
pub struct DipstickLayer {
    root: MetricScope,
    spans: HashMap<u64, SpanContext>,
}

impl View for DipstickLayer {
    type V = LayerModel;

    closed spec fn view(&self) -> LayerModel {
        LayerModel {
            root: self.root@,
            spans: self.spans@.map_values(|c: SpanContext| c@),
        }
    }
}

impl DipstickLayer {
    /// A fresh layer over the given root scope, with no live span.
    pub fn new(input_scope: MetricScope) -> (r: DipstickLayer)
        ensures
            r@.root == input_scope@,
            r@.spans == Map::<u64, CtxModel>::empty(),
    {
        let r = DipstickLayer { root: input_scope, spans: HashMap::new() };
        proof {
            assert(r@.spans =~= Map::<u64, CtxModel>::empty());
        }
        r
    }

    /// Whether a context is stored for the given span. A close is legal only
    /// while this holds.
    pub fn has_span(&self, id: u64) -> (r: bool)
        ensures
            r == self@.spans.contains_key(id),
    {
        let r = self.spans.contains_key(&id);
        proof {
            assert(self.spans@.contains_key(id) == self@.spans.contains_key(id));
        }
        r
    }

    /// The nearest stored scope for a record, or the root scope.
    fn active_scope(&self, current: Option<u64>) -> (r: &MetricScope)
        ensures
            r@ == ancestor_path(self@, current),
    {
        let r = match current {
            Some(p) => match self.spans.get(&p) {
                Some(c) => &c.scope,
                None => &self.root,
            },
            None => &self.root,
        };
        proof {
            if let Some(p) = current {
                if self.spans@.contains_key(p) {
                    assert(self@.spans.contains_key(p));
                    assert(self@.spans[p] == self.spans@[p]@);
                }
            }
        }
        r
    }

    /// Handles a span's start: resolves the scope from the nearest live
    /// ancestor's context (`parent`), applies the immediate instructions of
    /// `fields`, and stores the new context under `id`. Returns the registry
    /// calls made, in order.
    pub fn new_span(&mut self, parent: Option<u64>, id: u64, fields: &Vec<Field>) -> (r: Vec<
        AppliedAction,
    >)
        ensures
            final(self)@.root == old(self)@.root,
            final(self)@.spans == old(self)@.spans.insert(
                id,
                span_ctx_model(ancestor_path(old(self)@, parent), fields@),
            ),
            r@ == span_actions_spec(
                instructions_spec(fields@),
                weight_spec(instructions_spec(fields@)),
            ),
    {
        let base = self.active_scope(parent).duplicate();
        let instrs = parse_fields(fields);
        let naming = compute_naming(&instrs);
        let scope = resolve_scope(&base, &naming);
        let weight = compute_weight(&instrs);

        let mut actions: Vec<AppliedAction> = Vec::new();
        let mut open_timer: Option<(dipstick::Timer, dipstick::TimeHandle)> = None;
        let mut open_level: Option<dipstick::Level> = None;
        let mut timer_name: Option<String> = None;
        let mut level_name: Option<String> = None;
        let n = instrs.len();
        for j in 0..n
            invariant
                n == instrs.len(),
                actions@ == span_actions_spec(instrs@.take(j as int), weight),
                timer_name == last_timer(instrs@.take(j as int)),
                level_name == last_level(instrs@.take(j as int)),
                open_timer is Some <==> timer_name is Some,
                open_level is Some <==> level_name is Some,
        {
            proof {
                lemma_span_actions_step(instrs@, j as int, weight);
                lemma_last_timer_step(instrs@, j as int);
                lemma_last_level_step(instrs@, j as int);
            }
            match &instrs[j] {
                FieldInstruction::StartTimer { name } => {
                    if !name.as_str().is_empty() {
                        let t = registry::bucket_timer(scope.bucket(), name.as_str());
                        let h = registry::timer_start(&t);
                        open_timer = Some((t, h));
                        timer_name = Some(name.clone());
                        actions.push(AppliedAction::TimerStarted { name: name.clone() });
                    }
                },
                FieldInstruction::AdjustLevel { name } => {
                    if !name.as_str().is_empty() {
                        let l = registry::bucket_level(scope.bucket(), name.as_str());
                        registry::level_adjust(&l, #[verifier::truncate] (weight as isize));
                        open_level = Some(l);
                        level_name = Some(name.clone());
                        actions.push(
                            AppliedAction::LevelRaised { name: name.clone(), amount: weight },
                        );
                    }
                },
                FieldInstruction::IncrementCounter { name } => {
                    if !name.as_str().is_empty() {
                        let c = registry::bucket_counter(scope.bucket(), name.as_str());
                        registry::counter_count(&c, #[verifier::truncate] (weight as usize));
                        actions.push(
                            AppliedAction::Counted { name: name.clone(), amount: weight },
                        );
                    }
                },
                FieldInstruction::SetGauge { name } => {
                    if !name.as_str().is_empty() {
                        let g = registry::bucket_gauge(scope.bucket(), name.as_str());
                        registry::gauge_value(&g, #[verifier::truncate] (weight as isize));
                        actions.push(
                            AppliedAction::GaugeSet { name: name.clone(), value: weight },
                        );
                    }
                },
                _ => (),
            }
        }
        proof {
            assert(instrs@.take(n as int) =~= instrs@);
        }

        let ctx = SpanContext { scope, weight, open_timer, open_level, timer_name, level_name };
        let ghost old_spans = self.spans@;
        self.spans.insert(id, ctx);
        proof {
            assert(self@.spans =~= old_spans.map_values(|c: SpanContext| c@).insert(id, ctx@));
        }
        actions
    }

    /// Handles an event: applies its counter and gauge instructions against
    /// the nearest stored scope (`current`), or the root scope when no span
    /// is active. Returns the path the actions were applied under and the
    /// registry calls made, in order.
    pub fn on_event(&self, current: Option<u64>, fields: &Vec<Field>) -> (r: (
        Vec<String>,
        Vec<AppliedAction>,
    ))
        ensures
            r.0.deep_view() == ancestor_path(self@, current),
            r.1@ == event_actions_spec(
                instructions_spec(fields@),
                weight_spec(instructions_spec(fields@)),
            ),
    {
        let scope = self.active_scope(current);
        let instrs = parse_fields(fields);
        let weight = compute_weight(&instrs);

        let mut actions: Vec<AppliedAction> = Vec::new();
        let n = instrs.len();
        for j in 0..n
            invariant
                n == instrs.len(),
                actions@ == event_actions_spec(instrs@.take(j as int), weight),
        {
            proof {
                lemma_event_actions_step(instrs@, j as int, weight);
            }
            match &instrs[j] {
                FieldInstruction::IncrementCounter { name } => {
                    if !name.as_str().is_empty() {
                        let c = registry::bucket_counter(scope.bucket(), name.as_str());
                        registry::counter_count(&c, #[verifier::truncate] (weight as usize));
                        actions.push(
                            AppliedAction::Counted { name: name.clone(), amount: weight },
                        );
                    }
                },
                FieldInstruction::SetGauge { name } => {
                    if !name.as_str().is_empty() {
                        let g = registry::bucket_gauge(scope.bucket(), name.as_str());
                        registry::gauge_value(&g, #[verifier::truncate] (weight as isize));
                        actions.push(
                            AppliedAction::GaugeSet { name: name.clone(), value: weight },
                        );
                    }
                },
                _ => (),
            }
        }
        proof {
            assert(instrs@.take(n as int) =~= instrs@);
        }
        (scope.path_owned(), actions)
    }

    /// Handles a span's close: removes the span's context, stops the open
    /// timer with the start marker captured at creation, and reverts the
    /// open level by the weight captured at creation. A close for a span
    /// with no stored context is a lifecycle violation by the caller and is
    /// excluded here; the caller must treat it as fatal.
    pub fn on_close(&mut self, id: u64) -> (r: CloseReceipt)
        requires
            old(self)@.spans.contains_key(id),
        ensures
            final(self)@.root == old(self)@.root,
            final(self)@.spans == old(self)@.spans.remove(id),
            r == close_receipt_spec(old(self)@.spans[id]),
    {
        let ghost old_spans = self.spans@;
        let removed = self.spans.remove(&id);
        proof {
            assert(self@.spans =~= old_spans.map_values(|c: SpanContext| c@).remove(id));
        }
        match removed {
            Some(ctx) => {
                proof {
                    use_type_invariant(&ctx);
                    assert(old(self)@.spans[id] == ctx@);
                }
                if let Some((t, h)) = &ctx.open_timer {
                    registry::timer_stop(t, h);
                }
                let reversal: i64 = if ctx.weight == i64::MIN {
                    i64::MIN
                } else {
                    -ctx.weight
                };
                if let Some(l) = &ctx.open_level {
                    registry::level_adjust(l, #[verifier::truncate] (reversal as isize));
                }
                CloseReceipt {
                    timer_stopped: ctx.timer_name,
                    level_adjusted: match ctx.level_name {
                        Some(name) => Some((name, reversal)),
                        None => None,
                    },
                }
            },
            None => {
                proof {
                    assert(old_spans.contains_key(id));
                    assert(false);
                }
                vstd::pervasive::unreached()
            },
        }
    }
}

} // verus!
