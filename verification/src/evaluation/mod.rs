//! Evaluation of parsed dice expressions: operand values, roll records, and
//! the tree walker that threads the randomness source.

pub mod operand;
pub mod roll_types;

pub use operand::Operand;
pub use operand::OperandType;
pub use roll_types::DiceEvaluation;
pub use roll_types::Roll;
pub use roll_types::RollGroup;
pub use roll_types::RollId;

use crate::error::evaluation_error::EvaluationError;
use crate::operator::comp_op::CompOperator;
use crate::operator::function::spec_dice_shape;
use crate::operator::function::spec_filtered;
use crate::operator::OpToken;
use crate::operator::UnaryOpToken;
use crate::parsing::node_view;
use crate::parsing::GNode;
use crate::parsing::Node;
use crate::rational::rat_add;
use crate::rational::rat_div;
use crate::rational::rat_mul;
use crate::rational::rat_neg;
use crate::rational::rat_pow;
use crate::rational::rat_rem;
use crate::rational::rat_sub;
use crate::rational::Rat;
use crate::RangeRng;
use crate::rational::rat_of_int;
use operand::spec_value;
use roll_types::spec_group_wf;
use roll_types::spec_total_sat;
use vstd::prelude::*;

verus! {

/// Whether the tree is free of dice operators: such a tree evaluates to one
/// value, the same on every run, with no roll groups produced.
pub open spec fn no_dice(n: GNode) -> bool
    decreases n,
{
    match n {
        GNode::Leaf(_) => true,
        GNode::Unary { operator, argument } => operator.token != UnaryOpToken::Dice && no_dice(
            *argument,
        ),
        GNode::Binary { operator, left, right } => operator.token != OpToken::Dice && no_dice(
            *left,
        ) && no_dice(*right),
        GNode::ComparisonTernary { .. } => false,
    }
}

/// The value of a dice-free tree: the exact saturating rational arithmetic
/// of this library, applied node by node.
pub open spec fn spec_eval_pure(n: GNode) -> Rat
    decreases n,
{
    match n {
        GNode::Leaf(v) => v,
        GNode::Unary { operator, argument } => match operator.token {
            UnaryOpToken::Plus => spec_eval_pure(*argument),
            UnaryOpToken::Minus => rat_neg(spec_eval_pure(*argument)),
            UnaryOpToken::Dice => arbitrary(),
        },
        GNode::Binary { operator, left, right } => match operator.token {
            OpToken::Plus => rat_add(spec_eval_pure(*left), spec_eval_pure(*right)),
            OpToken::Minus => rat_sub(spec_eval_pure(*left), spec_eval_pure(*right)),
            OpToken::Multiply => rat_mul(spec_eval_pure(*left), spec_eval_pure(*right)),
            OpToken::Divide => rat_div(spec_eval_pure(*left), spec_eval_pure(*right)),
            OpToken::Modulus => rat_rem(spec_eval_pure(*left), spec_eval_pure(*right)),
            OpToken::Power => rat_pow(spec_eval_pure(*left), spec_eval_pure(*right)),
            OpToken::Dice => arbitrary(),
        },
        GNode::ComparisonTernary { .. } => arbitrary(),
    }
}

/// How many roll groups evaluating the tree produces: one for each dice
/// operator (binary, unary, or at the heart of a comparison ternary), in
/// evaluation order.
pub open spec fn spec_dice_count(n: GNode) -> nat
    decreases n,
{
    match n {
        GNode::Leaf(_) => 0,
        GNode::Unary { operator, argument } => spec_dice_count(*argument) + (if operator.token
            == UnaryOpToken::Dice {
            1nat
        } else {
            0nat
        }),
        GNode::Binary { operator, left, right } => spec_dice_count(*left) + spec_dice_count(*right)
            + (if operator.token == OpToken::Dice {
            1nat
        } else {
            0nat
        }),
        GNode::ComparisonTernary { comp_op: _, dice_left, dice_right, compare_to } => spec_dice_count(
            *dice_left,
        ) + spec_dice_count(*dice_right) + spec_dice_count(*compare_to) + 1,
    }
}

/// The value a tree takes once each of its dice operators' outcomes is
/// fixed: `trace` holds one final group state per dice operator, in
/// evaluation order (left to right, children before their node), and every
/// dice operator contributes its group's total.
pub open spec fn spec_eval_with(n: GNode, trace: Seq<RollGroup>) -> Rat
    decreases n,
{
    match n {
        GNode::Leaf(v) => v,
        GNode::Unary { operator, argument } => {
            let inner = spec_eval_with(
                *argument,
                trace.subrange(0, spec_dice_count(*argument) as int),
            );
            match operator.token {
                UnaryOpToken::Plus => inner,
                UnaryOpToken::Minus => rat_neg(inner),
                UnaryOpToken::Dice => rat_of_int(spec_total_sat(trace.last()@)),
            }
        },
        GNode::Binary { operator, left, right } => {
            let dl = spec_dice_count(*left) as int;
            let dr = spec_dice_count(*right) as int;
            let lv = spec_eval_with(*left, trace.subrange(0, dl));
            let rv = spec_eval_with(*right, trace.subrange(dl, dl + dr));
            match operator.token {
                OpToken::Plus => rat_add(lv, rv),
                OpToken::Minus => rat_sub(lv, rv),
                OpToken::Multiply => rat_mul(lv, rv),
                OpToken::Divide => rat_div(lv, rv),
                OpToken::Modulus => rat_rem(lv, rv),
                OpToken::Power => rat_pow(lv, rv),
                OpToken::Dice => rat_of_int(spec_total_sat(trace.last()@)),
            }
        },
        GNode::ComparisonTernary { .. } => rat_of_int(spec_total_sat(trace.last()@)),
    }
}

/// Whether `trace` is a possible record of the dice outcomes of one
/// evaluation of the tree: one group per dice operator, in evaluation
/// order, each shaped by its operator's operand values — a plain dice
/// operator's group has the clamped count and face values, and a
/// comparison ternary's group is such a fresh group filtered by the
/// comparison against the third operand's value.
pub open spec fn spec_trace_ok(n: GNode, trace: Seq<RollGroup>) -> bool
    decreases n,
{
    &&& trace.len() == spec_dice_count(n)
    &&& match n {
        GNode::Leaf(_) => true,
        GNode::Unary { operator, argument } => {
            let kids = trace.subrange(0, spec_dice_count(*argument) as int);
            &&& spec_trace_ok(*argument, kids)
            &&& (operator.token == UnaryOpToken::Dice ==> spec_dice_shape(
                trace.last(),
                1,
                crate::rational::rat_to_u32(spec_eval_with(*argument, kids)),
            ))
        },
        GNode::Binary { operator, left, right } => {
            let dl = spec_dice_count(*left) as int;
            let dr = spec_dice_count(*right) as int;
            let lk = trace.subrange(0, dl);
            let rk = trace.subrange(dl, dl + dr);
            &&& spec_trace_ok(*left, lk)
            &&& spec_trace_ok(*right, rk)
            &&& (operator.token == OpToken::Dice ==> spec_dice_shape(
                trace.last(),
                crate::rational::rat_to_u32(spec_eval_with(*left, lk)),
                crate::rational::rat_to_u32(spec_eval_with(*right, rk)),
            ))
        },
        GNode::ComparisonTernary { comp_op, dice_left, dice_right, compare_to } => {
            let d1 = spec_dice_count(*dice_left) as int;
            let d2 = spec_dice_count(*dice_right) as int;
            let d3 = spec_dice_count(*compare_to) as int;
            let k1 = trace.subrange(0, d1);
            let k2 = trace.subrange(d1, d1 + d2);
            let k3 = trace.subrange(d1 + d2, d1 + d2 + d3);
            &&& spec_trace_ok(*dice_left, k1)
            &&& spec_trace_ok(*dice_right, k2)
            &&& spec_trace_ok(*compare_to, k3)
            &&& exists|mid: RollGroup|
                #[trigger] spec_dice_shape(
                    mid,
                    crate::rational::rat_to_u32(spec_eval_with(*dice_left, k1)),
                    crate::rational::rat_to_u32(spec_eval_with(*dice_right, k2)),
                ) && trace.last().faces == mid.faces && spec_filtered(
                    mid@,
                    comp_op,
                    spec_eval_with(*compare_to, k3),
                    trace.last()@,
                )
        },
    }
}

/// The index of the first entry with the given key, or `-1` when no entry
/// has it.
pub open spec fn spec_key_index(entries: Seq<(RollId, RollGroup)>, key: RollId) -> int
    decreases entries.len(),
{
    if entries.len() == 0 {
        -1
    } else if entries[0].0 == key {
        0
    } else {
        let rest = spec_key_index(entries.skip(1), key);
        if rest == -1 {
            -1
        } else {
            rest + 1
        }
    }
}

/// One insertion into the collector, as the map itself performs it: a
/// present key is overwritten in place, a new key goes to the end.
pub open spec fn spec_insert_entry(
    m: Seq<(RollId, RollGroup)>,
    key: RollId,
    value: RollGroup,
) -> Seq<(RollId, RollGroup)> {
    let at = spec_key_index(m, key);
    if at >= 0 {
        m.update(at, (key, value))
    } else {
        m.push((key, value))
    }
}

/// The collector after inserting each traced group under its identity, in
/// order: the map evolution one evaluation performs.
pub open spec fn spec_collect_into(
    m: Seq<(RollId, RollGroup)>,
    ids: Seq<RollId>,
    trace: Seq<RollGroup>,
) -> Seq<(RollId, RollGroup)>
    decreases ids.len(),
{
    if ids.len() == 0 {
        m
    } else {
        spec_collect_into(spec_insert_entry(m, ids[0], trace[0]), ids.skip(1), trace.skip(1))
    }
}

/// Collecting a concatenation collects the first part, then the second.
pub proof fn lemma_collect_concat(
    m: Seq<(RollId, RollGroup)>,
    ids1: Seq<RollId>,
    tr1: Seq<RollGroup>,
    ids2: Seq<RollId>,
    tr2: Seq<RollGroup>,
)
    requires
        ids1.len() == tr1.len(),
    ensures
        spec_collect_into(m, ids1 + ids2, tr1 + tr2) == spec_collect_into(
            spec_collect_into(m, ids1, tr1),
            ids2,
            tr2,
        ),
    decreases ids1.len(),
{
    if ids1.len() == 0 {
        assert(ids1 + ids2 =~= ids2);
        assert(tr1 + tr2 =~= tr2);
    } else {
        assert((ids1 + ids2)[0] == ids1[0]);
        assert((tr1 + tr2)[0] == tr1[0]);
        assert((ids1 + ids2).skip(1) =~= ids1.skip(1) + ids2);
        assert((tr1 + tr2).skip(1) =~= tr1.skip(1) + tr2);
        lemma_collect_concat(spec_insert_entry(m, ids1[0], tr1[0]), ids1.skip(1), tr1.skip(1), ids2, tr2);
    }
}

/// Collecting one more traced group is one more insertion.
pub proof fn lemma_collect_snoc(
    m: Seq<(RollId, RollGroup)>,
    ids: Seq<RollId>,
    trace: Seq<RollGroup>,
    key: RollId,
    value: RollGroup,
)
    requires
        ids.len() == trace.len(),
    ensures
        spec_collect_into(m, ids.push(key), trace.push(value)) == spec_insert_entry(
            spec_collect_into(m, ids, trace),
            key,
            value,
        ),
{
    assert(ids.push(key) =~= ids + seq![key]);
    assert(trace.push(value) =~= trace + seq![value]);
    lemma_collect_concat(m, ids, trace, seq![key], seq![value]);
    let folded = spec_collect_into(m, ids, trace);
    assert(seq![key][0] == key);
    assert(seq![value][0] == value);
    assert(seq![key].skip(1) =~= Seq::<RollId>::empty());
    assert(seq![value].skip(1) =~= Seq::<RollGroup>::empty());
    assert(spec_collect_into(folded, seq![key], seq![value]) == spec_collect_into(
        spec_insert_entry(folded, key, value),
        seq![key].skip(1),
        seq![value].skip(1),
    ));
}

/// What one node's evaluation owes, before its own group (if it makes one)
/// joins the trace: a number's value is the tree's arithmetic over the
/// children's traced outcomes; a roll operand's group is its node's own
/// outcome, joined to the children's as the trace's last element.
pub open spec fn spec_node_outcome(n: GNode, o: Operand, kids: Seq<RollGroup>) -> bool {
    match o {
        Operand::Number(_) => spec_trace_ok(n, kids) && spec_value(o) == spec_eval_with(n, kids),
        Operand::Roll { id: _, data } => spec_trace_ok(n, kids.push(data)) && spec_value(o)
            == spec_eval_with(n, kids.push(data)),
    }
}

/// One evaluation's full account: a trace of per-dice-operator outcomes and
/// the identities they were collected under, such that the operand's value
/// is the tree's arithmetic over the trace and the collector evolved by
/// exactly those insertions.
pub open spec fn spec_evaluation_outcome(
    n: GNode,
    o: Operand,
    before: Seq<(RollId, RollGroup)>,
    after: Seq<(RollId, RollGroup)>,
    trace: Seq<RollGroup>,
    ids: Seq<RollId>,
) -> bool {
    &&& ids.len() == trace.len()
    &&& spec_trace_ok(n, trace)
    &&& spec_value(o) == spec_eval_with(n, trace)
    &&& after == spec_collect_into(before, ids, trace)
}

/// Every group collected so far satisfies the roll-range invariant.
pub open spec fn all_groups_wf(entries: Seq<(RollId, RollGroup)>) -> bool {
    forall|i: int| 0 <= i < entries.len() ==> spec_group_wf((#[trigger] entries[i]).1)
}

/// An operand is safe to collect: if it is a roll, its group satisfies the
/// roll-range invariant.
pub open spec fn roll_data_wf(o: Operand) -> bool {
    match o {
        Operand::Roll { id: _, data } => spec_group_wf(data),
        Operand::Number(_) => true,
    }
}

/// The groups an evaluation reports, against the collector's entries: the
/// same groups, in the same order, by contents and face count.
pub open spec fn spec_groups_reported(
    groups: Seq<RollGroup>,
    entries: Seq<(RollId, RollGroup)>,
) -> bool {
    &&& groups.len() == entries.len()
    &&& forall|i: int|
        0 <= i < entries.len() ==> (#[trigger] groups[i])@ == entries[i].1@ && groups[i].faces
            == entries[i].1.faces
}

/// A whole evaluation's account: a trace of per-dice-operator outcomes and
/// the identities drawn for them, such that the reported value is the
/// tree's arithmetic over the trace and the reported groups are the traced
/// groups as the collector holds them — keyed by identity, in
/// first-insertion order, latest state kept.
pub open spec fn spec_evaluation_reported(
    n: GNode,
    ev: DiceEvaluation,
    trace: Seq<RollGroup>,
    ids: Seq<RollId>,
) -> bool {
    &&& ids.len() == trace.len()
    &&& spec_trace_ok(n, trace)
    &&& ev.value@ == spec_eval_with(n, trace)
    &&& spec_groups_reported(
        ev.roll_groups@,
        spec_collect_into(Seq::<(RollId, RollGroup)>::empty(), ids, trace),
    )
}

/// Evaluates a parsed tree against the randomness source.  Evaluation of a
/// parsed tree always succeeds, and the result is accounted for by a trace
/// of dice outcomes: one group per dice operator in evaluation order, each
/// shaped by its operator's operand values (`spec_trace_ok`), the value the
/// tree's arithmetic over those outcomes, and the reported groups exactly
/// the collector's entries for them.  Every roll of every reported group
/// lies in `[1, faces]` of its group, and a dice-free tree yields its exact
/// arithmetic value and no groups.
pub(crate) fn evaluate_tree<R: RangeRng>(parse_tree: Node, rng: &mut R) -> (r: Result<
    DiceEvaluation,
    EvaluationError,
>)
    ensures
        r is Ok,
        r matches Ok(ev) ==> forall|i: int|
            0 <= i < ev.roll_groups@.len() ==> spec_group_wf(#[trigger] ev.roll_groups@[i]),
        r matches Ok(ev) ==> ev.roll_groups@.len() <= spec_dice_count(node_view(parse_tree)) && (
        spec_dice_count(node_view(parse_tree)) >= 1 ==> ev.roll_groups@.len() >= 1),
        r matches Ok(ev) ==> exists|trace: Seq<RollGroup>, ids: Seq<RollId>|
            #[trigger] spec_evaluation_reported(node_view(parse_tree), ev, trace, ids),
        no_dice(node_view(parse_tree)) ==> (r matches Ok(ev) && ev.value@ == spec_eval_pure(
            node_view(parse_tree),
        ) && ev.roll_groups@.len() == 0),
{
    let ghost gv = node_view(parse_tree);
    let mut rolls = OrderedMap::new();
    let ghost m0 = rolls@;
    let outcome = evaluate_node(parse_tree, rng, &mut rolls);
    let operand = match outcome {
        Ok(operand) => operand,
        Err(e) => {
            return Err(e);
        },
    };
    let value = operand.into_value();
    let groups = rolls.values();
    proof {
        assert forall|i: int| 0 <= i < groups@.len() implies spec_group_wf(
            #[trigger] groups@[i],
        ) by {
            assert(spec_group_wf(rolls@[i].1));
        }
        let (t, ids) = choose|t: Seq<RollGroup>, ids: Seq<RollId>|
            spec_evaluation_outcome(gv, operand, m0, rolls@, t, ids);
        assert(m0 =~= Seq::<(RollId, RollGroup)>::empty());
        assert(spec_evaluation_reported(
            gv,
            DiceEvaluation { value, roll_groups: groups },
            t,
            ids,
        ));
    }
    Ok(DiceEvaluation { value, roll_groups: groups })
}

/// Evaluates one node, collecting each roll operand produced into the map
/// under its identity.  The result is accounted for by a trace of the dice
/// outcomes rolled here, with the collector evolving by exactly those
/// insertions (`spec_evaluation_outcome`).
#[verifier::rlimit(100)]
fn evaluate_node<R: RangeRng>(node: Node, rng: &mut R, rolls: &mut OrderedMap) -> (r: Result<
    Operand,
    EvaluationError,
>)
    requires
        all_groups_wf(old(rolls)@),
    ensures
        r is Ok,
        all_groups_wf(final(rolls)@),
        r matches Ok(o) ==> roll_data_wf(o),
        old(rolls)@.len() <= final(rolls)@.len(),
        final(rolls)@.len() <= old(rolls)@.len() + spec_dice_count(node_view(node)),
        spec_dice_count(node_view(node)) >= 1 ==> final(rolls)@.len() >= 1,
        forall|i: int|
            0 <= i < old(rolls)@.len() ==> (#[trigger] final(rolls)@[i]).0 == old(rolls)@[i].0,
        r matches Ok(o) ==> exists|trace: Seq<RollGroup>, ids: Seq<RollId>|
            #[trigger] spec_evaluation_outcome(
                node_view(node),
                o,
                old(rolls)@,
                final(rolls)@,
                trace,
                ids,
            ),
        no_dice(node_view(node)) ==> final(rolls)@ == old(rolls)@ && (r matches Ok(o) && o
            is Number && spec_value(o) == spec_eval_pure(node_view(node))),
    decreases node,
{
    let ghost gv = node_view(node);
    let ghost m_in = old(rolls)@;
    let ghost mut kids_trace: Seq<RollGroup> = Seq::empty();
    let ghost mut kids_ids: Seq<RollId> = Seq::empty();
    let operand = match node {
        Node::Leaf(n) => {
            proof {
                assert(spec_trace_ok(gv, kids_trace));
                assert(spec_node_outcome(gv, Operand::Number(n), kids_trace));
            }
            Operand::Number(n)
        },
        Node::Unary { operator, argument } => {
            let ghost ga = node_view(*argument);
            let ghost m0 = rolls@;
            let arg = match evaluate_node(*argument, rng, rolls) {
                Ok(arg) => arg,
                Err(e) => {
                    return Err(e);
                },
            };
            let out = operator.eval(arg, rng);
            proof {
                let (t1, i1) = choose|t1: Seq<RollGroup>, i1: Seq<RollId>|
                    spec_evaluation_outcome(ga, arg, m0, rolls@, t1, i1);
                kids_trace = t1;
                kids_ids = i1;
                assert(t1.subrange(0, t1.len() as int) =~= t1);
                if operator.token == UnaryOpToken::Dice {
                    let g0 = choose|g: RollGroup|
                        crate::evaluation::operand::spec_is_roll_of(out, g) && spec_dice_shape(
                            g,
                            1,
                            crate::rational::rat_to_u32(spec_value(arg)),
                        );
                    assert(t1.push(g0).subrange(0, t1.len() as int) =~= t1);
                    assert(spec_node_outcome(gv, out, t1));
                } else {
                    assert(spec_node_outcome(gv, out, t1));
                }
            }
            out
        },
        Node::Binary { operator, left, right } => {
            let ghost gl = node_view(*left);
            let ghost gr = node_view(*right);
            let ghost m0 = rolls@;
            let l = match evaluate_node(*left, rng, rolls) {
                Ok(l) => l,
                Err(e) => {
                    return Err(e);
                },
            };
            let ghost m1 = rolls@;
            let rhs = match evaluate_node(*right, rng, rolls) {
                Ok(rhs) => rhs,
                Err(e) => {
                    return Err(e);
                },
            };
            let out = operator.eval(l, rhs, rng);
            proof {
                let (t1, i1) = choose|t1: Seq<RollGroup>, i1: Seq<RollId>|
                    spec_evaluation_outcome(gl, l, m0, m1, t1, i1);
                let (t2, i2) = choose|t2: Seq<RollGroup>, i2: Seq<RollId>|
                    spec_evaluation_outcome(gr, rhs, m1, rolls@, t2, i2);
                kids_trace = t1 + t2;
                kids_ids = i1 + i2;
                lemma_collect_concat(m0, i1, t1, i2, t2);
                assert(rolls@ == spec_collect_into(m0, kids_ids, kids_trace));
                assert(kids_trace.subrange(0, t1.len() as int) =~= t1);
                assert(kids_trace.subrange(t1.len() as int, kids_trace.len() as int) =~= t2);
                if operator.token == OpToken::Dice {
                    let g0 = choose|g: RollGroup|
                        crate::evaluation::operand::spec_is_roll_of(out, g) && spec_dice_shape(
                            g,
                            crate::rational::rat_to_u32(spec_value(l)),
                            crate::rational::rat_to_u32(spec_value(rhs)),
                        );
                    assert(kids_trace.push(g0).subrange(0, t1.len() as int) =~= t1);
                    assert(kids_trace.push(g0).subrange(
                        t1.len() as int,
                        kids_trace.len() as int,
                    ) =~= t2);
                    assert(spec_node_outcome(gv, out, kids_trace));
                } else {
                    assert(spec_node_outcome(gv, out, kids_trace));
                }
            }
            out
        },
        Node::ComparisonTernary { comp_op, dice_left, dice_right, compare_to } => {
            let ghost g1 = node_view(*dice_left);
            let ghost g2 = node_view(*dice_right);
            let ghost g3 = node_view(*compare_to);
            let ghost m0 = rolls@;
            let dl = match evaluate_node(*dice_left, rng, rolls) {
                Ok(dl) => dl,
                Err(e) => {
                    return Err(e);
                },
            };
            let ghost m1 = rolls@;
            let dr = match evaluate_node(*dice_right, rng, rolls) {
                Ok(dr) => dr,
                Err(e) => {
                    return Err(e);
                },
            };
            let ghost m2 = rolls@;
            let ct = match evaluate_node(*compare_to, rng, rolls) {
                Ok(ct) => ct,
                Err(e) => {
                    return Err(e);
                },
            };
            let out = comp_op.eval(dl, dr, ct, rng);
            proof {
                let (t1, i1) = choose|t1: Seq<RollGroup>, i1: Seq<RollId>|
                    spec_evaluation_outcome(g1, dl, m0, m1, t1, i1);
                let (t2, i2) = choose|t2: Seq<RollGroup>, i2: Seq<RollId>|
                    spec_evaluation_outcome(g2, dr, m1, m2, t2, i2);
                let (t3, i3) = choose|t3: Seq<RollGroup>, i3: Seq<RollId>|
                    spec_evaluation_outcome(g3, ct, m2, rolls@, t3, i3);
                kids_trace = t1 + t2 + t3;
                kids_ids = i1 + i2 + i3;
                lemma_collect_concat(m0, i1, t1, i2, t2);
                lemma_collect_concat(m0, i1 + i2, t1 + t2, i3, t3);
                assert(rolls@ == spec_collect_into(m0, kids_ids, kids_trace));
                let d1 = t1.len() as int;
                let d2 = t2.len() as int;
                let d3 = t3.len() as int;
                let mid = choose|mid: RollGroup|
                    spec_dice_shape(
                        mid,
                        crate::rational::rat_to_u32(spec_value(dl)),
                        crate::rational::rat_to_u32(spec_value(dr)),
                    ) && (out matches Operand::Roll { id: _, data } && data.faces == mid.faces
                        && spec_filtered(mid@, comp_op, spec_value(ct), data@));
                let gdata = match &out {
                    Operand::Roll { id: _, data } => *data,
                    Operand::Number(_) => arbitrary(),
                };
                let full = kids_trace.push(gdata);
                assert(full.subrange(0, d1) =~= t1);
                assert(full.subrange(d1, d1 + d2) =~= t2);
                assert(full.subrange(d1 + d2, d1 + d2 + d3) =~= t3);
                assert(spec_value(dl) == spec_eval_with(g1, t1));
                assert(spec_value(dr) == spec_eval_with(g2, t2));
                assert(spec_value(ct) == spec_eval_with(g3, t3));
                assert(spec_dice_shape(
                    mid,
                    crate::rational::rat_to_u32(spec_eval_with(g1, t1)),
                    crate::rational::rat_to_u32(spec_eval_with(g2, t2)),
                ) && full.last().faces == mid.faces && spec_filtered(
                    mid@,
                    comp_op,
                    spec_eval_with(g3, t3),
                    full.last()@,
                ));
                assert(spec_trace_ok(gv, full));
                assert(spec_eval_with(gv, full) == rat_of_int(spec_total_sat(gdata@)));
                assert(spec_node_outcome(gv, out, kids_trace));
            }
            out
        },
    };
    match operand {
        Operand::Number(v) => {
            proof {
                assert(spec_evaluation_outcome(
                    gv,
                    Operand::Number(v),
                    m_in,
                    rolls@,
                    kids_trace,
                    kids_ids,
                ));
            }
            Ok(Operand::Number(v))
        },
        Operand::Roll { id, data } => {
            let copy = data.clone();
            proof {
                assert forall|k: int| 0 <= k < copy@.len() implies 1 <= (
                #[trigger] copy@[k]).original_value <= copy.faces by {
                    assert(copy@[k] == data@[k]);
                }
            }
            let ghost entries = rolls@;
            rolls.insert(id, data);
            proof {
                let at = spec_key_index(entries, id);
                lemma_key_index_bounds(entries, id);
                assert(rolls@ == spec_insert_entry(entries, id, data));
                lemma_collect_snoc(m_in, kids_ids, kids_trace, id, data);
                assert forall|i: int| 0 <= i < entries.len() implies (#[trigger] rolls@[i]).0
                    == entries[i].0 by {
                    if at >= 0 {
                        if i == at {
                            assert(entries[at].0 == id);
                            assert(rolls@[i].0 == id);
                        } else {
                            assert(rolls@[i] == entries[i]);
                        }
                    } else {
                        assert(rolls@[i] == entries[i]);
                    }
                }
                assert forall|i: int| 0 <= i < rolls@.len() implies spec_group_wf(
                    (#[trigger] rolls@[i]).1,
                ) by {
                    if at >= 0 {
                        if i == at {
                            assert(rolls@[i].1 == data);
                        } else {
                            assert(rolls@[i] == entries[i]);
                            assert(spec_group_wf(entries[i].1));
                        }
                    } else {
                        if i == entries.len() {
                            assert(rolls@[i].1 == data);
                        } else {
                            assert(rolls@[i] == entries[i]);
                            assert(spec_group_wf(entries[i].1));
                        }
                    }
                }
                assert(spec_value(Operand::Roll { id, data: copy }) == spec_value(
                    Operand::Roll { id, data },
                ));
                assert(spec_evaluation_outcome(
                    gv,
                    Operand::Roll { id, data: copy },
                    m_in,
                    rolls@,
                    kids_trace.push(data),
                    kids_ids.push(id),
                ));
            }
            Ok(Operand::Roll { id, data: copy })
        },
    }
}

/// A present key's index lies within the entries and holds that key.
pub proof fn lemma_key_index_bounds(entries: Seq<(RollId, RollGroup)>, key: RollId)
    ensures
        spec_key_index(entries, key) == -1 || 0 <= spec_key_index(entries, key) < entries.len(),
        spec_key_index(entries, key) >= 0 ==> entries[spec_key_index(entries, key)].0 == key,
    decreases entries.len(),
{
    if entries.len() > 0 && entries[0].0 != key {
        lemma_key_index_bounds(entries.skip(1), key);
    }
}

/// A map from roll identities to their latest group state, iterated in the
/// order each identity was first inserted; overwriting a present key keeps
/// its position.
pub struct OrderedMap {
    entries: Vec<(RollId, RollGroup)>,
}

impl View for OrderedMap {
    type V = Seq<(RollId, RollGroup)>;

    closed spec fn view(&self) -> Seq<(RollId, RollGroup)> {
        self.entries@
    }
}

impl OrderedMap {
    /// The empty map.
    pub fn new() -> (r: OrderedMap)
        ensures
            r@ == Seq::<(RollId, RollGroup)>::empty(),
    {
        OrderedMap { entries: Vec::new() }
    }

    /// Inserts under the key: a new key goes to the end, a key already
    /// present has its value replaced in place, keeping its position.
    pub fn insert(&mut self, key: RollId, value: RollGroup)
        ensures
            ({
                let at = spec_key_index(old(self)@, key);
                if at >= 0 {
                    final(self)@ == old(self)@.update(at, (key, value))
                } else {
                    final(self)@ == old(self)@.push((key, value))
                }
            }),
    {
        let mut i: usize = 0;
        proof {
            assert(self@.skip(0) =~= self@);
        }
        while i < self.entries.len()
            invariant
                0 <= i <= self.entries.len(),
                self == old(self),
                forall|j: int| 0 <= j < i ==> (#[trigger] self.entries@[j]).0 != key,
                spec_key_index(self@.skip(i as int), key) >= 0 ==> spec_key_index(self@, key)
                    == spec_key_index(self@.skip(i as int), key) + i,
                spec_key_index(self@.skip(i as int), key) == -1 ==> spec_key_index(self@, key)
                    == -1,
            decreases self.entries.len() - i,
        {
            proof {
                assert(self@.skip(i as int).skip(1) =~= self@.skip(i + 1));
                assert(self@.skip(i as int)[0] == self@[i as int]);
            }
            if self.entries[i].0 == key {
                self.entries.set(i, (key, value));
                proof {
                    assert(spec_key_index(old(self)@.skip(i as int), key) == 0);
                }
                return ;
            }
            i = i + 1;
        }
        proof {
            assert(self@.skip(i as int) =~= Seq::<(RollId, RollGroup)>::empty());
        }
        self.entries.push((key, value));
    }

    /// The values, one per key, in first-insertion order.
    pub fn values(&self) -> (r: Vec<RollGroup>)
        ensures
            r@.len() == self@.len(),
            forall|i: int|
                0 <= i < self@.len() ==> (#[trigger] r@[i])@ == self@[i].1@ && r@[i].faces
                    == self@[i].1.faces,
    {
        let mut out: Vec<RollGroup> = Vec::new();
        let mut i: usize = 0;
        while i < self.entries.len()
            invariant
                0 <= i <= self.entries.len(),
                out@.len() == i,
                forall|j: int|
                    0 <= j < i ==> (#[trigger] out@[j])@ == self@[j].1@ && out@[j].faces
                        == self@[j].1.faces,
            decreases self.entries.len() - i,
        {
            let entry = self.entries[i].1.clone();
            out.push(entry);
            i = i + 1;
        }
        out
    }
}


/// No entry holds the key: the key's index is `-1`.
proof fn lemma_key_index_absent(entries: Seq<(RollId, RollGroup)>, key: RollId)
    requires
        forall|k: int| 0 <= k < entries.len() ==> (#[trigger] entries[k]).0 != key,
    ensures
        spec_key_index(entries, key) == -1,
    decreases entries.len(),
{
    if entries.len() > 0 {
        assert(entries[0].0 != key);
        assert forall|k: int| 0 <= k < entries.skip(1).len() implies (#[trigger] entries.skip(
            1,
        )[k]).0 != key by {
            assert(entries.skip(1)[k] == entries[k + 1]);
        }
        lemma_key_index_absent(entries.skip(1), key);
    }
}

/// The first-encountered-order reading of the collector, made explicit:
/// when the drawn identities are pairwise distinct and fresh, collecting a
/// trace appends exactly one entry per traced group, in evaluation order,
/// each holding its group — the "one entry per distinct identity, in
/// first-insertion order, latest state" account of a dice evaluation.
pub proof fn lemma_distinct_ids_collect(
    m: Seq<(RollId, RollGroup)>,
    ids: Seq<RollId>,
    trace: Seq<RollGroup>,
)
    requires
        ids.len() == trace.len(),
        forall|i: int, j: int| 0 <= i < j < ids.len() ==> ids[i] != ids[j],
        forall|k: int, i: int|
            0 <= k < m.len() && 0 <= i < ids.len() ==> (#[trigger] m[k]).0 != #[trigger] ids[i],
    ensures
        spec_collect_into(m, ids, trace).len() == m.len() + ids.len(),
        forall|k: int|
            0 <= k < m.len() ==> #[trigger] spec_collect_into(m, ids, trace)[k] == m[k],
        forall|i: int|
            0 <= i < ids.len() ==> #[trigger] spec_collect_into(m, ids, trace)[m.len() + i] == (
            ids[i],
            trace[i],
        ),
    decreases ids.len(),
{
    if ids.len() > 0 {
        assert forall|k: int| 0 <= k < m.len() implies (#[trigger] m[k]).0 != ids[0] by {
            assert(m[k].0 != ids[0]);
        }
        lemma_key_index_absent(m, ids[0]);
        let pushed = m.push((ids[0], trace[0]));
        assert(spec_insert_entry(m, ids[0], trace[0]) == pushed);
        assert forall|k: int, i: int|
            0 <= k < pushed.len() && 0 <= i < ids.skip(1).len() implies (#[trigger] pushed[k]).0
            != #[trigger] ids.skip(1)[i] by {
            assert(ids.skip(1)[i] == ids[i + 1]);
            if k < m.len() {
                assert(m[k].0 != ids[i + 1]);
            } else {
                assert(pushed[k].0 == ids[0]);
            }
        }
        assert forall|i: int, j: int| 0 <= i < j < ids.skip(1).len() implies ids.skip(1)[i]
            != ids.skip(1)[j] by {
            assert(ids.skip(1)[i] == ids[i + 1]);
            assert(ids.skip(1)[j] == ids[j + 1]);
        }
        lemma_distinct_ids_collect(pushed, ids.skip(1), trace.skip(1));
        assert forall|i: int|
            0 <= i < ids.len() implies #[trigger] spec_collect_into(m, ids, trace)[m.len() + i]
            == (ids[i], trace[i]) by {
            if i == 0 {
                assert(spec_collect_into(pushed, ids.skip(1), trace.skip(1))[m.len() as int]
                    == pushed[m.len() as int]);
            } else {
                assert(spec_collect_into(pushed, ids.skip(1), trace.skip(1))[pushed.len() + (i
                    - 1)] == (ids.skip(1)[i - 1], trace.skip(1)[i - 1]));
                assert(ids.skip(1)[i - 1] == ids[i]);
                assert(trace.skip(1)[i - 1] == trace[i]);
            }
        }
    }
}

} // verus!
