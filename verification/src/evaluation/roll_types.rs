//! The runtime record of dice that were rolled: single rolls, groups of
//! rolls, roll identities, and the overall evaluation result.

use crate::rational::Rational;
use vstd::prelude::*;

verus! {

/// An individual die outcome: the value originally rolled, and whether a
/// comparison filter has since removed it from its group's total.
#[derive(Debug, PartialEq, Eq, PartialOrd, Ord, Clone, Copy, Structural)]
pub struct Roll {
    pub original_value: u32,
    pub removed: bool,
}

impl Roll {
    /// Whether the roll has been removed from its group's total.
    pub open spec fn spec_removed(self) -> bool {
        self.removed
    }

    /// A fresh roll of the given value, not removed.
    pub fn new(value: u32) -> (r: Roll)
        ensures
            r.original_value == value,
            !r.spec_removed(),
    {
        Roll { original_value: value, removed: false }
    }

    /// The roll's value, or `None` once the roll has been removed.
    pub fn value(&self) -> (r: Option<u32>)
        ensures
            r == (if self.spec_removed() {
                Option::<u32>::None
            } else {
                Option::<u32>::Some(self.original_value)
            }),
    {
        if self.removed {
            None
        } else {
            Some(self.original_value)
        }
    }

    /// Whether the roll has been removed from its group's total.
    pub fn is_removed(&self) -> (r: bool)
        ensures
            r == self.spec_removed(),
    {
        self.removed
    }

    /// The same roll, removed; the original value is kept for display.
    pub fn into_removed(self) -> (r: Roll)
        ensures
            r.original_value == self.original_value,
            r.spec_removed(),
    {
        Roll { removed: true, ..self }
    }

    /// Removes the roll in place.  Removal is monotonic: a removed roll is
    /// never un-removed.
    pub fn remove(&mut self)
        ensures
            final(self).original_value == old(self).original_value,
            final(self).spec_removed(),
    {
        self.removed = true;
    }

    /// Removes the roll unless the predicate holds of it.
    pub fn remove_unless<F: Fn(&Roll) -> bool>(&mut self, predicate: F)
        requires
            predicate.requires((&*old(self),)),
        ensures
            final(self).original_value == old(self).original_value,
            exists|keep: bool|
                predicate.ensures((&*old(self),), keep) && final(self).spec_removed() == (
                !keep || old(self).spec_removed()),
    {
        if !predicate(&*self) {
            self.remove();
        }
    }

    /// The same roll, removed unless the predicate holds of it.
    pub fn into_removed_unless<F: Fn(&Roll) -> bool>(self, predicate: F) -> (r: Roll)
        requires
            predicate.requires((&self,)),
        ensures
            r.original_value == self.original_value,
            exists|keep: bool|
                predicate.ensures((&self,), keep) && r.spec_removed() == (!keep
                    || self.spec_removed()),
    {
        if predicate(&self) {
            self
        } else {
            self.into_removed()
        }
    }
}

/// The sum of the values of the rolls not removed; zero for an empty group.
pub open spec fn spec_total(rolls: Seq<Roll>) -> int
    decreases rolls.len(),
{
    if rolls.len() == 0 {
        0
    } else {
        spec_total(rolls.drop_last()) + (if rolls.last().spec_removed() {
            0
        } else {
            rolls.last().original_value as int
        })
    }
}

/// The total a group reports: the sum of surviving values, held within `u32`.
pub open spec fn spec_total_sat(rolls: Seq<Roll>) -> int {
    if spec_total(rolls) > u32::MAX {
        u32::MAX as int
    } else {
        spec_total(rolls)
    }
}

/// Every roll value of the group lies in `[1, faces]`: the invariant that
/// every group produced by a dice operator satisfies.
pub open spec fn spec_group_wf(g: RollGroup) -> bool {
    forall|i: int| 0 <= i < g@.len() ==> 1 <= #[trigger] g@[i].original_value <= g.faces
}

/// A group of rolls together with the number of faces on the die they were
/// rolled from.
#[derive(Debug)]
pub struct RollGroup {
    pub rolls: Vec<Roll>,
    pub faces: u32,
}

impl Clone for RollGroup {
    /// A copy holding the same rolls and face count.
    fn clone(&self) -> (r: RollGroup)
        ensures
            r@ == self@,
            r.faces == self.faces,
    {
        RollGroup { rolls: self.iter(), faces: self.faces }
    }
}

impl View for RollGroup {
    type V = Seq<Roll>;

    closed spec fn view(&self) -> Seq<Roll> {
        self.rolls@
    }
}

impl RollGroup {
    /// A group from the number of faces and the individual rolls.
    pub fn new(faces: u32, rolls: Vec<Roll>) -> (r: RollGroup)
        ensures
            r.faces == faces,
            r@ == rolls@,
    {
        RollGroup { rolls, faces }
    }

    /// The sum of all rolls not filtered out, clamped into `u32`; zero for an
    /// empty group or one whose every roll was removed.
    pub fn total(&self) -> (r: u32)
        ensures
            r == spec_total_sat(self@),
    {
        let mut acc: u64 = 0;
        let mut i: usize = 0;
        proof {
            assert(self@.take(0) =~= Seq::<Roll>::empty());
        }
        while i < self.rolls.len()
            invariant
                0 <= i <= self.rolls.len(),
                self.rolls@ == self@,
                acc == spec_total_sat(self@.take(i as int)),
                acc <= u32::MAX,
            decreases self.rolls.len() - i,
        {
            proof {
                assert(self@.take(i + 1).drop_last() =~= self@.take(i as int));
                lemma_total_nonneg(self@.take(i as int));
            }
            let v = self.rolls[i];
            let add_on: u64 = if v.is_removed() {
                0
            } else {
                v.original_value as u64
            };
            let widened = acc + add_on;
            acc = if widened > u32::MAX as u64 {
                u32::MAX as u64
            } else {
                widened
            };
            i = i + 1;
        }
        proof {
            assert(self@.take(self@.len() as int) =~= self@);
        }
        acc as u32
    }

    /// How many rolls the group holds, removed ones included.
    pub fn len(&self) -> (r: usize)
        ensures
            r == self@.len(),
    {
        self.rolls.len()
    }

    /// Whether the group holds no rolls at all.
    pub fn is_empty(&self) -> (r: bool)
        ensures
            r == (self@.len() == 0),
    {
        self.rolls.len() == 0
    }

    /// The rolls of the group, in order.
    pub fn iter(&self) -> (r: Vec<Roll>)
        ensures
            r@ == self@,
    {
        let mut out: Vec<Roll> = Vec::new();
        let mut i: usize = 0;
        while i < self.rolls.len()
            invariant
                0 <= i <= self.rolls.len(),
                self.rolls@ == self@,
                out@ == self@.take(i as int),
            decreases self.rolls.len() - i,
        {
            out.push(self.rolls[i]);
            proof {
                assert(self@.take(i + 1) =~= self@.take(i as int).push(self@[i as int]));
            }
            i = i + 1;
        }
        proof {
            assert(self@.take(self@.len() as int) =~= self@);
        }
        out
    }
}

/// A well-formed group's total lies between zero and the group size times
/// the face count, whatever was removed.
pub proof fn lemma_group_total_bounds(g: RollGroup)
    requires
        spec_group_wf(g),
    ensures
        0 <= spec_total(g@) <= g@.len() * g.faces,
    decreases g@.len(),
{
    lemma_total_bounds_rec(g@, g.faces as int);
}

/// The inductive core of [`lemma_group_total_bounds`], over any roll
/// sequence whose values stay within the face count.
proof fn lemma_total_bounds_rec(rolls: Seq<Roll>, faces: int)
    requires
        forall|i: int| 0 <= i < rolls.len() ==> (#[trigger] rolls[i]).original_value <= faces,
    ensures
        0 <= spec_total(rolls) <= rolls.len() * faces,
    decreases rolls.len(),
{
    if rolls.len() == 0 {
        assert(rolls.len() * faces == 0) by (nonlinear_arith)
            requires
                rolls.len() == 0,
        ;
    } else {
        lemma_total_bounds_rec(rolls.drop_last(), faces);
        assert(rolls.len() * faces == (rolls.len() - 1) * faces + faces) by (nonlinear_arith);
        assert(rolls[rolls.len() - 1].original_value <= faces);
    }
}

/// A group total never goes below zero.
pub proof fn lemma_total_nonneg(rolls: Seq<Roll>)
    ensures
        spec_total(rolls) >= 0,
    decreases rolls.len(),
{
    if rolls.len() > 0 {
        lemma_total_nonneg(rolls.drop_last());
    }
}

impl PartialEq for RollGroup {
    /// Groups compare by their totals alone.
    fn eq(&self, other: &RollGroup) -> (r: bool) {
        self.total() == other.total()
    }
}

impl PartialOrd for RollGroup {
    /// Groups order by their totals alone.
    fn partial_cmp(&self, other: &RollGroup) -> (r: Option<core::cmp::Ordering>) {
        let a = self.total();
        let b = other.total();
        if a < b {
            Some(core::cmp::Ordering::Less)
        } else if a == b {
            Some(core::cmp::Ordering::Equal)
        } else {
            Some(core::cmp::Ordering::Greater)
        }
    }
}

impl vstd::std_specs::cmp::PartialOrdSpecImpl for RollGroup {
    open spec fn obeys_partial_cmp_spec() -> bool {
        true
    }

    open spec fn partial_cmp_spec(&self, other: &RollGroup) -> Option<core::cmp::Ordering> {
        if spec_total_sat(self@) < spec_total_sat(other@) {
            Some(core::cmp::Ordering::Less)
        } else if spec_total_sat(self@) == spec_total_sat(other@) {
            Some(core::cmp::Ordering::Equal)
        } else {
            Some(core::cmp::Ordering::Greater)
        }
    }
}

impl vstd::std_specs::cmp::PartialEqSpecImpl for RollGroup {
    open spec fn obeys_eq_spec() -> bool {
        true
    }

    open spec fn eq_spec(&self, other: &RollGroup) -> bool {
        spec_total_sat(self@) == spec_total_sat(other@)
    }
}

/// An opaque identity a roll group keeps through every later filtering, drawn
/// at random when the group is created.
#[derive(Debug, PartialEq, Eq, PartialOrd, Ord, Clone, Copy, Hash, Structural)]
pub struct RollId(u64);

impl RollId {
    /// A fresh identity.  Relies on `rand::random` for a random `u64`;
    /// nothing is promised of the value drawn, and distinctness from earlier
    /// identities is likely but not guaranteed.
    #[verifier::external_body]
    pub fn new() -> RollId {
        RollId(rand::random())
    }
}

impl Default for RollId {
    /// A fresh random identity, as [`RollId::new`] draws it.
    fn default() -> RollId {
        RollId::new()
    }
}

/// What an evaluation returns: the value of the whole expression, and every
/// distinct roll group produced on the way, in the order each was first
/// rolled.
#[derive(Debug)]
pub struct DiceEvaluation {
    pub value: Rational,
    pub roll_groups: Vec<RollGroup>,
}

/// All rolls of a sequence of groups, flattened in order.
pub open spec fn spec_ungrouped(groups: Seq<RollGroup>) -> Seq<Roll>
    decreases groups.len(),
{
    if groups.len() == 0 {
        Seq::empty()
    } else {
        spec_ungrouped(groups.drop_last()) + groups.last()@
    }
}

impl DiceEvaluation {
    /// Every individual roll of the evaluation, across all groups, in order.
    pub fn ungrouped_rolls(&self) -> (r: Vec<Roll>)
        ensures
            r@ == spec_ungrouped(self.roll_groups@),
    {
        let mut out: Vec<Roll> = Vec::new();
        let mut i: usize = 0;
        proof {
            assert(self.roll_groups@.take(0) =~= Seq::<RollGroup>::empty());
        }
        while i < self.roll_groups.len()
            invariant
                0 <= i <= self.roll_groups.len(),
                out@ == spec_ungrouped(self.roll_groups@.take(i as int)),
            decreases self.roll_groups.len() - i,
        {
            let mut rolls = self.roll_groups[i].iter();
            proof {
                assert(self.roll_groups@.take(i + 1).drop_last() =~= self.roll_groups@.take(
                    i as int,
                ));
                assert(self.roll_groups@.take(i + 1).last() == self.roll_groups@[i as int]);
            }
            out.append(&mut rolls);
            i = i + 1;
        }
        proof {
            assert(self.roll_groups@.take(self.roll_groups@.len() as int) =~= self.roll_groups@);
        }
        out
    }
}

} // verus!
