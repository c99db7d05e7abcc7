//! The meaning of a group's `exclusive` flag for a concrete command line.
//!
//! A selection says which members of a group appear on a command line.
//! For an exclusive group a conforming selection includes exactly one
//! member; for a non-exclusive group it includes every member not
//! individually marked optional.

use vstd::prelude::*;

use crate::model::{pattern_view, Pattern, PatternV};

verus! {

/// Whether a pattern node may be omitted from a concrete command line.
pub open spec fn pattern_optional(p: PatternV) -> bool {
    match p {
        PatternV::Command { common, .. } => common.optional,
        PatternV::Argument { common, .. } => common.optional,
        PatternV::Option { common, .. } => common.optional,
        PatternV::Group { common, .. } => common.optional,
    }
}

/// How many members a selection includes.
pub open spec fn count_selected(present: Seq<bool>) -> nat
    decreases present.len(),
{
    if present.len() == 0 {
        0
    } else {
        count_selected(present.drop_last()) + if present.last() {
            1nat
        } else {
            0nat
        }
    }
}

/// Whether a selection of group members conforms to the group's
/// exclusivity rule.
pub open spec fn group_selection_conforms(
    exclusive: bool,
    members: Seq<PatternV>,
    present: Seq<bool>,
) -> bool {
    &&& present.len() == members.len()
    &&& if exclusive {
        count_selected(present) == 1
    } else {
        forall|i: int|
            0 <= i < members.len() && !pattern_optional(#[trigger] members[i]) ==> present[i]
    }
}

impl Pattern {
    /// Whether this node may be omitted from a concrete command line.
    pub fn is_optional(&self) -> (r: bool)
        ensures
            r == pattern_optional(self@),
    {
        match self {
            Pattern::Command { common, .. } => common.optional,
            Pattern::Argument { common, .. } => common.optional,
            Pattern::Option { common, .. } => common.optional,
            Pattern::Group { common, .. } => common.optional,
        }
    }
}

/// Checks a concrete selection of group members against the group's
/// exclusivity rule.
#[verifier::loop_isolation(false)]
pub fn selection_conforms(exclusive: bool, members: &Vec<Pattern>, present: &Vec<bool>) -> (r:
    bool)
    ensures
        r == group_selection_conforms(exclusive, members.deep_view(), present@),
{
    if present.len() != members.len() {
        return false;
    }
    if exclusive {
        let mut count: usize = 0;
        let mut i: usize = 0;
        while i < present.len()
            invariant
                0 <= i <= present@.len(),
                count == count_selected(present@.take(i as int)),
                count <= i,
            decreases present@.len() - i,
        {
            proof {
                assert(present@.take(i as int + 1).drop_last() =~= present@.take(i as int));
                assert(present@.take(i as int + 1).last() == present@[i as int]);
            }
            if present[i] {
                count = count + 1;
            }
            i = i + 1;
        }
        proof {
            assert(present@.take(present@.len() as int) =~= present@);
        }
        count == 1
    } else {
        let mut i: usize = 0;
        while i < members.len()
            invariant
                0 <= i <= members@.len(),
                forall|k: int|
                    0 <= k < i && !pattern_optional(#[trigger] members.deep_view()[k])
                        ==> present@[k],
            decreases members@.len() - i,
        {
            proof {
                assert(members.deep_view()[i as int] == pattern_view(members@[i as int]));
            }
            if !members[i].is_optional() && !present[i] {
                return false;
            }
            i = i + 1;
        }
        true
    }
}

/// A selection without members.
proof fn lemma_count_zero(present: Seq<bool>)
    ensures
        count_selected(present) == 0 <==> forall|i: int| 0 <= i < present.len() ==> !present[i],
    decreases present.len(),
{
    if present.len() > 0 {
        lemma_count_zero(present.drop_last());
        if count_selected(present) == 0 {
            assert(forall|i: int|
                0 <= i < present.len() - 1 ==> present[i] == present.drop_last()[i]);
        } else if forall|i: int| 0 <= i < present.len() ==> !present[i] {
            assert(forall|i: int|
                0 <= i < present.len() - 1 ==> present.drop_last()[i] == present[i]);
        }
    }
}

/// A selection with exactly one member has a single index selected.
proof fn lemma_count_one(present: Seq<bool>)
    requires
        count_selected(present) == 1,
    ensures
        exists|i: int|
            0 <= i < present.len() && present[i] && (forall|k: int|
                0 <= k < present.len() && #[trigger] present[k] ==> k == i),
    decreases present.len(),
{
    let last = present.len() - 1;
    if present.last() {
        lemma_count_zero(present.drop_last());
        assert(forall|k: int| 0 <= k < last ==> present.drop_last()[k] == present[k]);
        assert(present[last] && (forall|k: int|
            0 <= k < present.len() && #[trigger] present[k] ==> k == last));
    } else {
        lemma_count_one(present.drop_last());
        let i = choose|i: int|
            0 <= i < present.drop_last().len() && present.drop_last()[i] && (forall|k: int|
                0 <= k < present.drop_last().len() && #[trigger] present.drop_last()[k] ==> k
                    == i);
        assert(present[i]);
        assert(forall|k: int| 0 <= k < last ==> present.drop_last()[k] == present[k]);
        assert(forall|k: int| 0 <= k < present.len() && #[trigger] present[k] ==> k == i);
    }
}

/// For an exclusive group, a conforming command line contains exactly
/// one of the group's members.
pub proof fn lemma_exclusive_group(members: Seq<PatternV>, present: Seq<bool>)
    requires
        group_selection_conforms(true, members, present),
    ensures
        exists|i: int|
            0 <= i < present.len() && present[i] && (forall|k: int|
                0 <= k < present.len() && #[trigger] present[k] ==> k == i),
{
    lemma_count_one(present);
}

/// For a non-exclusive group, a conforming command line contains every
/// member not individually marked optional.
pub proof fn lemma_inclusive_group(members: Seq<PatternV>, present: Seq<bool>)
    requires
        group_selection_conforms(false, members, present),
    ensures
        forall|i: int|
            0 <= i < members.len() && !pattern_optional(#[trigger] members[i]) ==> present[i],
{
}

} // verus!
