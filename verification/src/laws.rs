//! General properties of the engine, stated and proved once for all inputs.

use vstd::prelude::*;
use crate::effect::{LineFunctionPositionArgument, spec_apply_effect, spec_apply_effects};
use crate::error::FunctionExecutionError;
use crate::position::{LineFunctionPosition, spec_get_index};

verus! {

/// A line's boundaries always resolve absolutely: the line start to offset
/// 0 and the end of line to the line's current length, with or without a
/// match.
pub proof fn lemma_resolve_boundaries(line: Seq<u8>, m: Option<int>)
    ensures
        spec_get_index(LineFunctionPosition::LineStart, line, m) == Result::<
            int,
            FunctionExecutionError,
        >::Ok(0),
        spec_get_index(LineFunctionPosition::Eol, line, m) == Result::<
            int,
            FunctionExecutionError,
        >::Ok(line.len() as int),
{
}

/// With no matcher, a function whose effects use no match-relative index —
/// and whose replace ranges end at the end of the line, the one end
/// position that can neither invert the range nor land the removal inside
/// a multi-byte character on some line — always succeeds: applying all its
/// effects collects no error, on every line.
pub proof fn lemma_no_index_always_succeeds(
    effects: Seq<(LineFunctionPositionArgument, Vec<u8>)>,
    line: Seq<u8>,
)
    requires
        forall|k: int| 0 <= k < effects.len() ==> !(#[trigger] effects[k].0).spec_has_index(),
        forall|k: int|
            0 <= k < effects.len() ==> ((#[trigger] effects[k].0)
                matches LineFunctionPositionArgument::Replace(s, e) ==> e is Eol),
    ensures
        spec_apply_effects(effects, line, Option::None).1 == Seq::<
            FunctionExecutionError,
        >::empty(),
    decreases effects.len(),
{
    if effects.len() == 0 {
    } else {
        let head = spec_apply_effect(effects[0].0, effects[0].1@, line, Option::None);
        assert(!effects[0].0.spec_has_index());
        match effects[0].0 {
            LineFunctionPositionArgument::Insert(p) => {
                assert(!(p is Index));
            },
            LineFunctionPositionArgument::Replace(s, e) => {
                assert(!(s is Index) && !(e is Index));
                assert(e is Eol);
            },
            LineFunctionPositionArgument::Log(_) => {},
            LineFunctionPositionArgument::DebugLog(_) => {},
        }
        assert(head.1 is None);
        assert(forall|k: int|
            0 <= k < effects.drop_first().len() ==> !(#[trigger] effects.drop_first()[
                k].0).spec_has_index());
        assert(forall|k: int|
            0 <= k < effects.drop_first().len() ==> ((#[trigger] effects.drop_first()[k].0)
                matches LineFunctionPositionArgument::Replace(s, e) ==> e is Eol));
        lemma_no_index_always_succeeds(effects.drop_first(), head.0);
        assert(Seq::<FunctionExecutionError>::empty() + Seq::<FunctionExecutionError>::empty()
            =~= Seq::<FunctionExecutionError>::empty());
    }
}

/// A match-relative index whose signed sum with the match offset lands
/// outside the line — negative, or past the line's length — resolves to
/// exactly an out-of-bounds error: never a panic, never a silent clamp.
pub proof fn lemma_relative_index_out_of_bounds(off: isize, line: Seq<u8>, mi: int)
    requires
        mi + off < 0 || mi + off > line.len(),
    ensures
        spec_get_index(LineFunctionPosition::Index(off), line, Option::Some(mi)) == Result::<
            int,
            FunctionExecutionError,
        >::Err(FunctionExecutionError::EffectIndexOutOfBounds),
{
}

/// A match-relative index that lands inside a multi-byte character — in
/// range, but not on a character boundary — resolves to exactly an
/// out-of-bounds error: a multi-byte character is never split.
pub proof fn lemma_mid_character_is_error(off: isize, line: Seq<u8>, mi: int)
    requires
        0 <= mi + off <= line.len(),
        !crate::position::is_boundary(line, mi + off),
    ensures
        spec_get_index(LineFunctionPosition::Index(off), line, Option::Some(mi)) == Result::<
            int,
            FunctionExecutionError,
        >::Err(FunctionExecutionError::EffectIndexOutOfBounds),
{
}

/// A valid pattern that matches nowhere on a line is inert there: every
/// admissible run on that line succeeds, leaves the line unchanged and
/// emits nothing.
pub proof fn lemma_no_match_inert(
    f: crate::line_function::LineFunction,
    line: Seq<u8>,
    o: crate::line_function::FindOutcome,
)
    requires
        f.pattern matches Option::Some(p) && crate::matcher::pattern_compiles(p@),
        crate::matcher::first_match(crate::line_function::lf_search_pattern(f), line) is None,
        crate::line_function::lf_run(f, line, o) is Some,
    ensures
        crate::line_function::lf_run(f, line, o) == Option::Some(
            (line, Seq::<crate::error::ErrView>::empty(), Seq::<crate::effect::LogView>::empty()),
        ),
{
}

/// Whether every effect of a list inserts at the end of the line.
pub open spec fn all_insert_eol(effects: Seq<(LineFunctionPositionArgument, Vec<u8>)>) -> bool {
    forall|k: int|
        0 <= k < effects.len() ==> ((#[trigger] effects[k].0)
            matches LineFunctionPositionArgument::Insert(p) && p is Eol)
}

/// The effect strings of a list, concatenated in order.
pub open spec fn concat_effects(effects: Seq<(LineFunctionPositionArgument, Vec<u8>)>) -> Seq<u8>
    decreases effects.len(),
{
    if effects.len() == 0 {
        Seq::empty()
    } else {
        effects[0].1@ + concat_effects(effects.drop_first())
    }
}

/// A function whose effects only insert at the end of the line appends
/// exactly their concatenation, with no error, whatever the match offset.
pub proof fn lemma_insert_eol_appends(
    effects: Seq<(LineFunctionPositionArgument, Vec<u8>)>,
    line: Seq<u8>,
    m: Option<int>,
)
    requires
        all_insert_eol(effects),
    ensures
        spec_apply_effects(effects, line, m).0 == line + concat_effects(effects),
        spec_apply_effects(effects, line, m).1 == Seq::<FunctionExecutionError>::empty(),
    decreases effects.len(),
{
    if effects.len() == 0 {
        assert(line + Seq::<u8>::empty() =~= line);
    } else {
        let head = spec_apply_effect(effects[0].0, effects[0].1@, line, m);
        assert(effects[0].0 matches LineFunctionPositionArgument::Insert(p) && p is Eol);
        assert(head.0 =~= line + effects[0].1@);
        assert(head.1 is None);
        assert(forall|k: int|
            0 <= k < effects.drop_first().len() ==> ((#[trigger] effects.drop_first()[k].0)
                matches LineFunctionPositionArgument::Insert(p) && p is Eol));
        lemma_insert_eol_appends(effects.drop_first(), head.0, m);
        assert((line + effects[0].1@) + concat_effects(effects.drop_first()) =~= line + (
        effects[0].1@ + concat_effects(effects.drop_first())));
        assert(Seq::<FunctionExecutionError>::empty() + Seq::<FunctionExecutionError>::empty()
            =~= Seq::<FunctionExecutionError>::empty());
    }
}

/// Applying an insert-at-end function to two separate lines yields two
/// independently correct results: each line gets exactly its own appended
/// copy of the effect strings and no error, whatever either match offset
/// was — no state leaks from one line to the other.
pub proof fn lemma_insert_eol_independent(
    effects: Seq<(LineFunctionPositionArgument, Vec<u8>)>,
    line_a: Seq<u8>,
    line_b: Seq<u8>,
    m_a: Option<int>,
    m_b: Option<int>,
)
    requires
        all_insert_eol(effects),
    ensures
        spec_apply_effects(effects, line_a, m_a).0 == line_a + concat_effects(effects),
        spec_apply_effects(effects, line_b, m_b).0 == line_b + concat_effects(effects),
        spec_apply_effects(effects, line_a, m_a).1 == Seq::<FunctionExecutionError>::empty(),
        spec_apply_effects(effects, line_b, m_b).1 == Seq::<FunctionExecutionError>::empty(),
{
    lemma_insert_eol_appends(effects, line_a, m_a);
    lemma_insert_eol_appends(effects, line_b, m_b);
}

/// Replacing from the line start to the end of line with effect string `s`
/// on any non-empty line yields exactly `s`, with no error, whatever the
/// match offset.
pub proof fn lemma_replace_whole_line(s: Seq<u8>, line: Seq<u8>, m: Option<int>)
    requires
        line.len() > 0,
    ensures
        spec_apply_effect(
            LineFunctionPositionArgument::Replace(
                LineFunctionPosition::LineStart,
                LineFunctionPosition::Eol,
            ),
            s,
            line,
            m,
        ).0 == s,
        spec_apply_effect(
            LineFunctionPositionArgument::Replace(
                LineFunctionPosition::LineStart,
                LineFunctionPosition::Eol,
            ),
            s,
            line,
            m,
        ).1 is None,
{
    let out = spec_apply_effect(
        LineFunctionPositionArgument::Replace(
            LineFunctionPosition::LineStart,
            LineFunctionPosition::Eol,
        ),
        s,
        line,
        m,
    );
    assert(out.0 =~= s);
}

} // verus!
