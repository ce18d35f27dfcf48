//! The effect applicator: given a resolved position (or position pair) and a
//! literal byte string, mutates the line — insertion or inclusive-range
//! replacement — or emits a side-channel log entry.

use vstd::prelude::*;
use crate::error::FunctionExecutionError;
use crate::position::{LineFunctionPosition, check_boundary, is_boundary, opt_int, spec_get_index};

verus! {

/// Describes where a function's effect string is placed, or that the effect
/// is a side-channel message instead of an edit.
#[derive(Debug, Clone)]
pub enum LineFunctionPositionArgument {
    /// Insert the effect string at the resolved position, shifting the rest
    /// of the line right.
    Insert(LineFunctionPosition),
    /// Replace the inclusive byte range between the two resolved positions
    /// with the effect string. The byte at the end position is part of the
    /// removed span.
    Replace(LineFunctionPosition, LineFunctionPosition),
    /// Emit the carried message and the effect string to the standard log;
    /// the line is untouched.
    Log(String),
    /// Emit the carried message and the effect string to the debug log; the
    /// line is untouched.
    DebugLog(String),
}

/// One entry of the side channel that `Log` and `DebugLog` effects feed.
/// Entries are collected as data; the host decides how to print them.
pub struct LogEntry {
    /// True when the entry came from `DebugLog`.
    pub debug: bool,
    /// The message carried by the effect variant itself.
    pub message: String,
    /// The effect string of the pair that triggered the entry.
    pub effect: Vec<u8>,
}

/// The mathematical shadow of `LogEntry`.
pub struct LogView {
    pub debug: bool,
    pub message: Seq<char>,
    pub effect: Seq<u8>,
}

impl View for LogEntry {
    type V = LogView;

    open spec fn view(&self) -> LogView {
        LogView { debug: self.debug, message: self.message@, effect: self.effect@ }
    }
}

/// The views of a list of log entries, in order.
pub open spec fn log_views(s: Seq<LogEntry>) -> Seq<LogView> {
    s.map_values(|e: LogEntry| e@)
}

impl LineFunctionPositionArgument {
    /// Whether this argument references an index relative to a match.
    pub open spec fn spec_has_index(self) -> bool {
        match self {
            LineFunctionPositionArgument::Insert(p) => p is Index,
            LineFunctionPositionArgument::Replace(s, e) => s is Index || e is Index,
            LineFunctionPositionArgument::Log(_) => false,
            LineFunctionPositionArgument::DebugLog(_) => false,
        }
    }

    /// Whether this argument references an index relative to a match. Such an
    /// argument is rejected at load time on a function without a pattern.
    pub fn has_index(&self) -> (r: bool)
        ensures
            r == self.spec_has_index(),
    {
        match self {
            LineFunctionPositionArgument::Insert(LineFunctionPosition::Index(_)) => true,
            LineFunctionPositionArgument::Replace(start, end) => {
                matches!(start, LineFunctionPosition::Index(_)) || matches!(
                    end,
                    LineFunctionPosition::Index(_),
                )
            },
            _ => false,
        }
    }
}

/// The log entry that applying `arg` with effect string `eff` emits, if any.
pub open spec fn spec_log_of(arg: LineFunctionPositionArgument, eff: Seq<u8>) -> Option<LogView> {
    match arg {
        LineFunctionPositionArgument::Log(msg) => Option::Some(
            LogView { debug: false, message: msg@, effect: eff },
        ),
        LineFunctionPositionArgument::DebugLog(msg) => Option::Some(
            LogView { debug: true, message: msg@, effect: eff },
        ),
        _ => Option::None,
    }
}

/// What applying one effect to `line` yields: the new line, and the error
/// owed on exactly this input, if any.
///
/// An insert splices the effect string in at the resolved offset. A replace
/// resolves both ends, removes the inclusive span between them and splices
/// the effect string in; an inverted range is `EffectIndexOutOfBounds`, and
/// so is a removal whose end falls inside a multi-byte character — the span
/// runs through the byte at the end position, so the byte after it must be
/// a character boundary too. Log effects leave the line alone.
pub open spec fn spec_apply_effect(
    arg: LineFunctionPositionArgument,
    eff: Seq<u8>,
    line: Seq<u8>,
    m: Option<int>,
) -> (Seq<u8>, Option<FunctionExecutionError>) {
    match arg {
        LineFunctionPositionArgument::Insert(pos) => match spec_get_index(pos, line, m) {
            Result::Ok(i) => (
                line.subrange(0, i) + eff + line.subrange(i, line.len() as int),
                Option::None,
            ),
            Result::Err(e) => (line, Option::Some(e)),
        },
        LineFunctionPositionArgument::Replace(ps, pe) => match spec_get_index(ps, line, m) {
            Result::Err(e) => (line, Option::Some(e)),
            Result::Ok(i) => match spec_get_index(pe, line, m) {
                Result::Err(e) => (line, Option::Some(e)),
                Result::Ok(j) => {
                    let hi = if j + 1 <= line.len() { j + 1 } else { line.len() as int };
                    if j < i {
                        (line, Option::Some(FunctionExecutionError::EffectIndexOutOfBounds))
                    } else if !is_boundary(line, hi) {
                        (line, Option::Some(FunctionExecutionError::EffectIndexOutOfBounds))
                    } else {
                        (line.subrange(0, i) + eff + line.subrange(hi, line.len() as int),
                        Option::None)
                    }
                },
            },
        },
        LineFunctionPositionArgument::Log(_) => (line, Option::None),
        LineFunctionPositionArgument::DebugLog(_) => (line, Option::None),
    }
}

/// What applying an ordered list of `(position argument, effect string)`
/// pairs to `line` yields, each effect seeing the line as the ones before it
/// left it, and every error collected in order.
pub open spec fn spec_apply_effects(
    effects: Seq<(LineFunctionPositionArgument, Vec<u8>)>,
    line: Seq<u8>,
    m: Option<int>,
) -> (Seq<u8>, Seq<FunctionExecutionError>)
    decreases effects.len(),
{
    if effects.len() == 0 {
        (line, Seq::empty())
    } else {
        let (l1, e1) = spec_apply_effect(effects[0].0, effects[0].1@, line, m);
        let rest = spec_apply_effects(effects.drop_first(), l1, m);
        let head_errs = match e1 {
            Option::Some(e) => seq![e],
            Option::None => Seq::empty(),
        };
        (rest.0, head_errs + rest.1)
    }
}

/// The log entries that applying an ordered list of effect pairs emits, in
/// order. They depend on the effect list alone, never on the line.
pub open spec fn spec_logs(effects: Seq<(LineFunctionPositionArgument, Vec<u8>)>) -> Seq<LogView>
    decreases effects.len(),
{
    if effects.len() == 0 {
        Seq::empty()
    } else {
        let head = match spec_log_of(effects[0].0, effects[0].1@) {
            Option::Some(l) => seq![l],
            Option::None => Seq::<LogView>::empty(),
        };
        head + spec_logs(effects.drop_first())
    }
}

/// Returns a copy of the given byte string.
fn copy_bytes(v: &Vec<u8>) -> (r: Vec<u8>)
    ensures
        r@ == v@,
{
    let mut out: Vec<u8> = Vec::new();
    let mut k: usize = 0;
    while k < v.len()
        invariant
            k <= v@.len(),
            out@ == v@.subrange(0, k as int),
        decreases v@.len() - k,
    {
        out.push(v[k]);
        assert(out@ =~= v@.subrange(0, k + 1 as int));
        k += 1;
    }
    assert(out@ =~= v@);
    out
}

/// Replaces the bytes of `line` at indices `i..hi` by `repl`.
fn splice(line: &mut Vec<u8>, i: usize, hi: usize, repl: &Vec<u8>)
    requires
        i <= hi <= old(line)@.len(),
    ensures
        final(line)@ == old(line)@.subrange(0, i as int) + repl@ + old(line)@.subrange(
            hi as int,
            old(line)@.len() as int,
        ),
{
    let ghost orig = line@;
    let mut out: Vec<u8> = Vec::new();
    let mut k: usize = 0;
    while k < i
        invariant
            line@ == orig,
            k <= i <= hi <= orig.len(),
            out@ == orig.subrange(0, k as int),
        decreases i - k,
    {
        out.push(line[k]);
        assert(out@ =~= orig.subrange(0, k + 1 as int));
        k += 1;
    }
    k = 0;
    while k < repl.len()
        invariant
            line@ == orig,
            i <= hi <= orig.len(),
            k <= repl@.len(),
            out@ == orig.subrange(0, i as int) + repl@.subrange(0, k as int),
        decreases repl@.len() - k,
    {
        out.push(repl[k]);
        assert(out@ =~= orig.subrange(0, i as int) + repl@.subrange(0, k + 1 as int));
        k += 1;
    }
    assert(repl@.subrange(0, repl@.len() as int) =~= repl@);
    k = hi;
    while k < line.len()
        invariant
            line@ == orig,
            i <= hi <= k <= orig.len(),
            out@ == orig.subrange(0, i as int) + repl@ + orig.subrange(hi as int, k as int),
        decreases line@.len() - k,
    {
        out.push(line[k]);
        assert(out@ =~= orig.subrange(0, i as int) + repl@ + orig.subrange(
            hi as int,
            k + 1 as int,
        ));
        k += 1;
    }
    *line = out;
}

impl LineFunctionPositionArgument {
    /// Applies this effect to `input` with the given optional match offset:
    /// an edit mutates the line in place, a log effect appends one entry to
    /// `logs`. Returns exactly what `spec_apply_effect` says, the one owed
    /// error alone in the list.
    pub fn apply_effect_at_position(
        &self,
        input: &mut Vec<u8>,
        regex_index: Option<usize>,
        effect: &Vec<u8>,
        logs: &mut Vec<LogEntry>,
    ) -> (r: Result<(), Vec<FunctionExecutionError>>)
        ensures
            ({
                let (l2, e) = spec_apply_effect(*self, effect@, old(input)@, opt_int(regex_index));
                &&& final(input)@ == l2
                &&& match e {
                    Option::Some(err) => r matches Result::Err(es) && es@ == seq![err],
                    Option::None => r is Ok,
                }
            }),
            log_views(final(logs)@) == log_views(old(logs)@) + match spec_log_of(
                *self,
                effect@,
            ) {
                Option::Some(l) => seq![l],
                Option::None => Seq::<LogView>::empty(),
            },
    {
        let ghost logs0 = logs@;
        match self {
            LineFunctionPositionArgument::Insert(position) => {
                match position.get_index(input, regex_index) {
                    Result::Ok(i) => {
                        splice(input, i, i, effect);
                        assert(log_views(logs@) =~= log_views(logs0) + Seq::<LogView>::empty());
                        Result::Ok(())
                    },
                    Result::Err(e) => {
                        assert(log_views(logs@) =~= log_views(logs0) + Seq::<LogView>::empty());
                        Result::Err(e)
                    },
                }
            },
            LineFunctionPositionArgument::Replace(start, end) => {
                let res = match start.get_index(input, regex_index) {
                    Result::Err(e) => Result::Err(e),
                    Result::Ok(i) => match end.get_index(input, regex_index) {
                        Result::Err(e) => Result::Err(e),
                        Result::Ok(j) => {
                            let hi = if j < input.len() {
                                j + 1
                            } else {
                                input.len()
                            };
                            if j < i {
                                Result::Err(
                                    vec![FunctionExecutionError::EffectIndexOutOfBounds],
                                )
                            } else if !check_boundary(input, hi) {
                                Result::Err(
                                    vec![FunctionExecutionError::EffectIndexOutOfBounds],
                                )
                            } else {
                                splice(input, i, hi, effect);
                                Result::Ok(())
                            }
                        },
                    },
                };
                assert(log_views(logs@) =~= log_views(logs0) + Seq::<LogView>::empty());
                res
            },
            LineFunctionPositionArgument::Log(message) => {
                let entry = LogEntry { debug: false, message: message.clone(), effect: copy_bytes(effect) };
                logs.push(entry);
                assert(log_views(logs@) =~= log_views(logs0) + seq![
                    LogView { debug: false, message: message@, effect: effect@ },
                ]);
                Result::Ok(())
            },
            LineFunctionPositionArgument::DebugLog(message) => {
                let entry = LogEntry { debug: true, message: message.clone(), effect: copy_bytes(effect) };
                logs.push(entry);
                assert(log_views(logs@) =~= log_views(logs0) + seq![
                    LogView { debug: true, message: message@, effect: effect@ },
                ]);
                Result::Ok(())
            },
        }
    }
}

} // verus!
