//! A line function: an optional pattern, a lazily compiled and cached
//! matcher, and an ordered list of positional edits applied against the
//! first match of the pattern on a line.

use vstd::prelude::*;
use crate::effect::{LineFunctionPositionArgument, LogEntry, LogView, log_views, spec_apply_effect,
    spec_apply_effects, spec_log_of, spec_logs};
use crate::error::{ErrView, FunctionExecutionError, PluginLoadError, errs_view};
use crate::matcher::{Matcher, first_match, pattern_compiles};
use crate::position::opt_int;

verus! {

/// A named unit pairing an optional match pattern with an ordered list of
/// positional edits. The compiled matcher is a regenerable cache: it is never
/// part of the function's persisted identity and is rebuilt from the pattern
/// source on first use when absent.
pub struct LineFunction {
    /// Expected, though not required, to be unique among functions.
    pub name: String,
    /// The regex source. When it is `None` every line is edited.
    pub pattern: Option<String>,
    /// The cached compiled form of `pattern`, absent until first use.
    pub regex: Option<Matcher>,
    /// The ordered `(position argument, effect string)` pairs.
    pub effect: Vec<(LineFunctionPositionArgument, Vec<u8>)>,
}

/// One run of a line function is decided by the matcher: it failed to
/// compile, found nothing, or found its first match at a byte offset. The
/// contracts quantify over these outcomes, and `lf_run` ties the admissible
/// one to the pattern and the line through `first_match`.
pub enum FindOutcome {
    /// Lazy compilation failed with the engine's message.
    CompileFail(Seq<char>),
    /// The pattern matched nowhere on the line.
    NoMatch,
    /// The first match starts at this byte offset.
    MatchAt(int),
}

/// The pattern the next search of `f` would run: the cached matcher's own
/// pattern when one is cached, else the pattern source that would be
/// compiled. For every function built by a constructor the two coincide.
pub open spec fn lf_search_pattern(f: LineFunction) -> Seq<char> {
    match f.regex {
        Option::Some(m) => m.spec_pattern(),
        Option::None => match f.pattern {
            Option::Some(p) => p@,
            Option::None => Seq::empty(),
        },
    }
}

/// What one run of `f` on `line` yields under outcome `o`: the new line, the
/// collected errors and the emitted log entries — or nothing, when `o` is an
/// outcome the engine cannot produce for `f` on `line`.
///
/// With no pattern every effect is applied with no match offset. With a
/// pattern the outcome is determined: compilation fails — one `InvalidRegex`
/// error, untouched line — exactly when no matcher is cached and the engine
/// rejects the pattern; otherwise the search pattern matches nowhere
/// (`first_match` is `None`) and the line is untouched with no errors, or
/// its first match starts at `first_match`'s offset and every effect is
/// applied against it.
pub open spec fn lf_run(f: LineFunction, line: Seq<u8>, o: FindOutcome) -> Option<
    (Seq<u8>, Seq<ErrView>, Seq<LogView>),
> {
    match f.pattern {
        Option::None => {
            let (l2, es) = spec_apply_effects(f.effect@, line, Option::None);
            Option::Some((l2, errs_view(es), spec_logs(f.effect@)))
        },
        Option::Some(p) => match o {
            FindOutcome::CompileFail(msg) => {
                if !pattern_compiles(p@) && f.regex is None {
                    Option::Some(
                        (line, seq![ErrView::InvalidRegex(msg)], Seq::<LogView>::empty()),
                    )
                } else {
                    Option::None
                }
            },
            FindOutcome::NoMatch => {
                if (pattern_compiles(p@) || f.regex is Some) && first_match(
                    lf_search_pattern(f),
                    line,
                ) is None {
                    Option::Some((line, Seq::<ErrView>::empty(), Seq::<LogView>::empty()))
                } else {
                    Option::None
                }
            },
            FindOutcome::MatchAt(i) => {
                if (pattern_compiles(p@) || f.regex is Some) && 0 <= i <= line.len()
                    && first_match(lf_search_pattern(f), line) == Option::Some(i) {
                    let (l2, es) = spec_apply_effects(f.effect@, line, Option::Some(i));
                    Option::Some((l2, errs_view(es), spec_logs(f.effect@)))
                } else {
                    Option::None
                }
            },
        },
    }
}

/// How one call of `apply_function` relates its inputs to its outputs, under
/// outcome `o`: the line becomes what `lf_run` says, the call succeeds
/// exactly when no error was collected, and the emitted log entries are
/// appended in order.
pub open spec fn lf_apply_ensures(
    f: LineFunction,
    l0: Seq<u8>,
    logs0: Seq<LogEntry>,
    l1: Seq<u8>,
    logs1: Seq<LogEntry>,
    r: Result<(), Vec<FunctionExecutionError>>,
    o: FindOutcome,
) -> bool {
    match lf_run(f, l0, o) {
        Option::Some(out) => {
            &&& l1 == out.0
            &&& match r {
                Result::Ok(_) => out.1.len() == 0,
                Result::Err(es) => es@.len() > 0 && errs_view(es@) == out.1,
            }
            &&& log_views(logs1) == log_views(logs0) + out.2
        },
        Option::None => false,
    }
}

impl LineFunction {
    /// Builds a line function from its configuration, enforcing the load-time
    /// checks: a function without a pattern may not use match-relative
    /// indices, and a pattern must compile — eagerly, so that an invalid one
    /// is rejected here and not at run time.
    pub fn new(
        name: String,
        pattern: Option<String>,
        effect: Vec<(LineFunctionPositionArgument, Vec<u8>)>,
    ) -> (r: Result<LineFunction, PluginLoadError>)
        ensures
            pattern is None ==> ((exists|k: int|
                0 <= k < effect@.len() && effect@[k].0.spec_has_index()) <==> (r matches Result::Err(
                e,
            ) && e is IndexGivenWithoutPattern)),
            pattern is None ==> ((forall|k: int|
                0 <= k < effect@.len() ==> !effect@[k].0.spec_has_index()) <==> r is Ok),
            pattern matches Option::Some(p) ==> (r is Ok <==> pattern_compiles(p@)),
            pattern matches Option::Some(p) && !pattern_compiles(p@) ==> (r matches Result::Err(e)
                && e is InvalidRegex),
            r matches Result::Ok(f) ==> ({
                &&& f.name == name
                &&& f.pattern == pattern
                &&& f.effect == effect
                &&& (f.regex is Some <==> pattern is Some)
                &&& (pattern matches Option::Some(p) ==> lf_search_pattern(f) == p@)
            }),
    {
        if pattern.is_none() {
            let n = effect.len();
            let mut k: usize = 0;
            while k < n
                invariant
                    n == effect@.len(),
                    k <= n,
                    pattern is None,
                    forall|t: int| 0 <= t < k ==> !effect@[t].0.spec_has_index(),
                decreases n - k,
            {
                let pair = &effect[k];
                if pair.0.has_index() {
                    return Result::Err(PluginLoadError::IndexGivenWithoutPattern);
                }
                k += 1;
            }
            Result::Ok(LineFunction { name, pattern, regex: Option::None, effect })
        } else {
            let compiled = Matcher::new(pattern.as_ref().unwrap().as_str());
            match compiled {
                Result::Ok(m) => Result::Ok(
                    LineFunction { name, pattern, regex: Option::Some(m), effect },
                ),
                Result::Err(msg) => Result::Err(PluginLoadError::InvalidRegex(msg)),
            }
        }
    }

    /// The shape a function arrives in from a deserialized configuration:
    /// the compiled matcher is absent, and no load-time validation has run —
    /// the run-time guards in the resolver cover a bypassed invariant.
    pub fn from_parts(
        name: String,
        pattern: Option<String>,
        effect: Vec<(LineFunctionPositionArgument, Vec<u8>)>,
    ) -> (r: LineFunction)
        ensures
            r.name == name,
            r.pattern == pattern,
            r.effect == effect,
            r.regex is None,
    {
        LineFunction { name, pattern, regex: Option::None, effect }
    }

    /// Obtains the cached matcher, compiling and caching it on first use.
    /// Returns whether a matcher now exists; compilation of an invalid
    /// pattern fails with one `InvalidRegex` error and caches nothing.
    fn get_regex(&mut self) -> (r: Result<bool, Vec<FunctionExecutionError>>)
        ensures
            final(self).name == old(self).name,
            final(self).pattern == old(self).pattern,
            final(self).effect == old(self).effect,
            old(self).regex is Some ==> *final(self) == *old(self) && (r matches Result::Ok(b)
                && b),
            old(self).regex is None && old(self).pattern is None ==> *final(self) == *old(self)
                && (r matches Result::Ok(b) && !b),
            old(self).pattern matches Option::Some(p) ==> ((old(self).regex is None
                && pattern_compiles(p@)) ==> (r matches Result::Ok(b) && b)
                && (final(self).regex matches Option::Some(m) && m.spec_pattern() == p@)),
            (old(self).pattern matches Option::Some(p) && old(self).regex is None
                && !pattern_compiles(p@)) ==> *final(self) == *old(self) && (r matches Result::Err(
                es,
            ) && es@.len() == 1 && es@[0] is InvalidRegex),
            r matches Result::Ok(b) ==> (b <==> final(self).regex is Some),
    {
        if self.regex.is_some() {
            Result::Ok(true)
        } else {
            match &self.pattern {
                Option::None => Result::Ok(false),
                Option::Some(p) => match Matcher::new(p.as_str()) {
                    Result::Ok(m) => {
                        self.regex = Option::Some(m);
                        Result::Ok(true)
                    },
                    Result::Err(msg) => Result::Err(
                        vec![FunctionExecutionError::InvalidRegex(msg)],
                    ),
                },
            }
        }
    }

    /// Applies every effect pair in order against the given optional match
    /// offset, mutating `input` in place so that later effects see the result
    /// of earlier ones, collecting every error, and appending emitted log
    /// entries to `logs`. Succeeds exactly when no effect failed.
    pub fn apply_effects(
        &self,
        input: &mut Vec<u8>,
        regex_index: Option<usize>,
        logs: &mut Vec<LogEntry>,
    ) -> (r: Result<(), Vec<FunctionExecutionError>>)
        ensures
            ({
                let (l2, es) = spec_apply_effects(self.effect@, old(input)@, opt_int(regex_index));
                &&& final(input)@ == l2
                &&& match r {
                    Result::Ok(_) => es.len() == 0,
                    Result::Err(v) => v@.len() > 0 && v@ == es,
                }
                &&& log_views(final(logs)@) == log_views(old(logs)@) + spec_logs(self.effect@)
            }),
    {
        let ghost m = opt_int(regex_index);
        let ghost l0 = input@;
        let ghost logs0 = logs@;
        let mut errors: Vec<FunctionExecutionError> = Vec::new();
        let n = self.effect.len();
        let mut k: usize = 0;
        proof {
            assert(self.effect@.skip(0) =~= self.effect@);
            assert(errors@ + spec_apply_effects(self.effect@, l0, m).1 =~= spec_apply_effects(
                self.effect@,
                l0,
                m,
            ).1);
        }
        while k < n
            invariant
                n == self.effect@.len(),
                k <= n,
                m == opt_int(regex_index),
                ({
                    let full = spec_apply_effects(self.effect@, l0, m);
                    let rest = spec_apply_effects(self.effect@.skip(k as int), input@, m);
                    full.0 == rest.0 && full.1 == errors@ + rest.1
                }),
                log_views(logs@) + spec_logs(self.effect@.skip(k as int)) == log_views(logs0)
                    + spec_logs(self.effect@),
            decreases n - k,
        {
            let ghost cur = input@;
            let ghost errs0 = errors@;
            let ghost logsk = logs@;
            proof {
                assert(self.effect@.skip(k as int)[0] == self.effect@[k as int]);
                assert(self.effect@.skip(k as int).drop_first() =~= self.effect@.skip(
                    k as int + 1,
                ));
            }
            let pair = &self.effect[k];
            let step = pair.0.apply_effect_at_position(input, regex_index, &pair.1, logs);
            match step {
                Result::Err(mut e) => {
                    proof {
                        let head = spec_apply_effect(self.effect@[k as int].0,
                            self.effect@[k as int].1@, cur, m);
                        assert(head.1 matches Option::Some(err) && e@ == seq![err]);
                    }
                    let ghost e_view = e@;
                    errors.append(&mut e);
                    proof {
                        let rest_new = spec_apply_effects(self.effect@.skip(k as int + 1), input@,
                            m);
                        assert((errs0 + e_view) + rest_new.1 =~= errs0 + (e_view + rest_new.1));
                    }
                },
                Result::Ok(_) => {
                    proof {
                        let rest_new = spec_apply_effects(self.effect@.skip(k as int + 1), input@,
                            m);
                        assert(errs0 + (Seq::<FunctionExecutionError>::empty() + rest_new.1)
                            =~= errs0 + rest_new.1);
                    }
                },
            }
            proof {
                let head_log = match spec_log_of(self.effect@[k as int].0,
                    self.effect@[k as int].1@) {
                    Option::Some(l) => seq![l],
                    Option::None => Seq::<LogView>::empty(),
                };
                assert((log_views(logsk) + head_log) + spec_logs(self.effect@.skip(k as int + 1))
                    =~= log_views(logsk) + (head_log + spec_logs(self.effect@.skip(k as int + 1))));
            }
            k += 1;
        }
        proof {
            assert(self.effect@.skip(n as int) =~= Seq::<
                (LineFunctionPositionArgument, Vec<u8>),
            >::empty());
            assert(errors@ + Seq::<FunctionExecutionError>::empty() =~= errors@);
            assert(log_views(logs@) + Seq::<LogView>::empty() =~= log_views(logs@));
        }
        if errors.is_empty() {
            Result::Ok(())
        } else {
            Result::Err(errors)
        }
    }

    /// Runs this function on one line: obtains the matcher (compiling and
    /// caching it on first use), searches for the first match, and — when
    /// there is no pattern, or a match was found — applies every effect
    /// against the match offset, collecting all errors. A line the pattern
    /// does not match is left untouched. The relation between inputs and
    /// outputs is `lf_apply_ensures` under the engine outcome, which
    /// `lf_run` determines from the pattern and the line via `first_match`.
    pub fn apply_function(
        &mut self,
        input: &mut Vec<u8>,
        logs: &mut Vec<LogEntry>,
    ) -> (r: Result<(), Vec<FunctionExecutionError>>)
        ensures
            final(self).name == old(self).name,
            final(self).pattern == old(self).pattern,
            final(self).effect == old(self).effect,
            old(self).regex is Some ==> final(self).regex == old(self).regex,
            final(self).regex matches Option::Some(m) ==> (old(self).regex is None
                ==> (old(self).pattern matches Option::Some(p) && pattern_compiles(p@)
                && m.spec_pattern() == p@)),
            (old(self).pattern matches Option::Some(p) && pattern_compiles(p@))
                ==> final(self).regex is Some,
            old(self).pattern is None ==> ({
                let (l2, es) = spec_apply_effects(old(self).effect@, old(input)@, Option::None);
                &&& final(input)@ == l2
                &&& match r {
                    Result::Ok(_) => es.len() == 0,
                    Result::Err(v) => v@.len() > 0 && v@ == es,
                }
                &&& log_views(final(logs)@) == log_views(old(logs)@) + spec_logs(
                    old(self).effect@,
                )
            }),
            exists|o: FindOutcome|
                lf_apply_ensures(
                    *old(self),
                    old(input)@,
                    old(logs)@,
                    final(input)@,
                    final(logs)@,
                    r,
                    o,
                ),
    {
        let ghost f0 = *self;
        let ghost l0 = input@;
        let ghost logs0 = logs@;
        let mut regex_index: Option<usize> = Option::None;
        if self.pattern.is_some() {
            match self.get_regex() {
                Result::Err(e) => {
                    proof {
                        let o = FindOutcome::CompileFail(crate::error::invalid_msg(e@[0]));
                        assert(errs_view(e@) =~= seq![ErrView::InvalidRegex(
                            crate::error::invalid_msg(e@[0]),
                        )]);
                        assert(log_views(logs@) =~= log_views(logs0) + Seq::<LogView>::empty());
                        assert(lf_apply_ensures(f0, l0, logs0, input@, logs@,
                            Result::<(), Vec<FunctionExecutionError>>::Err(e), o));
                    }
                    return Result::Err(e);
                },
                Result::Ok(_) => {
                    proof {
                        assert(self.regex matches Option::Some(m) && m.spec_pattern()
                            == lf_search_pattern(f0));
                        assert(f0.pattern matches Option::Some(p) ==> (pattern_compiles(p@)
                            || f0.regex is Some));
                    }
                    let re = self.regex.as_ref().unwrap();
                    match re.find_start(input) {
                        Option::Some(i) => {
                            proof {
                                assert(first_match(lf_search_pattern(f0), l0)
                                    == Option::Some(i as int));
                            }
                            regex_index = Option::Some(i);
                        },
                        Option::None => {
                            proof {
                                let o = FindOutcome::NoMatch;
                                assert(first_match(lf_search_pattern(f0), l0) is None);
                                assert(log_views(logs@) =~= log_views(logs0) + Seq::<
                                    LogView,
                                >::empty());
                                assert(lf_apply_ensures(f0, l0, logs0, input@, logs@,
                                    Result::<(), Vec<FunctionExecutionError>>::Ok(()), o));
                            }
                            return Result::Ok(());
                        },
                    }
                },
            }
        }
        let r = self.apply_effects(input, regex_index, logs);
        proof {
            let o = match regex_index {
                Option::Some(i) => FindOutcome::MatchAt(i as int),
                Option::None => FindOutcome::NoMatch,
            };
            assert(lf_apply_ensures(f0, l0, logs0, input@, logs@, r, o));
        }
        r
    }
}

} // verus!
