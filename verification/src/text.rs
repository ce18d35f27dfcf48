//! The caller-facing composition point: a multi-line text is split on line
//! boundaries, every line is run through the manager independently, and the
//! results are joined back with the same separator, preserving line count
//! and order. Errors are surfaced beside the text, never embedded in it.

use vstd::prelude::*;
use crate::effect::{LogEntry, LogView, log_views};
use crate::error::{ErrView, FunctionExecutionError, errs_view};
use crate::line_function::{FindOutcome, LineFunction, lf_run, lf_search_pattern};
use crate::plugin::{Plugin, PluginManager, fn_config_eq, fn_evolved, plugin_config_eq,
    plugin_evolved, plugins_config_eq, plugins_evolved, run_plugins, lemma_run_plugins_push};

verus! {

/// The lines of `t`, split on the newline byte. A text with no newline is
/// one line; every newline ends a line and starts the next, so a trailing
/// newline yields a final empty line.
pub open spec fn spec_split_lines(t: Seq<u8>) -> Seq<Seq<u8>>
    decreases t.len(),
{
    if t.len() == 0 {
        seq![Seq::<u8>::empty()]
    } else if t[0] == 10u8 {
        seq![Seq::<u8>::empty()] + spec_split_lines(t.drop_first())
    } else {
        let rest = spec_split_lines(t.drop_first());
        seq![seq![t[0]] + rest[0]] + rest.drop_first()
    }
}

/// Splitting yields at least one line.
pub proof fn lemma_split_nonempty(t: Seq<u8>)
    ensures
        spec_split_lines(t).len() >= 1,
    decreases t.len(),
{
    if t.len() == 0 {
    } else if t[0] == 10u8 {
        lemma_split_nonempty(t.drop_first())
    } else {
        lemma_split_nonempty(t.drop_first())
    }
}

/// The lines joined back with the newline byte between them.
pub open spec fn spec_join_lines(lines: Seq<Seq<u8>>) -> Seq<u8>
    decreases lines.len(),
{
    if lines.len() == 0 {
        Seq::empty()
    } else if lines.len() == 1 {
        lines[0]
    } else {
        lines[0] + seq![10u8] + spec_join_lines(lines.drop_first())
    }
}

/// The views of a list of lines, in order.
pub open spec fn lines_view(s: Seq<Vec<u8>>) -> Seq<Seq<u8>> {
    s.map_values(|v: Vec<u8>| v@)
}

/// What running the plugins on every line in order yields under the matcher
/// outcomes `os`, one list of lists per line: the transformed lines, all
/// errors in order, and all log entries in order.
pub open spec fn run_text(
    ps: Seq<Plugin>,
    lines: Seq<Seq<u8>>,
    os: Seq<Seq<Seq<FindOutcome>>>,
) -> Option<(Seq<Seq<u8>>, Seq<ErrView>, Seq<LogView>)>
    decreases lines.len(),
{
    if lines.len() != os.len() {
        Option::None
    } else if lines.len() == 0 {
        Option::Some((Seq::empty(), Seq::empty(), Seq::empty()))
    } else {
        match run_plugins(ps, lines[0], os[0]) {
            Option::None => Option::None,
            Option::Some(step) => match run_text(ps, lines.drop_first(), os.drop_first()) {
                Option::None => Option::None,
                Option::Some(rest) => Option::Some(
                    (seq![step.0] + rest.0, step.1 + rest.1, step.2 + rest.2),
                ),
            },
        }
    }
}

/// Running one more line after a prefix composes: its transformed line,
/// errors and log entries are appended.
pub proof fn lemma_run_text_push(
    ps: Seq<Plugin>,
    lines: Seq<Seq<u8>>,
    os: Seq<Seq<Seq<FindOutcome>>>,
    l: Seq<u8>,
    lo: Seq<Seq<FindOutcome>>,
    mid: (Seq<Seq<u8>>, Seq<ErrView>, Seq<LogView>),
    step: (Seq<u8>, Seq<ErrView>, Seq<LogView>),
)
    requires
        run_text(ps, lines, os) == Option::Some(mid),
        run_plugins(ps, l, lo) == Option::Some(step),
    ensures
        run_text(ps, lines.push(l), os.push(lo)) == Option::Some(
            (mid.0 + seq![step.0], mid.1 + step.1, mid.2 + step.2),
        ),
    decreases lines.len(),
{
    let gl = lines.push(l);
    let go = os.push(lo);
    assert(gl.len() == go.len());
    if lines.len() == 0 {
        assert(gl[0] == l);
        assert(go[0] == lo);
        assert(gl.drop_first() =~= lines);
        assert(go.drop_first() =~= os);
        assert(seq![step.0] + Seq::<Seq<u8>>::empty() =~= seq![step.0]);
        assert(step.1 + Seq::<ErrView>::empty() =~= step.1);
        assert(step.2 + Seq::<LogView>::empty() =~= step.2);
        assert(mid.0 + seq![step.0] =~= seq![step.0]);
        assert(mid.1 + step.1 =~= step.1);
        assert(mid.2 + step.2 =~= step.2);
    } else {
        let step0 = run_plugins(ps, lines[0], os[0])->Some_0;
        let rest = run_text(ps, lines.drop_first(), os.drop_first())->Some_0;
        lemma_run_text_push(ps, lines.drop_first(), os.drop_first(), l, lo, rest, step);
        assert(gl[0] == lines[0]);
        assert(go[0] == os[0]);
        assert(gl.drop_first() =~= lines.drop_first().push(l));
        assert(go.drop_first() =~= os.drop_first().push(lo));
        assert(seq![step0.0] + (rest.0 + seq![step.0]) =~= (seq![step0.0] + rest.0) + seq![
            step.0,
        ]);
        assert(step0.1 + (rest.1 + step.1) =~= (step0.1 + rest.1) + step.1);
        assert(step0.2 + (rest.2 + step.2) =~= (step0.2 + rest.2) + step.2);
    }
}

/// A run transforms lines one for one: the output holds exactly as many
/// lines as the input, in order.
pub proof fn lemma_run_text_line_count(
    ps: Seq<Plugin>,
    lines: Seq<Seq<u8>>,
    os: Seq<Seq<Seq<FindOutcome>>>,
)
    requires
        run_text(ps, lines, os) is Some,
    ensures
        run_text(ps, lines, os)->Some_0.0.len() == lines.len(),
    decreases lines.len(),
{
    if lines.len() == 0 {
    } else {
        lemma_run_text_line_count(ps, lines.drop_first(), os.drop_first());
    }
}

/// Joining the lines of a text puts it back together exactly.
pub proof fn lemma_join_split_roundtrip(t: Seq<u8>)
    ensures
        spec_join_lines(spec_split_lines(t)) == t,
    decreases t.len(),
{
    lemma_split_nonempty(t);
    if t.len() == 0 {
    } else {
        let rest = t.drop_first();
        let r = spec_split_lines(rest);
        lemma_join_split_roundtrip(rest);
        lemma_split_nonempty(rest);
        if t[0] == 10u8 {
            let s = spec_split_lines(t);
            assert(s =~= seq![Seq::<u8>::empty()] + r);
            assert(s.len() >= 2);
            assert(s[0] =~= Seq::<u8>::empty());
            assert(s.drop_first() =~= r);
            assert(s[0] + seq![10u8] + spec_join_lines(r) =~= t);
        } else {
            let s = spec_split_lines(t);
            assert(s =~= seq![seq![t[0]] + r[0]] + r.drop_first());
            if r.len() == 1 {
                assert(s.len() == 1);
                assert(spec_join_lines(r) == r[0]);
                assert(spec_join_lines(s) == s[0]);
                assert(s[0] =~= seq![t[0]] + r[0]);
                assert(seq![t[0]] + spec_join_lines(r) =~= t);
            } else {
                assert(s.len() >= 2);
                assert(s[0] =~= seq![t[0]] + r[0]);
                assert(s.drop_first() =~= r.drop_first());
                assert(spec_join_lines(r) == r[0] + seq![10u8] + spec_join_lines(
                    r.drop_first(),
                ));
                assert(spec_join_lines(s) == s[0] + seq![10u8] + spec_join_lines(
                    s.drop_first(),
                ));
                assert((seq![t[0]] + r[0]) + seq![10u8] + spec_join_lines(r.drop_first())
                    =~= seq![t[0]] + (r[0] + seq![10u8] + spec_join_lines(r.drop_first())));
                assert(seq![t[0]] + spec_join_lines(r) =~= t);
            }
        }
    }
}

/// A run is decided by the pattern, the effects and the search pattern
/// alone, all of which evolution keeps: a function runs the same before and
/// after its cache fills.
pub proof fn lemma_lf_run_evolved(a: LineFunction, b: LineFunction, l: Seq<u8>, o: FindOutcome)
    requires
        fn_evolved(a, b),
    ensures
        lf_run(a, l, o) == lf_run(b, l, o),
{
    assert(a.pattern == b.pattern);
    assert(a.effect == b.effect);
    if a.pattern is Some {
        match a.regex {
            Option::Some(_) => {
                assert(b.regex == a.regex);
            },
            Option::None => {
                match b.regex {
                    Option::Some(m) => {
                        assert(lf_search_pattern(b) == lf_search_pattern(a));
                    },
                    Option::None => {},
                }
            },
        }
    }
}

/// Evolution composes: what evolved from `a` to `b` and on to `c` evolved
/// from `a` to `c`.
pub proof fn lemma_fn_evolved_trans(a: LineFunction, b: LineFunction, c: LineFunction)
    requires
        fn_evolved(a, b),
        fn_evolved(b, c),
    ensures
        fn_evolved(a, c),
{
}

/// Evolution is reflexive: an untouched plugin list evolved trivially.
pub proof fn lemma_plugins_evolved_refl(a: Seq<Plugin>)
    ensures
        plugins_evolved(a, a),
{
    assert forall|i: int| 0 <= i < a.len() implies plugin_evolved(a[i], #[trigger] a[i]) by {
        assert(forall|j: int|
            0 <= j < a[i].line_functions@.len() ==> fn_evolved(
                a[i].line_functions@[j],
                #[trigger] a[i].line_functions@[j],
            ));
    }
}

/// `lemma_fn_evolved_trans`, lifted to plugin lists.
pub proof fn lemma_plugins_evolved_trans(a: Seq<Plugin>, b: Seq<Plugin>, c: Seq<Plugin>)
    requires
        plugins_evolved(a, b),
        plugins_evolved(b, c),
    ensures
        plugins_evolved(a, c),
{
    assert forall|i: int| 0 <= i < a.len() implies plugin_evolved(a[i], #[trigger] c[i]) by {
        assert(plugin_evolved(a[i], b[i]));
        assert(plugin_evolved(b[i], c[i]));
        assert forall|j: int| 0 <= j < a[i].line_functions@.len() implies fn_evolved(
            a[i].line_functions@[j],
            #[trigger] c[i].line_functions@[j],
        ) by {
            lemma_fn_evolved_trans(
                a[i].line_functions@[j],
                b[i].line_functions@[j],
                c[i].line_functions@[j],
            );
        }
    }
}

/// Function lists run the same way before and after their caches fill.
pub proof fn lemma_run_functions_evolved(
    a: Seq<LineFunction>,
    b: Seq<LineFunction>,
    l: Seq<u8>,
    os: Seq<FindOutcome>,
)
    requires
        a.len() == b.len(),
        forall|j: int| 0 <= j < a.len() ==> fn_evolved(a[j], #[trigger] b[j]),
    ensures
        crate::plugin::run_functions(a, l, os) == crate::plugin::run_functions(b, l, os),
    decreases a.len(),
{
    if a.len() != os.len() || a.len() == 0 {
    } else {
        lemma_lf_run_evolved(a[0], b[0], l, os[0]);
        assert(forall|j: int|
            0 <= j < a.drop_first().len() ==> fn_evolved(
                a.drop_first()[j],
                #[trigger] b.drop_first()[j],
            ));
        match lf_run(a[0], l, os[0]) {
            Option::None => {},
            Option::Some(step) => {
                lemma_run_functions_evolved(a.drop_first(), b.drop_first(), step.0,
                    os.drop_first());
            },
        }
    }
}

/// Plugin lists run the same way before and after their caches fill.
pub proof fn lemma_run_plugins_evolved(
    a: Seq<Plugin>,
    b: Seq<Plugin>,
    l: Seq<u8>,
    os: Seq<Seq<FindOutcome>>,
)
    requires
        plugins_evolved(a, b),
    ensures
        run_plugins(a, l, os) == run_plugins(b, l, os),
    decreases a.len(),
{
    if a.len() != os.len() || a.len() == 0 {
    } else {
        assert(plugin_evolved(a[0], b[0]));
        lemma_run_functions_evolved(a[0].line_functions@, b[0].line_functions@, l, os[0]);
        assert(plugins_evolved(a.drop_first(), b.drop_first())) by {
            assert forall|i: int| 0 <= i < a.drop_first().len() implies plugin_evolved(
                a.drop_first()[i],
                #[trigger] b.drop_first()[i],
            ) by {
                assert(plugin_evolved(a[i + 1], b[i + 1]));
            }
        }
        match crate::plugin::run_functions(a[0].line_functions@, l, os[0]) {
            Option::None => {},
            Option::Some(step) => {
                lemma_run_plugins_evolved(a.drop_first(), b.drop_first(), step.0,
                    os.drop_first());
            },
        }
    }
}

/// Appends a copy of `src` to `out`.
fn extend_bytes(out: &mut Vec<u8>, src: &Vec<u8>)
    ensures
        final(out)@ == old(out)@ + src@,
{
    let ghost base = out@;
    let mut k: usize = 0;
    while k < src.len()
        invariant
            k <= src@.len(),
            out@ == base + src@.subrange(0, k as int),
        decreases src@.len() - k,
    {
        out.push(src[k]);
        assert(out@ =~= base + src@.subrange(0, k + 1 as int));
        k += 1;
    }
    assert(out@ =~= base + src@);
}

/// Splits a text into its lines on the newline byte, exactly as
/// `spec_split_lines` says.
pub fn split_lines(t: &Vec<u8>) -> (r: Vec<Vec<u8>>)
    ensures
        lines_view(r@) == spec_split_lines(t@),
{
    let mut acc: Vec<Vec<u8>> = Vec::new();
    let mut cur: Vec<u8> = Vec::new();
    let n = t.len();
    let mut k: usize = 0;
    proof {
        assert(t@.skip(0) =~= t@);
    }
    while k < n
        invariant
            n == t@.len(),
            k <= n,
            ({
                let s = spec_split_lines(t@.skip(k as int));
                spec_split_lines(t@) == lines_view(acc@) + (seq![cur@ + s[0]] + s.drop_first())
            }),
        decreases n - k,
    {
        let ghost sk = spec_split_lines(t@.skip(k as int));
        let ghost sk1 = spec_split_lines(t@.skip(k as int + 1));
        proof {
            lemma_split_nonempty(t@.skip(k as int));
            lemma_split_nonempty(t@.skip(k as int + 1));
            assert(t@.skip(k as int)[0] == t@[k as int]);
            assert(t@.skip(k as int).drop_first() =~= t@.skip(k as int + 1));
        }
        let b = t[k];
        if b == 10u8 {
            proof {
                assert(sk =~= seq![Seq::<u8>::empty()] + sk1);
                assert(cur@ + sk[0] =~= cur@);
                assert(lines_view(acc@.push(cur)) =~= lines_view(acc@) + seq![cur@]);
                assert(lines_view(acc@) + (seq![cur@] + (seq![Seq::<u8>::empty() + sk1[0]]
                    + sk1.drop_first())) =~= lines_view(acc@) + (seq![cur@ + sk[0]]
                    + sk.drop_first()));
                assert(Seq::<u8>::empty() + sk1[0] =~= sk1[0]);
            }
            acc.push(cur);
            cur = Vec::new();
            proof {
                assert((lines_view(acc@)) + (seq![cur@ + sk1[0]] + sk1.drop_first())
                    =~= spec_split_lines(t@));
            }
        } else {
            proof {
                assert(sk =~= seq![seq![t@[k as int]] + sk1[0]] + sk1.drop_first());
                assert(cur@.push(t@[k as int]) + sk1[0] =~= cur@ + sk[0]);
            }
            cur.push(b);
            proof {
                assert(lines_view(acc@) + (seq![cur@ + sk1[0]] + sk1.drop_first())
                    =~= spec_split_lines(t@));
            }
        }
        k += 1;
    }
    proof {
        assert(t@.skip(n as int) =~= Seq::<u8>::empty());
        let s = spec_split_lines(t@.skip(n as int));
        assert(s =~= seq![Seq::<u8>::empty()]);
        assert(cur@ + s[0] =~= cur@);
        assert(s.drop_first() =~= Seq::<Seq<u8>>::empty());
        assert(seq![cur@ + s[0]] + s.drop_first() =~= seq![cur@]);
    }
    acc.push(cur);
    proof {
        assert(lines_view(acc@) =~= spec_split_lines(t@));
    }
    acc
}

/// The continuation of a join: nothing for no remaining lines, else a
/// separator and the joined remainder.
pub open spec fn join_tail(s: Seq<Seq<u8>>) -> Seq<u8> {
    if s.len() == 0 {
        Seq::empty()
    } else {
        seq![10u8] + spec_join_lines(s)
    }
}

/// Joins lines back with the newline byte, exactly as `spec_join_lines`
/// says.
pub fn join_lines(lines: &Vec<Vec<u8>>) -> (r: Vec<u8>)
    ensures
        r@ == spec_join_lines(lines_view(lines@)),
{
    let ghost lv = lines_view(lines@);
    let mut out: Vec<u8> = Vec::new();
    let n = lines.len();
    if n == 0 {
        return out;
    }
    extend_bytes(&mut out, &lines[0]);
    let mut k: usize = 1;
    proof {
        assert(lv.len() == n);
        if n == 1 {
            assert(out@ + join_tail(lv.skip(1)) =~= spec_join_lines(lv));
        } else {
            assert(lv.drop_first() =~= lv.skip(1));
            assert(out@ + join_tail(lv.skip(1)) =~= spec_join_lines(lv));
        }
    }
    while k < n
        invariant
            1 <= k <= n,
            n == lines@.len(),
            lv == lines_view(lines@),
            out@ + join_tail(lv.skip(k as int)) == spec_join_lines(lv),
        decreases n - k,
    {
        let ghost out0 = out@;
        out.push(10u8);
        extend_bytes(&mut out, &lines[k]);
        proof {
            let s = lv.skip(k as int);
            let s1 = lv.skip(k as int + 1);
            assert(s[0] == lv[k as int]);
            assert(s.drop_first() =~= s1);
            assert(out@ =~= out0 + seq![10u8] + lv[k as int]);
            if s.len() == 1 {
                assert(s1.len() == 0);
                assert(spec_join_lines(s) == s[0]);
                assert(out@ + join_tail(s1) =~= out0 + join_tail(s));
            } else {
                assert(spec_join_lines(s) == s[0] + seq![10u8] + spec_join_lines(s1));
                assert(out@ + join_tail(s1) =~= out0 + join_tail(s));
            }
        }
        k += 1;
    }
    proof {
        assert(lv.skip(n as int).len() == 0);
        assert(out@ + join_tail(lv.skip(n as int)) =~= out@);
    }
    out
}

impl PluginManager {
    /// Runs every function of every plugin against every line of `input`
    /// independently — no state crosses a line boundary but the regex
    /// caches, which decide nothing — and joins the transformed lines back
    /// in order with the same separator. Returns the best-effort text and
    /// every error collected anywhere in the run; emitted log entries are
    /// appended to `logs`. The relation between input and output is
    /// `run_text`, quantified over what the engine did at each function of
    /// each line.
    pub fn execute_on_text(&mut self, input: &Vec<u8>, logs: &mut Vec<LogEntry>) -> (r: (
        Vec<u8>,
        Vec<FunctionExecutionError>,
    ))
        ensures
            plugins_config_eq(final(self).plugins@, old(self).plugins@),
            plugins_evolved(old(self).plugins@, final(self).plugins@),
            exists|os: Seq<Seq<Seq<FindOutcome>>>|
                #![trigger run_text(old(self).plugins@, spec_split_lines(input@), os)]
                ({
                    &&& run_text(old(self).plugins@, spec_split_lines(input@), os)
                        matches Option::Some(out)
                    &&& r.0@ == spec_join_lines(out.0)
                    &&& errs_view(r.1@) == out.1
                    &&& log_views(final(logs)@) == log_views(old(logs)@) + out.2
                }),
    {
        let ghost ps0 = self.plugins@;
        let ghost logs0 = logs@;
        let mut lines = split_lines(input);
        let ghost lines0 = lines_view(lines@);
        let mut out_lines: Vec<Vec<u8>> = Vec::new();
        let mut errors: Vec<FunctionExecutionError> = Vec::new();
        let ghost mut oss: Seq<Seq<Seq<FindOutcome>>> = Seq::empty();
        let ghost mut tout: (Seq<Seq<u8>>, Seq<ErrView>, Seq<LogView>) = (
            Seq::empty(),
            Seq::empty(),
            Seq::empty(),
        );
        proof {
            assert(lines0.take(0) =~= Seq::<Seq<u8>>::empty());
            assert(errs_view(errors@) =~= Seq::<ErrView>::empty());
            assert(log_views(logs@) + Seq::<LogView>::empty() =~= log_views(logs@));
            assert(lines_view(out_lines@) =~= Seq::<Seq<u8>>::empty());
            lemma_plugins_evolved_refl(ps0);
        }
        while lines.len() > 0
            invariant
                out_lines@.len() + lines@.len() == lines0.len(),
                forall|i: int| 0 <= i < lines@.len() ==> #[trigger] lines@[i]@ == lines0[
                    out_lines@.len() + i],
                plugins_evolved(ps0, self.plugins@),
                run_text(ps0, lines0.take(out_lines@.len() as int), oss) == Option::Some(tout),
                tout.0 == lines_view(out_lines@),
                tout.1 == errs_view(errors@),
                log_views(logs@) == log_views(logs0) + tout.2,
            decreases lines@.len(),
        {
            let ghost line_pre = lines@[0]@;
            let ghost logs_pre = logs@;
            let ghost errs_pre = errors@;
            let ghost tout_pre = tout;
            let ghost mgr_pre = self.plugins@;
            let mut line = lines.remove(0);
            let res = self.execute_line_functions(&mut line, logs);
            let ghost line_post = line@;
            let ghost logs_post = logs@;
            let ghost lo = (choose|lo: Seq<Seq<FindOutcome>>|
                #![trigger run_plugins(mgr_pre, line_pre, lo)]
                ({
                    &&& run_plugins(mgr_pre, line_pre, lo) matches Option::Some(out)
                    &&& line_post == out.0
                    &&& (match res {
                        Result::Ok(_) => out.1.len() == 0,
                        Result::Err(es) => es@.len() > 0 && errs_view(es@) == out.1
                    })
                    &&& log_views(logs_post) == log_views(logs_pre) + out.2
                }));
            proof {
                lemma_run_plugins_evolved(ps0, mgr_pre, line_pre, lo);
                lemma_plugins_evolved_trans(ps0, mgr_pre, self.plugins@);
            }
            let ghost step = run_plugins(ps0, line_pre, lo)->Some_0;
            proof {
                lemma_run_text_push(
                    ps0,
                    lines0.take(out_lines@.len() as int),
                    oss,
                    line_pre,
                    lo,
                    tout_pre,
                    step,
                );
                assert(lines0.take(out_lines@.len() as int + 1) =~= lines0.take(
                    out_lines@.len() as int,
                ).push(line_pre));
                oss = oss.push(lo);
                tout = (tout_pre.0 + seq![step.0], tout_pre.1 + step.1, tout_pre.2 + step.2);
                assert((log_views(logs0) + tout_pre.2) + step.2 =~= log_views(logs0) + (tout_pre.2
                    + step.2));
            }
            match res {
                Result::Err(mut e) => {
                    let ghost ev = e@;
                    errors.append(&mut e);
                    proof {
                        crate::plugin::lemma_errs_view_concat(errs_pre, ev);
                        assert(errs_view(errors@) =~= tout_pre.1 + step.1);
                    }
                },
                Result::Ok(_) => {
                    proof {
                        assert(step.1.len() == 0);
                        assert(step.1 =~= Seq::<ErrView>::empty());
                        assert(tout_pre.1 + step.1 =~= tout_pre.1);
                    }
                },
            }
            out_lines.push(line);
            proof {
                assert(lines_view(out_lines@) =~= tout_pre.0 + seq![step.0]);
            }
        }
        proof {
            assert(lines0.take(lines0.len() as int) =~= lines0);
            assert forall|i: int| 0 <= i < self.plugins@.len() implies plugin_config_eq(
                #[trigger] self.plugins@[i],
                ps0[i],
            ) by {
                assert(plugin_evolved(ps0[i], self.plugins@[i]));
                assert forall|j: int|
                    0 <= j < self.plugins@[i].line_functions@.len() implies fn_config_eq(
                    #[trigger] self.plugins@[i].line_functions@[j],
                    ps0[i].line_functions@[j],
                ) by {
                    assert(fn_evolved(ps0[i].line_functions@[j],
                        self.plugins@[i].line_functions@[j]));
                }
            }
        }
        let joined = join_lines(&out_lines);
        (joined, errors)
    }
}

} // verus!
