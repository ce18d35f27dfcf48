//! Plugins and the plugin manager: ordered collections of line functions,
//! run in order against a line with every error collected.

use vstd::prelude::*;
use crate::effect::{LogEntry, LogView, log_views};
use crate::error::{ErrView, FunctionExecutionError, errs_view};
use crate::line_function::{FindOutcome, LineFunction, lf_apply_ensures, lf_run};
use crate::matcher::pattern_compiles;

verus! {

/// A named, ordered group of line functions: the unit of configuration
/// grouping.
pub struct Plugin {
    /// Expected, though not required, to be unique among plugins.
    pub name: String,
    /// The functions, applied in order.
    pub line_functions: Vec<LineFunction>,
}

/// An ordered collection of plugins; the single entry point that runs every
/// function of every plugin, in order, against a line.
pub struct PluginManager {
    /// The plugins, applied in order.
    pub plugins: Vec<Plugin>,
}

/// Whether two line functions carry the same configuration. The cached
/// compiled matcher is left out: it is regenerable state, not identity.
pub open spec fn fn_config_eq(a: LineFunction, b: LineFunction) -> bool {
    a.name == b.name && a.pattern == b.pattern && a.effect == b.effect
}

/// Whether two plugins carry the same configuration, function by function.
pub open spec fn plugin_config_eq(a: Plugin, b: Plugin) -> bool {
    &&& a.name == b.name
    &&& a.line_functions@.len() == b.line_functions@.len()
    &&& forall|j: int|
        0 <= j < a.line_functions@.len() ==> fn_config_eq(
            #[trigger] a.line_functions@[j],
            b.line_functions@[j],
        )
}

/// Whether two plugin lists carry the same configuration, plugin by plugin.
pub open spec fn plugins_config_eq(a: Seq<Plugin>, b: Seq<Plugin>) -> bool {
    a.len() == b.len() && forall|i: int|
        0 <= i < a.len() ==> plugin_config_eq(#[trigger] a[i], b[i])
}

/// How a line function may change over a run, from `a` to `b`: its
/// configuration is kept, a matcher already cached is kept as it is, and a
/// matcher that appears was compiled from the function's own pattern. Under
/// this relation a function's runs are indistinguishable, so the cache
/// decides nothing.
pub open spec fn fn_evolved(a: LineFunction, b: LineFunction) -> bool {
    &&& fn_config_eq(a, b)
    &&& (a.regex is Some ==> b.regex == a.regex)
    &&& (b.regex matches Option::Some(m) ==> (a.regex is None ==> (a.pattern
        matches Option::Some(p) && pattern_compiles(p@) && m.spec_pattern() == p@)))
}

/// `fn_evolved`, lifted to a plugin, function by function.
pub open spec fn plugin_evolved(a: Plugin, b: Plugin) -> bool {
    &&& a.name == b.name
    &&& a.line_functions@.len() == b.line_functions@.len()
    &&& forall|j: int|
        0 <= j < a.line_functions@.len() ==> fn_evolved(
            a.line_functions@[j],
            #[trigger] b.line_functions@[j],
        )
}

/// `plugin_evolved`, lifted to a plugin list, plugin by plugin.
pub open spec fn plugins_evolved(a: Seq<Plugin>, b: Seq<Plugin>) -> bool {
    a.len() == b.len() && forall|i: int|
        0 <= i < a.len() ==> plugin_evolved(a[i], #[trigger] b[i])
}

/// What running the functions `fs` in order on `line` yields under the
/// matcher outcomes `os`, one per function: the final line, all errors in
/// order, and all log entries in order — or nothing, when some outcome is
/// one the engine cannot produce there.
pub open spec fn run_functions(fs: Seq<LineFunction>, line: Seq<u8>, os: Seq<FindOutcome>) -> Option<
    (Seq<u8>, Seq<ErrView>, Seq<LogView>),
>
    decreases fs.len(),
{
    if fs.len() != os.len() {
        Option::None
    } else if fs.len() == 0 {
        Option::Some((line, Seq::empty(), Seq::empty()))
    } else {
        match lf_run(fs[0], line, os[0]) {
            Option::None => Option::None,
            Option::Some(step) => match run_functions(fs.drop_first(), step.0, os.drop_first()) {
                Option::None => Option::None,
                Option::Some(rest) => Option::Some((rest.0, step.1 + rest.1, step.2 + rest.2)),
            },
        }
    }
}

/// What running the plugins `ps` in order on `line` yields under the matcher
/// outcomes `os`, one list per plugin.
pub open spec fn run_plugins(ps: Seq<Plugin>, line: Seq<u8>, os: Seq<Seq<FindOutcome>>) -> Option<
    (Seq<u8>, Seq<ErrView>, Seq<LogView>),
>
    decreases ps.len(),
{
    if ps.len() != os.len() {
        Option::None
    } else if ps.len() == 0 {
        Option::Some((line, Seq::empty(), Seq::empty()))
    } else {
        match run_functions(ps[0].line_functions@, line, os[0]) {
            Option::None => Option::None,
            Option::Some(step) => match run_plugins(ps.drop_first(), step.0, os.drop_first()) {
                Option::None => Option::None,
                Option::Some(rest) => Option::Some((rest.0, step.1 + rest.1, step.2 + rest.2)),
            },
        }
    }
}

/// Running one more function after a prefix composes: the new function sees
/// the line the prefix left, and its errors and log entries are appended.
pub proof fn lemma_run_functions_push(
    fs: Seq<LineFunction>,
    line: Seq<u8>,
    os: Seq<FindOutcome>,
    f: LineFunction,
    o: FindOutcome,
    mid: (Seq<u8>, Seq<ErrView>, Seq<LogView>),
    step: (Seq<u8>, Seq<ErrView>, Seq<LogView>),
)
    requires
        run_functions(fs, line, os) == Option::Some(mid),
        lf_run(f, mid.0, o) == Option::Some(step),
    ensures
        run_functions(fs.push(f), line, os.push(o)) == Option::Some(
            (step.0, mid.1 + step.1, mid.2 + step.2),
        ),
    decreases fs.len(),
{
    let gfs = fs.push(f);
    let gos = os.push(o);
    assert(gfs.len() == gos.len());
    if fs.len() == 0 {
        assert(gfs[0] == f);
        assert(gos[0] == o);
        assert(mid.0 == line);
        assert(gfs.drop_first() =~= fs);
        assert(gos.drop_first() =~= os);
        assert(run_functions(gfs.drop_first(), step.0, gos.drop_first()) == Option::Some(
            (step.0, Seq::<ErrView>::empty(), Seq::<LogView>::empty()),
        ));
        assert(step.1 + Seq::<ErrView>::empty() =~= step.1);
        assert(step.2 + Seq::<LogView>::empty() =~= step.2);
        assert(mid.1 + step.1 =~= step.1);
        assert(mid.2 + step.2 =~= step.2);
    } else {
        let step0 = lf_run(fs[0], line, os[0])->Some_0;
        let rest = run_functions(fs.drop_first(), step0.0, os.drop_first())->Some_0;
        lemma_run_functions_push(fs.drop_first(), step0.0, os.drop_first(), f, o, rest, step);
        assert(gfs[0] == fs[0]);
        assert(gos[0] == os[0]);
        assert(gfs.drop_first() =~= fs.drop_first().push(f));
        assert(gos.drop_first() =~= os.drop_first().push(o));
        assert(step0.1 + (rest.1 + step.1) =~= (step0.1 + rest.1) + step.1);
        assert(step0.2 + (rest.2 + step.2) =~= (step0.2 + rest.2) + step.2);
    }
}

/// Running one more plugin after a prefix composes the same way.
pub proof fn lemma_run_plugins_push(
    ps: Seq<Plugin>,
    line: Seq<u8>,
    os: Seq<Seq<FindOutcome>>,
    p: Plugin,
    po: Seq<FindOutcome>,
    mid: (Seq<u8>, Seq<ErrView>, Seq<LogView>),
    step: (Seq<u8>, Seq<ErrView>, Seq<LogView>),
)
    requires
        run_plugins(ps, line, os) == Option::Some(mid),
        run_functions(p.line_functions@, mid.0, po) == Option::Some(step),
    ensures
        run_plugins(ps.push(p), line, os.push(po)) == Option::Some(
            (step.0, mid.1 + step.1, mid.2 + step.2),
        ),
    decreases ps.len(),
{
    let gps = ps.push(p);
    let gos = os.push(po);
    assert(gps.len() == gos.len());
    if ps.len() == 0 {
        assert(gps[0] == p);
        assert(gos[0] == po);
        assert(mid.0 == line);
        assert(gps.drop_first() =~= ps);
        assert(gos.drop_first() =~= os);
        assert(run_plugins(gps.drop_first(), step.0, gos.drop_first()) == Option::Some(
            (step.0, Seq::<ErrView>::empty(), Seq::<LogView>::empty()),
        ));
        assert(step.1 + Seq::<ErrView>::empty() =~= step.1);
        assert(step.2 + Seq::<LogView>::empty() =~= step.2);
        assert(mid.1 + step.1 =~= step.1);
        assert(mid.2 + step.2 =~= step.2);
    } else {
        let step0 = run_functions(ps[0].line_functions@, line, os[0])->Some_0;
        let rest = run_plugins(ps.drop_first(), step0.0, os.drop_first())->Some_0;
        lemma_run_plugins_push(ps.drop_first(), step0.0, os.drop_first(), p, po, rest, step);
        assert(gps[0] == ps[0]);
        assert(gos[0] == os[0]);
        assert(gps.drop_first() =~= ps.drop_first().push(p));
        assert(gos.drop_first() =~= os.drop_first().push(po));
        assert(step0.1 + (rest.1 + step.1) =~= (step0.1 + rest.1) + step.1);
        assert(step0.2 + (rest.2 + step.2) =~= (step0.2 + rest.2) + step.2);
    }
}

/// The views of a concatenation are the concatenated views.
pub proof fn lemma_errs_view_concat(a: Seq<FunctionExecutionError>, b: Seq<FunctionExecutionError>)
    ensures
        errs_view(a + b) == errs_view(a) + errs_view(b),
{
    assert(errs_view(a + b) =~= errs_view(a) + errs_view(b));
}

impl PluginManager {
    /// A manager with no plugins yet; the host loads its configuration in.
    pub fn new() -> (r: PluginManager)
        ensures
            r.plugins@.len() == 0,
    {
        PluginManager { plugins: Vec::new() }
    }

    /// Appends one plugin; its functions run after everything already held.
    pub fn add_plugin(&mut self, plugin: Plugin)
        ensures
            final(self).plugins@ == old(self).plugins@.push(plugin),
    {
        self.plugins.push(plugin);
    }

    /// Runs every function of every plugin, in plugin order then function
    /// order, against the given line, mutating it in place and collecting
    /// every error without short-circuiting; emitted log entries are
    /// appended to `logs`. Succeeds exactly when nothing failed. The
    /// relation between input and output is `run_plugins`, quantified over
    /// what the engine did at each function.
    pub fn execute_line_functions(
        &mut self,
        input: &mut Vec<u8>,
        logs: &mut Vec<LogEntry>,
    ) -> (r: Result<(), Vec<FunctionExecutionError>>)
        ensures
            plugins_config_eq(final(self).plugins@, old(self).plugins@),
            plugins_evolved(old(self).plugins@, final(self).plugins@),
            exists|os: Seq<Seq<FindOutcome>>|
                #![trigger run_plugins(old(self).plugins@, old(input)@, os)]
                ({
                    &&& run_plugins(old(self).plugins@, old(input)@, os) matches Option::Some(out)
                    &&& final(input)@ == out.0
                    &&& (match r {
                        Result::Ok(_) => out.1.len() == 0,
                        Result::Err(es) => es@.len() > 0 && errs_view(es@) == out.1
                    })
                    &&& log_views(final(logs)@) == log_views(old(logs)@) + out.2
                }),
    {
        let ghost ps0 = self.plugins@;
        let ghost l0 = input@;
        let ghost logs0 = logs@;
        let mut errors: Vec<FunctionExecutionError> = Vec::new();
        let ghost mut oss: Seq<Seq<FindOutcome>> = Seq::empty();
        let ghost mut gout: (Seq<u8>, Seq<ErrView>, Seq<LogView>) = (
            l0,
            Seq::empty(),
            Seq::empty(),
        );
        let mut remaining: Vec<Plugin> = Vec::new();
        core::mem::swap(&mut remaining, &mut self.plugins);
        let mut done: Vec<Plugin> = Vec::new();
        proof {
            assert(ps0.take(0) =~= Seq::<Plugin>::empty());
            assert(errs_view(errors@) =~= Seq::<ErrView>::empty());
            assert(log_views(logs@) + Seq::<LogView>::empty() =~= log_views(logs@));
        }
        while remaining.len() > 0
            invariant
                done@.len() + remaining@.len() == ps0.len(),
                plugins_evolved(ps0.take(done@.len() as int), done@),
                forall|i: int|
                    0 <= i < remaining@.len() ==> #[trigger] remaining@[i] == ps0[done@.len()
                        + i],
                run_plugins(ps0.take(done@.len() as int), l0, oss) == Option::Some(gout),
                gout.0 == input@,
                gout.1 == errs_view(errors@),
                log_views(logs@) == log_views(logs0) + gout.2,
            decreases remaining@.len(),
        {
            let ghost p_pre = remaining@[0];
            let ghost lp0 = input@;
            let ghost pout0 = gout;
            let mut plugin = remaining.remove(0);
            let mut funcs: Vec<LineFunction> = Vec::new();
            core::mem::swap(&mut funcs, &mut plugin.line_functions);
            let ghost fs0 = funcs@;
            let mut done_f: Vec<LineFunction> = Vec::new();
            let ghost mut os_cur: Seq<FindOutcome> = Seq::empty();
            let ghost mut fout: (Seq<u8>, Seq<ErrView>, Seq<LogView>) = (
                lp0,
                Seq::empty(),
                Seq::empty(),
            );
            proof {
                assert(fs0.take(0) =~= Seq::<LineFunction>::empty());
            }
            while funcs.len() > 0
                invariant
                    done_f@.len() + funcs@.len() == fs0.len(),
                    forall|j: int|
                        0 <= j < done_f@.len() ==> fn_evolved(fs0[j], #[trigger] done_f@[j]),
                    forall|j: int| 0 <= j < funcs@.len() ==> #[trigger] funcs@[j] == fs0[
                        done_f@.len() + j],
                    run_functions(fs0.take(done_f@.len() as int), lp0, os_cur) == Option::Some(
                        fout,
                    ),
                    fout.0 == input@,
                    errs_view(errors@) == pout0.1 + fout.1,
                    log_views(logs@) == log_views(logs0) + (pout0.2 + fout.2),
                decreases funcs@.len(),
            {
                let ghost f_pre = funcs@[0];
                let ghost line_pre = input@;
                let ghost logs_pre = logs@;
                let ghost errs_pre = errors@;
                let ghost fout_pre = fout;
                let mut f = funcs.remove(0);
                let step_r = f.apply_function(input, logs);
                let ghost line_post = input@;
                let ghost logs_post = logs@;
                let ghost o = (choose|oo: FindOutcome|
                    lf_apply_ensures(f_pre, line_pre, logs_pre, line_post, logs_post, step_r, oo));
                let ghost step = lf_run(f_pre, line_pre, o)->Some_0;
                proof {
                    assert(lf_apply_ensures(f_pre, line_pre, logs_pre, line_post, logs_post,
                        step_r, o));
                    lemma_run_functions_push(
                        fs0.take(done_f@.len() as int),
                        lp0,
                        os_cur,
                        f_pre,
                        o,
                        fout,
                        step,
                    );
                    assert(fs0.take(done_f@.len() as int + 1) =~= fs0.take(done_f@.len() as int).push(
                        f_pre,
                    ));
                    os_cur = os_cur.push(o);
                    fout = (step.0, fout_pre.1 + step.1, fout_pre.2 + step.2);
                    assert((log_views(logs0) + (pout0.2 + fout_pre.2)) + step.2 =~= log_views(
                        logs0,
                    ) + (pout0.2 + (fout_pre.2 + step.2)));
                }
                match step_r {
                    Result::Err(mut e) => {
                        let ghost ev = e@;
                        errors.append(&mut e);
                        proof {
                            lemma_errs_view_concat(errs_pre, ev);
                            assert(errs_view(ev) == step.1);
                            assert((pout0.1 + fout_pre.1) + step.1 =~= pout0.1 + (fout_pre.1
                                + step.1));
                        }
                    },
                    Result::Ok(_) => {
                        proof {
                            assert(step.1.len() == 0);
                            assert(step.1 =~= Seq::<ErrView>::empty());
                            assert(fout_pre.1 + step.1 =~= fout_pre.1);
                        }
                    },
                }
                done_f.push(f);
            }
            plugin.line_functions = done_f;
            proof {
                assert(fs0.take(fs0.len() as int) =~= fs0);
                assert(fs0 == p_pre.line_functions@);
                lemma_run_plugins_push(
                    ps0.take(done@.len() as int),
                    l0,
                    oss,
                    p_pre,
                    os_cur,
                    pout0,
                    fout,
                );
                assert(ps0.take(done@.len() as int + 1) =~= ps0.take(done@.len() as int).push(p_pre));
                oss = oss.push(os_cur);
                gout = (fout.0, pout0.1 + fout.1, pout0.2 + fout.2);
            }
            done.push(plugin);
            proof {
                assert(plugins_evolved(ps0.take(done@.len() as int), done@));
            }
        }
        proof {
            assert(ps0.take(ps0.len() as int) =~= ps0);
            assert forall|i: int| 0 <= i < done@.len() implies plugin_config_eq(
                #[trigger] done@[i],
                ps0[i],
            ) by {
                assert(plugin_evolved(ps0[i], done@[i]));
                assert forall|j: int|
                    0 <= j < done@[i].line_functions@.len() implies fn_config_eq(
                    #[trigger] done@[i].line_functions@[j],
                    ps0[i].line_functions@[j],
                ) by {
                    assert(fn_evolved(ps0[i].line_functions@[j], done@[i].line_functions@[j]));
                }
            }
        }
        core::mem::swap(&mut done, &mut self.plugins);
        if errors.is_empty() {
            proof {
                assert(gout.1.len() == 0);
            }
            Result::Ok(())
        } else {
            Result::Err(errors)
        }
    }
}

} // verus!
