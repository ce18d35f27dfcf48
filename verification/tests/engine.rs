use linefx::effect::{LineFunctionPositionArgument, LogEntry};
use linefx::error::{FunctionExecutionError, PluginLoadError};
use linefx::line_function::LineFunction;
use linefx::plugin::{Plugin, PluginManager};
use linefx::position::LineFunctionPosition;

fn heading_function() -> LineFunction {
    LineFunction::new(
        "heading".to_string(),
        Some(r"^([#]).+".to_string()),
        vec![
            (
                LineFunctionPositionArgument::Replace(
                    LineFunctionPosition::LineStart,
                    LineFunctionPosition::Index(0),
                ),
                b"<h1>".to_vec(),
            ),
            (
                LineFunctionPositionArgument::Insert(LineFunctionPosition::Eol),
                b"</h1>".to_vec(),
            ),
        ],
    )
    .ok()
    .unwrap()
}

#[test]
fn heading_scenario_on_one_line() {
    let mut f = heading_function();
    let mut line = b"# Title".to_vec();
    let mut logs: Vec<LogEntry> = Vec::new();
    let r = f.apply_function(&mut line, &mut logs);
    assert!(r.is_ok());
    // The replace range is inclusive: exactly the matched "#" at index 0 is
    // removed, so the space after it stays.
    assert_eq!(line, b"<h1> Title</h1>".to_vec());
    assert!(logs.is_empty());
}

#[test]
fn insert_without_pattern_prefixes_every_line() {
    let mut f = LineFunction::new(
        "quote".to_string(),
        None,
        vec![(
            LineFunctionPositionArgument::Insert(LineFunctionPosition::LineStart),
            b"> ".to_vec(),
        )],
    )
    .ok()
    .unwrap();
    let mut line = b"hello".to_vec();
    let mut logs: Vec<LogEntry> = Vec::new();
    let r = f.apply_function(&mut line, &mut logs);
    assert!(r.is_ok());
    assert_eq!(line, b"> hello".to_vec());
}

#[test]
fn no_match_leaves_line_unchanged() {
    let mut f = LineFunction::new(
        "never".to_string(),
        Some("x".to_string()),
        vec![(
            LineFunctionPositionArgument::Insert(LineFunctionPosition::LineStart),
            b"!!".to_vec(),
        )],
    )
    .ok()
    .unwrap();
    let mut line = b"no match here".to_vec();
    let mut logs: Vec<LogEntry> = Vec::new();
    let r = f.apply_function(&mut line, &mut logs);
    assert!(r.is_ok());
    assert_eq!(line, b"no match here".to_vec());
}

#[test]
fn index_past_line_end_is_out_of_bounds() {
    let mut f = LineFunction::new(
        "over".to_string(),
        Some("a".to_string()),
        vec![(
            LineFunctionPositionArgument::Insert(LineFunctionPosition::Index(5)),
            b"Z".to_vec(),
        )],
    )
    .ok()
    .unwrap();
    let mut line = b"a".to_vec();
    let mut logs: Vec<LogEntry> = Vec::new();
    let r = f.apply_function(&mut line, &mut logs);
    let errs = r.err().unwrap();
    assert_eq!(errs.len(), 1);
    assert!(matches!(errs[0], FunctionExecutionError::EffectIndexOutOfBounds));
    assert_eq!(line, b"a".to_vec());
}

#[test]
fn negative_offsets_resolve_or_fail() {
    // "b" matches at offset 1 in "ab"; an offset of -1 lands on 0.
    let mut f = LineFunction::new(
        "back".to_string(),
        Some("b".to_string()),
        vec![(
            LineFunctionPositionArgument::Insert(LineFunctionPosition::Index(-1)),
            b"X".to_vec(),
        )],
    )
    .ok()
    .unwrap();
    let mut line = b"ab".to_vec();
    let mut logs: Vec<LogEntry> = Vec::new();
    assert!(f.apply_function(&mut line, &mut logs).is_ok());
    assert_eq!(line, b"Xab".to_vec());

    // An offset of -2 lands before the line: out of bounds, never a panic.
    let mut g = LineFunction::new(
        "too_far".to_string(),
        Some("b".to_string()),
        vec![(
            LineFunctionPositionArgument::Insert(LineFunctionPosition::Index(-2)),
            b"X".to_vec(),
        )],
    )
    .ok()
    .unwrap();
    let mut line2 = b"ab".to_vec();
    let r = g.apply_function(&mut line2, &mut logs);
    let errs = r.err().unwrap();
    assert!(matches!(errs[0], FunctionExecutionError::EffectIndexOutOfBounds));
    assert_eq!(line2, b"ab".to_vec());
}

#[test]
fn replace_whole_line_yields_effect_string() {
    let mut f = LineFunction::new(
        "wipe".to_string(),
        None,
        vec![(
            LineFunctionPositionArgument::Replace(
                LineFunctionPosition::LineStart,
                LineFunctionPosition::Eol,
            ),
            b"X".to_vec(),
        )],
    )
    .ok()
    .unwrap();
    let mut logs: Vec<LogEntry> = Vec::new();
    let mut line = b"hello".to_vec();
    assert!(f.apply_function(&mut line, &mut logs).is_ok());
    assert_eq!(line, b"X".to_vec());
    let mut line2 = b"ab".to_vec();
    assert!(f.apply_function(&mut line2, &mut logs).is_ok());
    assert_eq!(line2, b"X".to_vec());
}

#[test]
fn inverted_replace_range_is_out_of_bounds() {
    let mut f = LineFunction::new(
        "inverted".to_string(),
        None,
        vec![(
            LineFunctionPositionArgument::Replace(
                LineFunctionPosition::Eol,
                LineFunctionPosition::LineStart,
            ),
            b"X".to_vec(),
        )],
    )
    .ok()
    .unwrap();
    let mut logs: Vec<LogEntry> = Vec::new();
    let mut line = b"ab".to_vec();
    let errs = f.apply_function(&mut line, &mut logs).err().unwrap();
    assert_eq!(errs.len(), 1);
    assert!(matches!(errs[0], FunctionExecutionError::EffectIndexOutOfBounds));
    assert_eq!(line, b"ab".to_vec());
}

#[test]
fn mid_character_offset_is_out_of_bounds() {
    // "." matches the two-byte character at offset 0; offset 1 falls inside
    // it, so resolving there is an error and the character is never split.
    let mut f = LineFunction::new(
        "mid".to_string(),
        Some(".".to_string()),
        vec![(
            LineFunctionPositionArgument::Insert(LineFunctionPosition::Index(1)),
            b"x".to_vec(),
        )],
    )
    .ok()
    .unwrap();
    let mut line = "\u{e9}".as_bytes().to_vec();
    let mut logs: Vec<LogEntry> = Vec::new();
    let errs = f.apply_function(&mut line, &mut logs).err().unwrap();
    assert_eq!(errs.len(), 1);
    assert!(matches!(errs[0], FunctionExecutionError::EffectIndexOutOfBounds));
    assert_eq!(line, "\u{e9}".as_bytes().to_vec());
}

#[test]
fn replace_span_ending_mid_character_is_out_of_bounds() {
    // The inclusive range [0, 0] would remove only the first byte of the
    // two-byte character at the line start, splitting it: an error, and the
    // line stays untouched.
    let mut f = LineFunction::new(
        "split".to_string(),
        Some(".".to_string()),
        vec![(
            LineFunctionPositionArgument::Replace(
                LineFunctionPosition::LineStart,
                LineFunctionPosition::Index(0),
            ),
            b"X".to_vec(),
        )],
    )
    .ok()
    .unwrap();
    let mut line = "\u{e9}!".as_bytes().to_vec();
    let mut logs: Vec<LogEntry> = Vec::new();
    let errs = f.apply_function(&mut line, &mut logs).err().unwrap();
    assert_eq!(errs.len(), 1);
    assert!(matches!(errs[0], FunctionExecutionError::EffectIndexOutOfBounds));
    assert_eq!(line, "\u{e9}!".as_bytes().to_vec());
}

#[test]
fn multi_byte_text_edits_at_boundaries_stay_whole() {
    let mut f = LineFunction::new(
        "bang".to_string(),
        None,
        vec![(
            LineFunctionPositionArgument::Insert(LineFunctionPosition::Eol),
            b"!".to_vec(),
        )],
    )
    .ok()
    .unwrap();
    let mut line = "d\u{e9}j\u{e0}".as_bytes().to_vec();
    let mut logs: Vec<LogEntry> = Vec::new();
    assert!(f.apply_function(&mut line, &mut logs).is_ok());
    assert_eq!(line, "d\u{e9}j\u{e0}!".as_bytes().to_vec());

    let mut g = LineFunction::new(
        "wipe".to_string(),
        None,
        vec![(
            LineFunctionPositionArgument::Replace(
                LineFunctionPosition::LineStart,
                LineFunctionPosition::Eol,
            ),
            b"X".to_vec(),
        )],
    )
    .ok()
    .unwrap();
    let mut line2 = "d\u{e9}j\u{e0}".as_bytes().to_vec();
    assert!(g.apply_function(&mut line2, &mut logs).is_ok());
    assert_eq!(line2, b"X".to_vec());
}

#[test]
fn relative_index_without_pattern_fails_to_load() {
    let r = LineFunction::new(
        "bad".to_string(),
        None,
        vec![(
            LineFunctionPositionArgument::Insert(LineFunctionPosition::Index(0)),
            b"x".to_vec(),
        )],
    );
    assert!(matches!(r.err().unwrap(), PluginLoadError::IndexGivenWithoutPattern));
}

#[test]
fn relative_index_inside_replace_fails_to_load_too() {
    let r = LineFunction::new(
        "bad2".to_string(),
        None,
        vec![(
            LineFunctionPositionArgument::Replace(
                LineFunctionPosition::LineStart,
                LineFunctionPosition::Index(1),
            ),
            b"x".to_vec(),
        )],
    );
    assert!(matches!(r.err().unwrap(), PluginLoadError::IndexGivenWithoutPattern));
}

#[test]
fn invalid_pattern_fails_to_load() {
    let r = LineFunction::new("broken".to_string(), Some("(".to_string()), vec![]);
    assert!(matches!(r.err().unwrap(), PluginLoadError::InvalidRegex(_)));
    // A valid pattern loads; the engine really decides.
    assert!(LineFunction::new("fine".to_string(), Some("a".to_string()), vec![]).is_ok());
}

#[test]
fn invalid_pattern_caught_lazily_after_a_bypass() {
    // A function arriving from deserialized data skips load-time validation;
    // first use compiles the pattern and reports the failure as data.
    let mut f = LineFunction::from_parts("broken".to_string(), Some("(".to_string()), vec![]);
    let mut line = b"anything".to_vec();
    let mut logs: Vec<LogEntry> = Vec::new();
    let errs = f.apply_function(&mut line, &mut logs).err().unwrap();
    assert_eq!(errs.len(), 1);
    assert!(matches!(errs[0], FunctionExecutionError::InvalidRegex(_)));
    assert_eq!(line, b"anything".to_vec());
}

#[test]
fn relative_index_without_regex_caught_at_run_time() {
    let mut f = LineFunction::from_parts(
        "bypassed".to_string(),
        None,
        vec![(
            LineFunctionPositionArgument::Insert(LineFunctionPosition::Index(0)),
            b"x".to_vec(),
        )],
    );
    let mut line = b"abc".to_vec();
    let mut logs: Vec<LogEntry> = Vec::new();
    let errs = f.apply_function(&mut line, &mut logs).err().unwrap();
    assert_eq!(errs.len(), 1);
    assert!(matches!(errs[0], FunctionExecutionError::EffectIndexGivenWithoutRegex));
    assert_eq!(line, b"abc".to_vec());
}

#[test]
fn lazy_compilation_caches_and_reuses_the_matcher() {
    let mut f = LineFunction::from_parts(
        "lazy".to_string(),
        Some("a".to_string()),
        vec![(
            LineFunctionPositionArgument::Insert(LineFunctionPosition::Eol),
            b"!".to_vec(),
        )],
    );
    let mut logs: Vec<LogEntry> = Vec::new();
    let mut l1 = b"abc".to_vec();
    assert!(f.apply_function(&mut l1, &mut logs).is_ok());
    assert_eq!(l1, b"abc!".to_vec());
    // Second use runs off the cached matcher and is independently correct.
    let mut l2 = b"a".to_vec();
    assert!(f.apply_function(&mut l2, &mut logs).is_ok());
    assert_eq!(l2, b"a!".to_vec());
}

#[test]
fn insert_at_eol_twice_leaks_no_state_across_lines() {
    let mut f = LineFunction::new(
        "bang".to_string(),
        Some("a".to_string()),
        vec![(
            LineFunctionPositionArgument::Insert(LineFunctionPosition::Eol),
            b"!".to_vec(),
        )],
    )
    .ok()
    .unwrap();
    let mut logs: Vec<LogEntry> = Vec::new();
    let mut l1 = b"alpha".to_vec();
    let mut l2 = b"beta".to_vec();
    assert!(f.apply_function(&mut l1, &mut logs).is_ok());
    assert!(f.apply_function(&mut l2, &mut logs).is_ok());
    assert_eq!(l1, b"alpha!".to_vec());
    assert_eq!(l2, b"beta!".to_vec());
}

#[test]
fn no_index_effects_succeed_in_order() {
    let mut f = LineFunction::new(
        "chain".to_string(),
        None,
        vec![
            (
                LineFunctionPositionArgument::Insert(LineFunctionPosition::LineStart),
                b"x".to_vec(),
            ),
            (
                LineFunctionPositionArgument::Insert(LineFunctionPosition::Eol),
                b"y".to_vec(),
            ),
            (
                LineFunctionPositionArgument::Replace(
                    LineFunctionPosition::LineStart,
                    LineFunctionPosition::LineStart,
                ),
                b"z".to_vec(),
            ),
        ],
    )
    .ok()
    .unwrap();
    let mut line = b"hi".to_vec();
    let mut logs: Vec<LogEntry> = Vec::new();
    assert!(f.apply_function(&mut line, &mut logs).is_ok());
    // "hi" -> "xhi" -> "xhiy" -> the inclusive range [0, 0] replaced: "zhiy".
    assert_eq!(line, b"zhiy".to_vec());
}

#[test]
fn log_effects_emit_and_leave_the_line_alone() {
    let mut f = LineFunction::new(
        "noisy".to_string(),
        None,
        vec![
            (
                LineFunctionPositionArgument::Log("seen".to_string()),
                b"payload".to_vec(),
            ),
            (
                LineFunctionPositionArgument::DebugLog("detail".to_string()),
                b"extra".to_vec(),
            ),
        ],
    )
    .ok()
    .unwrap();
    let mut line = b"line".to_vec();
    let mut logs: Vec<LogEntry> = Vec::new();
    assert!(f.apply_function(&mut line, &mut logs).is_ok());
    assert_eq!(line, b"line".to_vec());
    assert_eq!(logs.len(), 2);
    assert!(!logs[0].debug);
    assert_eq!(logs[0].message, "seen".to_string());
    assert_eq!(logs[0].effect, b"payload".to_vec());
    assert!(logs[1].debug);
    assert_eq!(logs[1].message, "detail".to_string());
    assert_eq!(logs[1].effect, b"extra".to_vec());
}

#[test]
fn manager_collects_errors_without_stopping() {
    let bad = LineFunction::new(
        "bad".to_string(),
        Some("a".to_string()),
        vec![(
            LineFunctionPositionArgument::Insert(LineFunctionPosition::Index(9)),
            b"Z".to_vec(),
        )],
    )
    .ok()
    .unwrap();
    let good = LineFunction::new(
        "good".to_string(),
        None,
        vec![(
            LineFunctionPositionArgument::Insert(LineFunctionPosition::Eol),
            b"!".to_vec(),
        )],
    )
    .ok()
    .unwrap();
    let mut manager = PluginManager::new();
    manager.add_plugin(Plugin {
        name: "core".to_string(),
        line_functions: vec![bad, good],
    });
    let mut line = b"abc".to_vec();
    let mut logs: Vec<LogEntry> = Vec::new();
    let errs = manager
        .execute_line_functions(&mut line, &mut logs)
        .err()
        .unwrap();
    assert_eq!(errs.len(), 1);
    assert!(matches!(errs[0], FunctionExecutionError::EffectIndexOutOfBounds));
    // The failing effect changed nothing, the later function still ran.
    assert_eq!(line, b"abc!".to_vec());
}

#[test]
fn manager_runs_plugins_in_order() {
    let first = LineFunction::new(
        "first".to_string(),
        None,
        vec![(
            LineFunctionPositionArgument::Insert(LineFunctionPosition::Eol),
            b"1".to_vec(),
        )],
    )
    .ok()
    .unwrap();
    let second = LineFunction::new(
        "second".to_string(),
        None,
        vec![(
            LineFunctionPositionArgument::Insert(LineFunctionPosition::Eol),
            b"2".to_vec(),
        )],
    )
    .ok()
    .unwrap();
    let mut manager = PluginManager::new();
    manager.add_plugin(Plugin {
        name: "one".to_string(),
        line_functions: vec![first],
    });
    manager.add_plugin(Plugin {
        name: "two".to_string(),
        line_functions: vec![second],
    });
    let mut line = b"x".to_vec();
    let mut logs: Vec<LogEntry> = Vec::new();
    assert!(manager.execute_line_functions(&mut line, &mut logs).is_ok());
    assert_eq!(line, b"x12".to_vec());
}

#[test]
fn empty_manager_changes_nothing() {
    let mut manager = PluginManager::new();
    let mut line = b"anything".to_vec();
    let mut logs: Vec<LogEntry> = Vec::new();
    assert!(manager.execute_line_functions(&mut line, &mut logs).is_ok());
    assert_eq!(line, b"anything".to_vec());
}

#[test]
fn text_is_split_transformed_and_rejoined() {
    let mut manager = PluginManager::new();
    manager.add_plugin(Plugin {
        name: "core".to_string(),
        line_functions: vec![heading_function()],
    });
    let mut logs: Vec<LogEntry> = Vec::new();
    let input = b"# A\nplain\n# B".to_vec();
    let (out, errs) = manager.execute_on_text(&input, &mut logs);
    assert!(errs.is_empty());
    assert_eq!(out, b"<h1> A</h1>\nplain\n<h1> B</h1>".to_vec());
}

#[test]
fn text_with_no_plugins_round_trips() {
    let mut manager = PluginManager::new();
    let mut logs: Vec<LogEntry> = Vec::new();
    let input = b"a\n\nb\n".to_vec();
    let (out, errs) = manager.execute_on_text(&input, &mut logs);
    assert!(errs.is_empty());
    assert_eq!(out, b"a\n\nb\n".to_vec());
}

#[test]
fn text_errors_are_aggregated_across_lines() {
    let bad = LineFunction::new(
        "bad".to_string(),
        Some("a".to_string()),
        vec![(
            LineFunctionPositionArgument::Insert(LineFunctionPosition::Index(9)),
            b"Z".to_vec(),
        )],
    )
    .ok()
    .unwrap();
    let mut manager = PluginManager::new();
    manager.add_plugin(Plugin {
        name: "core".to_string(),
        line_functions: vec![bad],
    });
    let mut logs: Vec<LogEntry> = Vec::new();
    let input = b"a\nabcdefghij\na".to_vec();
    let (out, errs) = manager.execute_on_text(&input, &mut logs);
    // The first and last line are too short for the offset; the middle is not.
    assert_eq!(errs.len(), 2);
    assert!(errs
        .iter()
        .all(|e| matches!(e, FunctionExecutionError::EffectIndexOutOfBounds)));
    assert_eq!(out, b"a\nabcdefghiZj\na".to_vec());
}

#[test]
fn get_index_resolves_boundaries_and_guards() {
    let line = b"hello".to_vec();
    assert_eq!(
        LineFunctionPosition::LineStart.get_index(&line, None).ok(),
        Some(0)
    );
    assert_eq!(
        LineFunctionPosition::Eol.get_index(&line, None).ok(),
        Some(5)
    );
    assert_eq!(
        LineFunctionPosition::Index(2).get_index(&line, Some(1)).ok(),
        Some(3)
    );
    let errs = LineFunctionPosition::Index(2).get_index(&line, None).err().unwrap();
    assert!(matches!(errs[0], FunctionExecutionError::EffectIndexGivenWithoutRegex));
    let errs2 = LineFunctionPosition::Index(5).get_index(&line, Some(1)).err().unwrap();
    assert!(matches!(errs2[0], FunctionExecutionError::EffectIndexOutOfBounds));
}

#[test]
fn has_index_sees_through_both_edit_shapes() {
    assert!(LineFunctionPositionArgument::Insert(LineFunctionPosition::Index(0)).has_index());
    assert!(LineFunctionPositionArgument::Replace(
        LineFunctionPosition::Index(1),
        LineFunctionPosition::Eol,
    )
    .has_index());
    assert!(LineFunctionPositionArgument::Replace(
        LineFunctionPosition::LineStart,
        LineFunctionPosition::Index(1),
    )
    .has_index());
    assert!(!LineFunctionPositionArgument::Insert(LineFunctionPosition::Eol).has_index());
    assert!(!LineFunctionPositionArgument::Log("m".to_string()).has_index());
}

#[test]
fn errors_describe_themselves() {
    assert!(!PluginLoadError::IndexGivenWithoutPattern.describe().is_empty());
    assert_eq!(
        PluginLoadError::InvalidRegex("detail".to_string()).describe(),
        "detail".to_string()
    );
    assert!(!FunctionExecutionError::EffectIndexOutOfBounds.describe().is_empty());
    assert!(!FunctionExecutionError::EffectIndexGivenWithoutRegex
        .describe()
        .is_empty());
}
