use smbox::highlight::{
    ConfigError, ContextRule, ContextSpec, Highlight, HighlightConfig, HighlightError, MatchRule,
};
use smbox::pattern::Pattern;

fn hl(begin: usize, end: usize, colour: u8) -> Highlight {
    Highlight { begin, end, colour }
}

fn single_context_config() -> HighlightConfig {
    // The pattern matches a 'd', any seven characters, and another 'd'.
    let matches = vec![MatchRule::new("d.......d", 107).unwrap()];
    let ctx = ContextRule::new("login failures:$", Some("^$"), matches).unwrap();
    HighlightConfig::new(vec![ctx])
}

#[test]
fn empty_rule_set_returns_empty_for_every_line() {
    let config = HighlightConfig::empty();
    let mut session = config.highlighter();
    for line in ["", "login failures:", "d1234567d", "anything at all"] {
        assert_eq!(session.next_highlights(line).unwrap(), vec![]);
    }
}

#[test]
fn no_context_entered_means_no_highlights() {
    let config = single_context_config();
    let mut session = config.highlighter();
    // None of these lines matches the enter pattern, so none is
    // highlighted, even though some match the context's match rule.
    for line in ["hello", "d1234567d", "dxxxxxxd suffix", ""] {
        assert_eq!(session.next_highlights(line).unwrap(), vec![]);
    }
}

#[test]
fn sequential_context_tracking() {
    let config = single_context_config();
    let mut session = config.highlighter();
    // Entering line: empty result.
    assert_eq!(session.next_highlights("login failures:").unwrap(), vec![]);
    // In-context line: the whole nine-character match, coloured 107.
    assert_eq!(
        session.next_highlights("d1234567d").unwrap(),
        vec![hl(0, 9, 107)]
    );
    // Exit line: empty result, context cleared.
    assert_eq!(session.next_highlights("").unwrap(), vec![]);
    // A line matching the old match rule now yields nothing.
    assert_eq!(session.next_highlights("d1234567d").unwrap(), vec![]);
}

#[test]
fn capture_group_resolution() {
    let matches = vec![MatchRule::new("Bad protocol version.*(port)", 3).unwrap()];
    let ctx = ContextRule::new("^ssh log$", None, matches).unwrap();
    let config = HighlightConfig::new(vec![ctx]);
    let mut session = config.highlighter();
    assert_eq!(session.next_highlights("ssh log").unwrap(), vec![]);
    // Only the first capture group is the span, not the whole match.
    let line = "Bad protocol version mismatch, port 22";
    assert_eq!(session.next_highlights(line).unwrap(), vec![hl(31, 35, 3)]);
    assert_eq!(&line[31..35], "port");
}

#[test]
fn order_sensitive_overlap() {
    let matches = vec![
        MatchRule::new(".*", 1).unwrap(),
        MatchRule::new("rus", 2).unwrap(),
    ];
    let ctx = ContextRule::new("^words$", None, matches).unwrap();
    let config = HighlightConfig::new(vec![ctx]);
    let mut session = config.highlighter();
    assert_eq!(session.next_highlights("words").unwrap(), vec![]);
    // Both ranges come back, in match-rule order: a renderer painting in
    // list order shows "rus" in colour 2.
    assert_eq!(
        session.next_highlights("grusly").unwrap(),
        vec![hl(0, 6, 1), hl(1, 4, 2)]
    );
}

#[test]
fn enter_takes_precedence_over_exit() {
    let inner = vec![MatchRule::new("x+", 9).unwrap()];
    let first = ContextRule::new("^begin$", Some("^end$"), inner).unwrap();
    // The second context's enter pattern also matches the first one's exit
    // line.
    let second = ContextRule::new("^end$", None, vec![MatchRule::new("y+", 4).unwrap()]).unwrap();
    let config = HighlightConfig::new(vec![first, second]);
    let mut session = config.highlighter();
    assert_eq!(session.next_highlights("begin").unwrap(), vec![]);
    assert_eq!(session.next_highlights("xxx").unwrap(), vec![hl(0, 3, 9)]);
    // "end" matches both the current context's exit and the second
    // context's enter: the enter wins and the line itself is not
    // highlighted.
    assert_eq!(session.next_highlights("end").unwrap(), vec![]);
    // The second context is now active: its rules apply, the first one's
    // do not.
    assert_eq!(session.next_highlights("xxyy").unwrap(), vec![hl(2, 4, 4)]);
}

#[test]
fn first_matching_enter_wins() {
    let a = ContextRule::new("shared", None, vec![MatchRule::new("a", 1).unwrap()]).unwrap();
    let b = ContextRule::new("shared", None, vec![MatchRule::new("a", 2).unwrap()]).unwrap();
    let config = HighlightConfig::new(vec![a, b]);
    let mut session = config.highlighter();
    assert_eq!(session.next_highlights("shared prefix").unwrap(), vec![]);
    // The first context in declared order won the tie: colour 1.
    assert_eq!(session.next_highlights("a").unwrap(), vec![hl(0, 1, 1)]);
}

#[test]
fn entering_a_new_context_overwrites_the_old_one() {
    let a = ContextRule::new("^ctx a$", None, vec![MatchRule::new("m", 1).unwrap()]).unwrap();
    let b = ContextRule::new("^ctx b$", None, vec![MatchRule::new("m", 2).unwrap()]).unwrap();
    let config = HighlightConfig::new(vec![a, b]);
    let mut session = config.highlighter();
    assert_eq!(session.next_highlights("ctx a").unwrap(), vec![]);
    assert_eq!(session.next_highlights("m").unwrap(), vec![hl(0, 1, 1)]);
    assert_eq!(session.next_highlights("ctx b").unwrap(), vec![]);
    // No stacking: only the new context's rules apply now.
    assert_eq!(session.next_highlights("m").unwrap(), vec![hl(0, 1, 2)]);
}

#[test]
fn fresh_sessions_are_independent() {
    let config = single_context_config();
    let mut first = config.highlighter();
    assert_eq!(first.next_highlights("login failures:").unwrap(), vec![]);
    assert_eq!(
        first.next_highlights("d1234567d").unwrap(),
        vec![hl(0, 9, 107)]
    );
    // A fresh session starts without a context.
    let mut second = config.highlighter();
    assert_eq!(second.next_highlights("d1234567d").unwrap(), vec![]);
}

#[test]
fn non_participating_first_group_is_a_fatal_error() {
    // The pattern matches "ac", but its only capture group does not
    // participate in the match.
    let matches = vec![MatchRule::new("a(b)?c", 5).unwrap()];
    let ctx = ContextRule::new("^go$", None, matches).unwrap();
    let config = HighlightConfig::new(vec![ctx]);
    let mut session = config.highlighter();
    assert_eq!(session.next_highlights("go").unwrap(), vec![]);
    assert_eq!(
        session.next_highlights("ac"),
        Err(HighlightError::CaptureGroupMissing)
    );
    // When the group participates, the rule resolves to it.
    assert_eq!(session.next_highlights("abc").unwrap(), vec![hl(1, 2, 5)]);
}

#[test]
fn invalid_patterns_are_rejected_at_construction() {
    assert!(Pattern::new("(").is_err());
    assert!(Pattern::new("[a-z]+").is_ok());
    assert!(MatchRule::new("(unclosed", 1).is_err());
    assert!(ContextRule::new("(", None, vec![]).is_err());
    assert!(ContextRule::new("fine", Some("(bad"), vec![]).is_err());
    assert!(ContextRule::new("fine", Some("^$"), vec![]).is_ok());
}

#[test]
fn from_specs_compiles_a_whole_rule_set() {
    let specs = vec![
        ContextSpec {
            enter: "login failures:$".to_string(),
            exit: Some("^$".to_string()),
            matches: vec![("d.......d".to_string(), 107)],
        },
        ContextSpec {
            enter: "^other$".to_string(),
            exit: None,
            matches: vec![],
        },
    ];
    let config = HighlightConfig::from_specs(&specs).unwrap();
    let mut session = config.highlighter();
    assert_eq!(session.next_highlights("login failures:").unwrap(), vec![]);
    assert_eq!(
        session.next_highlights("d1234567d").unwrap(),
        vec![hl(0, 9, 107)]
    );
}

#[test]
fn from_specs_names_the_offending_pattern() {
    let specs = vec![
        ContextSpec { enter: "ok".to_string(), exit: None, matches: vec![] },
        ContextSpec { enter: "(".to_string(), exit: None, matches: vec![] },
    ];
    match HighlightConfig::from_specs(&specs) {
        Err(ConfigError::BadEnter { context, .. }) => assert_eq!(context, 1),
        Err(e) => panic!("wrong error: {e:?}"),
        Ok(_) => panic!("expected a bad enter pattern"),
    }

    let specs = vec![ContextSpec {
        enter: "ok".to_string(),
        exit: Some("[".to_string()),
        matches: vec![],
    }];
    match HighlightConfig::from_specs(&specs) {
        Err(ConfigError::BadExit { context, .. }) => assert_eq!(context, 0),
        Err(e) => panic!("wrong error: {e:?}"),
        Ok(_) => panic!("expected a bad exit pattern"),
    }

    let specs = vec![ContextSpec {
        enter: "ok".to_string(),
        exit: None,
        matches: vec![("fine".to_string(), 1), ("(nope".to_string(), 2)],
    }];
    match HighlightConfig::from_specs(&specs) {
        Err(ConfigError::BadMatch { context, rule, .. }) => {
            assert_eq!(context, 0);
            assert_eq!(rule, 1);
        },
        Err(e) => panic!("wrong error: {e:?}"),
        Ok(_) => panic!("expected a bad match pattern"),
    }
}

#[test]
fn empty_pattern_matches_with_empty_span() {
    let matches = vec![MatchRule::new("z*", 8).unwrap()];
    let ctx = ContextRule::new("^in$", None, matches).unwrap();
    let config = HighlightConfig::new(vec![ctx]);
    let mut session = config.highlighter();
    assert_eq!(session.next_highlights("in").unwrap(), vec![]);
    assert_eq!(session.next_highlights("abc").unwrap(), vec![hl(0, 0, 8)]);
}
