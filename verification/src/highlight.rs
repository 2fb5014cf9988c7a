//! The stateful line-oriented highlighting engine.
//!
//! A [`HighlightConfig`] is an immutable, ordered list of context rules.
//! Each context rule has an `enter` pattern, an optional `exit` pattern and
//! an ordered list of match rules (a pattern and a palette colour each).
//! A [`Highlighter`] walks the lines of one text in order and carries a
//! single piece of state between lines: the current context, if any.
//!
//! Per line, in this order:
//! 1. if any rule's `enter` pattern matches, the first such rule (in
//!    declared order) becomes the current context and the line yields no
//!    highlights — this takes precedence over everything, including the
//!    current context's own `exit` pattern;
//! 2. with no current context the line yields no highlights;
//! 3. if the current context's `exit` pattern matches, the context is
//!    cleared and the line yields no highlights;
//! 4. otherwise each match rule of the current context that matches the
//!    line contributes one span, in rule order: the whole match for a
//!    pattern without capture groups, the first capture group otherwise.
//!
//! A pattern with capture groups whose first group matches the line but
//! does not participate in the match is a rule-authoring bug; the engine
//! reports it as a fatal [`HighlightError`] instead of guessing a span.

use crate::pattern::{re_groups, re_matches, re_valid, Pattern};
use vstd::prelude::*;
use vstd::string::StringSliceAdditionalSpecFns;

verus! {

/// A colored sub-range of one line of text: the half-open byte range
/// `[begin, end)` is to be painted with palette entry `colour`.
#[derive(Clone, Copy, Debug, PartialEq, Eq, Structural)]
pub struct Highlight {
    pub begin: usize,
    pub end: usize,
    pub colour: u8,
}

/// The one runtime failure the engine knows: a match rule's pattern matched
/// a line, the pattern has capture groups, and its first group did not
/// participate in the match.  A validated rule set never produces it.
#[derive(Clone, Copy, Debug, PartialEq, Eq, Structural)]
pub enum HighlightError {
    CaptureGroupMissing,
}

/// One match rule: lines of the owning context that match `pattern` are
/// highlighted with palette entry `colour`.
pub struct MatchRule {
    pub pattern: Pattern,
    pub colour: u8,
}

/// One context rule: a line matching `enter` makes this rule the current
/// context; a later line matching `exit` (checked only while this rule is
/// the current context, and only after no `enter` pattern matched) clears
/// it; lines in between are highlighted by `matches`.
pub struct ContextRule {
    pub enter: Pattern,
    pub exit: Option<Pattern>,
    pub matches: Vec<MatchRule>,
}

/// The immutable rule set of the engine: context rules in declared order.
/// Order decides enter-pattern tie-breaks: the first matching rule wins.
pub struct HighlightConfig {
    pub contexts: Vec<ContextRule>,
}

impl MatchRule {
    /// Compile one match rule; fails, with the regex compiler's message,
    /// exactly on invalid pattern text.  `colour` is an index into the
    /// fixed 256-entry terminal palette, which the type keeps in range.
    pub fn new(pattern: &str, colour: u8) -> (r: Result<MatchRule, String>)
        ensures
            r is Ok <==> re_valid(pattern@),
            r is Ok ==> r.unwrap().pattern@ == pattern@ && r.unwrap().colour == colour,
    {
        match Pattern::new(pattern) {
            Ok(p) => Ok(MatchRule { pattern: p, colour }),
            Err(e) => Err(e),
        }
    }
}

impl ContextRule {
    /// Compile a context rule from its enter pattern, optional exit pattern
    /// and already-built match rules; fails, with the regex compiler's
    /// message, exactly when the enter or the exit pattern text is invalid.
    pub fn new(enter: &str, exit: Option<&str>, matches: Vec<MatchRule>) -> (r: Result<
        ContextRule,
        String,
    >)
        ensures
            r is Ok <==> re_valid(enter@) && (exit is Some ==> re_valid(exit.unwrap()@)),
            r is Ok ==> {
                let c = r.unwrap();
                &&& c.enter@ == enter@
                &&& (match exit {
                    Some(x) => c.exit is Some && c.exit.unwrap()@ == x@,
                    None => c.exit is None,
                })
                &&& c.matches == matches
            },
    {
        let enter_pat = match Pattern::new(enter) {
            Ok(p) => p,
            Err(e) => {
                return Err(e);
            },
        };
        let exit_pat = match exit {
            Some(x) => match Pattern::new(x) {
                Ok(p) => Some(p),
                Err(e) => {
                    return Err(e);
                },
            },
            None => None,
        };
        Ok(ContextRule { enter: enter_pat, exit: exit_pat, matches })
    }
}

/// A plain-data description of one context rule, as a configuration
/// loader hands it over: pattern texts, not yet compiled.
pub struct ContextSpec {
    pub enter: String,
    pub exit: Option<String>,
    pub matches: Vec<(String, u8)>,
}

/// A configuration error: which context (and, for a match rule, which
/// rule) holds the offending pattern text, with the pattern compiler's
/// message.
#[derive(Debug, PartialEq, Eq)]
pub enum ConfigError {
    BadEnter { context: usize, detail: String },
    BadExit { context: usize, detail: String },
    BadMatch { context: usize, rule: usize, detail: String },
}

/// Whether every pattern text of a context description is a valid regular
/// expression.
pub open spec fn spec_ctx_valid(s: ContextSpec) -> bool {
    &&& re_valid(s.enter@)
    &&& (s.exit is Some ==> re_valid(s.exit.unwrap()@))
    &&& (forall|j: int| 0 <= j < s.matches@.len() ==> re_valid((#[trigger] s.matches@[j]).0@))
}

/// Whether a compiled context rule carries exactly what its description
/// asked for.
pub open spec fn ctx_matches_spec(c: ContextRule, s: ContextSpec) -> bool {
    &&& c.enter@ == s.enter@
    &&& (match s.exit {
        Some(x) => c.exit is Some && c.exit.unwrap()@ == x@,
        None => c.exit is None,
    })
    &&& c.matches@.len() == s.matches@.len()
    &&& (forall|j: int|
        0 <= j < s.matches@.len() ==> (#[trigger] c.matches@[j]).pattern@ == s.matches@[j].0@
            && c.matches@[j].colour == s.matches@[j].1)
}

impl HighlightConfig {
    /// Compile a whole rule set from plain context descriptions.  Succeeds
    /// exactly when every pattern text compiles, and then carries the
    /// descriptions over rule for rule; otherwise reports the first
    /// offending pattern, in scan order (contexts in declared order; within
    /// one, its enter pattern, then its exit pattern, then its match rules
    /// in declared order), naming the context and rule it belongs to.
    pub fn from_specs(specs: &Vec<ContextSpec>) -> (r: Result<HighlightConfig, ConfigError>)
        ensures
            (match r {
                Ok(cfg) => {
                    &&& (forall|i: int|
                        0 <= i < specs@.len() ==> spec_ctx_valid(#[trigger] specs@[i]))
                    &&& cfg.contexts@.len() == specs@.len()
                    &&& (forall|i: int|
                        0 <= i < specs@.len() ==> ctx_matches_spec(
                            #[trigger] cfg.contexts@[i],
                            specs@[i],
                        ))
                },
                Err(e) => match e {
                    ConfigError::BadEnter { context, .. } => {
                        &&& context < specs@.len()
                        &&& !re_valid(specs@[context as int].enter@)
                        &&& (forall|k: int|
                            0 <= k < context ==> spec_ctx_valid(#[trigger] specs@[k]))
                    },
                    ConfigError::BadExit { context, .. } => {
                        &&& context < specs@.len()
                        &&& re_valid(specs@[context as int].enter@)
                        &&& specs@[context as int].exit is Some
                        &&& !re_valid(specs@[context as int].exit.unwrap()@)
                        &&& (forall|k: int|
                            0 <= k < context ==> spec_ctx_valid(#[trigger] specs@[k]))
                    },
                    ConfigError::BadMatch { context, rule, .. } => {
                        &&& context < specs@.len()
                        &&& re_valid(specs@[context as int].enter@)
                        &&& (specs@[context as int].exit is Some ==> re_valid(
                            specs@[context as int].exit.unwrap()@,
                        ))
                        &&& rule < specs@[context as int].matches@.len()
                        &&& !re_valid(specs@[context as int].matches@[rule as int].0@)
                        &&& (forall|l: int|
                            0 <= l < rule ==> re_valid(
                                (#[trigger] specs@[context as int].matches@[l]).0@,
                            ))
                        &&& (forall|k: int|
                            0 <= k < context ==> spec_ctx_valid(#[trigger] specs@[k]))
                    },
                },
            }),
    {
        let n = specs.len();
        let mut contexts: Vec<ContextRule> = Vec::new();
        let mut i: usize = 0;
        while i < n
            invariant
                i <= n,
                n == specs@.len(),
                contexts@.len() == i,
                forall|k: int| 0 <= k < i ==> spec_ctx_valid(#[trigger] specs@[k]),
                forall|k: int|
                    0 <= k < i ==> ctx_matches_spec(#[trigger] contexts@[k], specs@[k]),
            decreases n - i,
        {
            let ctx_spec = &specs[i];
            let enter = match Pattern::new(ctx_spec.enter.as_str()) {
                Ok(p) => p,
                Err(detail) => {
                    return Err(ConfigError::BadEnter { context: i, detail });
                },
            };
            let exit = match &ctx_spec.exit {
                Some(x) => match Pattern::new(x.as_str()) {
                    Ok(p) => Some(p),
                    Err(detail) => {
                        return Err(ConfigError::BadExit { context: i, detail });
                    },
                },
                None => None,
            };
            let m = ctx_spec.matches.len();
            let mut matches: Vec<MatchRule> = Vec::new();
            let mut j: usize = 0;
            while j < m
                invariant
                    i < n,
                    n == specs@.len(),
                    *ctx_spec == specs@[i as int],
                    re_valid(specs@[i as int].enter@),
                    specs@[i as int].exit is Some ==> re_valid(specs@[i as int].exit.unwrap()@),
                    forall|k: int| 0 <= k < i ==> spec_ctx_valid(#[trigger] specs@[k]),
                    j <= m,
                    m == ctx_spec.matches@.len(),
                    matches@.len() == j,
                    forall|l: int|
                        0 <= l < j ==> re_valid((#[trigger] ctx_spec.matches@[l]).0@),
                    forall|l: int|
                        0 <= l < j ==> (#[trigger] matches@[l]).pattern@ == ctx_spec.matches@[l].0@
                            && matches@[l].colour == ctx_spec.matches@[l].1,
                decreases m - j,
            {
                match MatchRule::new(ctx_spec.matches[j].0.as_str(), ctx_spec.matches[j].1) {
                    Ok(mr) => {
                        matches.push(mr);
                    },
                    Err(detail) => {
                        return Err(ConfigError::BadMatch { context: i, rule: j, detail });
                    },
                }
                j += 1;
            }
            contexts.push(ContextRule { enter, exit, matches });
            i += 1;
        }
        Ok(HighlightConfig::new(contexts))
    }
}

/// The first context, scanning `ctxs` from index `i` on, whose enter
/// pattern matches `line`.
pub open spec fn enter_from(ctxs: Seq<ContextRule>, line: Seq<char>, i: int) -> Option<int>
    decreases ctxs.len() - i,
{
    if i < 0 || i >= ctxs.len() {
        None
    } else if re_matches(ctxs[i].enter@, line) {
        Some(i)
    } else {
        enter_from(ctxs, line, i + 1)
    }
}

/// The context `line` enters: the first of `ctxs`, in declared order,
/// whose enter pattern matches it, if any.
pub open spec fn enter_target(ctxs: Seq<ContextRule>, line: Seq<char>) -> Option<int> {
    enter_from(ctxs, line, 0)
}

/// Whether `line` matches the exit pattern of `ctx` (never, when `ctx` has
/// no exit pattern).
pub open spec fn exit_matches(ctx: ContextRule, line: Seq<char>) -> bool {
    match ctx.exit {
        Some(p) => re_matches(p@, line),
        None => false,
    }
}

/// The span a list of capture-group spans resolves to: the whole match for
/// a pattern without capture groups, the first capture group otherwise —
/// `None` when that group did not participate in the match.
pub open spec fn resolved_span(groups: Seq<Option<(usize, usize)>>) -> Option<(usize, usize)> {
    if groups.len() == 1 {
        groups[0]
    } else {
        groups[1]
    }
}

/// Whether applying match rule `r` to `line` is free of the one runtime
/// failure: either the rule does not match, or its span resolves.
pub open spec fn rule_span_ok(r: MatchRule, line: Seq<char>) -> bool {
    match re_groups(r.pattern@, line) {
        Some(gs) => resolved_span(gs) is Some,
        None => true,
    }
}

/// Whether every rule of `rules` is free of the runtime failure on `line`.
pub open spec fn rules_ok(rules: Seq<MatchRule>, line: Seq<char>) -> bool {
    forall|i: int| 0 <= i < rules.len() ==> #[trigger] rule_span_ok(rules[i], line)
}

/// The highlight match rule `r` contributes on `line`: its resolved span
/// with its colour, or nothing when the rule does not match.  (`None` also
/// stands for the failure case, which `rules_ok` rules out.)
pub open spec fn rule_highlight(r: MatchRule, line: Seq<char>) -> Option<Highlight> {
    match re_groups(r.pattern@, line) {
        Some(gs) => match resolved_span(gs) {
            Some(sp) => Some(Highlight { begin: sp.0, end: sp.1, colour: r.colour }),
            None => None,
        },
        None => None,
    }
}

/// The highlights the ordered rule list `rules` contributes on `line`, in
/// rule order: one span per matching rule.
pub open spec fn rule_highlights(rules: Seq<MatchRule>, line: Seq<char>) -> Seq<Highlight>
    decreases rules.len(),
{
    if rules.len() == 0 {
        Seq::empty()
    } else {
        rule_highlights(rules.drop_last(), line) + (match rule_highlight(rules.last(), line) {
            Some(h) => seq![h],
            None => Seq::empty(),
        })
    }
}

/// The context after feeding one line: the line's enter target if it has
/// one, else the current context, cleared when the line matches its exit
/// pattern.
pub open spec fn step_ctx(ctxs: Seq<ContextRule>, cur: Option<int>, line: Seq<char>) -> Option<
    int,
> {
    match enter_target(ctxs, line) {
        Some(j) => Some(j),
        None => match cur {
            Some(c) => if exit_matches(ctxs[c], line) {
                None
            } else {
                Some(c)
            },
            None => None,
        },
    }
}

/// Whether feeding one line is free of the runtime failure.  Only a line
/// that is actually matched against the current context's match rules (no
/// context entered, no exit) can fail.
pub open spec fn step_ok(ctxs: Seq<ContextRule>, cur: Option<int>, line: Seq<char>) -> bool {
    match cur {
        Some(c) => (enter_target(ctxs, line) is None && !exit_matches(ctxs[c], line)) ==> rules_ok(
            ctxs[c].matches@,
            line,
        ),
        None => true,
    }
}

/// The highlights feeding one line yields: empty for a context-entering
/// line, a context-less line and an exit line; the current context's rule
/// highlights otherwise.
pub open spec fn step_highlights(ctxs: Seq<ContextRule>, cur: Option<int>, line: Seq<char>) -> Seq<
    Highlight,
> {
    if enter_target(ctxs, line) is Some {
        Seq::empty()
    } else {
        match cur {
            Some(c) => if exit_matches(ctxs[c], line) {
                Seq::empty()
            } else {
                rule_highlights(ctxs[c].matches@, line)
            },
            None => Seq::empty(),
        }
    }
}

/// One highlighting session: a borrowed immutable rule set and the single
/// piece of mutable state, the current context.  Feed it the lines of one
/// text in order, each exactly once.
pub struct Highlighter<'h> {
    config: &'h HighlightConfig,
    cur_ctx: Option<usize>,
}

impl HighlightConfig {
    /// A rule set with no context rules: the engine's default state, which
    /// never highlights anything.
    pub fn empty() -> (r: HighlightConfig)
        ensures
            r.contexts@.len() == 0,
    {
        HighlightConfig { contexts: Vec::new() }
    }

    /// A rule set from context rules in declared order.
    pub fn new(contexts: Vec<ContextRule>) -> (r: HighlightConfig)
        ensures
            r.contexts == contexts,
    {
        HighlightConfig { contexts }
    }

    /// A fresh session over this rule set, with no current context.
    pub fn highlighter<'h>(&'h self) -> (r: Highlighter<'h>)
        ensures
            r.rules() == self.contexts@,
            r.ctx() is None,
            r.wf(),
    {
        Highlighter { config: self, cur_ctx: None }
    }
}

impl<'h> Highlighter<'h> {
    /// The rule set this session matches against.
    pub closed spec fn rules(&self) -> Seq<ContextRule> {
        self.config.contexts@
    }

    /// The current context, as an index into `rules`, if any.
    pub closed spec fn ctx(&self) -> Option<int> {
        match self.cur_ctx {
            Some(c) => Some(c as int),
            None => None,
        }
    }

    /// A session is well formed when its current context, if any, is an
    /// index into its rule set.
    pub closed spec fn wf(&self) -> bool {
        match self.cur_ctx {
            Some(c) => c < self.config.contexts@.len(),
            None => true,
        }
    }

    /// Feed the next line, in document order, and get its highlights: the
    /// exact spans of `step_highlights`, in match-rule order, each a
    /// well-formed byte range of the line.  The current context moves to
    /// `step_ctx`.  Fails exactly when a matching rule's first capture
    /// group did not participate (`step_ok`), the one rule-authoring bug
    /// the engine can meet at runtime.
    pub fn next_highlights(&mut self, next_line: &str) -> (r: Result<
        Vec<Highlight>,
        HighlightError,
    >)
        requires
            old(self).wf(),
        ensures
            final(self).wf(),
            final(self).rules() == old(self).rules(),
            final(self).ctx() == step_ctx(old(self).rules(), old(self).ctx(), next_line@),
            r is Ok <==> step_ok(old(self).rules(), old(self).ctx(), next_line@),
            r is Ok ==> r.unwrap()@ == step_highlights(
                old(self).rules(),
                old(self).ctx(),
                next_line@,
            ),
            r is Ok ==> forall|i: int|
                0 <= i < r.unwrap()@.len() ==> (#[trigger] r.unwrap()@[i]).begin
                    <= r.unwrap()@[i].end <= next_line.spec_bytes().len(),
    {
        let config = self.config;
        let ghost ctxs = config.contexts@;
        let ghost line = next_line@;

        // Step 1: scan for a context to enter; first match wins.
        let n = config.contexts.len();
        let mut i: usize = 0;
        while i < n
            invariant
                *self == *old(self),
                config == self.config,
                n == ctxs.len(),
                i <= n,
                ctxs == config.contexts@,
                line == next_line@,
                forall|j: int| 0 <= j < i ==> !re_matches((#[trigger] ctxs[j]).enter@, line),
            decreases n - i,
        {
            if config.contexts[i].enter.is_match(next_line) {
                proof {
                    lemma_enter_from_skip(ctxs, line, i as int);
                }
                self.cur_ctx = Some(i);
                return Ok(Vec::new());
            }
            i += 1;
        }
        proof {
            lemma_enter_from_skip(ctxs, line, n as int);
        }
        assert(enter_target(ctxs, line) is None);

        // Step 2: without a current context the line yields nothing.
        let c = match self.cur_ctx {
            Some(c) => c,
            None => {
                return Ok(Vec::new());
            },
        };
        let ctx = &config.contexts[c];

        // Step 3: an exit-matching line clears the context and yields
        // nothing.
        let exited = match &ctx.exit {
            Some(p) => p.is_match(next_line),
            None => false,
        };
        if exited {
            self.cur_ctx = None;
            return Ok(Vec::new());
        }

        // Step 4: collect one span per matching rule, in rule order.
        let ghost rules = ctx.matches@;
        let m = ctx.matches.len();
        let mut out: Vec<Highlight> = Vec::new();
        let mut k: usize = 0;
        while k < m
            invariant
                *self == *old(self),
                config == self.config,
                ctxs == config.contexts@,
                old(self).ctx() == Some(c as int),
                c < ctxs.len(),
                ctx == &config.contexts[c as int],
                enter_target(ctxs, line) is None,
                !exit_matches(ctxs[c as int], line),
                m == rules.len(),
                k <= m,
                rules == ctx.matches@,
                line == next_line@,
                out@ == rule_highlights(rules.take(k as int), line),
                forall|j: int| 0 <= j < k ==> #[trigger] rule_span_ok(rules[j], line),
                forall|j: int|
                    0 <= j < out@.len() ==> (#[trigger] out@[j]).begin <= out@[j].end
                        <= next_line.spec_bytes().len(),
            decreases m - k,
        {
            let rule = &ctx.matches[k];
            let contributed: Option<Highlight> = match rule.pattern.captures(next_line) {
                Some(groups) => {
                    let span = if groups.len() == 1 {
                        groups[0]
                    } else {
                        groups[1]
                    };
                    match span {
                        Some((begin, end)) => Some(Highlight { begin, end, colour: rule.colour }),
                        None => {
                            // The pattern matched, but its first capture
                            // group did not participate: a malformed rule.
                            assert(!rule_span_ok(rules[k as int], line));
                            return Err(HighlightError::CaptureGroupMissing);
                        },
                    }
                },
                None => None,
            };
            proof {
                assert(rules.take(k + 1 as int).drop_last() =~= rules.take(k as int));
                assert(rules.take(k + 1 as int).last() == rules[k as int]);
            }
            match contributed {
                Some(h) => {
                    out.push(h);
                },
                None => {},
            }
            assert(out@ =~= rule_highlights(rules.take(k + 1 as int), line));
            k += 1;
        }
        assert(rules.take(m as int) =~= rules);
        Ok(out)
    }
}

/// The context a fresh session is in after feeding the lines of `lines` in
/// order: none to begin with, then one `step_ctx` per line.
pub open spec fn run_ctx(ctxs: Seq<ContextRule>, lines: Seq<Seq<char>>) -> Option<int>
    decreases lines.len(),
{
    if lines.len() == 0 {
        None
    } else {
        step_ctx(ctxs, run_ctx(ctxs, lines.drop_last()), lines.last())
    }
}

/// No-context idempotence: if no line of a text matches any enter pattern,
/// a fresh session stays without a context and every line of the text
/// yields an empty highlight list.
pub proof fn lemma_no_enter_no_highlights(ctxs: Seq<ContextRule>, lines: Seq<Seq<char>>)
    requires
        forall|k: int| 0 <= k < lines.len() ==> #[trigger] enter_target(ctxs, lines[k]) is None,
    ensures
        run_ctx(ctxs, lines) is None,
        forall|k: int|
            0 <= k < lines.len() ==> #[trigger] step_highlights(
                ctxs,
                run_ctx(ctxs, lines.take(k)),
                lines[k],
            ) == Seq::<Highlight>::empty(),
    decreases lines.len(),
{
    if lines.len() > 0 {
        let prefix = lines.drop_last();
        assert(forall|k: int|
            0 <= k < prefix.len() ==> #[trigger] enter_target(ctxs, prefix[k]) is None);
        lemma_no_enter_no_highlights(ctxs, prefix);
        assert forall|k: int| 0 <= k < lines.len() implies #[trigger] step_highlights(
            ctxs,
            run_ctx(ctxs, lines.take(k)),
            lines[k],
        ) == Seq::<Highlight>::empty() by {
            if k < lines.len() - 1 {
                assert(lines.take(k) =~= prefix.take(k));
                assert(step_highlights(ctxs, run_ctx(ctxs, prefix.take(k)), prefix[k])
                    == Seq::<Highlight>::empty());
            } else {
                assert(lines.take(k) =~= prefix);
                assert(run_ctx(ctxs, prefix) is None);
            }
        }
    }
}

/// Empty rule set: an engine built with no context rules never enters a
/// context and returns an empty highlight list for every line, whatever
/// the line holds.
pub proof fn lemma_empty_rule_set(ctxs: Seq<ContextRule>, lines: Seq<Seq<char>>)
    requires
        ctxs.len() == 0,
    ensures
        forall|line: Seq<char>| #[trigger] enter_target(ctxs, line) is None,
        forall|line: Seq<char>| #[trigger] step_ctx(ctxs, None, line) is None,
        forall|line: Seq<char>|
            #[trigger] step_highlights(ctxs, None, line) == Seq::<Highlight>::empty(),
        run_ctx(ctxs, lines) is None,
        forall|k: int|
            0 <= k < lines.len() ==> #[trigger] step_highlights(
                ctxs,
                run_ctx(ctxs, lines.take(k)),
                lines[k],
            ) == Seq::<Highlight>::empty(),
{
    lemma_no_enter_no_highlights(ctxs, lines);
}

/// Enter exclusivity: a line whose enter target is rule `a` makes `a` the
/// current context whatever the context was before, yields no highlights
/// itself, and until a later line enters a context or matches `a`'s exit
/// pattern, subsequent lines are matched exactly against `a`'s exit
/// pattern and `a`'s match rules.
pub proof fn lemma_enter_exclusive(
    ctxs: Seq<ContextRule>,
    cur: Option<int>,
    line: Seq<char>,
    a: int,
)
    requires
        enter_target(ctxs, line) == Some(a),
    ensures
        step_ctx(ctxs, cur, line) == Some(a),
        step_highlights(ctxs, cur, line) == Seq::<Highlight>::empty(),
        forall|l2: Seq<char>|
            enter_target(ctxs, l2) is None && exit_matches(ctxs[a], l2) ==> (#[trigger] step_ctx(
                ctxs,
                Some(a),
                l2,
            )) is None && step_highlights(ctxs, Some(a), l2) == Seq::<Highlight>::empty(),
        forall|l2: Seq<char>|
            enter_target(ctxs, l2) is None && !exit_matches(ctxs[a], l2) ==> #[trigger] step_ctx(
                ctxs,
                Some(a),
                l2,
            ) == Some(a) && step_highlights(ctxs, Some(a), l2) == rule_highlights(
                ctxs[a].matches@,
                l2,
            ),
{
}

/// Enter precedence over exit: a line that matches both the current
/// context's exit pattern and some context's enter pattern switches to the
/// enter target and yields no highlights; the exit is never triggered.
pub proof fn lemma_enter_precedence(ctxs: Seq<ContextRule>, c: int, line: Seq<char>, a: int)
    requires
        0 <= c < ctxs.len(),
        exit_matches(ctxs[c], line),
        enter_target(ctxs, line) == Some(a),
    ensures
        step_ctx(ctxs, Some(c), line) == Some(a),
        step_highlights(ctxs, Some(c), line) == Seq::<Highlight>::empty(),
{
}

/// Exit clears state: a line matching the current context's exit pattern
/// (and no enter pattern) clears the context and yields nothing, and a
/// following line that enters no context yields nothing either — even if
/// it matches the exited context's old match rules.
pub proof fn lemma_exit_clears(ctxs: Seq<ContextRule>, c: int, line: Seq<char>, l2: Seq<char>)
    requires
        0 <= c < ctxs.len(),
        enter_target(ctxs, line) is None,
        exit_matches(ctxs[c], line),
        enter_target(ctxs, l2) is None,
    ensures
        step_ctx(ctxs, Some(c), line) is None,
        step_highlights(ctxs, Some(c), line) == Seq::<Highlight>::empty(),
        step_ctx(ctxs, None, l2) is None,
        step_highlights(ctxs, None, l2) == Seq::<Highlight>::empty(),
{
}

/// When no context of `ctxs` before index `i` has an enter pattern matching
/// `line`, the scan for an enter target may as well start at `i`.
proof fn lemma_enter_from_skip(ctxs: Seq<ContextRule>, line: Seq<char>, i: int)
    requires
        0 <= i <= ctxs.len(),
        forall|j: int| 0 <= j < i ==> !re_matches((#[trigger] ctxs[j]).enter@, line),
    ensures
        enter_target(ctxs, line) == enter_from(ctxs, line, i),
    decreases i,
{
    if i > 0 {
        lemma_enter_from_skip(ctxs, line, i - 1);
    }
}

} // verus!
