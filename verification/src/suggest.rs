use vstd::prelude::*;

verus! {

/// Severity of a suggestion about high variance.
pub const SEVERITY_WARN: &'static str = "WARN";

/// Severity of a suggestion about gas above 500k.
pub const SEVERITY_HIGH: &'static str = "HIGH";

/// Severity of a suggestion about gas above 200k.
pub const SEVERITY_MED: &'static str = "MED";

/// Severity of a general hint.
pub const SEVERITY_INFO: &'static str = "INFO";

/// Severity of the all-clear.
pub const SEVERITY_OK: &'static str = "OK";

/// The function name under which the all-clear is reported.
pub const ALL_FUNCTIONS: &'static str = "*";

/// Advice for functions whose average gas exceeds 500k.
pub const HIGH_GAS_ADVICE: &'static str = "Gas exceeds 500k. Consider: using mappings over arrays, batching operations, or splitting into multiple transactions.";

/// Advice for functions whose average gas exceeds 200k.
pub const MEDIUM_GAS_ADVICE: &'static str = "Gas exceeds 200k. Consider: packing storage variables, using unchecked blocks for safe arithmetic, or caching storage reads.";

/// General advice for functions whose average gas exceeds 50k.
pub const CALLDATA_ADVICE: &'static str = "Consider using calldata instead of memory for read-only function parameters to save gas.";

/// The all-clear message.
pub const ALL_CLEAR: &'static str = "All functions appear reasonably gas-efficient.";

/// Opening of the high-variance message, before the standard deviation.
pub const VARIANCE_OPENING: &'static str = "High gas variance (";

/// Middle of the high-variance message, between standard deviation and average.
pub const VARIANCE_MIDDLE: &'static str = " std dev vs ";

/// Close of the high-variance message, after the average.
pub const VARIANCE_CLOSING: &'static str = " avg). Consider using require() guards earlier to fail fast, or review conditional branching.";

/// Where a function's average gas lies among the thresholds 50k, 200k and 500k.
#[derive(Clone, Copy, Debug, PartialEq, Eq)]
pub enum GasLevel {
    /// At most 50k (or not a number).
    Low,
    /// Above 50k, at most 200k.
    Above50k,
    /// Above 200k, at most 500k.
    Above200k,
    /// Above 500k.
    Above500k,
}

/// What the suggestion rules read of one function's statistics.
///
/// `high_variance` tells whether the standard deviation exceeds a fifth of the
/// average; the two texts are the standard deviation and the average as they
/// appear in the high-variance message.
#[derive(Clone, Debug)]
pub struct GasProfile {
    pub function_name: String,
    pub iterations: u32,
    pub high_variance: bool,
    pub level: GasLevel,
    pub std_dev_text: String,
    pub avg_gas_text: String,
}

/// Optimization suggestion for a function.
#[derive(Clone, Debug)]
pub struct OptimizationSuggestion {
    pub function_name: String,
    pub severity: String,
    pub suggestion: String,
}

/// A suggestion as text: function name, severity, advice.
pub type SuggestionText = (Seq<char>, Seq<char>, Seq<char>);

impl View for OptimizationSuggestion {
    type V = SuggestionText;

    open spec fn view(&self) -> SuggestionText {
        (self.function_name@, self.severity@, self.suggestion@)
    }
}

/// The suggestions as text.
pub open spec fn suggestion_texts(s: Seq<OptimizationSuggestion>) -> Seq<SuggestionText> {
    s.map_values(|x: OptimizationSuggestion| x@)
}

/// The high-variance message of `p`.
pub open spec fn variance_advice(p: GasProfile) -> Seq<char> {
    VARIANCE_OPENING@ + p.std_dev_text@ + VARIANCE_MIDDLE@ + p.avg_gas_text@ + VARIANCE_CLOSING@
}

/// Some suggestion in `s` is about `name`.
pub open spec fn mentions(s: Seq<SuggestionText>, name: Seq<char>) -> bool {
    exists|i: int| 0 <= i < s.len() && (#[trigger] s[i]).0 == name
}

/// The suggestions after those in `before`, once the rules have looked at `p`:
/// a warning for high variance over more than two runs; one of HIGH or MED by
/// level; and the calldata hint above 50k when nothing so far names the function.
pub open spec fn suggestions_after(before: Seq<SuggestionText>, p: GasProfile) -> Seq<SuggestionText> {
    let name = p.function_name@;
    let with_warn = if p.high_variance && p.iterations > 2 {
        before.push((name, SEVERITY_WARN@, variance_advice(p)))
    } else {
        before
    };
    let with_level = match p.level {
        GasLevel::Above500k => with_warn.push((name, SEVERITY_HIGH@, HIGH_GAS_ADVICE@)),
        GasLevel::Above200k => with_warn.push((name, SEVERITY_MED@, MEDIUM_GAS_ADVICE@)),
        _ => with_warn,
    };
    if p.level != GasLevel::Low && !mentions(with_level, name) {
        with_level.push((name, SEVERITY_INFO@, CALLDATA_ADVICE@))
    } else {
        with_level
    }
}

/// The suggestions the rules give for `profiles`, in order, before the all-clear.
pub open spec fn rule_suggestions(profiles: Seq<GasProfile>) -> Seq<SuggestionText>
    decreases profiles.len(),
{
    if profiles.len() == 0 {
        Seq::empty()
    } else {
        suggestions_after(rule_suggestions(profiles.drop_last()), profiles.last())
    }
}

/// The suggestions for `profiles`: those of the rules, or the all-clear alone when
/// the rules give none.
pub open spec fn all_suggestions(profiles: Seq<GasProfile>) -> Seq<SuggestionText> {
    let found = rule_suggestions(profiles);
    if found.len() == 0 {
        seq![(ALL_FUNCTIONS@, SEVERITY_OK@, ALL_CLEAR@)]
    } else {
        found
    }
}

/// A severity that the rules give: WARN, HIGH, MED or INFO.
pub open spec fn is_rule_severity(severity: Seq<char>) -> bool {
    ||| severity == SEVERITY_WARN@
    ||| severity == SEVERITY_HIGH@
    ||| severity == SEVERITY_MED@
    ||| severity == SEVERITY_INFO@
}

/// The five severities are different texts.
proof fn lemma_severities_distinct()
    ensures
        SEVERITY_OK@ != SEVERITY_WARN@,
        SEVERITY_OK@ != SEVERITY_HIGH@,
        SEVERITY_OK@ != SEVERITY_MED@,
        SEVERITY_OK@ != SEVERITY_INFO@,
        SEVERITY_INFO@ != SEVERITY_WARN@,
        SEVERITY_INFO@ != SEVERITY_HIGH@,
        SEVERITY_INFO@ != SEVERITY_MED@,
{
    reveal_strlit("OK");
    reveal_strlit("WARN");
    reveal_strlit("HIGH");
    reveal_strlit("MED");
    reveal_strlit("INFO");
    assert(SEVERITY_OK@.len() == 2);
    assert(SEVERITY_MED@.len() == 3);
    assert(SEVERITY_WARN@[0] != SEVERITY_INFO@[0]);
    assert(SEVERITY_HIGH@[0] != SEVERITY_INFO@[0]);
}

/// Looking at one more profile keeps the earlier suggestions and appends only
/// suggestions about that profile's function, with rule severities.
proof fn lemma_after_extends(before: Seq<SuggestionText>, p: GasProfile)
    ensures
        suggestions_after(before, p).len() >= before.len(),
        forall|i: int| 0 <= i < before.len() ==> #[trigger] suggestions_after(before, p)[i] == before[i],
        forall|i: int|
            before.len() <= i < suggestions_after(before, p).len() ==> (#[trigger] suggestions_after(
                before,
                p,
            )[i]).0 == p.function_name@ && is_rule_severity(suggestions_after(before, p)[i].1),
{
}

/// Every suggestion of the rules carries one of the rule severities.
proof fn lemma_rule_severities(profiles: Seq<GasProfile>)
    ensures
        forall|i: int|
            0 <= i < rule_suggestions(profiles).len() ==> is_rule_severity(
                (#[trigger] rule_suggestions(profiles)[i]).1,
            ),
    decreases profiles.len(),
{
    if profiles.len() > 0 {
        lemma_rule_severities(profiles.drop_last());
        lemma_after_extends(rule_suggestions(profiles.drop_last()), profiles.last());
    }
}

/// The report is never empty, and the all-clear appears exactly when the rules
/// find nothing to suggest, and then alone.
pub proof fn lemma_all_clear_alone(profiles: Seq<GasProfile>)
    ensures
        all_suggestions(profiles).len() > 0,
        (exists|i: int|
            0 <= i < all_suggestions(profiles).len() && (#[trigger] all_suggestions(profiles)[i]).1
                == SEVERITY_OK@) <==> rule_suggestions(profiles).len() == 0,
        rule_suggestions(profiles).len() == 0 ==> all_suggestions(profiles) == seq![
            (ALL_FUNCTIONS@, SEVERITY_OK@, ALL_CLEAR@),
        ],
{
    lemma_severities_distinct();
    lemma_rule_severities(profiles);
    let all = all_suggestions(profiles);
    if rule_suggestions(profiles).len() == 0 {
        assert(all[0].1 == SEVERITY_OK@);
    } else {
        assert forall|i: int| 0 <= i < all.len() implies (#[trigger] all[i]).1 != SEVERITY_OK@ by {
            assert(is_rule_severity(rule_suggestions(profiles)[i].1));
        }
    }
}

/// The rules name every function whose average gas exceeds 50k.
proof fn lemma_costly_in_rules(profiles: Seq<GasProfile>, k: int)
    requires
        0 <= k < profiles.len(),
        profiles[k].level != GasLevel::Low,
    ensures
        mentions(rule_suggestions(profiles), profiles[k].function_name@),
    decreases profiles.len(),
{
    let rules = rule_suggestions(profiles);
    let before = rule_suggestions(profiles.drop_last());
    lemma_after_extends(before, profiles.last());
    if k == profiles.len() - 1 {
        let p = profiles.last();
        let name = p.function_name@;
        let with_warn = if p.high_variance && p.iterations > 2 {
            before.push((name, SEVERITY_WARN@, variance_advice(p)))
        } else {
            before
        };
        let with_level = match p.level {
            GasLevel::Above500k => with_warn.push((name, SEVERITY_HIGH@, HIGH_GAS_ADVICE@)),
            GasLevel::Above200k => with_warn.push((name, SEVERITY_MED@, MEDIUM_GAS_ADVICE@)),
            _ => with_warn,
        };
        if mentions(with_level, name) {
            let i = choose|i: int| 0 <= i < with_level.len() && (#[trigger] with_level[i]).0 == name;
            assert(rules[i] == with_level[i]);
        } else {
            assert(rules[rules.len() - 1].0 == name);
        }
    } else {
        lemma_costly_in_rules(profiles.drop_last(), k);
        let name = profiles[k].function_name@;
        assert(profiles.drop_last()[k] == profiles[k]);
        let i = choose|i: int| 0 <= i < before.len() && (#[trigger] before[i]).0 == name;
        assert(rules[i] == before[i]);
    }
}

/// Every function whose average gas exceeds 50k is named by some suggestion.
pub proof fn lemma_costly_function_mentioned(profiles: Seq<GasProfile>, k: int)
    requires
        0 <= k < profiles.len(),
        profiles[k].level != GasLevel::Low,
    ensures
        mentions(all_suggestions(profiles), profiles[k].function_name@),
{
    lemma_costly_in_rules(profiles, k);
    assert(rule_suggestions(profiles).len() > 0);
}

/// The calldata hint is given for a function only when no earlier suggestion names it.
pub proof fn lemma_calldata_hint_first(profiles: Seq<GasProfile>)
    ensures
        forall|i: int|
            0 <= i < rule_suggestions(profiles).len() && (#[trigger] rule_suggestions(profiles)[i]).1
                == SEVERITY_INFO@ ==> !mentions(
                rule_suggestions(profiles).take(i),
                rule_suggestions(profiles)[i].0,
            ),
    decreases profiles.len(),
{
    lemma_severities_distinct();
    if profiles.len() > 0 {
        lemma_calldata_hint_first(profiles.drop_last());
        let rules = rule_suggestions(profiles);
        let before = rule_suggestions(profiles.drop_last());
        lemma_after_extends(before, profiles.last());
        let p = profiles.last();
        let name = p.function_name@;
        let with_warn = if p.high_variance && p.iterations > 2 {
            before.push((name, SEVERITY_WARN@, variance_advice(p)))
        } else {
            before
        };
        let with_level = match p.level {
            GasLevel::Above500k => with_warn.push((name, SEVERITY_HIGH@, HIGH_GAS_ADVICE@)),
            GasLevel::Above200k => with_warn.push((name, SEVERITY_MED@, MEDIUM_GAS_ADVICE@)),
            _ => with_warn,
        };
        assert forall|i: int|
            0 <= i < rules.len() && (#[trigger] rules[i]).1 == SEVERITY_INFO@ implies !mentions(
            rules.take(i),
            rules[i].0,
        ) by {
            if i < before.len() {
                assert(rules.take(i) =~= before.take(i));
            } else if i < with_level.len() {
                assert(rules[i] == with_level[i]);
                assert(rules[i].1 != SEVERITY_INFO@);
            } else {
                assert(rules.take(i) =~= with_level);
            }
        }
    }
}

/// The suggestion that the rules owe a single profile for its variance or level.
pub open spec fn owed(p: GasProfile, x: SuggestionText) -> bool {
    let name = p.function_name@;
    ||| (p.high_variance && p.iterations > 2 && x == (name, SEVERITY_WARN@, variance_advice(p)))
    ||| (p.level == GasLevel::Above500k && x == (name, SEVERITY_HIGH@, HIGH_GAS_ADVICE@))
    ||| (p.level == GasLevel::Above200k && x == (name, SEVERITY_MED@, MEDIUM_GAS_ADVICE@))
}

/// Looking at one profile appends what it is owed.
proof fn lemma_owed_appended(before: Seq<SuggestionText>, p: GasProfile, x: SuggestionText)
    requires
        owed(p, x),
    ensures
        suggestions_after(before, p).contains(x),
{
    let after = suggestions_after(before, p);
    let n = before.len() as int;
    lemma_after_extends(before, p);
    if p.high_variance && p.iterations > 2 && x == (p.function_name@, SEVERITY_WARN@, variance_advice(
        p,
    )) {
        assert(after[n] == x);
    } else if p.high_variance && p.iterations > 2 {
        assert(after[n + 1] == x);
    } else {
        assert(after[n] == x);
    }
}

/// The rules keep what each profile is owed.
proof fn lemma_owed_in_rules(profiles: Seq<GasProfile>, k: int, x: SuggestionText)
    requires
        0 <= k < profiles.len(),
        owed(profiles[k], x),
    ensures
        rule_suggestions(profiles).contains(x),
    decreases profiles.len(),
{
    let before = rule_suggestions(profiles.drop_last());
    lemma_after_extends(before, profiles.last());
    if k == profiles.len() - 1 {
        lemma_owed_appended(before, profiles.last(), x);
    } else {
        assert(profiles.drop_last()[k] == profiles[k]);
        lemma_owed_in_rules(profiles.drop_last(), k, x);
        let i = choose|i: int| 0 <= i < before.len() && before[i] == x;
        assert(rule_suggestions(profiles)[i] == x);
    }
}

/// Every function gets the warning for high variance when it has more than two
/// runs, whatever its gas level; every function above 500k gets the HIGH advice
/// and every function above 200k (and at most 500k) the MED advice.
pub proof fn lemma_owed_suggestions_given(profiles: Seq<GasProfile>, k: int)
    requires
        0 <= k < profiles.len(),
    ensures
        profiles[k].high_variance && profiles[k].iterations > 2 ==> all_suggestions(profiles).contains(
            (profiles[k].function_name@, SEVERITY_WARN@, variance_advice(profiles[k])),
        ),
        profiles[k].level == GasLevel::Above500k ==> all_suggestions(profiles).contains(
            (profiles[k].function_name@, SEVERITY_HIGH@, HIGH_GAS_ADVICE@),
        ),
        profiles[k].level == GasLevel::Above200k ==> all_suggestions(profiles).contains(
            (profiles[k].function_name@, SEVERITY_MED@, MEDIUM_GAS_ADVICE@),
        ),
{
    let p = profiles[k];
    let name = p.function_name@;
    let warn = (name, SEVERITY_WARN@, variance_advice(p));
    let high = (name, SEVERITY_HIGH@, HIGH_GAS_ADVICE@);
    let med = (name, SEVERITY_MED@, MEDIUM_GAS_ADVICE@);
    if p.high_variance && p.iterations > 2 {
        lemma_owed_in_rules(profiles, k, warn);
    }
    if p.level == GasLevel::Above500k {
        lemma_owed_in_rules(profiles, k, high);
    }
    if p.level == GasLevel::Above200k {
        lemma_owed_in_rules(profiles, k, med);
    }
}

/// A suggestion that a profile accounts for: one it is owed, or the calldata hint
/// when its average gas exceeds 50k.
pub open spec fn accounted(p: GasProfile, x: SuggestionText) -> bool {
    ||| owed(p, x)
    ||| (p.level != GasLevel::Low && x == (p.function_name@, SEVERITY_INFO@, CALLDATA_ADVICE@))
}

/// Looking at one profile appends only suggestions it accounts for.
proof fn lemma_appended_accounted(before: Seq<SuggestionText>, p: GasProfile)
    ensures
        forall|i: int|
            before.len() <= i < suggestions_after(before, p).len() ==> accounted(
                p,
                #[trigger] suggestions_after(before, p)[i],
            ),
{
    lemma_after_extends(before, p);
}

/// Every suggestion of the rules is accounted for by some profile: nothing is
/// suggested that the variance or level of a function does not call for.
pub proof fn lemma_suggestions_accounted(profiles: Seq<GasProfile>)
    ensures
        forall|i: int|
            0 <= i < rule_suggestions(profiles).len() ==> exists|k: int|
                0 <= k < profiles.len() && accounted(
                    profiles[k],
                    #[trigger] rule_suggestions(profiles)[i],
                ),
    decreases profiles.len(),
{
    if profiles.len() > 0 {
        let rest = profiles.drop_last();
        let before = rule_suggestions(rest);
        let rules = rule_suggestions(profiles);
        lemma_suggestions_accounted(rest);
        lemma_after_extends(before, profiles.last());
        lemma_appended_accounted(before, profiles.last());
        assert forall|i: int| 0 <= i < rules.len() implies exists|k: int|
            0 <= k < profiles.len() && accounted(profiles[k], #[trigger] rules[i]) by {
            if i < before.len() {
                let k = choose|k: int| 0 <= k < rest.len() && accounted(rest[k], #[trigger] before[i]);
                assert(rest[k] == profiles[k]);
                assert(rules[i] == before[i]);
            } else {
                assert(accounted(profiles[profiles.len() - 1], rules[i]));
            }
        }
    }
}

/// What the rules suggest for the first profiles stays among the suggestions for
/// all of them.
proof fn lemma_rules_keep_prefix(profiles: Seq<GasProfile>, j: int, x: SuggestionText)
    requires
        0 <= j <= profiles.len(),
        rule_suggestions(profiles.take(j)).contains(x),
    ensures
        rule_suggestions(profiles).contains(x),
    decreases profiles.len(),
{
    if j == profiles.len() {
        assert(profiles.take(j) =~= profiles);
    } else {
        let rest = profiles.drop_last();
        assert(rest.take(j) =~= profiles.take(j));
        lemma_rules_keep_prefix(rest, j, x);
        let before = rule_suggestions(rest);
        lemma_after_extends(before, profiles.last());
        let i = choose|i: int| 0 <= i < before.len() && before[i] == x;
        assert(rule_suggestions(profiles)[i] == x);
    }
}

/// A function above 50k that is owed nothing for its variance or level, and that
/// no suggestion for the functions before it names, gets the calldata hint.
pub proof fn lemma_calldata_hint_given(profiles: Seq<GasProfile>, k: int)
    requires
        0 <= k < profiles.len(),
        profiles[k].level == GasLevel::Above50k,
        !(profiles[k].high_variance && profiles[k].iterations > 2),
        !mentions(rule_suggestions(profiles.take(k)), profiles[k].function_name@),
    ensures
        all_suggestions(profiles).contains(
            (profiles[k].function_name@, SEVERITY_INFO@, CALLDATA_ADVICE@),
        ),
{
    let p = profiles[k];
    let x = (p.function_name@, SEVERITY_INFO@, CALLDATA_ADVICE@);
    let upto = profiles.take(k + 1);
    assert(upto.drop_last() =~= profiles.take(k));
    assert(upto.last() == p);
    let before = rule_suggestions(profiles.take(k));
    assert(suggestions_after(before, p) == before.push(x));
    assert(rule_suggestions(upto)[before.len() as int] == x);
    lemma_rules_keep_prefix(profiles, k + 1, x);
}

fn suggestion(name: &String, severity: &str, advice: String) -> (s: OptimizationSuggestion)
    ensures
        s@ == (name@, severity@, advice@),
{
    OptimizationSuggestion {
        function_name: name.clone(),
        severity: String::from_str(severity),
        suggestion: advice,
    }
}

/// Whether some suggestion of `s` names `name`.
fn names_function(s: &Vec<OptimizationSuggestion>, name: &String) -> (found: bool)
    ensures
        found == mentions(suggestion_texts(s@), name@),
{
    let ghost texts = suggestion_texts(s@);
    let mut k: usize = 0;
    while k < s.len()
        invariant
            k <= s.len(),
            texts == suggestion_texts(s@),
            forall|m: int| 0 <= m < k ==> (#[trigger] texts[m]).0 != name@,
        decreases s.len() - k,
    {
        if s[k].function_name == *name {
            assert(texts[k as int].0 == name@);
            return true;
        }
        k += 1;
    }
    false
}

/// Appends `x` to `s`, extending the texts by the text of `x`.
fn append(s: &mut Vec<OptimizationSuggestion>, x: OptimizationSuggestion)
    ensures
        suggestion_texts(final(s)@) == suggestion_texts(old(s)@).push(x@),
{
    s.push(x);
    assert(suggestion_texts(s@) =~= suggestion_texts(old(s)@).push(x@));
}

/// The high-variance message of `p`.
fn variance_message(p: &GasProfile) -> (m: String)
    ensures
        m@ == variance_advice(*p),
{
    let mut m = String::from_str(VARIANCE_OPENING);
    m.append(p.std_dev_text.as_str());
    m.append(VARIANCE_MIDDLE);
    m.append(p.avg_gas_text.as_str());
    m.append(VARIANCE_CLOSING);
    m
}

/// Generates optimization suggestions from the gas profiles of the benchmarked functions.
pub fn generate_suggestions(profiles: &[GasProfile]) -> (suggestions: Vec<OptimizationSuggestion>)
    ensures
        suggestion_texts(suggestions@) == all_suggestions(profiles@),
{
    let mut out: Vec<OptimizationSuggestion> = Vec::new();
    let mut i: usize = 0;
    while i < profiles.len()
        invariant
            i <= profiles.len(),
            suggestion_texts(out@) == rule_suggestions(profiles@.take(i as int)),
        decreases profiles.len() - i,
    {
        let p = &profiles[i];
        if p.high_variance && p.iterations > 2 {
            append(&mut out, suggestion(&p.function_name, SEVERITY_WARN, variance_message(p)));
        }
        match p.level {
            GasLevel::Above500k => {
                append(
                    &mut out,
                    suggestion(&p.function_name, SEVERITY_HIGH, String::from_str(HIGH_GAS_ADVICE)),
                );
            },
            GasLevel::Above200k => {
                append(
                    &mut out,
                    suggestion(&p.function_name, SEVERITY_MED, String::from_str(MEDIUM_GAS_ADVICE)),
                );
            },
            _ => {},
        }
        let above_50k = match p.level {
            GasLevel::Low => false,
            _ => true,
        };
        if above_50k && !names_function(&out, &p.function_name) {
            append(
                &mut out,
                suggestion(&p.function_name, SEVERITY_INFO, String::from_str(CALLDATA_ADVICE)),
            );
        }
        proof {
            assert(profiles@.take(i + 1).drop_last() =~= profiles@.take(i as int));
        }
        i += 1;
    }
    proof {
        assert(profiles@.take(profiles.len() as int) =~= profiles@);
    }
    if out.len() == 0 {
        let all = String::from_str(ALL_FUNCTIONS);
        append(&mut out, suggestion(&all, SEVERITY_OK, String::from_str(ALL_CLEAR)));
        assert(suggestion_texts(out@) =~= all_suggestions(profiles@));
    }
    out
}

} // verus!
