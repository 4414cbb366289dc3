//! Flags that may be read without being set: the flag templates inside
//! scripted effects (`set_country_flag = prefix_$param$_suffix` and their
//! readers), bound by the parameters that calls give, checked against the
//! flags that script and the engine set.

use vstd::prelude::*;
use crate::analysis::{
    apply_flag_template, applied_template, extract_param_template, flag_op, flag_op_spec,
    normalized_static_symbol, param_template, pattern_matches, static_symbol,
    templated_pattern_is_specific, ascii_alpha_count, FlagTemplateUsage, FlagUsageKind,
    TemplatedFlagPattern,
};
use crate::documents::{decimal_chars, decimal_text};
use crate::index_builder::{ScalarAssignment, SemanticIndex};
use crate::model::{Finding, FindingChannel, Severity};
use crate::scope_inference::{
    resolve_scripted_effect_reference_targets, resolved_targets, ParamBinding, SymbolDefinition,
    SymbolKind, SymbolReference,
};
use crate::scope_tree::{tree_wf, ScopeNode};
use crate::text::{chars_of, str_eq, string_from_chars};

verus! {

/// The flags that the engine sets by itself.
pub open spec fn engine_flags() -> Set<(Seq<char>, Seq<char>)> {
    set![
        ("country"@, "vanilla_achievements_enabled"@),
        ("country"@, "have_diploannexed"@),
        ("country"@, "conquered_province"@),
        ("country"@, "has_won_war"@),
        ("country"@, "religious_league_war_on_winning_side"@),
        ("country"@, "force_converted"@),
        ("country"@, "gives_enlightenment_to_neighbors"@),
    ]
}

/// The flag that an assignment sets literally, with the kind of flag.
pub open spec fn literal_flag(a: ScalarAssignment) -> Option<(Seq<char>, Seq<char>)> {
    match flag_op(a.key@) {
        Some((kind, FlagUsageKind::Definition)) => match static_symbol(a.value@) {
            Some(flag) => Some((kind@, flag)),
            None => None,
        },
        _ => None,
    }
}

/// The flags set by the engine or literally by the first `n` assignments.
pub open spec fn literally_defined(assigns: Seq<ScalarAssignment>, n: int) -> Set<(Seq<char>, Seq<char>)>
    decreases n,
{
    if n <= 0 {
        engine_flags()
    } else {
        let prev = literally_defined(assigns, n - 1);
        match literal_flag(assigns[n - 1]) {
            Some(p) => prev.insert(p),
            None => prev,
        }
    }
}

/// The last scripted effect whose body opens the scope `sid`.
pub open spec fn effect_of_scope(defs: Seq<SymbolDefinition>, sid: int, n: int) -> Option<usize>
    decreases n,
{
    if n <= 0 {
        None
    } else if defs[n - 1].kind == SymbolKind::ScriptedEffect && defs[n - 1].scope_id == sid {
        Some((n - 1) as usize)
    } else {
        effect_of_scope(defs, sid, n - 1)
    }
}

/// The scripted effect whose body holds the scope `sid`: that of the scope
/// itself, or else of its nearest ancestor that has one.
pub open spec fn enclosing_effect(s: Seq<ScopeNode>, defs: Seq<SymbolDefinition>, sid: int) -> Option<usize>
    decreases sid,
{
    match effect_of_scope(defs, sid, defs.len() as int) {
        Some(d) => Some(d),
        None => if 0 <= sid < s.len() {
            match s[sid].parent {
                Some(p) => if 0 <= p < sid {
                    enclosing_effect(s, defs, p as int)
                } else {
                    None
                },
                None => None,
            }
        } else {
            None
        },
    }
}

/// A flag template with the parts that the checks read.
pub struct TemplateView {
    pub kind: Seq<char>,
    pub op_key: Seq<char>,
    pub param: Seq<char>,
    pub prefix: Seq<char>,
    pub suffix: Seq<char>,
    pub path: Seq<char>,
    pub line: usize,
    pub column: usize,
}

/// The flag template that an assignment inside a scripted effect writes:
/// the effect, whether the template sets or reads, and the template.
pub open spec fn template_of(s: Seq<ScopeNode>, defs: Seq<SymbolDefinition>, a: ScalarAssignment) -> Option<
    (usize, FlagUsageKind, TemplateView),
> {
    match flag_op(a.key@) {
        Some((kind, usage)) => match param_template(a.value@) {
            Some((param, prefix, suffix)) => match enclosing_effect(s, defs, a.scope_id as int) {
                Some(d) => Some(
                    (
                        d,
                        usage,
                        TemplateView {
                            kind: kind@,
                            op_key: a.key@,
                            param,
                            prefix,
                            suffix,
                            path: a.path@,
                            line: a.line,
                            column: a.column,
                        },
                    ),
                ),
                None => None,
            },
            None => None,
        },
        None => None,
    }
}

/// The flag templates of the first `n` assignments, in order.
pub open spec fn templates_of(s: Seq<ScopeNode>, defs: Seq<SymbolDefinition>, assigns: Seq<ScalarAssignment>, n: int) -> Seq<
    (usize, FlagUsageKind, TemplateView),
>
    decreases n,
{
    if n <= 0 {
        Seq::empty()
    } else {
        let prev = templates_of(s, defs, assigns, n - 1);
        match template_of(s, defs, assigns[n - 1]) {
            Some(t) => prev.push(t),
            None => prev,
        }
    }
}

/// The templates of the scripted effect `d` that set (or read) flags, in
/// order.
pub open spec fn templates_for(all: Seq<(usize, FlagUsageKind, TemplateView)>, d: usize, usage: FlagUsageKind) -> Seq<
    TemplateView,
>
    decreases all.len(),
{
    if all.len() == 0 {
        Seq::empty()
    } else {
        let prev = templates_for(all.drop_last(), d, usage);
        let e = all.last();
        if e.0 == d && e.1 == usage {
            prev.push(e.2)
        } else {
            prev
        }
    }
}

/// Some specific setter template of any scripted effect has the pattern
/// that `flag` of `kind` matches.
pub open spec fn allowlisted(all: Seq<(usize, FlagUsageKind, TemplateView)>, kind: Seq<char>, flag: Seq<char>) -> bool {
    exists|j: int|
        0 <= j < all.len() && (#[trigger] all[j]).1 == FlagUsageKind::Definition && {
            let t = all[j].2;
            &&& vstd::utf8::encode_utf8(t.prefix).len() + vstd::utf8::encode_utf8(t.suffix).len() >= 4
            &&& ascii_alpha_count(t.prefix) + ascii_alpha_count(t.suffix) >= 3
            &&& t.kind == kind
            &&& pattern_matches(t.prefix, t.suffix, flag)
        }
}

/// The value that the last of the bindings `bs` with the name `name` gives.
pub open spec fn bound_value(bs: Seq<ParamBinding>, name: Seq<char>) -> Option<Seq<char>>
    decreases bs.len(),
{
    if bs.len() == 0 {
        None
    } else if bs.last().name@ == name {
        Some(bs.last().value@)
    } else {
        bound_value(bs.drop_last(), name)
    }
}

/// The flag that a template names for a call, where the call binds its
/// parameter and the result is a static symbol.
pub open spec fn call_flag(r: SymbolReference, t: TemplateView) -> Option<Seq<char>> {
    match bound_value(r.param_bindings@, t.param) {
        Some(b) => applied_template(t.prefix, t.suffix, b),
        None => None,
    }
}

/// What tells the findings of one call apart: its place, the kind of flag
/// and the flag, as text.
pub open spec fn call_key(r: SymbolReference, kind: Seq<char>, flag: Seq<char>) -> Seq<char> {
    r.path@ + ":"@ + decimal_text(r.line as nat) + ":"@ + decimal_text(r.column as nat) + ":"@ + kind + ":"@
        + flag
}

/// A flag that a call may read undeclared: the call (by position), the
/// definition it resolves to, the reading template and the flag.
pub struct FlagFinding {
    pub call: int,
    pub target: int,
    pub template: TemplateView,
    pub flag: Seq<char>,
}

/// The flags known set, the places already reported, and the findings.
pub struct FlagState {
    pub defined: Set<(Seq<char>, Seq<char>)>,
    pub seen: Set<Seq<char>>,
    pub found: Seq<FlagFinding>,
}

/// A setter template that a call binds sets its flag.
pub open spec fn define_step(st: FlagState, r: SymbolReference, t: TemplateView) -> FlagState {
    match call_flag(r, t) {
        Some(flag) => FlagState { defined: st.defined.insert((t.kind, flag)), ..st },
        None => st,
    }
}

pub open spec fn define_all(st: FlagState, r: SymbolReference, ts: Seq<TemplateView>, n: int) -> FlagState
    decreases n,
{
    if n <= 0 {
        st
    } else {
        define_step(define_all(st, r, ts, n - 1), r, ts[n - 1])
    }
}

/// A reader template that a call binds reports its flag, unless the flag is
/// known set, some setter pattern allows it, or the place already reported
/// it.
pub open spec fn check_step(
    all: Seq<(usize, FlagUsageKind, TemplateView)>,
    st: FlagState,
    r: SymbolReference,
    ri: int,
    target: int,
    t: TemplateView,
) -> FlagState {
    match call_flag(r, t) {
        Some(flag) => {
            let key = call_key(r, t.kind, flag);
            if st.defined.contains((t.kind, flag)) || allowlisted(all, t.kind, flag) || st.seen.contains(key) {
                st
            } else {
                FlagState {
                    defined: st.defined,
                    seen: st.seen.insert(key),
                    found: st.found.push(FlagFinding { call: ri, target, template: t, flag }),
                }
            }
        },
        None => st,
    }
}

pub open spec fn check_all(
    all: Seq<(usize, FlagUsageKind, TemplateView)>,
    st: FlagState,
    r: SymbolReference,
    ri: int,
    target: int,
    ts: Seq<TemplateView>,
    n: int,
) -> FlagState
    decreases n,
{
    if n <= 0 {
        st
    } else {
        check_step(all, check_all(all, st, r, ri, target, ts, n - 1), r, ri, target, ts[n - 1])
    }
}

/// One definition that a call resolves to: its setter templates, bound by
/// the call, set their flags; then its reader templates are checked.
pub open spec fn target_step(
    all: Seq<(usize, FlagUsageKind, TemplateView)>,
    st: FlagState,
    r: SymbolReference,
    ri: int,
    target: usize,
) -> FlagState {
    let sets = templates_for(all, target, FlagUsageKind::Definition);
    let reads = templates_for(all, target, FlagUsageKind::Reference);
    check_all(all, define_all(st, r, sets, sets.len() as int), r, ri, target as int, reads, reads.len() as int)
}

pub open spec fn targets_step(
    all: Seq<(usize, FlagUsageKind, TemplateView)>,
    st: FlagState,
    r: SymbolReference,
    ri: int,
    ts: Seq<usize>,
    n: int,
) -> FlagState
    decreases n,
{
    if n <= 0 {
        st
    } else {
        target_step(all, targets_step(all, st, r, ri, ts, n - 1), r, ri, ts[n - 1])
    }
}

/// A call of a scripted effect that binds parameters goes through the
/// definitions it resolves to, in order.
pub open spec fn call_step(
    all: Seq<(usize, FlagUsageKind, TemplateView)>,
    defs: Seq<SymbolDefinition>,
    st: FlagState,
    r: SymbolReference,
    ri: int,
) -> FlagState {
    if r.kind != SymbolKind::ScriptedEffect || r.param_bindings@.len() == 0 {
        st
    } else {
        let ts = resolved_targets(defs, r, SymbolKind::ScriptedEffect);
        targets_step(all, st, r, ri, ts, ts.len() as int)
    }
}

/// The state after the first `n` calls.
pub open spec fn calls_step(
    all: Seq<(usize, FlagUsageKind, TemplateView)>,
    defs: Seq<SymbolDefinition>,
    refs: Seq<SymbolReference>,
    start: FlagState,
    n: int,
) -> FlagState
    decreases n,
{
    if n <= 0 {
        start
    } else {
        call_step(all, defs, calls_step(all, defs, refs, start, n - 1), refs[n - 1], n - 1)
    }
}

/// The outcome of the check on an index: what it reports, in order.
pub open spec fn flag_findings(idx: SemanticIndex) -> Seq<FlagFinding> {
    let s = idx.symbols.scopes@;
    let defs = idx.symbols.definitions@;
    let assigns = idx.scalar_assignments@;
    let all = templates_of(s, defs, assigns, assigns.len() as int);
    let start = FlagState {
        defined: literally_defined(assigns, assigns.len() as int),
        seen: Set::empty(),
        found: Seq::empty(),
    };
    calls_step(all, defs, idx.symbols.references@, start, idx.symbols.references@.len() as int).found
}

/// What tells a finding apart: the place of its call, the kind of flag and
/// the flag.
pub open spec fn finding_key(refs: Seq<SymbolReference>, g: FlagFinding) -> Seq<char> {
    call_key(refs[g.call], g.template.kind, g.flag)
}

/// What every state of the check keeps: the flags known set at the start
/// stay known; each finding names a call, its place is among those already
/// reported, and it concerns no flag known set at the start; no two
/// findings share a place.
pub open spec fn flag_state_ok(refs: Seq<SymbolReference>, base: Set<(Seq<char>, Seq<char>)>, st: FlagState) -> bool {
    &&& forall|p: (Seq<char>, Seq<char>)| #[trigger] base.contains(p) ==> st.defined.contains(p)
    &&& forall|i: int|
        0 <= i < st.found.len() ==> 0 <= (#[trigger] st.found[i]).call < refs.len() && st.seen.contains(
            finding_key(refs, st.found[i]),
        ) && !base.contains((st.found[i].template.kind, st.found[i].flag))
    &&& forall|i: int, j: int|
        0 <= i < j < st.found.len() ==> finding_key(refs, #[trigger] st.found[i]) != finding_key(refs, #[trigger] st.found[j])
}

proof fn lemma_check_step_ok(
    refs: Seq<SymbolReference>,
    base: Set<(Seq<char>, Seq<char>)>,
    all: Seq<(usize, FlagUsageKind, TemplateView)>,
    st: FlagState,
    ri: int,
    target: int,
    t: TemplateView,
)
    requires
        flag_state_ok(refs, base, st),
        0 <= ri < refs.len(),
    ensures
        flag_state_ok(refs, base, check_step(all, st, refs[ri], ri, target, t)),
{
    let r = refs[ri];
    match call_flag(r, t) {
        Some(flag) => {
            let key = call_key(r, t.kind, flag);
            if !(st.defined.contains((t.kind, flag)) || allowlisted(all, t.kind, flag) || st.seen.contains(key)) {
                let st2 = check_step(all, st, r, ri, target, t);
                let g = FlagFinding { call: ri, target, template: t, flag };
                assert(st2.found == st.found.push(g));
                assert(finding_key(refs, g) == key);
                assert forall|i: int| 0 <= i < st2.found.len() implies 0 <= (#[trigger] st2.found[i]).call < refs.len()
                    && st2.seen.contains(finding_key(refs, st2.found[i]))
                    && !base.contains((st2.found[i].template.kind, st2.found[i].flag)) by {
                    if i < st.found.len() {
                        assert(st2.found[i] == st.found[i]);
                    }
                }
                assert forall|i: int, j: int| 0 <= i < j < st2.found.len() implies finding_key(refs, #[trigger] st2.found[i])
                    != finding_key(refs, #[trigger] st2.found[j]) by {
                    assert(st2.found[i] == st.found[i]);
                    if j < st.found.len() {
                        assert(st2.found[j] == st.found[j]);
                    }
                }
            }
        },
        None => {},
    }
}

proof fn lemma_check_all_ok(
    refs: Seq<SymbolReference>,
    base: Set<(Seq<char>, Seq<char>)>,
    all: Seq<(usize, FlagUsageKind, TemplateView)>,
    st: FlagState,
    ri: int,
    target: int,
    ts: Seq<TemplateView>,
    n: int,
)
    requires
        flag_state_ok(refs, base, st),
        0 <= ri < refs.len(),
    ensures
        flag_state_ok(refs, base, check_all(all, st, refs[ri], ri, target, ts, n)),
    decreases n,
{
    if n > 0 {
        lemma_check_all_ok(refs, base, all, st, ri, target, ts, n - 1);
        lemma_check_step_ok(refs, base, all, check_all(all, st, refs[ri], ri, target, ts, n - 1), ri, target, ts[n - 1]);
    }
}

proof fn lemma_define_all_ok(
    refs: Seq<SymbolReference>,
    base: Set<(Seq<char>, Seq<char>)>,
    st: FlagState,
    r: SymbolReference,
    ts: Seq<TemplateView>,
    n: int,
)
    requires
        flag_state_ok(refs, base, st),
    ensures
        flag_state_ok(refs, base, define_all(st, r, ts, n)),
    decreases n,
{
    if n > 0 {
        lemma_define_all_ok(refs, base, st, r, ts, n - 1);
        let prev = define_all(st, r, ts, n - 1);
        let next = define_step(prev, r, ts[n - 1]);
        assert(next.found == prev.found && next.seen == prev.seen);
    }
}

proof fn lemma_targets_step_ok(
    refs: Seq<SymbolReference>,
    base: Set<(Seq<char>, Seq<char>)>,
    all: Seq<(usize, FlagUsageKind, TemplateView)>,
    st: FlagState,
    ri: int,
    ts: Seq<usize>,
    n: int,
)
    requires
        flag_state_ok(refs, base, st),
        0 <= ri < refs.len(),
    ensures
        flag_state_ok(refs, base, targets_step(all, st, refs[ri], ri, ts, n)),
    decreases n,
{
    if n > 0 {
        lemma_targets_step_ok(refs, base, all, st, ri, ts, n - 1);
        let prev = targets_step(all, st, refs[ri], ri, ts, n - 1);
        let target = ts[n - 1];
        let sets = templates_for(all, target, FlagUsageKind::Definition);
        let reads = templates_for(all, target, FlagUsageKind::Reference);
        lemma_define_all_ok(refs, base, prev, refs[ri], sets, sets.len() as int);
        lemma_check_all_ok(refs, base, all, define_all(prev, refs[ri], sets, sets.len() as int), ri, target as int, reads, reads.len() as int);
    }
}

proof fn lemma_calls_step_ok(
    refs: Seq<SymbolReference>,
    base: Set<(Seq<char>, Seq<char>)>,
    all: Seq<(usize, FlagUsageKind, TemplateView)>,
    defs: Seq<SymbolDefinition>,
    start: FlagState,
    n: int,
)
    requires
        flag_state_ok(refs, base, start),
        n <= refs.len(),
    ensures
        flag_state_ok(refs, base, calls_step(all, defs, refs, start, n)),
    decreases n,
{
    if n > 0 {
        lemma_calls_step_ok(refs, base, all, defs, start, n - 1);
        let prev = calls_step(all, defs, refs, start, n - 1);
        let r = refs[n - 1];
        if !(r.kind != SymbolKind::ScriptedEffect || r.param_bindings@.len() == 0) {
            let ts = resolved_targets(defs, r, SymbolKind::ScriptedEffect);
            lemma_targets_step_ok(refs, base, all, prev, n - 1, ts, ts.len() as int);
        }
    }
}

proof fn lemma_calls_step_without_bindings(
    all: Seq<(usize, FlagUsageKind, TemplateView)>,
    defs: Seq<SymbolDefinition>,
    refs: Seq<SymbolReference>,
    start: FlagState,
    n: int,
)
    requires
        n <= refs.len(),
        forall|i: int| 0 <= i < refs.len() ==> (#[trigger] refs[i]).kind != SymbolKind::ScriptedEffect
            || refs[i].param_bindings@.len() == 0,
    ensures
        calls_step(all, defs, refs, start, n) == start,
    decreases n,
{
    if n > 0 {
        lemma_calls_step_without_bindings(all, defs, refs, start, n - 1);
        assert(refs[n - 1].kind != SymbolKind::ScriptedEffect || refs[n - 1].param_bindings@.len() == 0);
    }
}

/// The check reports each place at most once: no two findings share the
/// place of their call, the kind of flag and the flag. No finding concerns
/// a flag that the engine sets or that an assignment sets literally. A
/// check of an index where no call of a scripted effect binds parameters
/// reports nothing.
pub proof fn lemma_flag_findings_are_distinct_and_undeclared(idx: SemanticIndex)
    ensures
        forall|i: int, j: int|
            0 <= i < j < flag_findings(idx).len() ==> finding_key(idx.symbols.references@, #[trigger] flag_findings(idx)[i])
                != finding_key(idx.symbols.references@, #[trigger] flag_findings(idx)[j]),
        forall|i: int|
            0 <= i < flag_findings(idx).len() ==> 0 <= (#[trigger] flag_findings(idx)[i]).call < idx.symbols.references@.len()
                && !literally_defined(idx.scalar_assignments@, idx.scalar_assignments@.len() as int).contains(
                (flag_findings(idx)[i].template.kind, flag_findings(idx)[i].flag),
            ),
        (forall|i: int| 0 <= i < idx.symbols.references@.len() ==> (#[trigger] idx.symbols.references@[i]).kind
            != SymbolKind::ScriptedEffect || idx.symbols.references@[i].param_bindings@.len() == 0) ==> flag_findings(
            idx,
        ).len() == 0,
{
    let s = idx.symbols.scopes@;
    let defs = idx.symbols.definitions@;
    let assigns = idx.scalar_assignments@;
    let refs = idx.symbols.references@;
    let all = templates_of(s, defs, assigns, assigns.len() as int);
    let base = literally_defined(assigns, assigns.len() as int);
    let start = FlagState { defined: base, seen: Set::empty(), found: Seq::empty() };
    lemma_calls_step_ok(refs, base, all, defs, start, refs.len() as int);
    if forall|i: int| 0 <= i < refs.len() ==> (#[trigger] refs[i]).kind != SymbolKind::ScriptedEffect
        || refs[i].param_bindings@.len() == 0 {
        lemma_calls_step_without_bindings(all, defs, refs, start, refs.len() as int);
    }
}

/// The finding `f` reports `g`: an advisory warning at the call, naming the
/// reading operation, the kind and the flag, with the binding and the
/// template as evidence.
pub open spec fn reports_flag(refs: Seq<SymbolReference>, defs: Seq<SymbolDefinition>, g: FlagFinding, f: Finding) -> bool {
    let r = refs[g.call];
    let t = g.template;
    let def_name = if 0 <= g.target < defs.len() {
        defs[g.target].name@
    } else {
        r.name@
    };
    &&& f.rule_id@ == "unresolved-flag-reference"@
    &&& f.severity == Severity::Warning
    &&& f.channel == FindingChannel::Advisory
    &&& f.message@ == "flag may be undeclared: "@ + t.op_key + "("@ + t.kind + ") references "@ + g.flag
    &&& f.mod_id matches Some(m) && m@ == r.mod_id@
    &&& f.path matches Some(p) && p@ == r.path@
    &&& f.evidence matches Some(e) && e@ == "call "@ + def_name + " binds "@ + t.param + "="@
        + bound_value(r.param_bindings@, t.param)->0 + "; template "@ + t.path + ":"@ + decimal_text(t.line as nat)
        + ":"@ + decimal_text(t.column as nat) + " has "@ + t.op_key + " = "@ + t.prefix + "$"@ + t.param + "$"@
        + t.suffix + "; inferred value "@ + g.flag
    &&& f.line == Some(r.line)
    &&& f.column == Some(r.column)
    &&& f.confidence_percent == Some(78u8)
}


pub open spec fn template_view(t: FlagTemplateUsage) -> TemplateView {
    TemplateView {
        kind: t.kind@,
        op_key: t.op_key@,
        param: t.param_name@,
        prefix: t.prefix@,
        suffix: t.suffix@,
        path: t.path@,
        line: t.line,
        column: t.column,
    }
}

pub open spec fn template_views(v: Seq<FlagTemplateUsage>) -> Seq<TemplateView> {
    v.map_values(|t: FlagTemplateUsage| template_view(t))
}

pub open spec fn entry_views(v: Seq<(usize, FlagUsageKind, FlagTemplateUsage)>) -> Seq<(usize, FlagUsageKind, TemplateView)> {
    v.map_values(|e: (usize, FlagUsageKind, FlagTemplateUsage)| (e.0, e.1, template_view(e.2)))
}

pub open spec fn pair_views(v: Seq<(String, String)>) -> Seq<(Seq<char>, Seq<char>)> {
    v.map_values(|p: (String, String)| (p.0@, p.1@))
}

pub open spec fn string_set(v: Seq<String>) -> Set<Seq<char>> {
    v.map_values(|s: String| s@).to_set()
}

fn effect_of_scope_index(defs: &Vec<SymbolDefinition>, sid: usize) -> (r: Option<usize>)
    ensures
        r == effect_of_scope(defs@, sid as int, defs@.len() as int),
{
    let mut i: usize = defs.len();
    while i > 0
        invariant
            i <= defs.len(),
            effect_of_scope(defs@, sid as int, defs@.len() as int) == effect_of_scope(defs@, sid as int, i as int),
        decreases i,
    {
        if defs[i - 1].kind == SymbolKind::ScriptedEffect && defs[i - 1].scope_id == sid {
            return Some(i - 1);
        }
        i = i - 1;
    }
    None
}

/// The scripted effect whose body holds the scope `scope_id`.
pub fn enclosing_scripted_effect_definition(
    tree: &crate::scope_tree::ScopeTree,
    defs: &Vec<SymbolDefinition>,
    scope_id: usize,
) -> (r: Option<usize>)
    ensures
        r == enclosing_effect(tree@, defs@, scope_id as int),
{
    let scopes = tree.scopes();
    let mut sid = scope_id;
    loop
        invariant
            scopes@ == tree@,
            enclosing_effect(tree@, defs@, scope_id as int) == enclosing_effect(tree@, defs@, sid as int),
        decreases sid,
    {
        match effect_of_scope_index(defs, sid) {
            Some(d) => {
                return Some(d);
            },
            None => {},
        }
        if sid >= scopes.len() {
            return None;
        }
        match scopes[sid].parent {
            Some(p) => {
                if p < sid {
                    sid = p;
                } else {
                    return None;
                }
            },
            None => {
                return None;
            },
        }
    }
}

fn collect_templates(index: &SemanticIndex) -> (r: Vec<(usize, FlagUsageKind, FlagTemplateUsage)>)
    ensures
        entry_views(r@) == templates_of(
            index.symbols.scopes@,
            index.symbols.definitions@,
            index.scalar_assignments@,
            index.scalar_assignments@.len() as int,
        ),
{
    let ghost s = index.symbols.scopes@;
    let ghost defs = index.symbols.definitions@;
    let ghost assigns = index.scalar_assignments@;
    let mut out: Vec<(usize, FlagUsageKind, FlagTemplateUsage)> = Vec::new();
    let mut i: usize = 0;
    assert(entry_views(out@) =~= Seq::<(usize, FlagUsageKind, TemplateView)>::empty());
    while i < index.scalar_assignments.len()
        invariant
            i <= index.scalar_assignments.len(),
            s == index.symbols.scopes@,
            defs == index.symbols.definitions@,
            assigns == index.scalar_assignments@,
            entry_views(out@) == templates_of(s, defs, assigns, i as int),
        decreases index.scalar_assignments.len() - i,
    {
        let a = &index.scalar_assignments[i];
        let ghost before = entry_views(out@);
        match flag_op_spec(a.key.as_str()) {
            Some(spec) => match extract_param_template(a.value.as_str()) {
                Some((param, prefix, suffix)) => match enclosing_scripted_effect_definition(
                    &index.symbols.scopes,
                    &index.symbols.definitions,
                    a.scope_id,
                ) {
                    Some(d) => {
                        let t = FlagTemplateUsage {
                            kind: spec.kind,
                            op_key: a.key.clone(),
                            param_name: param,
                            prefix,
                            suffix,
                            path: a.path.clone(),
                            line: a.line,
                            column: a.column,
                        };
                        out.push((d, spec.usage, t));
                        assert(entry_views(out@) =~= before.push(template_of(s, defs, assigns[i as int])->0));
                    },
                    None => {},
                },
                None => {},
            },
            None => {},
        }
        i = i + 1;
    }
    out
}

proof fn lemma_templates_for_push(
    es: Seq<(usize, FlagUsageKind, TemplateView)>,
    e: (usize, FlagUsageKind, TemplateView),
    target: usize,
    usage: FlagUsageKind,
)
    ensures
        templates_for(es.push(e), target, usage) == if e.0 == target && e.1 == usage {
            templates_for(es, target, usage).push(e.2)
        } else {
            templates_for(es, target, usage)
        },
{
    assert(es.push(e).drop_last() =~= es);
    assert(es.push(e).last() == e);
}

fn copy_template(t: &FlagTemplateUsage) -> (r: FlagTemplateUsage)
    ensures
        template_view(r) == template_view(*t),
{
    FlagTemplateUsage {
        kind: t.kind,
        op_key: t.op_key.clone(),
        param_name: t.param_name.clone(),
        prefix: t.prefix.clone(),
        suffix: t.suffix.clone(),
        path: t.path.clone(),
        line: t.line,
        column: t.column,
    }
}

fn templates_for_target(all: &Vec<(usize, FlagUsageKind, FlagTemplateUsage)>, target: usize, usage: FlagUsageKind) -> (r:
    Vec<FlagTemplateUsage>)
    ensures
        template_views(r@) == templates_for(entry_views(all@), target, usage),
{
    let mut out: Vec<FlagTemplateUsage> = Vec::new();
    let mut k: usize = 0;
    assert(entry_views(all@.take(0)) =~= Seq::<(usize, FlagUsageKind, TemplateView)>::empty());
    assert(template_views(out@) =~= templates_for(entry_views(all@.take(0)), target, usage));
    while k < all.len()
        invariant
            k <= all.len(),
            template_views(out@) == templates_for(entry_views(all@.take(k as int)), target, usage),
        decreases all.len() - k,
    {
        let e = &all[k];
        proof {
            assert(entry_views(all@.take(k + 1)) =~= entry_views(all@.take(k as int)).push(
                (all@[k as int].0, all@[k as int].1, template_view(all@[k as int].2)),
            ));
            lemma_templates_for_push(
                entry_views(all@.take(k as int)),
                (all@[k as int].0, all@[k as int].1, template_view(all@[k as int].2)),
                target,
                usage,
            );
        }
        if e.0 == target && e.1 == usage {
            let ghost before = template_views(out@);
            out.push(copy_template(&e.2));
            assert(template_views(out@) =~= before.push(template_view(e.2)));
        }
        k = k + 1;
    }
    assert(all@.take(all.len() as int) =~= all@);
    out
}

fn is_allowlisted(all: &Vec<(usize, FlagUsageKind, FlagTemplateUsage)>, kind: &str, flag: &str) -> (r: bool)
    ensures
        r == allowlisted(entry_views(all@), kind@, flag@),
{
    let ghost ev = entry_views(all@);
    let mut j: usize = 0;
    while j < all.len()
        invariant
            j <= all.len(),
            ev == entry_views(all@),
            forall|jj: int|
                0 <= jj < j ==> !((#[trigger] ev[jj]).1 == FlagUsageKind::Definition && {
                    let t = ev[jj].2;
                    &&& vstd::utf8::encode_utf8(t.prefix).len() + vstd::utf8::encode_utf8(t.suffix).len() >= 4
                    &&& ascii_alpha_count(t.prefix) + ascii_alpha_count(t.suffix) >= 3
                    &&& t.kind == kind@
                    &&& pattern_matches(t.prefix, t.suffix, flag@)
                }),
        decreases all.len() - j,
    {
        let e = &all[j];
        assert(ev[j as int] == (e.0, e.1, template_view(e.2)));
        if e.1 == FlagUsageKind::Definition && templated_pattern_is_specific(e.2.prefix.as_str(), e.2.suffix.as_str()) {
            let pattern = TemplatedFlagPattern { kind: e.2.kind, prefix: e.2.prefix.clone(), suffix: e.2.suffix.clone() };
            if pattern.matches(kind, flag) {
                return true;
            }
        }
        j = j + 1;
    }
    false
}

fn binding_for(bs: &Vec<ParamBinding>, name: &str) -> (r: Option<String>)
    ensures
        match bound_value(bs@, name@) {
            Some(v) => r matches Some(s) && s@ == v,
            None => r is None,
        },
{
    let mut i: usize = bs.len();
    assert(bs@.take(bs.len() as int) =~= bs@);
    while i > 0
        invariant
            i <= bs.len(),
            bound_value(bs@, name@) == bound_value(bs@.take(i as int), name@),
        decreases i,
    {
        assert(bs@.take(i as int).last() == bs@[i - 1]);
        assert(bs@.take(i as int).drop_last() =~= bs@.take(i - 1));
        if str_eq(bs[i - 1].name.as_str(), name) {
            return Some(bs[i - 1].value.clone());
        }
        i = i - 1;
    }
    None
}

fn has_pair(v: &Vec<(String, String)>, a: &str, b: &str) -> (r: bool)
    ensures
        r == pair_views(v@).to_set().contains((a@, b@)),
{
    let mut i: usize = 0;
    while i < v.len()
        invariant
            i <= v.len(),
            forall|k: int| 0 <= k < i ==> #[trigger] pair_views(v@)[k] != (a@, b@),
        decreases v.len() - i,
    {
        if str_eq(v[i].0.as_str(), a) && str_eq(v[i].1.as_str(), b) {
            assert(pair_views(v@)[i as int] == (a@, b@));
            assert(pair_views(v@).contains((a@, b@)));
            return true;
        }
        i = i + 1;
    }
    false
}

fn has_string(v: &Vec<String>, x: &str) -> (r: bool)
    ensures
        r == string_set(v@).contains(x@),
{
    let ghost sv = v@.map_values(|s: String| s@);
    let mut i: usize = 0;
    while i < v.len()
        invariant
            i <= v.len(),
            sv == v@.map_values(|s: String| s@),
            forall|k: int| 0 <= k < i ==> #[trigger] sv[k] != x@,
        decreases v.len() - i,
    {
        if str_eq(v[i].as_str(), x) {
            assert(sv[i as int] == x@);
            assert(sv.contains(x@));
            return true;
        }
        i = i + 1;
    }
    false
}

proof fn lemma_define_all_keeps(st: FlagState, r: SymbolReference, ts: Seq<TemplateView>, n: int)
    ensures
        define_all(st, r, ts, n).seen == st.seen,
        define_all(st, r, ts, n).found == st.found,
    decreases n,
{
    if n > 0 {
        lemma_define_all_keeps(st, r, ts, n - 1);
    }
}

proof fn lemma_check_all_keeps(
    all: Seq<(usize, FlagUsageKind, TemplateView)>,
    st: FlagState,
    r: SymbolReference,
    ri: int,
    target: int,
    ts: Seq<TemplateView>,
    n: int,
)
    ensures
        check_all(all, st, r, ri, target, ts, n).defined == st.defined,
    decreases n,
{
    if n > 0 {
        lemma_check_all_keeps(all, st, r, ri, target, ts, n - 1);
    }
}

/// The exec state stands for `st`: the flags known set, the places
/// reported, and the findings made.
pub open spec fn state_matches(
    defined: Seq<(String, String)>,
    seen: Seq<String>,
    findings: Seq<Finding>,
    st: FlagState,
    refs: Seq<SymbolReference>,
    defs: Seq<SymbolDefinition>,
) -> bool {
    &&& pair_views(defined).to_set() == st.defined
    &&& string_set(seen) == st.seen
    &&& findings.len() == st.found.len()
    &&& forall|j: int| 0 <= j < findings.len() ==> reports_flag(refs, defs, st.found[j], #[trigger] findings[j])
}

fn define_templates(defined: &mut Vec<(String, String)>, r: &SymbolReference, sets: &Vec<FlagTemplateUsage>, Ghost(st): Ghost<FlagState>)
    requires
        pair_views(old(defined)@).to_set() == st.defined,
    ensures
        pair_views(final(defined)@).to_set() == define_all(st, *r, template_views(sets@), sets@.len() as int).defined,
{
    let ghost ts = template_views(sets@);
    let mut q: usize = 0;
    while q < sets.len()
        invariant
            q <= sets.len(),
            ts == template_views(sets@),
            pair_views(defined@).to_set() == define_all(st, *r, ts, q as int).defined,
        decreases sets.len() - q,
    {
        let t = &sets[q];
        assert(ts[q as int] == template_view(*t));
        match binding_for(&r.param_bindings, t.param_name.as_str()) {
            Some(bound) => match apply_flag_template(t, bound.as_str()) {
                Some(flag) => {
                    let ghost before = pair_views(defined@);
                    defined.push((t.kind.to_owned(), flag));
                    assert(pair_views(defined@) =~= before.push((t.kind@, pair_views(defined@).last().1)));
                    proof {
                        let now = pair_views(defined@);
                        let x = now.last();
                        assert forall|y: (Seq<char>, Seq<char>)| #[trigger] now.to_set().contains(y) <==> before.to_set().insert(x).contains(y) by {
                            assert(now.to_set().contains(y) == now.contains(y));
                            assert(before.to_set().contains(y) == before.contains(y));
                            if now.contains(y) && y != x {
                                let k = choose|k: int| 0 <= k < now.len() && now[k] == y;
                                assert(before[k] == y);
                            }
                            if before.contains(y) {
                                let k = choose|k: int| 0 <= k < before.len() && before[k] == y;
                                assert(now[k] == y);
                            }
                            if y == x {
                                assert(now[now.len() - 1] == y);
                            }
                        }
                        assert(now.to_set() =~= before.to_set().insert(x));
                    }
                },
                None => {},
            },
            None => {},
        }
        q = q + 1;
    }
}

fn push_text(out: &mut Vec<char>, s: &str)
    ensures
        final(out)@ == old(out)@ + s@,
{
    let mut cs = chars_of(s);
    out.append(&mut cs);
}

fn check_templates(
    all: &Vec<(usize, FlagUsageKind, FlagTemplateUsage)>,
    defined: &Vec<(String, String)>,
    seen: &mut Vec<String>,
    findings: &mut Vec<Finding>,
    r: &SymbolReference,
    ri: usize,
    target: usize,
    def_name: &str,
    reads: &Vec<FlagTemplateUsage>,
    Ghost(st): Ghost<FlagState>,
    Ghost(refs): Ghost<Seq<SymbolReference>>,
    Ghost(defs): Ghost<Seq<SymbolDefinition>>,
)
    requires
        state_matches(defined@, old(seen)@, old(findings)@, st, refs, defs),
        ri < refs.len(),
        refs[ri as int] == *r,
        def_name@ == (if target < defs.len() {
            defs[target as int].name@
        } else {
            r.name@
        }),
    ensures
        state_matches(
            defined@,
            final(seen)@,
            final(findings)@,
            check_all(entry_views(all@), st, *r, ri as int, target as int, template_views(reads@), reads@.len() as int),
            refs,
            defs,
        ),
{
    let ghost av = entry_views(all@);
    let ghost ts = template_views(reads@);
    let mut q: usize = 0;
    while q < reads.len()
        invariant
            q <= reads.len(),
            av == entry_views(all@),
            ts == template_views(reads@),
            ri < refs.len(),
            refs[ri as int] == *r,
            def_name@ == (if target < defs.len() {
                defs[target as int].name@
            } else {
                r.name@
            }),
            pair_views(defined@).to_set() == st.defined,
            state_matches(defined@, seen@, findings@, check_all(av, st, *r, ri as int, target as int, ts, q as int), refs, defs),
        decreases reads.len() - q,
    {
        let t = &reads[q];
        assert(ts[q as int] == template_view(*t));
        let ghost cur = check_all(av, st, *r, ri as int, target as int, ts, q as int);
        proof {
            lemma_check_all_keeps(av, st, *r, ri as int, target as int, ts, q as int);
        }
        match binding_for(&r.param_bindings, t.param_name.as_str()) {
            Some(bound) => match apply_flag_template(t, bound.as_str()) {
                Some(flag) => {
                    let mut key_chars: Vec<char> = Vec::new();
                    push_text(&mut key_chars, r.path.as_str());
                    push_text(&mut key_chars, ":");
                    key_chars.append(&mut decimal_chars(r.line));
                    push_text(&mut key_chars, ":");
                    key_chars.append(&mut decimal_chars(r.column));
                    push_text(&mut key_chars, ":");
                    push_text(&mut key_chars, t.kind);
                    push_text(&mut key_chars, ":");
                    push_text(&mut key_chars, flag.as_str());
                    let key = string_from_chars(key_chars.as_slice());
                    assert(key@ =~= call_key(*r, t.kind@, flag@));
                    if has_pair(defined, t.kind, flag.as_str()) || is_allowlisted(all, t.kind, flag.as_str())
                        || has_string(seen, key.as_str()) {
                    } else {
                        let mut message: Vec<char> = Vec::new();
                        push_text(&mut message, "flag may be undeclared: ");
                        push_text(&mut message, t.op_key.as_str());
                        push_text(&mut message, "(");
                        push_text(&mut message, t.kind);
                        push_text(&mut message, ") references ");
                        push_text(&mut message, flag.as_str());
                        let message_text = string_from_chars(message.as_slice());
                        let mut evidence: Vec<char> = Vec::new();
                        push_text(&mut evidence, "call ");
                        push_text(&mut evidence, def_name);
                        push_text(&mut evidence, " binds ");
                        push_text(&mut evidence, t.param_name.as_str());
                        push_text(&mut evidence, "=");
                        push_text(&mut evidence, bound.as_str());
                        push_text(&mut evidence, "; template ");
                        push_text(&mut evidence, t.path.as_str());
                        push_text(&mut evidence, ":");
                        evidence.append(&mut decimal_chars(t.line));
                        push_text(&mut evidence, ":");
                        evidence.append(&mut decimal_chars(t.column));
                        push_text(&mut evidence, " has ");
                        push_text(&mut evidence, t.op_key.as_str());
                        push_text(&mut evidence, " = ");
                        push_text(&mut evidence, t.prefix.as_str());
                        push_text(&mut evidence, "$");
                        push_text(&mut evidence, t.param_name.as_str());
                        push_text(&mut evidence, "$");
                        push_text(&mut evidence, t.suffix.as_str());
                        push_text(&mut evidence, "; inferred value ");
                        push_text(&mut evidence, flag.as_str());
                        let evidence_text = string_from_chars(evidence.as_slice());
                        let finding = Finding {
                            rule_id: "unresolved-flag-reference".to_owned(),
                            severity: Severity::Warning,
                            channel: FindingChannel::Advisory,
                            message: message_text,
                            mod_id: Some(r.mod_id.clone()),
                            path: Some(r.path.clone()),
                            evidence: Some(evidence_text),
                            line: Some(r.line),
                            column: Some(r.column),
                            confidence_percent: Some(78u8),
                        };
                        let ghost g = FlagFinding { call: ri as int, target: target as int, template: template_view(*t), flag: flag@ };
                        assert(message_text@ =~= "flag may be undeclared: "@ + t.op_key@ + "("@ + t.kind@ + ") references "@ + flag@);
                        assert(evidence_text@ =~= "call "@ + def_name@ + " binds "@ + t.param_name@ + "="@ + bound@ + "; template "@
                            + t.path@ + ":"@ + decimal_text(t.line as nat) + ":"@ + decimal_text(t.column as nat) + " has "@
                            + t.op_key@ + " = "@ + t.prefix@ + "$"@ + t.param_name@ + "$"@ + t.suffix@ + "; inferred value "@
                            + flag@);
                        assert(reports_flag(refs, defs, g, finding));
                        let ghost seen_before = seen@.map_values(|x: String| x@);
                        let ghost findings_before = findings@;
                        seen.push(key);
                        findings.push(finding);
                        proof {
                            let now = seen@.map_values(|x: String| x@);
                            assert(now =~= seen_before.push(key@));
                            assert forall|y: Seq<char>| #[trigger] now.to_set().contains(y) <==> seen_before.to_set().insert(key@).contains(y) by {
                                assert(now.to_set().contains(y) == now.contains(y));
                                assert(seen_before.to_set().contains(y) == seen_before.contains(y));
                                if now.contains(y) && y != key@ {
                                    let k = choose|k: int| 0 <= k < now.len() && now[k] == y;
                                    assert(seen_before[k] == y);
                                }
                                if seen_before.contains(y) {
                                    let k = choose|k: int| 0 <= k < seen_before.len() && seen_before[k] == y;
                                    assert(now[k] == y);
                                }
                                if y == key@ {
                                    assert(now[now.len() - 1] == y);
                                }
                            }
                            assert(string_set(seen@) =~= cur.seen.insert(key@));
                            let next = check_all(av, st, *r, ri as int, target as int, ts, q + 1);
                            assert(next.found == cur.found.push(g));
                            assert forall|j: int| 0 <= j < findings@.len() implies reports_flag(refs, defs, next.found[j], #[trigger] findings@[j]) by {
                                if j < findings_before.len() {
                                    assert(findings@[j] == findings_before[j]);
                                }
                            }
                        }
                    }
                },
                None => {},
            },
            None => {},
        }
        q = q + 1;
    }
}

/// The flags that calls of scripted effects may read without any script or
/// the engine setting them: for each call that binds parameters, in order,
/// and each definition it resolves to, the setter templates of the
/// definition (bound by the call) set their flags, and each reader template
/// whose bound flag is neither set so far, nor set literally anywhere or by
/// the engine, nor allowed by the pattern of a specific setter template, is
/// reported once per call place, kind and flag.
pub fn check_unresolved_flag_references(index: &SemanticIndex) -> (r: Vec<Finding>)
    ensures
        r@.len() == flag_findings(*index).len(),
        forall|j: int|
            0 <= j < r@.len() ==> reports_flag(
                index.symbols.references@,
                index.symbols.definitions@,
                flag_findings(*index)[j],
                #[trigger] r@[j],
            ),
{
    let ghost refs = index.symbols.references@;
    let ghost defs = index.symbols.definitions@;
    let ghost assigns = index.scalar_assignments@;
    let mut defined: Vec<(String, String)> = Vec::new();
    defined.push(("country".to_owned(), "vanilla_achievements_enabled".to_owned()));
    defined.push(("country".to_owned(), "have_diploannexed".to_owned()));
    defined.push(("country".to_owned(), "conquered_province".to_owned()));
    defined.push(("country".to_owned(), "has_won_war".to_owned()));
    defined.push(("country".to_owned(), "religious_league_war_on_winning_side".to_owned()));
    defined.push(("country".to_owned(), "force_converted".to_owned()));
    defined.push(("country".to_owned(), "gives_enlightenment_to_neighbors".to_owned()));
    proof {
        let pv = pair_views(defined@);
        assert(pv =~= seq![
            ("country"@, "vanilla_achievements_enabled"@),
            ("country"@, "have_diploannexed"@),
            ("country"@, "conquered_province"@),
            ("country"@, "has_won_war"@),
            ("country"@, "religious_league_war_on_winning_side"@),
            ("country"@, "force_converted"@),
            ("country"@, "gives_enlightenment_to_neighbors"@),
        ]);
        assert forall|y: (Seq<char>, Seq<char>)| #[trigger] pv.to_set().contains(y) <==> engine_flags().contains(y) by {
            assert(pv.to_set().contains(y) == pv.contains(y));
            if engine_flags().contains(y) {
                if y == pv[0] {} else if y == pv[1] { assert(pv[1] == y); } else if y == pv[2] { assert(pv[2] == y); }
                else if y == pv[3] { assert(pv[3] == y); } else if y == pv[4] { assert(pv[4] == y); }
                else if y == pv[5] { assert(pv[5] == y); } else { assert(pv[6] == y); }
                assert(pv.contains(y));
            }
        }
        assert(pv.to_set() =~= engine_flags());
        assert(pv.to_set() == literally_defined(assigns, 0));
    }
    let mut i: usize = 0;
    while i < index.scalar_assignments.len()
        invariant
            i <= index.scalar_assignments.len(),
            assigns == index.scalar_assignments@,
            pair_views(defined@).to_set() == literally_defined(assigns, i as int),
        decreases index.scalar_assignments.len() - i,
    {
        let a = &index.scalar_assignments[i];
        match flag_op_spec(a.key.as_str()) {
            Some(spec) => {
                if spec.usage == FlagUsageKind::Definition {
                    match normalized_static_symbol(a.value.as_str()) {
                        Some(flag) => {
                            let ghost before = pair_views(defined@);
                            defined.push((spec.kind.to_owned(), flag));
                            proof {
                                let now = pair_views(defined@);
                                let x = now.last();
                                assert(now =~= before.push(x));
                                assert forall|y: (Seq<char>, Seq<char>)| #[trigger] now.to_set().contains(y) <==> before.to_set().insert(x).contains(y) by {
                                    assert(now.to_set().contains(y) == now.contains(y));
                                    assert(before.to_set().contains(y) == before.contains(y));
                                    if now.contains(y) && y != x {
                                        let k = choose|k: int| 0 <= k < now.len() && now[k] == y;
                                        assert(before[k] == y);
                                    }
                                    if before.contains(y) {
                                        let k = choose|k: int| 0 <= k < before.len() && before[k] == y;
                                        assert(now[k] == y);
                                    }
                                    if y == x {
                                        assert(now[now.len() - 1] == y);
                                    }
                                }
                                assert(now.to_set() =~= before.to_set().insert(x));
                            }
                        },
                        None => {},
                    }
                }
            },
            None => {},
        }
        i = i + 1;
    }
    let all = collect_templates(index);
    let ghost av = entry_views(all@);
    let ghost start = FlagState {
        defined: literally_defined(assigns, assigns.len() as int),
        seen: Set::empty(),
        found: Seq::empty(),
    };
    let mut seen: Vec<String> = Vec::new();
    let mut findings: Vec<Finding> = Vec::new();
    assert(string_set(seen@) =~= Set::<Seq<char>>::empty());
    let mut k: usize = 0;
    while k < index.symbols.references.len()
        invariant
            k <= index.symbols.references.len(),
            refs == index.symbols.references@,
            defs == index.symbols.definitions@,
            av == entry_views(all@),
            state_matches(defined@, seen@, findings@, calls_step(av, defs, refs, start, k as int), refs, defs),
        decreases index.symbols.references.len() - k,
    {
        let r = &index.symbols.references[k];
        let ghost st_k = calls_step(av, defs, refs, start, k as int);
        if r.kind == SymbolKind::ScriptedEffect && r.param_bindings.len() > 0 {
            let targets = resolve_scripted_effect_reference_targets(&index.symbols, r);
            let mut j: usize = 0;
            while j < targets.len()
                invariant
                    j <= targets.len(),
                    k < refs.len(),
                    refs == index.symbols.references@,
                    defs == index.symbols.definitions@,
                    refs[k as int] == *r,
                    av == entry_views(all@),
                    targets@ == resolved_targets(defs, *r, SymbolKind::ScriptedEffect),
                    state_matches(defined@, seen@, findings@, targets_step(av, st_k, *r, k as int, targets@, j as int), refs, defs),
                decreases targets.len() - j,
            {
                let t = targets[j];
                let sets = templates_for_target(&all, t, FlagUsageKind::Definition);
                let reads = templates_for_target(&all, t, FlagUsageKind::Reference);
                let ghost cur = targets_step(av, st_k, *r, k as int, targets@, j as int);
                define_templates(&mut defined, r, &sets, Ghost(cur));
                let ghost mid = define_all(cur, *r, template_views(sets@), sets@.len() as int);
                proof {
                    lemma_define_all_keeps(cur, *r, template_views(sets@), sets@.len() as int);
                }
                let def_name: &str = if t < index.symbols.definitions.len() {
                    index.symbols.definitions[t].name.as_str()
                } else {
                    r.name.as_str()
                };
                check_templates(&all, &defined, &mut seen, &mut findings, r, k, t, def_name, &reads, Ghost(mid), Ghost(refs), Ghost(defs));
                j = j + 1;
            }
        }
        k = k + 1;
    }
    findings
}

} // verus!
