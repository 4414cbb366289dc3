//! The laws of loading a definition module where a later definition
//! wins: which definitions survive, which keys win, and how many overwrite
//! events a load reports.

use vstd::prelude::*;
use crate::definition_module::{
    lemma_stmts_model_len, module_matches, CanonicalDefinitionModule, DuplicateDefinitionDiagnostic,
    inputs_step, statement_step, statements_step, surviving, DefinitionModulePolicy,
    DuplicateDefinitionPolicy, InputView, LoadState,
};
use crate::parser::{stmts_model, StmtModel};

verus! {

/// The key a statement defines; empty for anything but an assignment.
pub open spec fn stmt_key(s: StmtModel) -> Seq<char> {
    match s {
        StmtModel::Assignment { key, .. } => key,
        _ => Seq::empty(),
    }
}

/// The assignments among the statements, in order.
pub open spec fn assignments_in(stmts: Seq<StmtModel>) -> Seq<StmtModel>
    decreases stmts.len(),
{
    if stmts.len() == 0 {
        Seq::empty()
    } else {
        assignments_in(stmts.drop_last()) + if stmts.last() is Assignment {
            seq![stmts.last()]
        } else {
            Seq::empty()
        }
    }
}

/// The assignments of the files in the order `ord`, in load order.
pub open spec fn loaded_assignments(ins: Seq<InputView>, ord: Seq<int>) -> Seq<StmtModel>
    decreases ord.len(),
{
    if ord.len() == 0 {
        Seq::empty()
    } else {
        loaded_assignments(ins, ord.drop_last()) + assignments_in(ins[ord.last()].statements)
    }
}

/// No later assignment of `a` defines the key of the one at `p`.
pub open spec fn last_of_key(a: Seq<StmtModel>, p: int) -> bool {
    forall|q: int| p < q < a.len() ==> stmt_key(#[trigger] a[q]) != stmt_key(a[p])
}

/// Among the first `n` assignments of `a`, those that no later one of `a`
/// replaces, in order.
pub open spec fn last_definitions(a: Seq<StmtModel>, n: int) -> Seq<StmtModel>
    decreases n,
{
    if n <= 0 {
        Seq::empty()
    } else {
        last_definitions(a, n - 1) + if last_of_key(a, n - 1) {
            seq![a[n - 1]]
        } else {
            Seq::empty()
        }
    }
}

/// How a load state under later-definition-wins stands to the assignments
/// `a` loaded so far: each position holds its assignment while no later one
/// has its key; the winners are the keys loaded, each at its last
/// position; every assignment either survives or gave one overwrite event.
pub open spec fn later_wins_state(st: LoadState, a: Seq<StmtModel>) -> bool {
    &&& st.out.len() == a.len()
    &&& forall|p: int| 0 <= p < a.len() ==> (#[trigger] a[p]) is Assignment
    &&& forall|p: int|
        0 <= p < a.len() ==> #[trigger] st.out[p] == if last_of_key(a, p) {
            Some(a[p])
        } else {
            None
        }
    &&& forall|key: Seq<char>|
        #[trigger] st.winners.contains_key(key) <==> exists|p: int| 0 <= p < a.len() && stmt_key(#[trigger] a[p]) == key
    &&& forall|key: Seq<char>|
        #[trigger] st.winners.contains_key(key) ==> st.winners[key].0 < a.len() && stmt_key(
            a[st.winners[key].0 as int],
        ) == key && last_of_key(a, st.winners[key].0 as int)
    &&& st.diags.len() + surviving(st.out).len() == a.len()
}

proof fn lemma_surviving_push(out: Seq<Option<StmtModel>>, x: Option<StmtModel>)
    ensures
        surviving(out.push(x)) == match x {
            Some(s) => surviving(out).push(s),
            None => surviving(out),
        },
{
    assert(out.push(x).drop_last() =~= out);
}

proof fn lemma_surviving_update_len(out: Seq<Option<StmtModel>>, q: int)
    requires
        0 <= q < out.len(),
        out[q] is Some,
    ensures
        surviving(out.update(q, None)).len() + 1 == surviving(out).len(),
    decreases out.len(),
{
    let u = out.update(q, None);
    if q == out.len() - 1 {
        assert(u.drop_last() =~= out.drop_last());
    } else {
        assert(u.drop_last() =~= out.drop_last().update(q, None));
        lemma_surviving_update_len(out.drop_last(), q);
    }
}

proof fn lemma_later_wins_statement(
    st: LoadState,
    a: Seq<StmtModel>,
    stmt: StmtModel,
    path: Seq<char>,
    ordinal: nat,
    policy: DefinitionModulePolicy,
)
    requires
        policy.duplicate_definitions == DuplicateDefinitionPolicy::LaterDefinitionWins,
        later_wins_state(st, a),
        statement_step(st, stmt, path, ordinal, policy) is Ok,
    ensures
        later_wins_state(
            statement_step(st, stmt, path, ordinal, policy)->Ok_0,
            a + if stmt is Assignment {
                seq![stmt]
            } else {
                Seq::empty()
            },
        ),
{
    match stmt {
        StmtModel::Assignment { key, span, .. } => {
            let st2 = statement_step(st, stmt, path, ordinal, policy)->Ok_0;
            let a2 = a + seq![stmt];
            assert(a2 =~= a.push(stmt));
            assert(stmt_key(a2[a.len() as int]) == key);
            if st.winners.contains_key(key) {
                let q = st.winners[key].0 as int;
                let mid = st.out.update(q, None);
                assert(st2.out == mid.push(Some(stmt)));
                assert(st.out[q] == Some(a[q]));
                lemma_surviving_update_len(st.out, q);
                lemma_surviving_push(mid, Some(stmt));
                assert forall|p: int| 0 <= p < a2.len() implies #[trigger] st2.out[p] == if last_of_key(a2, p) {
                    Some(a2[p])
                } else {
                    None
                } by {
                    if p < a.len() {
                        assert(a2[p] == a[p]);
                        if p == q {
                            assert(!last_of_key(a2, p)) by {
                                assert(stmt_key(a2[a.len() as int]) == stmt_key(a2[p]));
                            }
                        } else if stmt_key(a[p]) == key {
                            assert(!last_of_key(a, p)) by {
                                if p > q {
                                    assert(!last_of_key(a, q)) by {
                                        assert(stmt_key(a[p]) == stmt_key(a[q]));
                                    }
                                }
                                else {
                                    assert(stmt_key(a[q]) == stmt_key(a[p]));
                                }
                            }
                            assert(!last_of_key(a2, p)) by {
                                assert(stmt_key(a2[a.len() as int]) == stmt_key(a2[p]));
                            }
                        } else {
                            assert(last_of_key(a2, p) == last_of_key(a, p)) by {
                                if last_of_key(a, p) {
                                    assert forall|r: int| p < r < a2.len() implies stmt_key(#[trigger] a2[r]) != stmt_key(a2[p]) by {
                                        if r < a.len() {
                                            assert(a2[r] == a[r]);
                                        }
                                    }
                                } else {
                                    let r = choose|r: int| p < r < a.len() && stmt_key(#[trigger] a[r]) == stmt_key(a[p]);
                                    assert(a2[r] == a[r]);
                                }
                            }
                        }
                    } else {
                        assert(last_of_key(a2, p));
                    }
                }
                assert forall|k: Seq<char>| #[trigger] st2.winners.contains_key(k) <==> exists|p: int|
                    0 <= p < a2.len() && stmt_key(#[trigger] a2[p]) == k by {
                    if st2.winners.contains_key(k) && k != key {
                        let p = choose|p: int| 0 <= p < a.len() && stmt_key(#[trigger] a[p]) == k;
                        assert(a2[p] == a[p]);
                    }
                    if exists|p: int| 0 <= p < a2.len() && stmt_key(#[trigger] a2[p]) == k {
                        let p = choose|p: int| 0 <= p < a2.len() && stmt_key(#[trigger] a2[p]) == k;
                        if p < a.len() {
                            assert(a2[p] == a[p]);
                        }
                    }
                }
                assert forall|k: Seq<char>| #[trigger] st2.winners.contains_key(k) implies st2.winners[k].0 < a2.len()
                    && stmt_key(a2[st2.winners[k].0 as int]) == k && last_of_key(a2, st2.winners[k].0 as int) by {
                    if k == key {
                        assert(last_of_key(a2, a.len() as int));
                    } else {
                        let w = st.winners[k].0 as int;
                        assert(a2[w] == a[w]);
                        assert forall|r: int| w < r < a2.len() implies stmt_key(#[trigger] a2[r]) != stmt_key(a2[w]) by {
                            if r < a.len() {
                                assert(a2[r] == a[r]);
                            }
                        }
                    }
                }
            } else {
                assert(st2.out == st.out.push(Some(stmt)));
                lemma_surviving_push(st.out, Some(stmt));
                assert forall|p: int| 0 <= p < a.len() implies stmt_key(#[trigger] a[p]) != key by {
                    if stmt_key(a[p]) == key {
                        assert(exists|p: int| 0 <= p < a.len() && stmt_key(#[trigger] a[p]) == key);
                    }
                }
                assert forall|p: int| 0 <= p < a2.len() implies #[trigger] st2.out[p] == if last_of_key(a2, p) {
                    Some(a2[p])
                } else {
                    None
                } by {
                    if p < a.len() {
                        assert(a2[p] == a[p]);
                        assert(last_of_key(a2, p) == last_of_key(a, p)) by {
                            if last_of_key(a, p) {
                                assert forall|r: int| p < r < a2.len() implies stmt_key(#[trigger] a2[r]) != stmt_key(a2[p]) by {
                                    if r < a.len() {
                                        assert(a2[r] == a[r]);
                                    }
                                }
                            } else {
                                let r = choose|r: int| p < r < a.len() && stmt_key(#[trigger] a[r]) == stmt_key(a[p]);
                                assert(a2[r] == a[r]);
                            }
                        }
                    } else {
                        assert(last_of_key(a2, p));
                    }
                }
                assert forall|k: Seq<char>| #[trigger] st2.winners.contains_key(k) <==> exists|p: int|
                    0 <= p < a2.len() && stmt_key(#[trigger] a2[p]) == k by {
                    if st2.winners.contains_key(k) && k != key {
                        let p = choose|p: int| 0 <= p < a.len() && stmt_key(#[trigger] a[p]) == k;
                        assert(a2[p] == a[p]);
                    }
                    if exists|p: int| 0 <= p < a2.len() && stmt_key(#[trigger] a2[p]) == k {
                        let p = choose|p: int| 0 <= p < a2.len() && stmt_key(#[trigger] a2[p]) == k;
                        if p < a.len() {
                            assert(a2[p] == a[p]);
                        }
                    }
                }
                assert forall|k: Seq<char>| #[trigger] st2.winners.contains_key(k) implies st2.winners[k].0 < a2.len()
                    && stmt_key(a2[st2.winners[k].0 as int]) == k && last_of_key(a2, st2.winners[k].0 as int) by {
                    if k == key {
                        assert(last_of_key(a2, a.len() as int));
                    } else {
                        let w = st.winners[k].0 as int;
                        assert(a2[w] == a[w]);
                        assert forall|r: int| w < r < a2.len() implies stmt_key(#[trigger] a2[r]) != stmt_key(a2[w]) by {
                            if r < a.len() {
                                assert(a2[r] == a[r]);
                            }
                        }
                    }
                }
            }
        },
        StmtModel::Comment { .. } => {
            assert(a + Seq::<StmtModel>::empty() =~= a);
        },
        StmtModel::Item { .. } => {},
    }
}

proof fn lemma_later_wins_statements(
    st: LoadState,
    a: Seq<StmtModel>,
    stmts: Seq<StmtModel>,
    path: Seq<char>,
    policy: DefinitionModulePolicy,
)
    requires
        policy.duplicate_definitions == DuplicateDefinitionPolicy::LaterDefinitionWins,
        later_wins_state(st, a),
        statements_step(st, stmts, path, policy) is Ok,
    ensures
        later_wins_state(statements_step(st, stmts, path, policy)->Ok_0, a + assignments_in(stmts)),
    decreases stmts.len(),
{
    if stmts.len() == 0 {
        assert(a + assignments_in(stmts) =~= a);
    } else {
        lemma_later_wins_statements(st, a, stmts.drop_last(), path, policy);
        let s = statements_step(st, stmts.drop_last(), path, policy)->Ok_0;
        lemma_later_wins_statement(s, a + assignments_in(stmts.drop_last()), stmts.last(), path, (stmts.len() - 1) as nat, policy);
        let tail = if stmts.last() is Assignment {
            seq![stmts.last()]
        } else {
            Seq::<StmtModel>::empty()
        };
        assert(a + assignments_in(stmts.drop_last()) + tail =~= a + assignments_in(stmts));
    }
}

proof fn lemma_later_wins_inputs(ins: Seq<InputView>, ps: Seq<Seq<char>>, ord: Seq<int>, policy: DefinitionModulePolicy)
    requires
        policy.duplicate_definitions == DuplicateDefinitionPolicy::LaterDefinitionWins,
        inputs_step(ins, ps, ord, policy) is Ok,
    ensures
        later_wins_state(inputs_step(ins, ps, ord, policy)->Ok_0, loaded_assignments(ins, ord)),
    decreases ord.len(),
{
    if ord.len() == 0 {
        assert(surviving(Seq::<Option<StmtModel>>::empty()) =~= Seq::<StmtModel>::empty());
    } else {
        lemma_later_wins_inputs(ins, ps, ord.drop_last(), policy);
        let s = inputs_step(ins, ps, ord.drop_last(), policy)->Ok_0;
        lemma_later_wins_statements(s, loaded_assignments(ins, ord.drop_last()), ins[ord.last()].statements, ps[ord.last()], policy);
    }
}

proof fn lemma_surviving_is_last_definitions(out: Seq<Option<StmtModel>>, a: Seq<StmtModel>, n: int)
    requires
        0 <= n <= out.len(),
        out.len() == a.len(),
        forall|p: int| 0 <= p < a.len() ==> #[trigger] out[p] == if last_of_key(a, p) {
            Some(a[p])
        } else {
            None
        },
    ensures
        surviving(out.subrange(0, n)) == last_definitions(a, n),
    decreases n,
{
    if n > 0 {
        lemma_surviving_is_last_definitions(out, a, n - 1);
        assert(out.subrange(0, n).drop_last() =~= out.subrange(0, n - 1));
        assert(out.subrange(0, n).last() == out[n - 1]);
    }
}

/// `x` is one of the first `n` assignments of `a` that no later one
/// replaces.
pub open spec fn is_last_definition_at(a: Seq<StmtModel>, n: int, x: StmtModel) -> bool {
    exists|p: int| 0 <= p < n && last_of_key(a, p) && #[trigger] a[p] == x
}

proof fn lemma_last_definitions_distinct(a: Seq<StmtModel>, n: int)
    requires
        0 <= n <= a.len(),
    ensures
        forall|x: int|
            0 <= x < last_definitions(a, n).len() ==> is_last_definition_at(a, n, #[trigger] last_definitions(a, n)[x]),
        forall|x: int, y: int|
            0 <= x < y < last_definitions(a, n).len() ==> stmt_key(#[trigger] last_definitions(a, n)[x]) != stmt_key(
                #[trigger] last_definitions(a, n)[y],
            ),
    decreases n,
{
    if n > 0 {
        lemma_last_definitions_distinct(a, n - 1);
        let prev = last_definitions(a, n - 1);
        let cur = last_definitions(a, n);
        assert forall|x: int| 0 <= x < cur.len() implies is_last_definition_at(a, n, #[trigger] cur[x]) by {
            if x < prev.len() {
                assert(cur[x] == prev[x]);
                assert(is_last_definition_at(a, n - 1, prev[x]));
                let p = choose|p: int| 0 <= p < n - 1 && last_of_key(a, p) && #[trigger] a[p] == prev[x];
                assert(a[p] == cur[x]);
            } else {
                assert(cur[x] == a[n - 1]);
                assert(a[n - 1] == cur[x]);
            }
        }
        assert forall|x: int, y: int| 0 <= x < y < cur.len() implies stmt_key(#[trigger] cur[x]) != stmt_key(#[trigger] cur[y]) by {
            assert(cur[x] == prev[x]);
            if y < prev.len() {
                assert(cur[y] == prev[y]);
            } else {
                assert(is_last_definition_at(a, n - 1, prev[x]));
                let p = choose|p: int| 0 <= p < n - 1 && last_of_key(a, p) && #[trigger] a[p] == prev[x];
                assert(cur[y] == a[n - 1]);
                assert(stmt_key(a[n - 1]) != stmt_key(a[p]));
            }
        }
    }
}

/// Where a later definition wins, a successful load keeps one definition
/// per key, the last one loaded: the module's statements are the loaded
/// assignments that no later one replaces, in load order, with pairwise
/// different keys; each key loaded has a winner at its last definition;
/// and there is one overwrite event for each assignment that did not
/// survive.
pub proof fn lemma_later_definition_wins(ins: Seq<InputView>, ps: Seq<Seq<char>>, ord: Seq<int>, policy: DefinitionModulePolicy)
    requires
        policy.duplicate_definitions == DuplicateDefinitionPolicy::LaterDefinitionWins,
        inputs_step(ins, ps, ord, policy) is Ok,
    ensures
        ({
            let st = inputs_step(ins, ps, ord, policy)->Ok_0;
            let a = loaded_assignments(ins, ord);
            &&& surviving(st.out) == last_definitions(a, a.len() as int)
            &&& forall|p: int| 0 <= p < a.len() ==> (#[trigger] a[p]) is Assignment
            &&& forall|x: int, y: int|
                0 <= x < y < surviving(st.out).len() ==> stmt_key(#[trigger] surviving(st.out)[x]) != stmt_key(
                    #[trigger] surviving(st.out)[y],
                )
            &&& forall|key: Seq<char>|
                #[trigger] st.winners.contains_key(key) <==> exists|p: int| 0 <= p < a.len() && stmt_key(#[trigger] a[p]) == key
            &&& forall|key: Seq<char>|
                #[trigger] st.winners.contains_key(key) ==> st.winners[key].0 < a.len() && stmt_key(
                    a[st.winners[key].0 as int],
                ) == key && last_of_key(a, st.winners[key].0 as int)
            &&& st.diags.len() == a.len() - surviving(st.out).len()
        }),
{
    let st = inputs_step(ins, ps, ord, policy)->Ok_0;
    let a = loaded_assignments(ins, ord);
    lemma_later_wins_inputs(ins, ps, ord, policy);
    lemma_surviving_is_last_definitions(st.out, a, a.len() as int);
    assert(st.out.subrange(0, a.len() as int) =~= st.out);
    lemma_last_definitions_distinct(a, a.len() as int);
}



/// A module loaded where a later definition wins holds one definition per
/// key, the last one loaded: its statements are the loaded assignments that
/// no later one replaces, in load order, with pairwise different keys; it
/// names a source for exactly the keys loaded; and it reports one
/// overwrite event for each assignment that did not survive.
pub proof fn lemma_loaded_module_keeps_last_definitions(
    m: CanonicalDefinitionModule,
    ins: Seq<InputView>,
    ps: Seq<Seq<char>>,
    ord: Seq<int>,
    policy: DefinitionModulePolicy,
)
    requires
        policy.duplicate_definitions == DuplicateDefinitionPolicy::LaterDefinitionWins,
        inputs_step(ins, ps, ord, policy) is Ok,
        module_matches(m, inputs_step(ins, ps, ord, policy)->Ok_0, policy.output_path@),
    ensures
        ({
            let a = loaded_assignments(ins, ord);
            let stmts = stmts_model(m.ast.statements@);
            let keys = m.definition_sources@.map_values(|e: (String, crate::definition_module::DefinitionSource)| e.0@);
            &&& stmts == last_definitions(a, a.len() as int)
            &&& forall|x: int| 0 <= x < stmts.len() ==> (#[trigger] stmts[x]) is Assignment
            &&& forall|x: int, y: int| 0 <= x < y < stmts.len() ==> stmt_key(#[trigger] stmts[x]) != stmt_key(#[trigger] stmts[y])
            &&& forall|key: Seq<char>|
                keys.contains(key) <==> exists|p: int| 0 <= p < a.len() && stmt_key(#[trigger] a[p]) == key
            &&& m.duplicate_diagnostics@.len() == a.len() - m.ast.statements@.len()
        }),
{
    let st = inputs_step(ins, ps, ord, policy)->Ok_0;
    let a = loaded_assignments(ins, ord);
    lemma_later_definition_wins(ins, ps, ord, policy);
    lemma_stmts_model_len(m.ast.statements@);
    lemma_last_definitions_distinct(a, a.len() as int);
    let stmts = stmts_model(m.ast.statements@);
    assert forall|x: int| 0 <= x < stmts.len() implies (#[trigger] stmts[x]) is Assignment by {
        assert(is_last_definition_at(a, a.len() as int, last_definitions(a, a.len() as int)[x]));
    }
    let keys = m.definition_sources@.map_values(|e: (String, crate::definition_module::DefinitionSource)| e.0@);
    assert forall|key: Seq<char>| keys.contains(key) <==> exists|p: int| 0 <= p < a.len() && stmt_key(#[trigger] a[p]) == key by {
        if keys.contains(key) {
            let k = choose|k: int| 0 <= k < keys.len() && keys[k] == key;
            assert(st.winners.contains_key(keys[k]));
        }
        if exists|p: int| 0 <= p < a.len() && stmt_key(#[trigger] a[p]) == key {
            assert(st.winners.contains_key(key));
        }
    }
    assert(m.duplicate_diagnostics@.map_values(|d: DuplicateDefinitionDiagnostic| crate::definition_module::diagnostic_view(d)).len()
        == m.duplicate_diagnostics@.len());
}

} // verus!
