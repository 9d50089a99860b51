//! The orchestrator's decision core. Planning turns the registered
//! modules and the targets into independent (module, target) tasks,
//! applying aggressiveness gating once, before anything runs;
//! aggregation folds the tasks' outcomes into findings, names and
//! errors. The caller runs the planned tasks, concurrently and in any
//! order, and feeds each outcome back: completion order does not
//! matter to the aggregate.
use vstd::prelude::*;
use crate::modules::{eligible, Module};
use crate::registry::{HttpModuleInstance, Registry, SubdomainModuleInstance};
use crate::report::{ExecutionError, Finding};
use crate::text::{lemma_push_contains, vec_contains_string};

verus! {

/// A scan target: an HTTP endpoint base URL, or a domain name. HTTP
/// modules only receive endpoints, enumeration modules only domains.
#[derive(Clone, Debug, PartialEq, Eq)]
pub enum Target {
    Endpoint(String),
    Domain(String),
}

/// One planned unit of work: which module to run against which target.
#[derive(Clone, Copy, Debug, PartialEq, Eq, Structural)]
pub struct TaskPair {
    pub module_index: usize,
    pub target_index: usize,
}

/// The tasks of one module: one per target of the matching category,
/// in target order.
pub open spec fn plan_one(mi: usize, targets: Seq<Target>, want_endpoint: bool) -> Seq<TaskPair>
    decreases targets.len(),
{
    if targets.len() == 0 {
        Seq::empty()
    } else {
        let rest = plan_one(mi, targets.drop_last(), want_endpoint);
        if (targets.last() is Endpoint) == want_endpoint {
            rest.push(TaskPair { module_index: mi, target_index: (targets.len() - 1) as usize })
        } else {
            rest
        }
    }
}

/// All planned tasks: for every eligible module in registration order,
/// one task per matching target. Aggressive modules contribute no task
/// unless the opt-in holds.
pub open spec fn plan_tasks<M: Module>(
    modules: Seq<M>,
    targets: Seq<Target>,
    include_aggressive: bool,
    want_endpoint: bool,
) -> Seq<TaskPair>
    decreases modules.len(),
{
    if modules.len() == 0 {
        Seq::empty()
    } else {
        let head = plan_tasks(modules.drop_last(), targets, include_aggressive, want_endpoint);
        if eligible(modules.last(), include_aggressive) {
            head + plan_one((modules.len() - 1) as usize, targets, want_endpoint)
        } else {
            head
        }
    }
}

pub proof fn lemma_plan_one_props(mi: usize, targets: Seq<Target>, want_endpoint: bool)
    ensures
        plan_one(mi, targets, want_endpoint).len() <= targets.len(),
        forall|k: int|
            0 <= k < plan_one(mi, targets, want_endpoint).len() ==> ((#[trigger] plan_one(
                mi,
                targets,
                want_endpoint,
            )[k]).module_index == mi && plan_one(mi, targets, want_endpoint)[k].target_index
                < targets.len()),
    decreases targets.len(),
{
    if targets.len() > 0 {
        lemma_plan_one_props(mi, targets.drop_last(), want_endpoint);
    }
}

pub proof fn lemma_plan_tasks_props<M: Module>(
    modules: Seq<M>,
    targets: Seq<Target>,
    include_aggressive: bool,
    want_endpoint: bool,
)
    requires
        modules.len() <= usize::MAX,
    ensures
        plan_tasks(modules, targets, include_aggressive, want_endpoint).len() <= modules.len()
            * targets.len(),
        forall|k: int|
            0 <= k < plan_tasks(modules, targets, include_aggressive, want_endpoint).len() ==> ((
            #[trigger] plan_tasks(modules, targets, include_aggressive, want_endpoint)[k])
                .module_index < modules.len() && plan_tasks(
                modules,
                targets,
                include_aggressive,
                want_endpoint,
            )[k].target_index < targets.len() && eligible(
                modules[plan_tasks(modules, targets, include_aggressive, want_endpoint)[k]
                    .module_index as int],
                include_aggressive,
            )),
    decreases modules.len(),
{
    if modules.len() > 0 {
        lemma_plan_tasks_props(modules.drop_last(), targets, include_aggressive, want_endpoint);
        lemma_plan_one_props((modules.len() - 1) as usize, targets, want_endpoint);
        assert((modules.len() - 1) * targets.len() + targets.len() == modules.len()
            * targets.len()) by (nonlinear_arith);
        assert(forall|mi: int|
            0 <= mi < modules.len() - 1 ==> modules.drop_last()[mi] == modules[mi]);
        let p = plan_tasks(modules, targets, include_aggressive, want_endpoint);
        let head = plan_tasks(modules.drop_last(), targets, include_aggressive, want_endpoint);
        let last_mi = (modules.len() - 1) as usize;
        if eligible(modules.last(), include_aggressive) {
            let tail = plan_one(last_mi, targets, want_endpoint);
            assert(p == head + tail);
            assert forall|k: int|
                0 <= k < p.len() implies ((#[trigger] p[k]).module_index < modules.len()
                    && p[k].target_index < targets.len() && eligible(
                    modules[p[k].module_index as int],
                    include_aggressive,
                )) by {
                if k < head.len() {
                    assert(p[k] == head[k]);
                } else {
                    assert(p[k] == tail[k - head.len()]);
                    assert(p[k].module_index == last_mi);
                    assert(modules[last_mi as int] == modules.last());
                }
            }
        } else {
            assert(p == head);
            assert forall|k: int|
                0 <= k < p.len() implies ((#[trigger] p[k]).module_index < modules.len()
                    && p[k].target_index < targets.len() && eligible(
                    modules[p[k].module_index as int],
                    include_aggressive,
                )) by {
                assert(p[k] == head[k]);
            }
        }
    }
}

/// Bounded fan-out: K modules over T targets yield at most K times T
/// planned tasks, whatever the gating and routing.
pub proof fn lemma_task_count_bound<M: Module>(
    modules: Seq<M>,
    targets: Seq<Target>,
    include_aggressive: bool,
    want_endpoint: bool,
)
    requires
        modules.len() <= usize::MAX,
    ensures
        plan_tasks(modules, targets, include_aggressive, want_endpoint).len() <= modules.len()
            * targets.len(),
{
    lemma_plan_tasks_props(modules, targets, include_aggressive, want_endpoint);
}

/// Aggressiveness gating: when the opt-in is false, no planned task
/// refers to an aggressive module, across any number of targets.
pub proof fn lemma_aggressive_never_planned<M: Module>(
    modules: Seq<M>,
    targets: Seq<Target>,
    want_endpoint: bool,
    k: int,
)
    requires
        modules.len() <= usize::MAX,
        0 <= k < plan_tasks(modules, targets, false, want_endpoint).len(),
    ensures
        plan_tasks(modules, targets, false, want_endpoint)[k].module_index < modules.len(),
        !modules[plan_tasks(modules, targets, false, want_endpoint)[k].module_index as int]
            .spec_aggressive(),
{
    lemma_plan_tasks_props(modules, targets, false, want_endpoint);
}

/// Plans the HTTP probe tasks of a run.
pub fn plan_http_tasks(reg: &Registry, targets: &Vec<Target>, include_aggressive: bool) -> (r: Vec<
    TaskPair,
>)
    ensures
        r@ == plan_tasks(reg.http_modules(), targets@, include_aggressive, true),
{
    let mut out: Vec<TaskPair> = Vec::new();
    proof {
        assert(reg.http_modules().take(0) =~= Seq::<HttpModuleInstance>::empty());
    }
    let mut mi: usize = 0;
    while mi < reg.http_len()
        invariant
            mi <= reg.http_modules().len(),
            out@ == plan_tasks(
                reg.http_modules().take(mi as int),
                targets@,
                include_aggressive,
                true,
            ),
        decreases reg.http_modules().len() - mi,
    {
        let m = reg.http_module(mi);
        if include_aggressive || !m.is_aggressive() {
            proof {
                assert(targets@.take(0) =~= Seq::<Target>::empty());
            }
            let mut ti: usize = 0;
            while ti < targets.len()
                invariant
                    ti <= targets@.len(),
                    mi < reg.http_modules().len(),
                    out@ == plan_tasks(
                        reg.http_modules().take(mi as int),
                        targets@,
                        include_aggressive,
                        true,
                    ) + plan_one(mi, targets@.take(ti as int), true),
                decreases targets@.len() - ti,
            {
                let is_endpoint = match &targets[ti] {
                    Target::Endpoint(_) => true,
                    Target::Domain(_) => false,
                };
                if is_endpoint {
                    out.push(TaskPair { module_index: mi, target_index: ti });
                }
                proof {
                    let tk = targets@.take(ti as int + 1);
                    assert(tk.drop_last() =~= targets@.take(ti as int));
                    assert(tk.last() == targets@[ti as int]);
                }
                ti = ti + 1;
            }
            proof {
                assert(targets@.take(targets@.len() as int) =~= targets@);
            }
        }
        proof {
            let mk = reg.http_modules().take(mi as int + 1);
            assert(mk.drop_last() =~= reg.http_modules().take(mi as int));
            assert(mk.last() == reg.http_modules()[mi as int]);
        }
        mi = mi + 1;
    }
    proof {
        assert(reg.http_modules().take(reg.http_modules().len() as int) =~= reg.http_modules());
    }
    out
}

/// Plans the enumeration tasks of a run.
pub fn plan_subdomain_tasks(reg: &Registry, targets: &Vec<Target>, include_aggressive: bool) -> (r:
    Vec<TaskPair>)
    ensures
        r@ == plan_tasks(reg.subdomain_modules(), targets@, include_aggressive, false),
{
    let mut out: Vec<TaskPair> = Vec::new();
    proof {
        assert(reg.subdomain_modules().take(0) =~= Seq::<SubdomainModuleInstance>::empty());
    }
    let mut mi: usize = 0;
    while mi < reg.subdomain_len()
        invariant
            mi <= reg.subdomain_modules().len(),
            out@ == plan_tasks(
                reg.subdomain_modules().take(mi as int),
                targets@,
                include_aggressive,
                false,
            ),
        decreases reg.subdomain_modules().len() - mi,
    {
        let m = reg.subdomain_module(mi);
        if include_aggressive || !m.is_aggressive() {
            proof {
                assert(targets@.take(0) =~= Seq::<Target>::empty());
            }
            let mut ti: usize = 0;
            while ti < targets.len()
                invariant
                    ti <= targets@.len(),
                    mi < reg.subdomain_modules().len(),
                    out@ == plan_tasks(
                        reg.subdomain_modules().take(mi as int),
                        targets@,
                        include_aggressive,
                        false,
                    ) + plan_one(mi, targets@.take(ti as int), false),
                decreases targets@.len() - ti,
            {
                let is_domain = match &targets[ti] {
                    Target::Endpoint(_) => false,
                    Target::Domain(_) => true,
                };
                if is_domain {
                    out.push(TaskPair { module_index: mi, target_index: ti });
                }
                proof {
                    let tk = targets@.take(ti as int + 1);
                    assert(tk.drop_last() =~= targets@.take(ti as int));
                    assert(tk.last() == targets@[ti as int]);
                }
                ti = ti + 1;
            }
            proof {
                assert(targets@.take(targets@.len() as int) =~= targets@);
            }
        }
        proof {
            let mk = reg.subdomain_modules().take(mi as int + 1);
            assert(mk.drop_last() =~= reg.subdomain_modules().take(mi as int));
            assert(mk.last() == reg.subdomain_modules()[mi as int]);
        }
        mi = mi + 1;
    }
    proof {
        assert(reg.subdomain_modules().take(reg.subdomain_modules().len() as int)
            =~= reg.subdomain_modules());
    }
    out
}

/// The outcome of one HTTP probe task: completed with or without a
/// finding, or failed with the error attached.
#[derive(Clone, Debug, PartialEq, Eq)]
pub enum HttpOutcome {
    Completed(Option<Finding>),
    Failed(ExecutionError),
}

/// The outcome of one enumeration task: the names it found, or the
/// error it failed with.
#[derive(Clone, Debug, PartialEq, Eq)]
pub enum SubdomainOutcome {
    Completed(Vec<String>),
    Failed(ExecutionError),
}

/// The findings contributed by completed positive tasks, in outcome
/// order: one per positive task, none from negatives or failures.
pub open spec fn findings_of(outcomes: Seq<HttpOutcome>) -> Seq<Finding>
    decreases outcomes.len(),
{
    if outcomes.len() == 0 {
        Seq::empty()
    } else {
        let rest = findings_of(outcomes.drop_last());
        match outcomes.last() {
            HttpOutcome::Completed(opt) => match opt {
                Some(f) => rest.push(f),
                None => rest,
            },
            HttpOutcome::Failed(_) => rest,
        }
    }
}

/// The errors contributed by failed tasks, in outcome order.
pub open spec fn errors_of(outcomes: Seq<HttpOutcome>) -> Seq<ExecutionError>
    decreases outcomes.len(),
{
    if outcomes.len() == 0 {
        Seq::empty()
    } else {
        let rest = errors_of(outcomes.drop_last());
        match outcomes.last() {
            HttpOutcome::Completed(_) => rest,
            HttpOutcome::Failed(e) => rest.push(e),
        }
    }
}

/// The union of all names found by completed enumeration tasks.
pub open spec fn names_of(outcomes: Seq<SubdomainOutcome>) -> Set<Seq<char>>
    decreases outcomes.len(),
{
    if outcomes.len() == 0 {
        Set::empty()
    } else {
        let rest = names_of(outcomes.drop_last());
        match outcomes.last() {
            SubdomainOutcome::Completed(names) => rest.union(names.deep_view().to_set()),
            SubdomainOutcome::Failed(_) => rest,
        }
    }
}

/// The errors contributed by failed enumeration tasks, in order.
pub open spec fn sub_errors_of(outcomes: Seq<SubdomainOutcome>) -> Seq<ExecutionError>
    decreases outcomes.len(),
{
    if outcomes.len() == 0 {
        Seq::empty()
    } else {
        let rest = sub_errors_of(outcomes.drop_last());
        match outcomes.last() {
            SubdomainOutcome::Completed(_) => rest,
            SubdomainOutcome::Failed(e) => rest.push(e),
        }
    }
}

/// Failure isolation: forcing one task to fail removes only that
/// task's own contribution; the findings of every other task are
/// exactly what they were without it.
pub proof fn lemma_failure_isolated(outcomes: Seq<HttpOutcome>, i: int, e: ExecutionError)
    requires
        0 <= i < outcomes.len(),
    ensures
        findings_of(outcomes.update(i, HttpOutcome::Failed(e))) == findings_of(outcomes.remove(i)),
    decreases outcomes.len(),
{
    let u = outcomes.update(i, HttpOutcome::Failed(e));
    if i == outcomes.len() - 1 {
        assert(u.drop_last() =~= outcomes.remove(i));
        assert(u.last() == HttpOutcome::Failed(e));
    } else {
        assert(u.drop_last() =~= outcomes.drop_last().update(i, HttpOutcome::Failed(e)));
        lemma_failure_isolated(outcomes.drop_last(), i, e);
        assert(outcomes.remove(i).drop_last() =~= outcomes.drop_last().remove(i));
        assert(u.last() == outcomes.last());
        assert(outcomes.remove(i).last() == outcomes.last());
    }
}

/// Folds HTTP task outcomes into the combined findings and errors.
pub fn aggregate_http(outcomes: &Vec<HttpOutcome>) -> (r: (Vec<Finding>, Vec<ExecutionError>))
    ensures
        r.0@ == findings_of(outcomes@),
        r.1@ == errors_of(outcomes@),
{
    let mut findings: Vec<Finding> = Vec::new();
    let mut errors: Vec<ExecutionError> = Vec::new();
    proof {
        assert(outcomes@.take(0) =~= Seq::<HttpOutcome>::empty());
    }
    let mut i: usize = 0;
    while i < outcomes.len()
        invariant
            i <= outcomes@.len(),
            findings@ == findings_of(outcomes@.take(i as int)),
            errors@ == errors_of(outcomes@.take(i as int)),
        decreases outcomes@.len() - i,
    {
        match &outcomes[i] {
            HttpOutcome::Completed(opt) => match opt {
                Some(f) => findings.push(f.duplicate()),
                None => {},
            },
            HttpOutcome::Failed(e) => errors.push(e.duplicate()),
        }
        proof {
            let tk = outcomes@.take(i as int + 1);
            assert(tk.drop_last() =~= outcomes@.take(i as int));
            assert(tk.last() == outcomes@[i as int]);
        }
        i = i + 1;
    }
    proof {
        assert(outcomes@.take(outcomes@.len() as int) =~= outcomes@);
    }
    (findings, errors)
}

/// Folds enumeration task outcomes into the deduplicated union of
/// names and the combined errors. Deduplication crosses modules and
/// targets, not merely one task.
pub fn aggregate_subdomains(outcomes: &Vec<SubdomainOutcome>) -> (r: (
    Vec<String>,
    Vec<ExecutionError>,
))
    ensures
        r.0.deep_view().to_set() == names_of(outcomes@),
        forall|k1: int, k2: int|
            0 <= k1 < k2 < r.0.deep_view().len() ==> r.0.deep_view()[k1] != r.0.deep_view()[k2],
        r.1@ == sub_errors_of(outcomes@),
{
    let mut names: Vec<String> = Vec::new();
    let mut errors: Vec<ExecutionError> = Vec::new();
    proof {
        assert(outcomes@.take(0) =~= Seq::<SubdomainOutcome>::empty());
        assert(names_of(outcomes@.take(0)) =~= Set::<Seq<char>>::empty());
    }
    let mut i: usize = 0;
    while i < outcomes.len()
        invariant
            i <= outcomes@.len(),
            forall|t: Seq<char>| #[trigger]
                names.deep_view().contains(t) <==> names_of(outcomes@.take(i as int)).contains(t),
            forall|k1: int, k2: int|
                0 <= k1 < k2 < names.deep_view().len() ==> names.deep_view()[k1]
                    != names.deep_view()[k2],
            errors@ == sub_errors_of(outcomes@.take(i as int)),
        decreases outcomes@.len() - i,
    {
        match &outcomes[i] {
            SubdomainOutcome::Completed(found) => {
                proof {
                    assert(found.deep_view().take(0) =~= Seq::<Seq<char>>::empty());
                }
                let mut j: usize = 0;
                while j < found.len()
                    invariant
                        j <= found@.len(),
                        i < outcomes@.len(),
                        found.deep_view().len() == found@.len(),
                        outcomes@[i as int] matches SubdomainOutcome::Completed(f) && f == *found,
                        forall|t: Seq<char>| #[trigger]
                            names.deep_view().contains(t) <==> (names_of(
                                outcomes@.take(i as int),
                            ).contains(t) || found.deep_view().take(j as int).contains(t)),
                        forall|k1: int, k2: int|
                            0 <= k1 < k2 < names.deep_view().len() ==> names.deep_view()[k1]
                                != names.deep_view()[k2],
                    decreases found@.len() - j,
                {
                    let c = &found[j];
                    let ghost old_deep = names.deep_view();
                    let fresh = !vec_contains_string(&names, c);
                    if fresh {
                        names.push(c.clone());
                    }
                    proof {
                        assert(found.deep_view()[j as int] == c@);
                        assert(found.deep_view().take(j as int + 1) =~= found.deep_view().take(
                            j as int,
                        ).push(c@));
                        assert forall|t: Seq<char>|
                            #[trigger] found.deep_view().take(j as int + 1).contains(t) <==> (
                            found.deep_view().take(j as int).contains(t) || t == c@) by {
                            lemma_push_contains(found.deep_view().take(j as int), c@, t);
                        }
                        if fresh {
                            assert(names.deep_view() =~= old_deep.push(c@));
                            assert forall|t: Seq<char>| #[trigger]
                                names.deep_view().contains(t) <==> (old_deep.contains(t) || t
                                == c@) by {
                                lemma_push_contains(old_deep, c@, t);
                            }
                            assert(forall|k1: int|
                                0 <= k1 < old_deep.len() ==> old_deep[k1] != c@) by {
                                if exists|k1: int|
                                    0 <= k1 < old_deep.len() && old_deep[k1] == c@ {
                                    let k1 = choose|k1: int|
                                        0 <= k1 < old_deep.len() && old_deep[k1] == c@;
                                    assert(old_deep.contains(c@));
                                }
                            }
                        } else {
                            assert(old_deep.contains(c@));
                        }
                    }
                    j = j + 1;
                }
                proof {
                    assert(found.deep_view().take(found@.len() as int) =~= found.deep_view());
                }
            },
            SubdomainOutcome::Failed(e) => errors.push(e.duplicate()),
        }
        proof {
            let tk = outcomes@.take(i as int + 1);
            assert(tk.drop_last() =~= outcomes@.take(i as int));
            assert(tk.last() == outcomes@[i as int]);
        }
        i = i + 1;
    }
    proof {
        assert(outcomes@.take(outcomes@.len() as int) =~= outcomes@);
        assert(names.deep_view().to_set() =~= names_of(outcomes@));
    }
    (names, errors)
}

} // verus!
