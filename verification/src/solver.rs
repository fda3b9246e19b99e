//! The contract between a challenge and a solver of its sub-instances: a
//! solution holds one sub-solution per sub-instance, in order, and a
//! sub-instance without one leaves the whole challenge without a solution.

use vstd::prelude::*;

verus! {

/// A challenge: a sequence of sub-instances.
#[derive(Clone, Debug, PartialEq, Eq)]
pub struct Challenge<I> {
    pub sub_instances: Vec<I>,
}

/// A solution: one sub-solution for each sub-instance of a challenge.
#[derive(Clone, Debug, PartialEq, Eq)]
pub struct Solution<S> {
    pub sub_solutions: Vec<S>,
}

/// Whether the solver may hand back `outcome` for `instance`.
pub open spec fn answers<I, S, E, F: Fn(&I) -> Result<Option<S>, E>>(
    solver: F,
    instance: I,
    outcome: Result<Option<S>, E>,
) -> bool {
    call_ensures(solver, (&instance,), outcome)
}

/// Whether the solver may hand back a sub-solution for `instance`.
pub open spec fn solves<I, S, E, F: Fn(&I) -> Result<Option<S>, E>>(solver: F, instance: I) -> bool {
    exists|s: S| #[trigger] answers(solver, instance, Ok::<Option<S>, E>(Some(s)))
}

/// Whether the solver may solve each of the first `count` sub-instances.
pub open spec fn solves_first<I, S, E, F: Fn(&I) -> Result<Option<S>, E>>(
    solver: F,
    instances: Seq<I>,
    count: int,
) -> bool {
    forall|i: int| 0 <= i < count ==> #[trigger] solves(solver, instances[i])
}

/// Whether a run of the solver may end at sub-instance `k` with `outcome`:
/// the solver may solve every sub-instance before it, and hand back
/// `outcome` for it.
pub open spec fn stops_at<I, S, E, F: Fn(&I) -> Result<Option<S>, E>>(
    solver: F,
    instances: Seq<I>,
    k: int,
    outcome: Result<Option<S>, E>,
) -> bool {
    &&& 0 <= k < instances.len()
    &&& solves_first(solver, instances, k)
    &&& answers(solver, instances[k], outcome)
}

/// Solves a challenge with a solver of sub-instances.
///
/// The sub-instances are solved in order. The first that has no solution
/// ends the run with `Ok(None)`, and the first that fails ends it with its
/// error; the solver is not called on the sub-instances after it. Where every
/// sub-instance is solved, the solution holds their sub-solutions in order.
pub fn solve_challenge<I, S, E, F: Fn(&I) -> Result<Option<S>, E>>(
    challenge: &Challenge<I>,
    solve_sub_instance: F,
) -> (r: Result<Option<Solution<S>>, E>)
    requires
        forall|i: int|
            0 <= i < challenge.sub_instances@.len() ==> call_requires(
                solve_sub_instance,
                (&#[trigger] challenge.sub_instances@[i],),
            ),
    ensures
        match r {
            Ok(Some(solution)) => {
                &&& solution.sub_solutions@.len() == challenge.sub_instances@.len()
                &&& forall|i: int|
                    0 <= i < solution.sub_solutions@.len() ==> answers(
                        solve_sub_instance,
                        challenge.sub_instances@[i],
                        Ok::<Option<S>, E>(Some(#[trigger] solution.sub_solutions@[i])),
                    )
            },
            Ok(None) => exists|k: int| #[trigger]
                stops_at(
                    solve_sub_instance,
                    challenge.sub_instances@,
                    k,
                    Ok::<Option<S>, E>(None),
                ),
            Err(error) => exists|k: int| #[trigger]
                stops_at(
                    solve_sub_instance,
                    challenge.sub_instances@,
                    k,
                    Err::<Option<S>, E>(error),
                ),
        },
{
    let mut sub_solutions: Vec<S> = Vec::new();
    let mut k: usize = 0;
    while k < challenge.sub_instances.len()
        invariant
            k <= challenge.sub_instances@.len(),
            forall|i: int|
                0 <= i < challenge.sub_instances@.len() ==> call_requires(
                    solve_sub_instance,
                    (&#[trigger] challenge.sub_instances@[i],),
                ),
            sub_solutions@.len() == k,
            forall|i: int|
                0 <= i < k ==> answers(
                    solve_sub_instance,
                    challenge.sub_instances@[i],
                    Ok::<Option<S>, E>(Some(#[trigger] sub_solutions@[i])),
                ),
        decreases challenge.sub_instances@.len() - k,
    {
        proof {
            assert forall|i: int| 0 <= i < k implies #[trigger] solves(
                solve_sub_instance,
                challenge.sub_instances@[i],
            ) by {
                assert(answers(
                    solve_sub_instance,
                    challenge.sub_instances@[i],
                    Ok::<Option<S>, E>(Some(sub_solutions@[i])),
                ));
            }
            assert(solves_first(solve_sub_instance, challenge.sub_instances@, k as int));
        }
        match solve_sub_instance(&challenge.sub_instances[k]) {
            Ok(Some(sub_solution)) => {
                sub_solutions.push(sub_solution);
            },
            Ok(None) => {
                assert(stops_at(
                    solve_sub_instance,
                    challenge.sub_instances@,
                    k as int,
                    Ok::<Option<S>, E>(None),
                ));
                return Ok(None);
            },
            Err(error) => {
                let outcome: Result<Option<Solution<S>>, E> = Err(error);
                assert(outcome matches Err(e) && stops_at(
                    solve_sub_instance,
                    challenge.sub_instances@,
                    k as int,
                    Err::<Option<S>, E>(e),
                ));
                return outcome;
            },
        }
        k = k + 1;
    }
    Ok(Some(Solution { sub_solutions }))
}

} // verus!
