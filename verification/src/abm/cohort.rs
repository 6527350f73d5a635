//! The cohort: an independent set of teams run for statistical
//! replication. Teams share no mutable state, so a cohort may solve them
//! in parallel, one worker owning each team.

use core::marker::PhantomData;
use rayon::iter::{IntoParallelRefMutIterator, ParallelIterator};
use vstd::prelude::*;

use crate::abm::agent::AgentMethods;
use crate::abm::team::TeamMethods;
use crate::utilities::parameters::Parameters;
use crate::utilities::randomness::derive_seed;
use crate::utilities::solution::Solution;

verus! {

/// Whether the quality `q` is at least every agent's recorded best across
/// all the teams: the reduction never under-reports.
pub open spec fn quality_dominates<S: Solution, A: AgentMethods<S>, T: TeamMethods<S, A>>(
    q: int,
    teams: Seq<T>,
) -> bool {
    forall|i: int, j: int|
        0 <= i < teams.len() && 0 <= j < (#[trigger] teams[i]).agents().len() ==> q >= (
        #[trigger] teams[i].agents()[j]).best().quality()
}

/// Whether the quality `q` is some agent's recorded best in some team.
pub open spec fn quality_attained<S: Solution, A: AgentMethods<S>, T: TeamMethods<S, A>>(
    q: int,
    teams: Seq<T>,
) -> bool {
    exists|i: int, j: int|
        0 <= i < teams.len() && 0 <= j < (#[trigger] teams[i]).agents().len() && q == (
        #[trigger] teams[i].agents()[j]).best().quality()
}

/// Relies on rayon's `par_iter_mut` and `for_each` over a vector: the
/// closure, which only calls the verified `TeamMethods::solve`, runs
/// exactly once on every element, each element is handed to exactly one
/// worker by mutable reference, and the vector keeps its length and
/// order. The clauses below restate `solve`'s own contract pointwise.
#[verifier::external_body]
fn solve_teams_in_parallel<S: Solution, A: AgentMethods<S>, T: TeamMethods<S, A>>(
    teams: &mut Vec<T>,
)
    requires
        forall|i: int|
            0 <= i < old(teams)@.len() ==> (#[trigger] old(teams)@[i]).wf()
                && old(teams)@[i].iteration() + old(teams)@[i].n_iterations() <= usize::MAX,
    ensures
        final(teams)@.len() == old(teams)@.len(),
        forall|i: int|
            0 <= i < old(teams)@.len() ==> (#[trigger] final(teams)@[i]).wf()
                && final(teams)@[i].iteration() == old(teams)@[i].iteration()
                    + old(teams)@[i].n_iterations()
                && final(teams)@[i].n_iterations() == old(teams)@[i].n_iterations()
                && final(teams)@[i].configuration() == old(teams)@[i].configuration()
                && final(teams)@[i].agents().len() == old(teams)@[i].agents().len()
                && (old(teams)@[i].n_iterations() == 0 ==> final(teams)@[i] == old(teams)@[i])
                && forall|j: int|
                    0 <= j < old(teams)@[i].agents().len()
                        ==> (#[trigger] final(teams)@[i].agents()[j]).best().quality()
                            >= old(teams)@[i].agents()[j].best().quality()
                            && final(teams)@[i].agents()[j].iteration()
                            == old(teams)@[i].iteration() + old(teams)@[i].n_iterations(),
{
    teams.par_iter_mut().for_each(|team| team.solve());
}

/// A container for multiple teams, run to statistical significance. The
/// problem type, the agent behavior and the team behavior are all
/// pluggable.
pub struct Cohort<S: Solution, A: AgentMethods<S>, T: TeamMethods<S, A>> {
    /// The parameters the cohort runs with.
    parameters: Parameters,
    /// The teams in the cohort.
    pub team_list: Vec<T>,
    /// Bookkeeping for the solution type.
    solution_type: PhantomData<S>,
    /// Bookkeeping for the agent type.
    agent_type: PhantomData<A>,
}

impl<S: Solution, A: AgentMethods<S>, T: TeamMethods<S, A>> Cohort<S, A, T> {
    /// Well formed: the configuration is valid and the roster of teams is
    /// exactly as configured, every team well formed and running for the
    /// configured number of iterations.
    pub closed spec fn wf(&self) -> bool {
        &&& self.parameters.wf()
        &&& self.team_list@.len() == self.parameters.number_of_teams
        &&& forall|i: int|
            0 <= i < self.team_list@.len() ==> (#[trigger] self.team_list@[i]).wf()
                && self.team_list@[i].n_iterations() == self.parameters.number_of_iterations
    }

    /// The cohort's roster of teams.
    pub closed spec fn teams(&self) -> Seq<T> {
        self.team_list@
    }

    /// How many iterations each team's `solve` runs.
    pub closed spec fn n_iterations(&self) -> int {
        self.parameters.number_of_iterations as int
    }

    /// Generates a new cohort: the configured number of teams, each
    /// seeded independently from the one base seed, with no shared
    /// mutable state between them.
    pub fn new(parameters: Parameters, seed: u64) -> (c: Cohort<S, A, T>)
        requires
            parameters.wf(),
        ensures
            c.wf(),
            c.teams().len() == parameters.number_of_teams,
            c.n_iterations() == parameters.number_of_iterations,
            forall|i: int|
                0 <= i < c.teams().len() ==> (#[trigger] c.teams()[i]).iteration() == 1
                    && c.teams()[i].n_iterations() == parameters.number_of_iterations
                    && c.teams()[i].agents().len() == parameters.number_of_agents,
            forall|i: int, j: int|
                0 <= i < c.teams().len() && 0 <= j < (#[trigger] c.teams()[i]).agents().len()
                    ==> (#[trigger] c.teams()[i].agents()[j]).id() == j
                        && c.teams()[i].agents()[j].iteration() == 1
                        && c.teams()[i].agents()[j].best() == c.teams()[i].agents()[j].current(),
    {
        let count = parameters.number_of_teams;
        let mut team_list: Vec<T> = Vec::new();
        for i in 0..count
            invariant
                count == parameters.number_of_teams,
                parameters.wf(),
                team_list@.len() == i,
                forall|j: int|
                    0 <= j < i ==> (#[trigger] team_list@[j]).wf() && team_list@[j].iteration()
                        == 1 && team_list@[j].n_iterations() == parameters.number_of_iterations
                        && team_list@[j].agents().len() == parameters.number_of_agents,
                forall|t: int, j: int|
                    0 <= t < i && 0 <= j < (#[trigger] team_list@[t]).agents().len()
                        ==> (#[trigger] team_list@[t].agents()[j]).id() == j
                            && team_list@[t].agents()[j].iteration() == 1
                            && team_list@[t].agents()[j].best()
                            == team_list@[t].agents()[j].current(),
        {
            let team_seed = derive_seed(seed, i as u64);
            team_list.push(T::new(parameters.duplicate(), team_seed));
        }
        Cohort { parameters, team_list, solution_type: PhantomData, agent_type: PhantomData }
    }

    /// Runs every team's `solve` to completion, teams in parallel: each
    /// team is an independent unit of work, so this needs no locks.
    pub fn solve(&mut self)
        requires
            old(self).wf(),
            forall|i: int|
                0 <= i < old(self).teams().len() ==> (#[trigger] old(self).teams()[i]).iteration()
                    + old(self).n_iterations() <= usize::MAX,
        ensures
            final(self).wf(),
            final(self).teams().len() == old(self).teams().len(),
            final(self).n_iterations() == old(self).n_iterations(),
            forall|i: int|
                0 <= i < old(self).teams().len() ==> (#[trigger] final(self).teams()[i]).iteration()
                    == old(self).teams()[i].iteration() + old(self).n_iterations(),
            forall|i: int, j: int|
                0 <= i < old(self).teams().len()
                    && 0 <= j < (#[trigger] old(self).teams()[i]).agents().len()
                    ==> (#[trigger] final(self).teams()[i].agents()[j]).best().quality()
                        >= old(self).teams()[i].agents()[j].best().quality()
                        && final(self).teams()[i].agents()[j].iteration()
                        == old(self).teams()[i].iteration() + old(self).n_iterations(),
            old(self).n_iterations() == 0 ==> forall|i: int|
                0 <= i < old(self).teams().len()
                    ==> (#[trigger] final(self).teams()[i]) == old(self).teams()[i],
    {
        proof {
            assert forall|i: int|
                0 <= i < self.team_list@.len() implies (#[trigger] self.team_list@[i]).wf()
                    && self.team_list@[i].iteration() + self.team_list@[i].n_iterations()
                    <= usize::MAX by {
                assert(self.team_list@[i].wf());
                assert(old(self).teams()[i].iteration() + old(self).n_iterations()
                    <= usize::MAX);
            };
        }
        solve_teams_in_parallel(&mut self.team_list);
    }

    /// Runs a single round of every team, sequentially on the calling
    /// thread, for step-wise observable progress.
    pub fn iterate(&mut self)
        requires
            old(self).wf(),
            forall|i: int|
                0 <= i < old(self).teams().len() ==> (#[trigger] old(self).teams()[i]).iteration()
                    < usize::MAX,
        ensures
            final(self).wf(),
            final(self).teams().len() == old(self).teams().len(),
            final(self).n_iterations() == old(self).n_iterations(),
            forall|i: int|
                0 <= i < old(self).teams().len() ==> (#[trigger] final(self).teams()[i]).iteration()
                    == old(self).teams()[i].iteration() + 1,
            forall|i: int, j: int|
                0 <= i < old(self).teams().len()
                    && 0 <= j < (#[trigger] old(self).teams()[i]).agents().len()
                    ==> (#[trigger] final(self).teams()[i].agents()[j]).best().quality()
                        >= old(self).teams()[i].agents()[j].best().quality()
                        && final(self).teams()[i].agents()[j].iteration()
                        == old(self).teams()[i].iteration() + 1,
    {
        let ghost pre = self.team_list@;
        proof {
            assert forall|j: int|
                0 <= j < pre.len() implies (#[trigger] pre[j]).wf() && pre[j].iteration()
                    < usize::MAX && pre[j].n_iterations()
                    == self.parameters.number_of_iterations by {
                assert(self.team_list@[j].wf());
                assert(old(self).teams()[j].iteration() < usize::MAX);
            };
        }
        let count = self.team_list.len();
        for i in 0..count
            invariant
                count == pre.len(),
                self.team_list@.len() == pre.len(),
                self.parameters == old(self).parameters,
                forall|j: int|
                    0 <= j < pre.len() ==> (#[trigger] pre[j]).wf() && pre[j].iteration()
                        < usize::MAX && pre[j].n_iterations()
                        == self.parameters.number_of_iterations,
                forall|j: int| i <= j < pre.len() ==> self.team_list@[j] == pre[j],
                forall|j: int|
                    0 <= j < i ==> (#[trigger] self.team_list@[j]).wf()
                        && self.team_list@[j].iteration() == pre[j].iteration() + 1
                        && self.team_list@[j].n_iterations() == pre[j].n_iterations()
                        && self.team_list@[j].agents().len() == pre[j].agents().len(),
                forall|t: int, j: int|
                    0 <= t < i && 0 <= j < (#[trigger] pre[t]).agents().len() ==> (
                    #[trigger] self.team_list@[t].agents()[j]).best().quality()
                        >= pre[t].agents()[j].best().quality()
                        && self.team_list@[t].agents()[j].iteration() == pre[t].iteration() + 1,
        {
            let ghost before = self.team_list@;
            let mut team = self.team_list.remove(i);
            proof {
                assert(team == pre[i as int]);
            }
            team.iterate();
            self.team_list.insert(i, team);
            proof {
                assert(self.team_list@ =~= before.update(i as int, self.team_list@[i as int]));
            }
        }
    }

    /// The best solution recorded by any agent in any team: its quality is
    /// at least every recorded best across the cohort, and it is one
    /// agent's recorded best.
    pub fn get_best_solution(&mut self) -> (s: S)
        requires
            old(self).wf(),
        ensures
            final(self).wf(),
            final(self).teams().len() == old(self).teams().len(),
            final(self).n_iterations() == old(self).n_iterations(),
            s.inv(),
            quality_dominates::<S, A, T>(s.quality(), final(self).teams()),
            quality_attained::<S, A, T>(s.quality(), final(self).teams()),
    {
        let ghost pre = self.team_list@;
        let count = self.team_list.len();

        let ghost before0 = self.team_list@;
        let mut first = self.team_list.remove(0);
        let mut best = first.get_best_solution_so_far();
        self.team_list.insert(0, first);
        let mut best_quality = best.get_quality_scalar();
        proof {
            let j = choose|j: int|
                0 <= j < self.team_list@[0].agents().len() && best
                    == self.team_list@[0].agents()[j].best();
            assert(0 <= 0 < self.team_list@.len() && 0 <= j < (
            #[trigger] self.team_list@[0]).agents().len() && best.quality() == (
            #[trigger] self.team_list@[0].agents()[j]).best().quality());
        }

        for i in 1..count
            invariant
                count == self.team_list@.len(),
                1 <= count,
                self.parameters == old(self).parameters,
                forall|j: int|
                    0 <= j < self.team_list@.len() ==> (#[trigger] self.team_list@[j]).wf()
                        && self.team_list@[j].n_iterations()
                        == self.parameters.number_of_iterations,
                best.inv(),
                best_quality == best.quality(),
                forall|t: int, j: int|
                    0 <= t < i && 0 <= j < (#[trigger] self.team_list@[t]).agents().len()
                        ==> best.quality() >= (
                    #[trigger] self.team_list@[t].agents()[j]).best().quality(),
                exists|t: int, j: int|
                    0 <= t < self.team_list@.len() && 0 <= j < (
                    #[trigger] self.team_list@[t]).agents().len() && best.quality() == (
                    #[trigger] self.team_list@[t].agents()[j]).best().quality(),
        {
            let ghost before = self.team_list@;
            let mut team = self.team_list.remove(i);
            let candidate = team.get_best_solution_so_far();
            self.team_list.insert(i, team);
            proof {
                assert forall|j: int| 0 <= j < before.len() implies self.team_list@[j].agents()
                    == before[j].agents() by {
                    assert(before[j].wf());
                };
            }
            let quality = candidate.get_quality_scalar();
            if quality > best_quality {
                best = candidate;
                best_quality = quality;
                proof {
                    let j = choose|j: int|
                        0 <= j < self.team_list@[i as int].agents().len() && best
                            == self.team_list@[i as int].agents()[j].best();
                    assert(0 <= i < self.team_list@.len() && 0 <= j < (
                    #[trigger] self.team_list@[i as int]).agents().len() && best.quality() == (
                    #[trigger] self.team_list@[i as int].agents()[j]).best().quality());
                }
            }
        }
        best
    }

    /// The quality scalar of the best solution recorded by any agent in
    /// any team.
    pub fn get_best_solution_so_far(&mut self) -> (q: i64)
        requires
            old(self).wf(),
        ensures
            final(self).wf(),
            final(self).teams().len() == old(self).teams().len(),
            final(self).n_iterations() == old(self).n_iterations(),
            quality_dominates::<S, A, T>(q as int, final(self).teams()),
            quality_attained::<S, A, T>(q as int, final(self).teams()),
    {
        let best = self.get_best_solution();
        best.get_quality_scalar()
    }
}

} // verus!
