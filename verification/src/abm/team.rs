//! The team: a fixed roster of agents advanced in lockstep, with a
//! communication policy that periodically lets the agents imitate one
//! another's current solutions.

use core::marker::PhantomData;
use vstd::prelude::*;

use crate::abm::agent::{adopted_positive_weight, AgentMethods};
use crate::utilities::parameters::{CommunicationStyle, Parameters, SCALE};
use crate::utilities::randomness::{derive_seed, RngHandle};
use crate::utilities::solution::Solution;

verus! {

/// Whether an iteration number is listed among the scheduled meeting
/// times.
fn times_contain(times: &Vec<usize>, iteration_number: usize) -> (r: bool)
    ensures
        r <==> times@.contains(iteration_number),
{
    let count = times.len();
    for i in 0..count
        invariant
            count == times@.len(),
            forall|j: int| 0 <= j < i ==> times@[j] != iteration_number,
    {
        if times[i] == iteration_number {
            assert(times@[i as int] == iteration_number);
            return true;
        }
    }
    false
}

/// Evaluates the communication policy for one round: a regular interval
/// triggers exactly on its multiples, scheduled meetings exactly on their
/// listed iteration numbers, a constant frequency by a fresh uniform draw
/// against the frequency, and the quiet style never.
pub fn communication_triggered(
    style: &CommunicationStyle,
    iteration_number: usize,
    rng: &mut RngHandle,
) -> (t: bool)
    requires
        style.wf(),
    ensures
        match *style {
            CommunicationStyle::ConstantFrequency { frequency } => (frequency == 0 ==> !t) && (
            frequency >= SCALE ==> t),
            CommunicationStyle::RegularInterval { interval } => t <==> iteration_number as int
                % interval as int == 0,
            CommunicationStyle::ScheduledMeetings { times } => t <==> times@.contains(
                iteration_number,
            ),
            CommunicationStyle::NoCommunication => !t,
        },
{
    match style {
        CommunicationStyle::ConstantFrequency { frequency } => {
            let draw = rng.next_below(SCALE);
            draw < *frequency
        },
        CommunicationStyle::RegularInterval { interval } => {
            iteration_number % *interval == 0
        },
        CommunicationStyle::ScheduledMeetings { times } => {
            times_contain(times, iteration_number)
        },
        CommunicationStyle::NoCommunication => false,
    }
}

/// Copies a solution pool so every agent can weigh the same snapshot.
fn duplicate_pool<S: Solution>(pool: &Vec<S>) -> (r: Vec<S>)
    requires
        forall|i: int| 0 <= i < pool@.len() ==> #[trigger] pool@[i].inv(),
    ensures
        r@ == pool@,
{
    let count = pool.len();
    let mut r: Vec<S> = Vec::new();
    for i in 0..count
        invariant
            count == pool@.len(),
            forall|j: int| 0 <= j < pool@.len() ==> #[trigger] pool@[j].inv(),
            r@.len() == i,
            forall|j: int| 0 <= j < i ==> r@[j] == pool@[j],
    {
        r.push(pool[i].duplicate());
    }
    assert(r@ =~= pool@);
    r
}

/// Whether the agent's current solution is one of the exact current
/// solutions held by the agents in `pool`.
pub open spec fn holds_pooled_current<S: Solution, A: AgentMethods<S>>(
    agent: A,
    pool: Seq<A>,
) -> bool {
    exists|j: int| 0 <= j < pool.len() && agent.current() == (#[trigger] pool[j]).current()
}

/// Whether every agent in `after` holds, as its current solution, one of
/// the exact current solutions the agents in `before` held: communication
/// redistributes the pool, it fabricates nothing.
pub open spec fn currents_drawn_from<S: Solution, A: AgentMethods<S>>(
    after: Seq<A>,
    before: Seq<A>,
) -> bool {
    forall|i: int| 0 <= i < after.len() ==> holds_pooled_current(#[trigger] after[i], before)
}

/// The ordered pool of the agents' current solutions, indexed by agent.
pub open spec fn current_pool<S: Solution, A: AgentMethods<S>>(agents: Seq<A>) -> Seq<S> {
    agents.map_values(|a: A| a.current())
}

/// The operations a cohort requires of a team; implement this trait to
/// substitute a custom team behavior.
pub trait TeamMethods<S: Solution, A: AgentMethods<S>>: Sized + Send {
    /// Whether the team is well formed.
    spec fn wf(&self) -> bool;

    /// The team's roster of agents.
    spec fn agents(&self) -> Seq<A>;

    /// The team's iteration counter.
    spec fn iteration(&self) -> int;

    /// How many iterations one `solve` call runs.
    spec fn n_iterations(&self) -> int;

    /// The configuration record the team runs with; the team itself never
    /// mutates it.
    spec fn configuration(&self) -> Parameters;

    /// Generates a new team: a full roster of freshly constructed agents,
    /// each with its own derived random seed.
    fn new(parameters: Parameters, seed: u64) -> (t: Self)
        requires
            parameters.wf(),
        ensures
            t.wf(),
            t.iteration() == 1,
            t.configuration() == parameters,
            t.agents().len() == parameters.number_of_agents,
            t.n_iterations() == parameters.number_of_iterations,
            forall|i: int|
                0 <= i < t.agents().len() ==> (#[trigger] t.agents()[i]).id() == i
                    && t.agents()[i].iteration() == 1 && t.agents()[i].best()
                    == t.agents()[i].current(),
    ;

    /// Runs a single round: evaluate the communication policy, let the
    /// agents talk if it triggers, then advance every agent one step.
    /// No agent's best quality ever decreases.
    fn iterate(&mut self)
        requires
            old(self).wf(),
            old(self).iteration() < usize::MAX,
        ensures
            final(self).wf(),
            final(self).iteration() == old(self).iteration() + 1,
            final(self).n_iterations() == old(self).n_iterations(),
            final(self).configuration() == old(self).configuration(),
            final(self).agents().len() == old(self).agents().len(),
            forall|i: int|
                0 <= i < old(self).agents().len() ==> (#[trigger] final(self).agents()[i]).best().quality()
                    >= old(self).agents()[i].best().quality(),
            forall|i: int|
                0 <= i < old(self).agents().len() ==> (#[trigger] final(self).agents()[i]).iteration()
                    == old(self).iteration() + 1,
    ;

    /// Runs the communication protocol: collect every agent's current
    /// solution into one pool (the barrier: the pool is complete before
    /// any agent draws from it), then let each agent adopt a weighted
    /// random choice from the pool. Bests and counters are untouched,
    /// every adopted solution is one of the exact pooled values, and each
    /// agent's adoption respects its own re-weighting of the pool: unless
    /// every adjusted weight it sees is zero, it adopts an entry with a
    /// positive adjusted weight.
    fn communicate(&mut self)
        requires
            old(self).wf(),
        ensures
            final(self).wf(),
            final(self).iteration() == old(self).iteration(),
            final(self).n_iterations() == old(self).n_iterations(),
            final(self).configuration() == old(self).configuration(),
            final(self).agents().len() == old(self).agents().len(),
            forall|i: int|
                0 <= i < old(self).agents().len() ==> (#[trigger] final(self).agents()[i]).best()
                    == old(self).agents()[i].best(),
            currents_drawn_from(final(self).agents(), old(self).agents()),
            forall|i: int|
                0 <= i < old(self).agents().len() ==> adopted_positive_weight(
                    (#[trigger] final(self).agents()[i]).current(),
                    current_pool(old(self).agents()),
                    old(self).agents()[i].configuration().quality_bias as int,
                    old(self).agents()[i].configuration().self_bias as int,
                    old(self).agents()[i].id(),
                ),
    ;

    /// Calls `iterate` exactly `n_iterations` times, sequentially. With
    /// zero configured iterations the team is left exactly as it was.
    fn solve(&mut self)
        requires
            old(self).wf(),
            old(self).iteration() + old(self).n_iterations() <= usize::MAX,
        ensures
            final(self).wf(),
            final(self).iteration() == old(self).iteration() + old(self).n_iterations(),
            final(self).n_iterations() == old(self).n_iterations(),
            final(self).configuration() == old(self).configuration(),
            final(self).agents().len() == old(self).agents().len(),
            forall|i: int|
                0 <= i < old(self).agents().len() ==> (#[trigger] final(self).agents()[i]).best().quality()
                    >= old(self).agents()[i].best().quality(),
            forall|i: int|
                0 <= i < old(self).agents().len() ==> (#[trigger] final(self).agents()[i]).iteration()
                    == old(self).iteration() + old(self).n_iterations(),
            old(self).n_iterations() == 0 ==> *final(self) == *old(self),
    ;

    /// The best solution recorded by any agent on the team: its quality
    /// is at least every agent's recorded best, and it is one agent's
    /// recorded best.
    fn get_best_solution_so_far(&mut self) -> (s: S)
        requires
            old(self).wf(),
        ensures
            final(self).wf(),
            final(self).agents() == old(self).agents(),
            final(self).iteration() == old(self).iteration(),
            final(self).n_iterations() == old(self).n_iterations(),
            final(self).configuration() == old(self).configuration(),
            s.inv(),
            forall|i: int|
                0 <= i < old(self).agents().len() ==> s.quality() >= (#[trigger] old(
                    self,
                ).agents()[i]).best().quality(),
            exists|i: int|
                0 <= i < old(self).agents().len() && s == (#[trigger] old(self).agents()[i]).best(),
    ;
}

/// The built-in team: a roster of agents with a shared communication
/// policy and its own random source for policy draws.
pub struct Team<S: Solution, A: AgentMethods<S>> {
    /// The parameters the team runs with.
    parameters: Parameters,
    /// The team's iteration counter.
    iteration_number: usize,
    /// The agents contained in the team.
    agent_list: Vec<A>,
    /// The team's own random source, used by the communication policy.
    rng: RngHandle,
    /// Bookkeeping for the solution type.
    solution_type: PhantomData<S>,
}

impl<S: Solution, A: AgentMethods<S>> TeamMethods<S, A> for Team<S, A> {
    /// Well formed: the configuration is valid, the roster is exactly as
    /// configured, and every agent is well formed, numbered by its index,
    /// and in step with the team's counter.
    closed spec fn wf(&self) -> bool {
        &&& self.parameters.wf()
        &&& self.agent_list@.len() == self.parameters.number_of_agents
        &&& self.iteration_number >= 1
        &&& forall|i: int|
            0 <= i < self.agent_list@.len() ==> (#[trigger] self.agent_list@[i]).wf()
                && self.agent_list@[i].id() == i && self.agent_list@[i].iteration()
                == self.iteration_number
    }

    closed spec fn agents(&self) -> Seq<A> {
        self.agent_list@
    }

    closed spec fn iteration(&self) -> int {
        self.iteration_number as int
    }

    closed spec fn n_iterations(&self) -> int {
        self.parameters.number_of_iterations as int
    }

    closed spec fn configuration(&self) -> Parameters {
        self.parameters
    }

    fn new(parameters: Parameters, seed: u64) -> (t: Self) {
        let count = parameters.number_of_agents;
        let mut agent_list: Vec<A> = Vec::new();
        for i in 0..count
            invariant
                count == parameters.number_of_agents,
                agent_list@.len() == i,
                forall|j: int|
                    0 <= j < i ==> (#[trigger] agent_list@[j]).wf() && agent_list@[j].id() == j
                        && agent_list@[j].iteration() == 1 && agent_list@[j].best()
                        == agent_list@[j].current(),
        {
            let agent_seed = derive_seed(seed, (i as u64).wrapping_add(1));
            agent_list.push(A::new(i, parameters.duplicate(), agent_seed));
        }
        Team {
            parameters,
            iteration_number: 1,
            agent_list,
            rng: RngHandle::from_seed(seed),
            solution_type: PhantomData,
        }
    }

    fn iterate(&mut self) {
        // Check if it is time to interact
        let triggered = communication_triggered(
            &self.parameters.communication,
            self.iteration_number,
            &mut self.rng,
        );
        if triggered {
            self.communicate();
        }

        // Then advance every agent one step; agents do not read each
        // other's state during this pass, so the order is immaterial.
        let ghost pre = self.agent_list@;
        let ghost pre_iteration = self.iteration_number as int;
        let count = self.agent_list.len();
        for i in 0..count
            invariant
                count == pre.len(),
                pre.len() == old(self).agents().len(),
                self.agent_list@.len() == pre.len(),
                self.iteration_number == pre_iteration,
                pre_iteration == old(self).iteration(),
                self.iteration_number < usize::MAX,
                self.parameters.wf(),
                self.configuration() == old(self).configuration(),
                self.agent_list@.len() == self.parameters.number_of_agents,
                self.parameters.number_of_iterations == old(self).n_iterations(),
                forall|j: int|
                    0 <= j < pre.len() ==> (#[trigger] pre[j]).wf() && pre[j].id() == j
                        && pre[j].iteration() == pre_iteration && pre[j].best().quality()
                        >= old(self).agents()[j].best().quality(),
                forall|j: int| i <= j < pre.len() ==> self.agent_list@[j] == pre[j],
                forall|j: int|
                    0 <= j < i ==> (#[trigger] self.agent_list@[j]).wf()
                        && self.agent_list@[j].id() == j && self.agent_list@[j].iteration()
                        == pre_iteration + 1 && self.agent_list@[j].best().quality()
                        >= pre[j].best().quality(),
        {
            let ghost before = self.agent_list@;
            let mut agent = self.agent_list.remove(i);
            proof {
                assert(agent == pre[i as int]);
            }
            agent.iterate();
            self.agent_list.insert(i, agent);
            proof {
                assert(self.agent_list@ =~= before.update(i as int, self.agent_list@[i as int]));
            }
        }

        // Increment iteration number
        self.iteration_number = self.iteration_number + 1;
    }

    fn communicate(&mut self) {
        let ghost pre = self.agent_list@;

        // Barrier, first half: collect every agent's current solution
        // into an ordered pool before anyone consumes it.
        let count = self.agent_list.len();
        let mut pool: Vec<S> = Vec::new();
        for i in 0..count
            invariant
                count == pre.len(),
                self.agent_list@ == pre,
                self.iteration_number == old(self).iteration_number,
                self.parameters == old(self).parameters,
                forall|j: int|
                    0 <= j < pre.len() ==> (#[trigger] pre[j]).wf() && pre[j].id() == j,
                pool@.len() == i,
                forall|j: int|
                    0 <= j < i ==> (#[trigger] pool@[j]) == pre[j].current() && pool@[j].inv(),
        {
            let ghost before = self.agent_list@;
            let mut agent = self.agent_list.remove(i);
            let snapshot = agent.get_current_solution();
            self.agent_list.insert(i, agent);
            proof {
                assert(self.agent_list@ =~= before);
            }
            pool.push(snapshot);
        }

        // Barrier, second half: every agent independently re-weights the
        // complete pool and adopts its own draw.
        for i in 0..count
            invariant
                count == pre.len(),
                self.agent_list@.len() == pre.len(),
                self.iteration_number == old(self).iteration_number,
                self.parameters == old(self).parameters,
                pool@.len() == pre.len(),
                forall|j: int|
                    0 <= j < pre.len() ==> (#[trigger] pool@[j]) == pre[j].current()
                        && pool@[j].inv(),
                forall|j: int|
                    0 <= j < pre.len() ==> (#[trigger] pre[j]).wf() && pre[j].id() == j
                        && pre[j].iteration() == old(self).iteration_number,
                forall|j: int| i <= j < pre.len() ==> self.agent_list@[j] == pre[j],
                forall|j: int|
                    0 <= j < i ==> (#[trigger] self.agent_list@[j]).wf()
                        && self.agent_list@[j].id() == j && self.agent_list@[j].iteration()
                        == old(self).iteration_number && self.agent_list@[j].best()
                        == pre[j].best() && holds_pooled_current(self.agent_list@[j], pre)
                        && adopted_positive_weight(
                        self.agent_list@[j].current(),
                        pool@,
                        pre[j].configuration().quality_bias as int,
                        pre[j].configuration().self_bias as int,
                        pre[j].id(),
                    ),
        {
            let ghost before = self.agent_list@;
            let mut agent = self.agent_list.remove(i);
            proof {
                assert(agent == pre[i as int]);
            }
            let shared = duplicate_pool(&pool);
            let ghost shared_view = shared@;
            agent.communicate(shared);
            self.agent_list.insert(i, agent);
            proof {
                assert(self.agent_list@ =~= before.update(i as int, self.agent_list@[i as int]));
                let k = choose|k: int|
                    0 <= k < shared_view.len() && self.agent_list@[i as int].current()
                        == shared_view[k];
                assert(self.agent_list@[i as int].current() == pre[k].current());
                assert(holds_pooled_current(self.agent_list@[i as int], pre));
                assert(adopted_positive_weight(
                    self.agent_list@[i as int].current(),
                    pool@,
                    pre[i as int].configuration().quality_bias as int,
                    pre[i as int].configuration().self_bias as int,
                    pre[i as int].id(),
                ));
            }
        }
        proof {
            assert forall|i: int|
                0 <= i < self.agent_list@.len() implies holds_pooled_current(
                #[trigger] self.agent_list@[i],
                pre,
            ) by {
                assert(self.agent_list@[i].wf());
            };
            assert(currents_drawn_from::<S, A>(self.agent_list@, pre));
            assert(pool@ =~= current_pool::<S, A>(pre));
            assert forall|i: int|
                0 <= i < pre.len() implies adopted_positive_weight(
                (#[trigger] self.agent_list@[i]).current(),
                current_pool::<S, A>(pre),
                pre[i].configuration().quality_bias as int,
                pre[i].configuration().self_bias as int,
                pre[i].id(),
            ) by {
                assert(self.agent_list@[i].wf() && adopted_positive_weight(
                    self.agent_list@[i].current(),
                    pool@,
                    pre[i].configuration().quality_bias as int,
                    pre[i].configuration().self_bias as int,
                    pre[i].id(),
                ));
            };
            assert(self.agents() == self.agent_list@);
            assert(old(self).agents() == pre);
        }
    }

    fn solve(&mut self) {
        let rounds = self.parameters.number_of_iterations;
        for round in 0..rounds
            invariant
                self.wf(),
                self.n_iterations() == rounds,
                self.configuration() == old(self).configuration(),
                self.iteration() == old(self).iteration() + round,
                old(self).iteration() + rounds <= usize::MAX,
                self.agents().len() == old(self).agents().len(),
                forall|i: int|
                    0 <= i < old(self).agents().len() ==> (#[trigger] self.agents()[i]).best().quality()
                        >= old(self).agents()[i].best().quality(),
                round == 0 ==> *self == *old(self),
        {
            self.iterate();
        }
    }

    fn get_best_solution_so_far(&mut self) -> (s: S) {
        let ghost pre = self.agent_list@;
        let count = self.agent_list.len();

        let ghost before0 = self.agent_list@;
        let mut first = self.agent_list.remove(0);
        let mut best = first.get_best_solution_so_far();
        self.agent_list.insert(0, first);
        proof {
            assert(self.agent_list@ =~= before0);
        }
        let mut best_quality = best.get_quality_scalar();

        for i in 1..count
            invariant
                count == pre.len(),
                1 <= count,
                self.agent_list@ == pre,
                self.iteration_number == old(self).iteration_number,
                self.parameters == old(self).parameters,
                self.rng == old(self).rng,
                forall|j: int| 0 <= j < pre.len() ==> (#[trigger] pre[j]).wf(),
                best.inv(),
                best_quality == best.quality(),
                forall|j: int|
                    0 <= j < i ==> best.quality() >= (#[trigger] pre[j]).best().quality(),
                exists|j: int| 0 <= j < i && best == (#[trigger] pre[j]).best(),
        {
            let ghost before = self.agent_list@;
            let mut agent = self.agent_list.remove(i);
            let candidate = agent.get_best_solution_so_far();
            self.agent_list.insert(i, agent);
            proof {
                assert(self.agent_list@ =~= before);
            }
            let quality = candidate.get_quality_scalar();
            if quality > best_quality {
                best = candidate;
                best_quality = quality;
            }
        }
        proof {
            let j = choose|j: int| 0 <= j < pre.len() && best == (#[trigger] pre[j]).best();
            assert(0 <= j < old(self).agents().len() && best == old(self).agents()[j].best());
        }
        best
    }
}

} // verus!
