//! The two systems, the conditions of an integration run, and what becomes
//! of a solver's output.

use vstd::prelude::*;
use crate::error::AnalysisError;
use crate::scalar::Scalar;
use crate::state::State;
use crate::text::same_text;

verus! {

/// The Lorentz system `dx = sigma (y - x)`, `dy = x (rho - z) - y`,
/// `dz = x y - beta z`.
#[derive(Clone, Copy, Debug, PartialEq, Eq, Structural)]
pub struct LorentzSystem {
    pub sigma: Scalar,
    pub rho: Scalar,
    pub beta: Scalar,
}

/// The Rossler system `dx = -y - z`, `dy = x + a y`, `dz = b + z (x - c)`.
#[derive(Clone, Copy, Debug, PartialEq, Eq, Structural)]
pub struct RosslerSystem {
    pub a: Scalar,
    pub b: Scalar,
    pub c: Scalar,
}

/// One of the two systems, with its constants.
#[derive(Clone, Copy, Debug, PartialEq, Eq, Structural)]
pub enum SystemSelector {
    Lorentz(LorentzSystem),
    Rossler(RosslerSystem),
}

impl LorentzSystem {
    /// The standard constants: sigma = 10, rho = 28, beta = 8/3.
    pub open spec fn standard() -> LorentzSystem {
        LorentzSystem {
            sigma: Scalar { bits: 0x4024_0000_0000_0000 },
            rho: Scalar { bits: 0x403c_0000_0000_0000 },
            beta: Scalar { bits: 0x4005_5555_5555_5555 },
        }
    }

    pub fn new_standard() -> (system: LorentzSystem)
        ensures
            system == LorentzSystem::standard(),
    {
        LorentzSystem {
            sigma: Scalar::from_bits(0x4024_0000_0000_0000),
            rho: Scalar::from_bits(0x403c_0000_0000_0000),
            beta: Scalar::from_bits(0x4005_5555_5555_5555),
        }
    }
}

impl RosslerSystem {
    /// The standard constants: a = 0.2, b = 0.2, c = 5.7.
    pub open spec fn standard() -> RosslerSystem {
        RosslerSystem {
            a: Scalar { bits: 0x3fc9_9999_9999_999a },
            b: Scalar { bits: 0x3fc9_9999_9999_999a },
            c: Scalar { bits: 0x4016_cccc_cccc_cccd },
        }
    }

    pub fn new_standard() -> (system: RosslerSystem)
        ensures
            system == RosslerSystem::standard(),
    {
        RosslerSystem {
            a: Scalar::from_bits(0x3fc9_9999_9999_999a),
            b: Scalar::from_bits(0x3fc9_9999_9999_999a),
            c: Scalar::from_bits(0x4016_cccc_cccc_cccd),
        }
    }
}

/// The system that a tag names, if it names one.
pub open spec fn system_named(tag: Seq<char>) -> Option<SystemSelector> {
    if tag == "lorentz"@ {
        Some(SystemSelector::Lorentz(LorentzSystem::standard()))
    } else if tag == "rossler"@ {
        Some(SystemSelector::Rossler(RosslerSystem::standard()))
    } else {
        None
    }
}

/// Picks the system that `tag` names: `"lorentz"` or `"rossler"`, each with
/// its standard constants. Any other tag is an `UnrecognizedSystem`.
pub fn select_system(tag: &str) -> (selected: Result<SystemSelector, AnalysisError>)
    ensures
        match system_named(tag@) {
            Some(system) => selected == Ok::<_, AnalysisError>(system),
            None => selected == Err::<SystemSelector, _>(AnalysisError::UnrecognizedSystem),
        },
{
    if same_text(tag, "lorentz") {
        Ok(SystemSelector::Lorentz(LorentzSystem::new_standard()))
    } else if same_text(tag, "rossler") {
        Ok(SystemSelector::Rossler(RosslerSystem::new_standard()))
    } else {
        Err(AnalysisError::UnrecognizedSystem)
    }
}

/// The conditions of one integration run: where it starts and ends, the
/// first step, the starting point, and the two tolerances.
///
/// A value of this type always has its end time strictly behind its start
/// time and both tolerances strictly above zero.
#[derive(Clone, Copy, Debug)]
pub struct InitialConditions {
    t_0: Scalar,
    t_end: Scalar,
    dt: Scalar,
    x_0: State,
    rtol: Scalar,
    atol: Scalar,
}

/// The end lies behind the start and both tolerances are above zero.
pub open spec fn conditions_hold(t_0: Scalar, t_end: Scalar, rtol: Scalar, atol: Scalar) -> bool {
    t_0.lt(t_end) && rtol.is_positive() && atol.is_positive()
}

impl InitialConditions {
    #[verifier::type_invariant]
    spec fn well_formed(self) -> bool {
        conditions_hold(self.t_0, self.t_end, self.rtol, self.atol)
    }

    pub closed spec fn start_time(self) -> Scalar {
        self.t_0
    }

    pub closed spec fn end_time(self) -> Scalar {
        self.t_end
    }

    pub closed spec fn first_step(self) -> Scalar {
        self.dt
    }

    pub closed spec fn start_point(self) -> State {
        self.x_0
    }

    pub closed spec fn relative_tolerance(self) -> Scalar {
        self.rtol
    }

    pub closed spec fn absolute_tolerance(self) -> Scalar {
        self.atol
    }

    pub fn t_0(&self) -> (t: Scalar)
        ensures
            t == self.start_time(),
    {
        self.t_0
    }

    /// The end time, which lies strictly behind the start time.
    pub fn t_end(&self) -> (t: Scalar)
        ensures
            t == self.end_time(),
            self.start_time().lt(t),
    {
        proof {
            use_type_invariant(self);
        }
        self.t_end
    }

    pub fn dt(&self) -> (step: Scalar)
        ensures
            step == self.first_step(),
    {
        self.dt
    }

    pub fn x_0(&self) -> (point: State)
        ensures
            point == self.start_point(),
    {
        self.x_0
    }

    /// The relative tolerance, which is strictly above zero.
    pub fn rtol(&self) -> (tolerance: Scalar)
        ensures
            tolerance == self.relative_tolerance(),
            tolerance.is_positive(),
    {
        proof {
            use_type_invariant(self);
        }
        self.rtol
    }

    /// The absolute tolerance, which is strictly above zero.
    pub fn atol(&self) -> (tolerance: Scalar)
        ensures
            tolerance == self.absolute_tolerance(),
            tolerance.is_positive(),
    {
        proof {
            use_type_invariant(self);
        }
        self.atol
    }
}

/// Puts the conditions of a run together.
///
/// Fails with `PreconditionViolation` exactly when the end time is not
/// strictly behind the start time or a tolerance is not strictly above zero;
/// a NaN in any of these four fails too.
pub fn set_init_conditions(
    t_0: Scalar,
    t_end: Scalar,
    dt: Scalar,
    x_0: Scalar,
    y_0: Scalar,
    z_0: Scalar,
    rtol: Scalar,
    atol: Scalar,
) -> (init: Result<InitialConditions, AnalysisError>)
    ensures
        conditions_hold(t_0, t_end, rtol, atol) ==> {
            &&& init matches Ok(c)
            &&& c.start_time() == t_0
            &&& c.end_time() == t_end
            &&& c.first_step() == dt
            &&& c.start_point() == (State { x: x_0, y: y_0, z: z_0 })
            &&& c.relative_tolerance() == rtol
            &&& c.absolute_tolerance() == atol
        },
        !conditions_hold(t_0, t_end, rtol, atol) ==> init matches Err(
            AnalysisError::PreconditionViolation,
        ),
{
    if !t_0.less_than(t_end) || !rtol.is_positive_value() || !atol.is_positive_value() {
        return Err(AnalysisError::PreconditionViolation);
    }
    Ok(InitialConditions { t_0, t_end, dt, x_0: State::new(x_0, y_0, z_0), rtol, atol })
}

/// The coordinates of the first `n` states, one sequence for each axis.
pub open spec fn coordinates(s: Seq<State>, n: nat) -> (Seq<Scalar>, Seq<Scalar>, Seq<Scalar>) {
    (Seq::new(n, |i: int| s[i].x), Seq::new(n, |i: int| s[i].y), Seq::new(n, |i: int| s[i].z))
}

/// Splits the states that go with the times `t` into their three coordinate
/// sequences, each as long as `t`.
///
/// States behind the last time are left out. Fails with
/// `PreconditionViolation` exactly when there are fewer states than times.
pub fn state_to_vectors(s: &Vec<State>, t: &Vec<Scalar>) -> (axes: Result<
    (Vec<Scalar>, Vec<Scalar>, Vec<Scalar>),
    AnalysisError,
>)
    ensures
        t@.len() <= s@.len() ==> {
            &&& axes matches Ok((x, y, z))
            &&& (x@, y@, z@) == coordinates(s@, t@.len())
        },
        t@.len() > s@.len() ==> axes matches Err(AnalysisError::PreconditionViolation),
{
    if t.len() > s.len() {
        return Err(AnalysisError::PreconditionViolation);
    }
    let mut x: Vec<Scalar> = Vec::new();
    let mut y: Vec<Scalar> = Vec::new();
    let mut z: Vec<Scalar> = Vec::new();
    let n: usize = t.len();
    let mut i: usize = 0;
    while i < n
        invariant
            n == t@.len(),
            n <= s@.len(),
            i <= n,
            (x@, y@, z@) == coordinates(s@, i as nat),
        decreases n - i,
    {
        x.push(s[i].x);
        y.push(s[i].y);
        z.push(s[i].z);
        i = i + 1;
        proof {
            let (cx, cy, cz) = coordinates(s@, i as nat);
            assert(x@ =~= cx);
            assert(y@ =~= cy);
            assert(z@ =~= cz);
        }
    }
    Ok((x, y, z))
}

/// What a solver hands back: the times it stepped to, the state at each of
/// them, and whether it reached the end time.
#[derive(Clone, Debug)]
pub struct SolverRun {
    pub times: Vec<Scalar>,
    pub states: Vec<State>,
    pub finished: bool,
}

/// A trajectory, axis by axis, with the reason why it may be incomplete.
///
/// `failure` is `None` where the solver reached the end time. Where it is
/// `Some`, the sequences hold what had been computed until the solver gave
/// up, and are as usable as far as they go.
#[derive(Clone, Debug)]
pub struct Integration {
    pub t: Vec<Scalar>,
    pub x: Vec<Scalar>,
    pub y: Vec<Scalar>,
    pub z: Vec<Scalar>,
    pub failure: Option<AnalysisError>,
}

/// `out` is what `assemble_run` makes of a solver's times, states and flag.
pub open spec fn is_assembly_of(
    times: Seq<Scalar>,
    states: Seq<State>,
    finished: bool,
    out: Result<Integration, AnalysisError>,
) -> bool {
    if times.len() <= states.len() {
        &&& out matches Ok(run)
        &&& run.t@ == times
        &&& (run.x@, run.y@, run.z@) == coordinates(states, times.len())
        &&& run.failure == if finished {
            None
        } else {
            Some(AnalysisError::IntegrationFailure)
        }
    } else {
        out matches Err(AnalysisError::PreconditionViolation)
    }
}

/// Turns a solver's output into a trajectory by axes.
///
/// A run that did not finish keeps all its samples and is marked with
/// `IntegrationFailure`. Fails with `PreconditionViolation` exactly when the
/// solver gave fewer states than times.
pub fn assemble_run(run: SolverRun) -> (out: Result<Integration, AnalysisError>)
    ensures
        is_assembly_of(run.times@, run.states@, run.finished, out),
{
    match state_to_vectors(&run.states, &run.times) {
        Ok((x, y, z)) => {
            let failure = if run.finished {
                None
            } else {
                Some(AnalysisError::IntegrationFailure)
            };
            Ok(Integration { t: run.times, x, y, z, failure })
        },
        Err(e) => Err(e),
    }
}

impl Integration {
    /// The last point of the trajectory, from which a later run can go on.
    pub open spec fn last_state(self) -> Option<State> {
        let n = self.x@.len();
        if n > 0 && self.y@.len() == n && self.z@.len() == n {
            Some(State { x: self.x@[n - 1], y: self.y@[n - 1], z: self.z@[n - 1] })
        } else {
            None
        }
    }

    /// The point that the trajectory ends in, or `None` where it holds no
    /// sample or its three axes differ in length.
    pub fn terminal_state(&self) -> (end: Option<State>)
        ensures
            end == self.last_state(),
    {
        let n: usize = self.x.len();
        if n > 0 && self.y.len() == n && self.z.len() == n {
            Some(State::new(self.x[n - 1], self.y[n - 1], self.z[n - 1]))
        } else {
            None
        }
    }
}

/// Each time is strictly behind every time before it.
pub open spec fn strictly_increasing(t: Seq<Scalar>) -> bool {
    forall|i: int, j: int| 0 <= i < j < t.len() ==> (#[trigger] t[i]).lt(#[trigger] t[j])
}

/// Whether the times of a trajectory are in strictly increasing order, as
/// those of every trajectory should be. A NaN among two or more times makes
/// the answer `false`.
pub fn is_time_ordered(t: &Vec<Scalar>) -> (ordered: bool)
    ensures
        ordered == strictly_increasing(t@),
{
    let n: usize = t.len();
    if n < 2 {
        return true;
    }
    let mut k: usize = 1;
    while k < n
        invariant
            n == t@.len(),
            1 <= k <= n,
            strictly_increasing(t@.take(k as int)),
        decreases n - k,
    {
        if !t[k - 1].less_than(t[k]) {
            assert(!(#[trigger] t@[k - 1]).lt(#[trigger] t@[k as int]));
            return false;
        }
        proof {
            let head = t@.take(k as int);
            let next = t@.take(k + 1);
            assert forall|i: int, j: int| 0 <= i < j < next.len() implies (#[trigger] next[i]).lt(
                #[trigger] next[j],
            ) by {
                if j < k {
                    assert(head[i].lt(head[j]));
                } else if i < k - 1 {
                    assert(head[i].lt(head[k - 1]));
                    crate::scalar::lemma_lt_strict_order(t@[i], t@[k - 1], t@[k as int]);
                }
            }
        }
        k = k + 1;
    }
    assert(t@.take(n as int) =~= t@);
    true
}

/// `out` is the assembly of some run that `solver` can return for `system`
/// under the conditions `init`.
pub open spec fn is_integration_of<S: FnOnce(SystemSelector, InitialConditions) -> SolverRun>(
    solver: S,
    system: SystemSelector,
    init: InitialConditions,
    out: Result<Integration, AnalysisError>,
) -> bool {
    exists|run: SolverRun| #[trigger]
        call_ensures(solver, (system, init), run) && is_assembly_of(
            run.times@,
            run.states@,
            run.finished,
            out,
        )
}

/// Runs `solver` once on `system` under `init` and assembles what it returns.
fn integrate<S: FnOnce(SystemSelector, InitialConditions) -> SolverRun>(
    system: SystemSelector,
    init: InitialConditions,
    solver: S,
) -> (out: Result<Integration, AnalysisError>)
    requires
        call_requires(solver, (system, init)),
    ensures
        is_integration_of(solver, system, init, out),
{
    let run = solver(system, init);
    assemble_run(run)
}

/// Integrates the Lorentz system `system` under the conditions `init` with
/// the solver that the caller supplies, and returns the trajectory by axes.
pub fn integrate_lorentz<S: FnOnce(SystemSelector, InitialConditions) -> SolverRun>(
    system: LorentzSystem,
    init: InitialConditions,
    solver: S,
) -> (out: Result<Integration, AnalysisError>)
    requires
        call_requires(solver, (SystemSelector::Lorentz(system), init)),
    ensures
        is_integration_of(solver, SystemSelector::Lorentz(system), init, out),
{
    integrate(SystemSelector::Lorentz(system), init, solver)
}

/// Integrates the Rossler system `system` under the conditions `init` with
/// the solver that the caller supplies, and returns the trajectory by axes.
pub fn integrate_rossler<S: FnOnce(SystemSelector, InitialConditions) -> SolverRun>(
    system: RosslerSystem,
    init: InitialConditions,
    solver: S,
) -> (out: Result<Integration, AnalysisError>)
    requires
        call_requires(solver, (SystemSelector::Rossler(system), init)),
    ensures
        is_integration_of(solver, SystemSelector::Rossler(system), init, out),
{
    integrate(SystemSelector::Rossler(system), init, solver)
}

/// Integrates the system that the tag `sys` names, with its standard
/// constants, under the conditions `init`.
///
/// Fails with `UnrecognizedSystem` exactly when the tag is neither
/// `"lorentz"` nor `"rossler"`; the solver is not run then.
pub fn solve_lorentz_system<S: FnOnce(SystemSelector, InitialConditions) -> SolverRun>(
    init: InitialConditions,
    sys: &str,
    solver: S,
) -> (out: Result<Integration, AnalysisError>)
    requires
        forall|system: SystemSelector| call_requires(solver, (system, init)),
    ensures
        match system_named(sys@) {
            Some(system) => is_integration_of(solver, system, init, out),
            None => out matches Err(AnalysisError::UnrecognizedSystem),
        },
{
    match select_system(sys) {
        Ok(SystemSelector::Lorentz(system)) => integrate_lorentz(system, init, solver),
        Ok(SystemSelector::Rossler(system)) => integrate_rossler(system, init, solver),
        Err(e) => Err(e),
    }
}

} // verus!
