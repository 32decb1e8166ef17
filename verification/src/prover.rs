//! Running a circuit through an assignment session and checking the result.

use crate::constraint_system::ConstraintSystem;
use crate::constraint_system::ConstraintSystemView;
use crate::failure::failures_view;
use crate::failure::VerifyFailure;
use crate::field::Fp;
use crate::layouter::instance_view;
use crate::layouter::Layouter;
use crate::session::agrees;
use crate::session::Error;
use crate::session::Outcome;
use crate::session::Session;
use vstd::prelude::*;

verus! {

/// A circuit: how it is described, and how its witness is assigned.
pub trait Circuit: Sized {
    /// What the circuit's description hands to its synthesis: mostly the
    /// handles of its columns and selectors.
    type Config;

    /// The description that `configure` makes of a description.
    spec fn configured(cs: ConstraintSystemView) -> ConstraintSystemView;

    /// Whether `config` is what `configure` returns for a description.
    spec fn describes(cs: ConstraintSystemView, config: Self::Config) -> bool;

    /// What `synthesize` makes of a session: how far it gets, and the error
    /// with which it gives up, if it does.
    spec fn synthesized(&self, config: Self::Config, session: Session) -> Outcome;

    /// Whether the circuit holds no witness: every value that it would
    /// assign is unknown or, where the circuit keeps plain numbers, zero.
    spec fn lacks_witnesses(&self) -> bool;

    /// The circuit with none of its witness values known.
    fn without_witnesses(&self) -> (r: Self)
        ensures
            r.lacks_witnesses(),
    ;

    /// Describes the circuit: allocates its columns and selectors and
    /// registers its gates and lookups. Called once, before any witness
    /// exists.
    fn configure(meta: &mut ConstraintSystem) -> (config: Self::Config)
        ensures
            final(meta)@ == Self::configured(old(meta)@),
            Self::describes(old(meta)@, config),
    ;

    /// Assigns the witness. Called once for each session.
    fn synthesize(&self, config: Self::Config, layouter: &mut Layouter) -> (r: Result<(), Error>)
        requires
            old(layouter).wf(),
        ensures
            final(layouter).wf(),
            agrees(self.synthesized(config, old(layouter)@), r, final(layouter)@),
    ;
}

/// A circuit that was run through a session, ready to be checked.
#[derive(Debug)]
pub struct MockProver {
    layouter: Layouter,
}

impl View for MockProver {
    type V = Session;

    closed spec fn view(&self) -> Session {
        self.layouter@
    }
}

impl MockProver {
    /// The invariant of the prover's representation.
    pub closed spec fn wf(&self) -> bool {
        self.layouter.wf()
    }

    /// Describes a circuit, starts a session of `2^k` rows on the
    /// description with the public inputs, one sequence for each instance
    /// column, and has the circuit assign its witness.
    pub fn run<C: Circuit>(k: u32, circuit: &C, instance: Vec<Vec<Fp>>) -> (r: Result<
        MockProver,
        Error,
    >)
        ensures
            r matches Ok(prover) ==> prover.wf(),
            exists|config: C::Config|
                C::describes(ConstraintSystemView::empty(), config) && MockProver::agrees(
                    MockProver::ran(circuit, config, k, instance_view(instance@), false),
                    r,
                ),
    {
        MockProver::run_in_mode(k, circuit, instance, false)
    }

    /// Runs a circuit as `run` does, in a pass that only lays the circuit
    /// out: values that are not known are passed over when the result is
    /// checked. It is meant for a circuit without its witnesses.
    pub fn dry_run<C: Circuit>(k: u32, circuit: &C, instance: Vec<Vec<Fp>>) -> (r: Result<
        MockProver,
        Error,
    >)
        ensures
            r matches Ok(prover) ==> prover.wf(),
            exists|config: C::Config|
                C::describes(ConstraintSystemView::empty(), config) && MockProver::agrees(
                    MockProver::ran(circuit, config, k, instance_view(instance@), true),
                    r,
                ),
    {
        MockProver::run_in_mode(k, circuit, instance, true)
    }

    /// Runs a circuit in a pass of the given kind.
    fn run_in_mode<C: Circuit>(k: u32, circuit: &C, instance: Vec<Vec<Fp>>, dry_run: bool) -> (r:
        Result<MockProver, Error>)
        ensures
            r matches Ok(prover) ==> prover.wf(),
            exists|config: C::Config|
                C::describes(ConstraintSystemView::empty(), config) && MockProver::agrees(
                    MockProver::ran(circuit, config, k, instance_view(instance@), dry_run),
                    r,
                ),
    {
        let mut cs = ConstraintSystem::new();
        let config = C::configure(&mut cs);
        let ghost model = MockProver::ran(circuit, config, k, instance_view(instance@), dry_run);
        let mut layouter = match Layouter::new(cs, k, instance, dry_run) {
            Ok(layouter) => layouter,
            Err(e) => {
                assert(MockProver::agrees(model, Err::<MockProver, Error>(e)));
                return Err(e);
            },
        };
        match circuit.synthesize(config, &mut layouter) {
            Ok(_) => {
                let prover = MockProver { layouter };
                assert(MockProver::agrees(model, Ok::<MockProver, Error>(prover)));
                Ok(prover)
            },
            Err(e) => {
                assert(MockProver::agrees(model, Err::<MockProver, Error>(e)));
                Err(e)
            },
        }
    }

    /// What a run reports, held against its model: on success the model
    /// gives the prover's session, on failure it gives the error.
    pub open spec fn agrees(model: Result<Session, Error>, result: Result<MockProver, Error>) -> bool {
        match result {
            Ok(prover) => model == Ok::<Session, Error>(prover@),
            Err(e) => model == Err::<Session, Error>(e),
        }
    }

    /// What running a circuit gives: the session that its synthesis leaves,
    /// or the error of starting the session or of the synthesis.
    pub open spec fn ran<C: Circuit>(
        circuit: &C,
        config: C::Config,
        k: u32,
        instance: Seq<Seq<nat>>,
        dry_run: bool,
    ) -> Result<Session, Error> {
        let cs = C::configured(ConstraintSystemView::empty());
        match Session::initial_error(cs, k, instance) {
            Some(e) => Err(e),
            None => circuit.synthesized(config, Session::initial(cs, k, instance, dry_run)).result(),
        }
    }

    /// Checks the witness against the circuit and reports everything that
    /// is wrong with it.
    pub fn verify(&self) -> (r: Result<(), Vec<VerifyFailure>>)
        requires
            self.wf(),
        ensures
            match r {
                Ok(_) => self@.failures().len() == 0,
                Err(found) => found.len() > 0 && failures_view(found@) == self@.failures(),
            },
    {
        self.layouter.verify()
    }
}

} // verus!
