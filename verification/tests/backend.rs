//! The library's verdicts held against those of `halo2_proofs`: each circuit
//! is described and assigned by the library, replayed into the backend, and
//! checked by both.

use std::collections::HashMap;

use ff::PrimeField;
use halo2_learn::constraint_system::ConstraintSystem as Description;
use halo2_learn::expression::Any as Kind;
use halo2_learn::expression::Column as Handle;
use halo2_learn::expression::Expression as Poly;
use halo2_learn::expression::Selector as Switch;
use halo2_learn::expression::TableColumn as TableHandle;
use halo2_learn::fibonacci;
use halo2_learn::field::Fp;
use halo2_learn::layouter::Layouter as Session;
use halo2_learn::prover::Circuit as Source;
use halo2_learn::range_check;
use halo2_learn::range_check::decompose_range_check::DecomposeRangeCheckCircuit;
use halo2_learn::session::Cell as Place;
use halo2_learn::value::Value as Witness;
use halo2_proofs::circuit::{Cell, Layouter, SimpleFloorPlanner, Value};
use halo2_proofs::dev::{MockProver, VerifyFailure};
use halo2_proofs::pasta::Fp as BackendFp;
use halo2_proofs::plonk::{
    Advice, Circuit, Column, ConstraintSystem, Error, Expression, Fixed, Instance, Selector,
    TableColumn, VirtualCells,
};
use halo2_proofs::poly::Rotation;

/// The backend's element for an element of the library.
fn to_backend(x: &Fp) -> BackendFp {
    BackendFp::from_raw(x.to_limbs())
}

/// The library's element for an element of the backend.
fn from_backend(x: &BackendFp) -> Fp {
    let bytes = x.to_repr();
    let mut limbs = [0u64; 4];
    for (i, limb) in limbs.iter_mut().enumerate() {
        let mut word = [0u8; 8];
        word.copy_from_slice(&bytes[8 * i..8 * i + 8]);
        *limb = u64::from_le_bytes(word);
    }
    match Fp::from_limbs(limbs) {
        Some(x) => x,
        None => panic!("the backend's representation of an element is canonical"),
    }
}

fn to_backend_value(value: Option<Witness>) -> Value<BackendFp> {
    match value {
        Some(Witness::Known(x)) => Value::known(to_backend(&x)),
        _ => Value::unknown(),
    }
}

/// A fixed column of the backend: a plain one, or one of a lookup table.
#[derive(Clone, Copy, Debug)]
enum FixedHandle {
    Plain(Column<Fixed>),
    Table(TableColumn),
}

/// The backend's columns and selectors, in the order of the library's.
#[derive(Clone, Debug)]
struct BackendConfig {
    advice: Vec<Column<Advice>>,
    fixed: Vec<FixedHandle>,
    instance: Vec<Column<Instance>>,
    selectors: Vec<Selector>,
}

/// A circuit of the library with what a session on it needs: the logarithm
/// of the number of rows, and the public inputs.
struct BackendCircuit<C> {
    circuit: C,
    k: u32,
    instance: Vec<Vec<Fp>>,
}

fn convert(
    cells: &mut VirtualCells<'_, BackendFp>,
    config: &BackendConfig,
    poly: &Poly,
) -> Expression<BackendFp> {
    match poly {
        Poly::Constant(c) => Expression::Constant(to_backend(c)),
        Poly::Query(column, rotation) => match column.kind {
            Kind::Advice => match config.advice.get(column.index) {
                Some(advice) => cells.query_advice(*advice, Rotation(rotation.0)),
                None => Expression::Constant(BackendFp::zero()),
            },
            Kind::Fixed => match config.fixed.get(column.index) {
                Some(FixedHandle::Plain(fixed)) if rotation.0 == 0 => cells.query_fixed(*fixed),
                Some(FixedHandle::Plain(_)) => {
                    panic!("the backend queries a fixed column on the row itself only")
                }
                Some(FixedHandle::Table(_)) => {
                    panic!("the backend queries a table column in lookups only")
                }
                None => Expression::Constant(BackendFp::zero()),
            },
            Kind::Instance => match config.instance.get(column.index) {
                Some(instance) => cells.query_instance(*instance, Rotation(rotation.0)),
                None => Expression::Constant(BackendFp::zero()),
            },
        },
        Poly::Selector(selector) => match config.selectors.get(selector.index) {
            Some(selector) => cells.query_selector(*selector),
            None => Expression::Constant(BackendFp::zero()),
        },
        Poly::Negate(a) => -convert(cells, config, a),
        Poly::Sum(a, b) => convert(cells, config, a) + convert(cells, config, b),
        Poly::Product(a, b) => convert(cells, config, a) * convert(cells, config, b),
        Poly::Scaled(c, a) => convert(cells, config, a) * to_backend(c),
    }
}

fn key(place: &Place) -> Option<(bool, usize, usize)> {
    match place.column.kind {
        Kind::Advice => Some((false, place.column.index, place.row)),
        Kind::Fixed => Some((true, place.column.index, place.row)),
        Kind::Instance => None,
    }
}

impl<C: Source> Circuit<BackendFp> for BackendCircuit<C> {
    type Config = BackendConfig;
    type FloorPlanner = SimpleFloorPlanner;

    fn without_witnesses(&self) -> Self {
        BackendCircuit {
            circuit: self.circuit.without_witnesses(),
            k: self.k,
            instance: self.instance.clone(),
        }
    }

    fn configure(meta: &mut ConstraintSystem<BackendFp>) -> BackendConfig {
        let mut description = Description::new();
        let _ = C::configure(&mut description);

        let advice: Vec<Column<Advice>> =
            description.advice.iter().map(|_| meta.advice_column()).collect();
        let fixed: Vec<FixedHandle> = description
            .fixed
            .iter()
            .map(|column| match column.table_rows {
                Some(_) => FixedHandle::Table(meta.lookup_table_column()),
                None => FixedHandle::Plain(meta.fixed_column()),
            })
            .collect();
        let instance: Vec<Column<Instance>> =
            description.instance.iter().map(|_| meta.instance_column()).collect();
        let selectors: Vec<Selector> = description
            .selectors
            .iter()
            .map(|simple| if *simple { meta.selector() } else { meta.complex_selector() })
            .collect();

        for (index, enabled) in description.advice.iter().enumerate() {
            if *enabled {
                meta.enable_equality(advice[index]);
            }
        }
        for (index, column) in description.fixed.iter().enumerate() {
            if let (true, FixedHandle::Plain(plain)) = (column.equality, fixed[index]) {
                meta.enable_equality(plain);
            }
        }
        for (index, enabled) in description.instance.iter().enumerate() {
            if *enabled {
                meta.enable_equality(instance[index]);
            }
        }

        let config = BackendConfig { advice, fixed, instance, selectors };
        for gate in description.gates.iter().filter(|gate| !gate.constraints.is_empty()) {
            meta.create_gate(gate.name, |cells| {
                gate.constraints
                    .iter()
                    .map(|c| (c.name, convert(cells, &config, &c.poly)))
                    .collect::<Vec<_>>()
            });
        }
        for lookup in description.lookups.iter() {
            meta.lookup(|cells| {
                lookup
                    .inputs
                    .iter()
                    .map(|input| match config.fixed.get(input.table.index) {
                        Some(FixedHandle::Table(table)) => {
                            (convert(cells, &config, &input.input), *table)
                        }
                        _ => panic!("a lookup refers to a column that is no table column"),
                    })
                    .collect()
            });
        }
        config
    }

    fn synthesize(
        &self,
        config: BackendConfig,
        mut layouter: impl Layouter<BackendFp>,
    ) -> Result<(), Error> {
        // Let the library assign the witness.
        let mut description = Description::new();
        let own_config = C::configure(&mut description);
        let mut session = Session::new(description, self.k, self.instance.clone(), false)
            .map_err(|_| Error::Synthesis)?;
        self.circuit.synthesize(own_config, &mut session).map_err(|_| Error::Synthesis)?;
        let session = &session;
        let description = session.constraint_system();

        // The tables.
        for (index, handle) in config.fixed.iter().enumerate() {
            let (table, start) = match (handle, session.table_start(TableHandle { index })) {
                (FixedHandle::Table(table), Some(start)) => (*table, start),
                _ => continue,
            };
            let rows = description.fixed[index].table_rows.unwrap_or(0);
            let column = Handle { kind: Kind::Fixed, index };
            layouter.assign_table(
                || "table",
                |mut cells| {
                    for offset in 0..rows {
                        let value = to_backend_value(session.read(column, start + offset));
                        cells.assign_cell(|| "table cell", table, offset, || value)?;
                    }
                    Ok(())
                },
            )?;
        }

        // The cells and selectors, in one region that spans the usable rows,
        // and the copy constraints among them.
        let cells = layouter.assign_region(
            || "witness",
            |mut region| {
                let mut cells: HashMap<(bool, usize, usize), Cell> = HashMap::new();
                for row in 0..session.usable_rows() {
                    for (index, advice) in config.advice.iter().enumerate() {
                        let value = session.read(Handle { kind: Kind::Advice, index }, row);
                        if value.is_some() {
                            let value = to_backend_value(value);
                            let cell = region.assign_advice(|| "advice", *advice, row, || value)?;
                            cells.insert((false, index, row), cell.cell());
                        }
                    }
                    for (index, fixed) in config.fixed.iter().enumerate() {
                        let value = session.read(Handle { kind: Kind::Fixed, index }, row);
                        if let (FixedHandle::Plain(fixed), true) = (fixed, value.is_some()) {
                            let value = to_backend_value(value);
                            let cell = region.assign_fixed(|| "fixed", *fixed, row, || value)?;
                            cells.insert((true, index, row), cell.cell());
                        }
                    }
                    for (index, selector) in config.selectors.iter().enumerate() {
                        let switch = Switch { index, simple: description.selectors[index] };
                        if session.selector_enabled(switch, row) {
                            selector.enable(&mut region, row)?;
                        }
                    }
                }
                for (a, b) in session.copies().iter() {
                    if let (Some(a), Some(b)) = (key(a), key(b)) {
                        match (cells.get(&a), cells.get(&b)) {
                            (Some(left), Some(right)) => region.constrain_equal(*left, *right)?,
                            _ => return Err(Error::Synthesis),
                        }
                    }
                }
                Ok(cells)
            },
        )?;

        // The bindings to public inputs.
        for (a, b) in session.copies().iter() {
            let (place, input) = match (key(a), key(b)) {
                (Some(place), None) => (place, b),
                (None, Some(place)) => (place, a),
                (None, None) => return Err(Error::Synthesis),
                (Some(_), Some(_)) => continue,
            };
            match (cells.get(&place), config.instance.get(input.column.index)) {
                (Some(cell), Some(instance)) => {
                    layouter.constrain_instance(*cell, *instance, input.row)?
                }
                _ => return Err(Error::Synthesis),
            }
        }
        Ok(())
    }
}

/// Has the backend check a circuit of the library.
fn verify_with_backend<C: Source>(
    k: u32,
    circuit: C,
    instance: Vec<Vec<Fp>>,
) -> Result<Result<(), Vec<VerifyFailure>>, Error> {
    let public: Vec<Vec<BackendFp>> =
        instance.iter().map(|column| column.iter().map(to_backend).collect()).collect();
    let circuit = BackendCircuit { circuit, k, instance };
    let prover = MockProver::run(k, &circuit, public)?;
    Ok(prover.verify())
}

/// Checks a circuit with the library and with the backend, and returns the
/// library's verdict once the two agree on whether the circuit is satisfied.
fn both<C: Source + Clone>(k: u32, circuit: C, instance: Vec<Vec<Fp>>) -> bool {
    let own = halo2_learn::prover::MockProver::run(k, &circuit, instance.clone())
        .unwrap()
        .verify();
    let backend = verify_with_backend(k, circuit, instance).unwrap();
    assert_eq!(own.is_ok(), backend.is_ok(), "{:?} against {:?}", own, backend);
    own.is_ok()
}

#[test]
fn backend_agrees_on_fibonacci() {
    let input = |out: u64| vec![vec![Fp::from_u64(1), Fp::from_u64(1), Fp::from_u64(out)]];
    assert!(both(4, fibonacci::example1::MyCircuit, input(55)));
    assert!(!both(4, fibonacci::example1::MyCircuit, input(56)));
    assert!(both(4, fibonacci::example2::MyCircuit, input(55)));
    assert!(!both(4, fibonacci::example2::MyCircuit, input(56)));
    for (a, b) in [(10, 12), (12, 12), (0, 1)] {
        let circuit = fibonacci::example3::FunctionCircuit {
            a: Fp::from_u64(a),
            b: Fp::from_u64(b),
            c: Fp::from_u64(15),
        };
        assert!(both(4, circuit, vec![]));
    }
}

#[test]
fn backend_agrees_on_range_checks() {
    for v in 0..10 {
        let circuit = range_check::example1b::MyCircuit::<8> { assigned_value: Witness::known(Fp::from_u64(v)) };
        assert_eq!(both(4, circuit, vec![]), v < 8);
    }
    for (simple, lookup) in [(0, 0), (7, 255), (8, 255), (7, 256), (3, 1000)] {
        let circuit = range_check::example2::MyCircuit::<8, 256> {
            simple_value: Witness::known(Fp::from_u64(simple)),
            lookup_value: Witness::known(Fp::from_u64(lookup)),
        };
        assert_eq!(both(9, circuit, vec![]), simple < 8 && lookup < 256);
    }
    for (num_bits, value) in [(1, 0), (1, 1), (2, 3), (3, 3), (8, 255), (8, 256), (2, 5)] {
        let circuit = range_check::example3::MyCircuit::<8, 256> {
            num_bits: Some(num_bits),
            value: Witness::known(Fp::from_u64(value)),
        };
        let tag = if value == 0 { 1 } else { 64 - (value as u64).leading_zeros() };
        assert_eq!(both(9, circuit, vec![]), value < 256 && tag == num_bits as u32);
    }
    for value in [0u128, 1, 10, 64, (1 << 24) - 1, 1 << 24, (1 << 24) + 72] {
        assert_eq!(both(10, DecomposeRangeCheckCircuit { value }, vec![]), value < 1 << 24);
    }
}

#[test]
fn field_elements_pass_to_the_backend_and_back() {
    for x in [Fp::zero(), Fp::one(), Fp::from_u64(u64::MAX), Fp::zero().sub(&Fp::one())] {
        assert_eq!(from_backend(&to_backend(&x)), x);
    }
    let sum = to_backend(&Fp::from_u64(3)) + to_backend(&Fp::from_u64(4));
    assert_eq!(from_backend(&sum), Fp::from_u64(7));
    assert_eq!(Fp::from_limbs([0, 0, 0, 0x4000_0000_0000_0000]).map(|x| x.to_limbs()), Some([0, 0, 0, 0x4000_0000_0000_0000]));
    // The modulus itself is no element, its predecessor is.
    let modulus = [0x992d_30ed_0000_0001, 0x2246_98fc_094c_f91b, 0, 0x4000_0000_0000_0000];
    assert_eq!(Fp::from_limbs(modulus), None);
    let last = [0x992d_30ed_0000_0000, 0x2246_98fc_094c_f91b, 0, 0x4000_0000_0000_0000];
    assert_eq!(Fp::from_limbs(last), Some(Fp::zero().sub(&Fp::one())));
    assert_eq!(Fp::from_limbs([0, 0, 1, 0x4000_0000_0000_0000]), None);
    assert_eq!(Fp::from_limbs([u64::MAX; 4]), None);
}
