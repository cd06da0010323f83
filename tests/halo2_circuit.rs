use halo2_proofs::{
    circuit::{floor_planner::V1, Layouter, Value},
    dev::MockProver,
    pasta::Fp,
    plonk::{
        create_proof, keygen_pk, keygen_vk, verify_proof, Advice, Circuit, Column,
        ConstraintSystem, Error, Expression, Selector, SingleVerifier, TableColumn,
    },
    poly::{commitment::Params, Rotation},
    transcript::{Blake2bRead, Blake2bWrite, Challenge255},
};
use pasta_curves::{vesta, EqAffine};
use rand_core::OsRng;

use range_check::config::{Layout, RangeCheckConfig};
use range_check::expression::{copy_expr, lookup_input, lower, range_gate};
use range_check::poly::Poly;

#[derive(Clone, Debug)]
struct Chip {
    q_range_check: Selector,
    q_lookup: Selector,
    value: Column<Advice>,
    table: TableColumn,
}

/// One value placed by the range-check gate (`LOOKUP == false`) or by the lookup.
#[derive(Default, Clone)]
struct TestCircuit<const RANGE: u64, const LOOKUP_RANGE: u64, const LOOKUP: bool> {
    value: Option<u64>,
}

impl<const RANGE: u64, const LOOKUP_RANGE: u64, const LOOKUP: bool> Circuit<Fp>
    for TestCircuit<RANGE, LOOKUP_RANGE, LOOKUP>
{
    type Config = Chip;
    type FloorPlanner = V1;

    fn without_witnesses(&self) -> Self {
        Self::default()
    }

    fn configure(meta: &mut ConstraintSystem<Fp>) -> Chip {
        let gadget = RangeCheckConfig::<RANGE, LOOKUP_RANGE>::configure();
        let value = meta.advice_column();
        let q_range_check = meta.selector();
        let q_lookup = meta.complex_selector();
        let table = meta.lookup_table_column();
        let instance = meta.instance_column();
        meta.enable_equality(instance);
        meta.create_gate("range check", |meta| {
            let q = meta.query_selector(q_range_check);
            let v = meta.query_advice(value, Rotation::cur());
            vec![range_gate(q, &v, &gadget.gate)]
        });
        meta.lookup(|meta| {
            let q = meta.query_selector(q_lookup);
            let v = meta.query_advice(value, Rotation::cur());
            vec![(lookup_input(q, v), table)]
        });
        Chip { q_range_check, q_lookup, value, table }
    }

    fn synthesize(&self, config: Chip, mut layouter: impl Layouter<Fp>) -> Result<(), Error> {
        let gadget = RangeCheckConfig::<RANGE, LOOKUP_RANGE>::configure();
        let values = gadget.table.values();
        layouter.assign_table(
            || "table",
            |mut table| {
                for (offset, v) in values.iter().enumerate() {
                    table.assign_cell(|| "value", config.table, offset, || Value::known(Fp::from(*v)))?;
                }
                Ok(())
            },
        )?;
        let mut layout = Layout::new(16);
        if LOOKUP {
            assert!(gadget.assign_lookup(&mut layout, self.value).is_ok());
        } else {
            assert!(gadget.assign_simple(&mut layout, self.value).is_ok());
        }
        for row in layout.rows.iter() {
            let value = match row.value {
                Some(v) => Value::known(Fp::from(v)),
                None => Value::unknown(),
            };
            layouter.assign_region(
                || "value",
                |mut region| {
                    if row.q_range_check {
                        config.q_range_check.enable(&mut region, 0)?;
                    }
                    if row.q_lookup {
                        config.q_lookup.enable(&mut region, 0)?;
                    }
                    region.assign_advice(|| "value", config.value, 0, || value)?;
                    Ok(())
                },
            )?;
        }
        Ok(())
    }
}

fn mock_ok<C: Circuit<Fp>>(circuit: &C) -> bool {
    MockProver::run(9, circuit, vec![vec![]]).unwrap().verify().is_ok()
}

#[test]
fn halo2_gate_accepts_seven_below_sixteen() {
    assert!(mock_ok(&TestCircuit::<16, 8, false> { value: Some(7) }));
}

#[test]
fn halo2_gate_rejects_sixteen_below_sixteen() {
    assert!(!mock_ok(&TestCircuit::<16, 8, false> { value: Some(16) }));
}

#[test]
fn halo2_lookup_accepts_seven_in_table_of_eight() {
    assert!(mock_ok(&TestCircuit::<16, 8, true> { value: Some(7) }));
}

#[test]
fn halo2_lookup_rejects_nine_in_table_of_eight() {
    assert!(!mock_ok(&TestCircuit::<16, 8, true> { value: Some(9) }));
}

#[test]
fn halo2_gate_agrees_with_library_on_small_range() {
    for v in 0..8u64 {
        let expected = v < 4;
        assert_eq!(mock_ok(&TestCircuit::<4, 8, false> { value: Some(v) }), expected, "value {}", v);
    }
}

fn prove(params: &Params<EqAffine>, circuit: TestCircuit<4, 8, false>) -> Vec<u8> {
    let keygen_circuit = circuit.without_witnesses();
    let vk = keygen_vk(params, &keygen_circuit).unwrap();
    let pk = keygen_pk(params, vk, &keygen_circuit).unwrap();
    let mut transcript = Blake2bWrite::<_, vesta::Affine, Challenge255<_>>::init(vec![]);
    create_proof(params, &pk, &[circuit], &[&[&[]]], &mut OsRng, &mut transcript).unwrap();
    transcript.finalize()
}

#[test]
fn halo2_proof_of_in_range_value_verifies() {
    let params: Params<EqAffine> = Params::new(6);
    let proof = prove(&params, TestCircuit::<4, 8, false> { value: Some(3) });

    let vk = keygen_vk(&params, &TestCircuit::<4, 8, false>::default()).unwrap();
    let mut transcript = Blake2bRead::<_, vesta::Affine, Challenge255<_>>::init(&proof[..]);
    let ok = verify_proof(&params, &vk, SingleVerifier::new(&params), &[&[&[]]], &mut transcript);
    assert!(ok.is_ok());

    let other_vk = keygen_vk(&params, &TestCircuit::<4, 8, true>::default()).unwrap();
    let mut transcript = Blake2bRead::<_, vesta::Affine, Challenge255<_>>::init(&proof[..]);
    let bad = verify_proof(&params, &other_vk, SingleVerifier::new(&params), &[&[&[]]], &mut transcript);
    assert!(bad.is_err());
}

#[test]
fn halo2_keygen_without_witnesses_serves_any_in_range_value() {
    let params: Params<EqAffine> = Params::new(6);
    let vk = keygen_vk(&params, &TestCircuit::<4, 8, false>::default()).unwrap();
    for v in [0u64, 3] {
        let proof = prove(&params, TestCircuit::<4, 8, false> { value: Some(v) });
        let mut transcript = Blake2bRead::<_, vesta::Affine, Challenge255<_>>::init(&proof[..]);
        let ok = verify_proof(&params, &vk, SingleVerifier::new(&params), &[&[&[]]], &mut transcript);
        assert!(ok.is_ok(), "value {}", v);
    }
}

#[test]
fn lowered_constants_are_their_field_elements() {
    let value = Expression::Advice { query_index: 0, column_index: 0, rotation: Rotation::cur() };
    match lower(&Poly::Constant(5), &value) {
        Expression::Constant(c) => assert_eq!(c, Fp::from(5)),
        _ => panic!("a constant must lower to a constant"),
    }
    match lower(&Poly::Sub(Box::new(Poly::Constant(3)), Box::new(Poly::Value)), &value) {
        Expression::Sum(a, b) => {
            assert!(matches!(*a, Expression::Constant(c) if c == Fp::from(3)));
            assert!(matches!(*b, Expression::Negated(v) if matches!(*v, Expression::Advice { .. })));
        }
        _ => panic!("a difference must lower to a sum"),
    }
}

#[test]
fn copy_keeps_every_variant() {
    let e = Expression::Scaled(
        Box::new(Expression::Product(
            Box::new(Expression::Advice { query_index: 1, column_index: 2, rotation: Rotation(3) }),
            Box::new(Expression::Negated(Box::new(Expression::Constant(Fp::from(7))))),
        )),
        Fp::from(9),
    );
    assert_eq!(format!("{:?}", copy_expr(&e)), format!("{:?}", e));
}
