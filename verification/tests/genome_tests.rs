use evo_core::genome::{Op, SeedSource, SparseNeuralNetGenome};

const IDENTITY: u32 = 0;
const SIGMOIDAL: u32 = 1;
const PLUS_ONE: u32 = 2;

#[test]
fn connect_node_appends_bias_connections_and_transfer() {
    let mut genome: SparseNeuralNetGenome<f32, u32> = SparseNeuralNetGenome::new(IDENTITY);
    genome.connect_node(2, 0.5, &vec![(0, 0.5)]);
    assert_eq!(
        *genome.ops(),
        vec![
            Op::Bias { value_index: 2, bias: 0.5 },
            Op::Connection { from_value_index: 0, to_value_index: 2, weight: 0.5 },
            Op::Transfer { value_index: 2, transfer_fn: IDENTITY },
        ]
    );
    assert_eq!(genome.num_nodes(), 3);
}

#[test]
fn num_nodes_covers_every_index_mentioned() {
    let mut genome: SparseNeuralNetGenome<f32, u32> = SparseNeuralNetGenome::new(IDENTITY);
    genome.connect_node(3, 0.0, &vec![(0, 0.75), (6, 0.25)]);
    assert_eq!(genome.num_nodes(), 7);
    genome.connect_node(1, 0.0, &vec![]);
    assert_eq!(genome.num_nodes(), 7);
}

#[test]
fn connect_output_layer_wires_every_output_to_every_input() {
    let mut genome: SparseNeuralNetGenome<f32, u32> = SparseNeuralNetGenome::new(IDENTITY);
    genome.connect_output_layer(2, 2, 0.5, 0.25);
    assert_eq!(
        *genome.ops(),
        vec![
            Op::Bias { value_index: 2, bias: 0.5 },
            Op::Connection { from_value_index: 0, to_value_index: 2, weight: 0.25 },
            Op::Connection { from_value_index: 1, to_value_index: 2, weight: 0.25 },
            Op::Transfer { value_index: 2, transfer_fn: IDENTITY },
            Op::Bias { value_index: 3, bias: 0.5 },
            Op::Connection { from_value_index: 0, to_value_index: 3, weight: 0.25 },
            Op::Connection { from_value_index: 1, to_value_index: 3, weight: 0.25 },
            Op::Transfer { value_index: 3, transfer_fn: IDENTITY },
        ]
    );
    assert_eq!(genome.num_nodes(), 4);
}

#[test]
fn spawn_unmutated() {
    let mut genome: SparseNeuralNetGenome<f32, u32> = SparseNeuralNetGenome::new(SIGMOIDAL);
    genome.connect_node(1, 0.0, &vec![(0, 1.0), (2, 2.0)]);
    genome.connect_node(2, 0.0, &vec![(1, 1.0)]);

    let copy = genome.spawn(&genome.coefficients());

    assert_eq!(*copy.ops(), *genome.ops());
    assert_eq!(copy.transfer_fn(), SIGMOIDAL);
    assert_eq!(copy.num_nodes(), genome.num_nodes());
}

#[test]
fn spawn_with_mutated_weights() {
    let mut genome: SparseNeuralNetGenome<f32, u32> = SparseNeuralNetGenome::new(SIGMOIDAL);
    genome.connect_node(2, 1.5, &vec![(0, 1.0), (1, 2.0)]);

    assert_eq!(genome.coefficients(), vec![1.5, 1.0, 2.0]);
    let copy = genome.spawn(&vec![-0.5, 1.0, 2.25]);

    assert_eq!(
        *copy.ops(),
        vec![
            Op::Bias { value_index: 2, bias: -0.5 },
            Op::Connection { from_value_index: 0, to_value_index: 2, weight: 1.0 },
            Op::Connection { from_value_index: 1, to_value_index: 2, weight: 2.25 },
            Op::Transfer { value_index: 2, transfer_fn: SIGMOIDAL },
        ]
    );
}

fn run_ops(ops: &[Op<f32, u32>], values: &mut [f32]) {
    for op in ops {
        match *op {
            Op::Bias { value_index, bias } => values[value_index as usize] = bias,
            Op::Connection { from_value_index, to_value_index, weight } => {
                values[to_value_index as usize] += weight * values[from_value_index as usize];
            }
            Op::Transfer { value_index, transfer_fn } => {
                if transfer_fn == SIGMOIDAL {
                    let v = values[value_index as usize];
                    values[value_index as usize] = 1.0 / (1.0 + (-4.9 * v).exp());
                } else if transfer_fn == PLUS_ONE {
                    values[value_index as usize] += 1.0;
                }
            }
        }
    }
}

#[test]
fn op_list_evaluates_a_two_layer_net() {
    let mut genome: SparseNeuralNetGenome<f32, u32> = SparseNeuralNetGenome::new(PLUS_ONE);
    genome.connect_node(2, 0.5, &vec![(0, 0.5)]);
    genome.connect_node(3, 0.0, &vec![(0, 0.75), (1, 0.25)]);

    let mut values = vec![0.0_f32; genome.num_nodes() as usize];
    values[0] = 2.0;
    values[1] = 4.0;
    run_ops(genome.ops(), &mut values);

    assert_eq!(values[2], 2.5);
    assert_eq!(values[3], 3.5);
}

#[test]
fn op_list_supports_recurrent_reads() {
    let mut genome: SparseNeuralNetGenome<f32, u32> = SparseNeuralNetGenome::new(IDENTITY);
    genome.connect_node(1, 0.0, &vec![(0, 1.0), (2, 2.0)]);
    genome.connect_node(2, 0.0, &vec![(1, 1.0)]);

    let mut values = vec![0.0_f32; genome.num_nodes() as usize];
    values[0] = 1.0;
    run_ops(genome.ops(), &mut values);
    assert_eq!(values, vec![1.0, 1.0, 1.0]);

    values[0] = 0.0;
    run_ops(genome.ops(), &mut values);
    assert_eq!(values, vec![0.0, 2.0, 2.0]);
}

#[test]
fn same_seed_gives_the_same_child_seeds() {
    let mut s1 = SeedSource::new(42);
    let mut s2 = SeedSource::new(42);
    for _ in 0..8 {
        assert_eq!(s1.child_seed(), s2.child_seed());
    }
    let mut c1 = s1.spawn();
    let mut c2 = s2.spawn();
    assert_eq!(c1.child_seed(), c2.child_seed());
}

#[test]
fn child_seeds_depend_only_on_seed_and_position() {
    let mut s1 = SeedSource::new(7);
    let first = s1.child_seed();
    let second = s1.child_seed();
    assert_eq!(s1.seed(), 7);
    assert_eq!(s1.draws(), 2);

    let mut s2 = SeedSource::new(7);
    assert_eq!(s2.draws(), 0);
    assert_eq!(s2.child_seed(), first);
    assert_eq!(s2.child_seed(), second);
}

#[test]
fn different_seeds_diverge() {
    let mut s1 = SeedSource::new(1);
    let mut s2 = SeedSource::new(2);
    let a: Vec<u64> = (0..4).map(|_| s1.child_seed()).collect();
    let b: Vec<u64> = (0..4).map(|_| s2.child_seed()).collect();
    assert_ne!(a, b);
}
