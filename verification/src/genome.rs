//! The sparse operation-list genome of a cell's neural controller. A genome
//! is an ordered list of ops over indexed node values: set a bias, add a
//! weighted connection, apply a transfer function. Evaluation applies the ops
//! in order over a flat buffer, so the structure here fixes the computation
//! completely; the buffer arithmetic itself runs in the front end, as do the
//! mutated coefficients a child genome is spawned with. Coefficient and
//! transfer-function types are parameters.

use vstd::prelude::*;

verus! {

#[derive(Clone, Copy, Debug, PartialEq)]
pub enum Op<C, F> {
    Bias { value_index: u16, bias: C },
    Connection { from_value_index: u16, to_value_index: u16, weight: C },
    Transfer { value_index: u16, transfer_fn: F },
}

/// The mutable coefficient of an op: a bias or a connection weight. Transfer
/// ops carry none.
pub open spec fn op_coefficient<C, F>(op: Op<C, F>) -> Option<C> {
    match op {
        Op::Bias { value_index, bias } => Some(bias),
        Op::Connection { from_value_index, to_value_index, weight } => Some(weight),
        Op::Transfer { value_index, transfer_fn } => None,
    }
}

/// The same op with its coefficient replaced; a transfer op is unchanged.
pub open spec fn with_coefficient<C, F>(op: Op<C, F>, c: C) -> Op<C, F> {
    match op {
        Op::Bias { value_index, bias } => Op::Bias { value_index, bias: c },
        Op::Connection { from_value_index, to_value_index, weight } => Op::Connection {
            from_value_index,
            to_value_index,
            weight: c,
        },
        Op::Transfer { value_index, transfer_fn } => Op::Transfer { value_index, transfer_fn },
    }
}

/// The coefficients of an op list, in op order.
pub open spec fn spec_coefficients<C, F>(ops: Seq<Op<C, F>>) -> Seq<C>
    decreases ops.len(),
{
    if ops.len() == 0 {
        Seq::empty()
    } else {
        let rest = spec_coefficients(ops.drop_last());
        match op_coefficient(ops.last()) {
            Some(c) => rest.push(c),
            None => rest,
        }
    }
}

/// The op list with its coefficients replaced, in order, by `cs`.
pub open spec fn spec_spawn<C, F>(ops: Seq<Op<C, F>>, cs: Seq<C>) -> Seq<Op<C, F>>
    decreases ops.len(),
{
    if ops.len() == 0 {
        Seq::empty()
    } else {
        match op_coefficient(ops.last()) {
            Some(c) => spec_spawn(ops.drop_last(), cs.drop_last()).push(
                with_coefficient(ops.last(), cs.last()),
            ),
            None => spec_spawn(ops.drop_last(), cs).push(ops.last()),
        }
    }
}

/// `num_nodes` after one index has been observed.
pub open spec fn grown(num_nodes: u16, index: u16) -> u16 {
    if index as int + 1 > num_nodes as int {
        (index as int + 1) as u16
    } else {
        num_nodes
    }
}

/// `num_nodes` after every `from` index of a connection list has been
/// observed.
pub open spec fn grown_all<C>(num_nodes: u16, from_value_weights: Seq<(u16, C)>) -> u16
    decreases from_value_weights.len(),
{
    if from_value_weights.len() == 0 {
        num_nodes
    } else {
        grown(
            grown_all(num_nodes, from_value_weights.drop_last()),
            from_value_weights.last().0,
        )
    }
}

/// The ops that wire one target: its bias, one `weight` connection from
/// every input `0..num_inputs`, then the transfer function.
pub open spec fn spec_wired_target<C, F>(
    num_inputs: u16,
    to: u16,
    bias: C,
    weight: C,
    transfer_fn: F,
) -> Seq<Op<C, F>> {
    seq![Op::<C, F>::Bias { value_index: to, bias }] + Seq::new(
        num_inputs as nat,
        |k: int| Op::<C, F>::Connection {
            from_value_index: k as u16,
            to_value_index: to,
            weight,
        },
    ) + seq![Op::<C, F>::Transfer { value_index: to, transfer_fn }]
}

/// The ops that wire outputs `0..num_outputs`, living just above the
/// inputs, each fully connected to every input.
pub open spec fn spec_full_wiring<C, F>(
    num_inputs: u16,
    num_outputs: u16,
    bias: C,
    weight: C,
    transfer_fn: F,
) -> Seq<Op<C, F>>
    decreases num_outputs,
{
    if num_outputs == 0 {
        Seq::empty()
    } else {
        spec_full_wiring(num_inputs, (num_outputs - 1) as u16, bias, weight, transfer_fn)
            + spec_wired_target(
            num_inputs,
            (num_inputs + num_outputs - 1) as u16,
            bias,
            weight,
            transfer_fn,
        )
    }
}

/// Observing indices already below the node count grows nothing.
proof fn lemma_grown_all_no_growth<C>(num_nodes: u16, from_value_weights: Seq<(u16, C)>)
    requires
        forall|k: int| 0 <= k < from_value_weights.len()
            ==> (#[trigger] from_value_weights[k]).0 < num_nodes,
    ensures
        grown_all(num_nodes, from_value_weights) == num_nodes,
    decreases from_value_weights.len(),
{
    if from_value_weights.len() > 0 {
        lemma_grown_all_no_growth(num_nodes, from_value_weights.drop_last());
    }
}

pub struct SparseNeuralNetGenome<C, F> {
    ops: Vec<Op<C, F>>,
    transfer_fn: F,
    num_nodes: u16,
}

impl<C: Copy, F: Copy> SparseNeuralNetGenome<C, F> {
    pub closed spec fn ops_spec(&self) -> Seq<Op<C, F>> {
        self.ops@
    }

    pub closed spec fn transfer_fn_spec(&self) -> F {
        self.transfer_fn
    }

    pub closed spec fn num_nodes_spec(&self) -> u16 {
        self.num_nodes
    }

    pub fn new(transfer_fn: F) -> (g: Self)
        ensures
            g.ops_spec() == Seq::<Op<C, F>>::empty(),
            g.transfer_fn_spec() == transfer_fn,
            g.num_nodes_spec() == 0,
    {
        let g = SparseNeuralNetGenome { ops: Vec::new(), transfer_fn, num_nodes: 0 };
        proof {
            assert(g.ops@ =~= Seq::<Op<C, F>>::empty());
        }
        g
    }

    pub fn ops(&self) -> (ops: &Vec<Op<C, F>>)
        ensures
            ops@ == self.ops_spec(),
    {
        &self.ops
    }

    pub fn num_nodes(&self) -> (n: u16)
        ensures
            n == self.num_nodes_spec(),
    {
        self.num_nodes
    }

    pub fn transfer_fn(&self) -> (f: F)
        ensures
            f == self.transfer_fn_spec(),
    {
        self.transfer_fn
    }

    /// Appends the ops that compute one target value: its bias, one weighted
    /// connection per `(from, weight)` pair, then the transfer function.
    /// `num_nodes` grows to cover every index mentioned.
    pub fn connect_node(
        &mut self,
        to_value_index: u16,
        bias: C,
        from_value_weights: &Vec<(u16, C)>,
    )
        requires
            to_value_index < u16::MAX,
            forall|k: int| 0 <= k < from_value_weights@.len()
                ==> (#[trigger] from_value_weights@[k]).0 < u16::MAX,
        ensures
            final(self).ops_spec() == old(self).ops_spec()
                + seq![Op::<C, F>::Bias { value_index: to_value_index, bias }]
                + Seq::new(
                    from_value_weights@.len(),
                    |k: int| Op::<C, F>::Connection {
                        from_value_index: from_value_weights@[k].0,
                        to_value_index,
                        weight: from_value_weights@[k].1,
                    },
                )
                + seq![Op::<C, F>::Transfer {
                    value_index: to_value_index,
                    transfer_fn: old(self).transfer_fn_spec(),
                }],
            final(self).num_nodes_spec() == grown_all(
                grown(old(self).num_nodes_spec(), to_value_index),
                from_value_weights@,
            ),
            final(self).transfer_fn_spec() == old(self).transfer_fn_spec(),
    {
        self.grow_num_nodes_if_needed(to_value_index);
        self.ops.push(Op::Bias { value_index: to_value_index, bias });
        let ghost base_ops = self.ops@;
        let ghost base_num = self.num_nodes;
        let mut k: usize = 0;
        while k < from_value_weights.len()
            invariant
                k <= from_value_weights@.len(),
                forall|j: int| 0 <= j < from_value_weights@.len()
                    ==> (#[trigger] from_value_weights@[j]).0 < u16::MAX,
                self.ops@ == base_ops + Seq::new(
                    k as nat,
                    |j: int| Op::<C, F>::Connection {
                        from_value_index: from_value_weights@[j].0,
                        to_value_index,
                        weight: from_value_weights@[j].1,
                    },
                ),
                self.num_nodes == grown_all(base_num, from_value_weights@.subrange(0, k as int)),
                self.transfer_fn == old(self).transfer_fn,
            decreases from_value_weights@.len() - k,
        {
            let (from_value_index, weight) = from_value_weights[k];
            self.grow_num_nodes_if_needed(from_value_index);
            self.ops.push(Op::Connection { from_value_index, to_value_index, weight });
            proof {
                let f = from_value_weights@;
                assert(f.subrange(0, k + 1).drop_last() =~= f.subrange(0, k as int));
                assert(self.ops@ =~= base_ops + Seq::new(
                    (k + 1) as nat,
                    |j: int| Op::<C, F>::Connection {
                        from_value_index: f[j].0,
                        to_value_index,
                        weight: f[j].1,
                    },
                ));
            }
            k = k + 1;
        }
        self.ops.push(
            Op::Transfer { value_index: to_value_index, transfer_fn: self.transfer_fn },
        );
        proof {
            let f = from_value_weights@;
            assert(f.subrange(0, f.len() as int) =~= f);
            assert(self.ops@ =~= old(self).ops@
                + seq![Op::<C, F>::Bias { value_index: to_value_index, bias }]
                + Seq::new(
                    f.len(),
                    |j: int| Op::<C, F>::Connection {
                        from_value_index: f[j].0,
                        to_value_index,
                        weight: f[j].1,
                    },
                )
                + seq![Op::<C, F>::Transfer {
                    value_index: to_value_index,
                    transfer_fn: old(self).transfer_fn,
                }]);
        }
    }

    /// Appends a fully connected output layer: each of the `num_outputs`
    /// targets, at indices `num_inputs..num_inputs + num_outputs`, gets
    /// `bias` and one `weight` connection from every input `0..num_inputs`.
    pub fn connect_output_layer(&mut self, num_inputs: u16, num_outputs: u16, bias: C, weight: C)
        requires
            num_inputs as int + num_outputs as int <= u16::MAX as int,
        ensures
            final(self).ops_spec() == old(self).ops_spec() + spec_full_wiring(
                num_inputs,
                num_outputs,
                bias,
                weight,
                old(self).transfer_fn_spec(),
            ),
            final(self).transfer_fn_spec() == old(self).transfer_fn_spec(),
            final(self).num_nodes_spec() == (if num_outputs == 0 {
                old(self).num_nodes_spec()
            } else if old(self).num_nodes_spec() as int >= num_inputs as int + num_outputs as int {
                old(self).num_nodes_spec()
            } else {
                (num_inputs + num_outputs) as u16
            }),
    {
        let mut inputs: Vec<(u16, C)> = Vec::new();
        let mut k: u16 = 0;
        while k < num_inputs
            invariant
                k <= num_inputs,
                inputs@.len() == k as nat,
                forall|t: int| 0 <= t < k ==> #[trigger] inputs@[t] == (t as u16, weight),
            decreases num_inputs - k,
        {
            inputs.push((k, weight));
            k = k + 1;
        }
        let mut o: u16 = 0;
        proof {
            assert(self.ops@ =~= old(self).ops@ + spec_full_wiring(
                num_inputs,
                0,
                bias,
                weight,
                old(self).transfer_fn,
            ));
        }
        while o < num_outputs
            invariant
                num_inputs as int + num_outputs as int <= u16::MAX as int,
                o <= num_outputs,
                inputs@.len() == num_inputs as nat,
                forall|t: int| 0 <= t < num_inputs ==> #[trigger] inputs@[t] == (t as u16, weight),
                self.transfer_fn == old(self).transfer_fn,
                self.ops@ == old(self).ops@ + spec_full_wiring(
                    num_inputs,
                    o,
                    bias,
                    weight,
                    old(self).transfer_fn,
                ),
                self.num_nodes == (if o == 0 {
                    old(self).num_nodes
                } else if old(self).num_nodes as int >= num_inputs as int + o as int {
                    old(self).num_nodes
                } else {
                    (num_inputs + o) as u16
                }),
            decreases num_outputs - o,
        {
            let to = num_inputs + o;
            let ghost pre = *self;
            self.connect_node(to, bias, &inputs);
            proof {
                assert(Seq::new(
                    inputs@.len(),
                    |t: int| Op::<C, F>::Connection {
                        from_value_index: inputs@[t].0,
                        to_value_index: to,
                        weight: inputs@[t].1,
                    },
                ) =~= Seq::new(
                    num_inputs as nat,
                    |t: int| Op::<C, F>::Connection {
                        from_value_index: t as u16,
                        to_value_index: to,
                        weight,
                    },
                ));
                assert(spec_full_wiring(
                    num_inputs,
                    (o + 1) as u16,
                    bias,
                    weight,
                    old(self).transfer_fn,
                ) == spec_full_wiring(num_inputs, o, bias, weight, old(self).transfer_fn)
                    + spec_wired_target(num_inputs, to, bias, weight, old(self).transfer_fn));
                assert(self.ops@ =~= old(self).ops@ + spec_full_wiring(
                    num_inputs,
                    (o + 1) as u16,
                    bias,
                    weight,
                    old(self).transfer_fn,
                ));
                assert(grown(pre.num_nodes, to) as int >= to as int + 1);
                lemma_grown_all_no_growth(grown(pre.num_nodes, to), inputs@);
            }
            o = o + 1;
        }
    }

    fn grow_num_nodes_if_needed(&mut self, new_index: u16)
        requires
            new_index < u16::MAX,
        ensures
            final(self).num_nodes == grown(old(self).num_nodes, new_index),
            final(self).ops == old(self).ops,
            final(self).transfer_fn == old(self).transfer_fn,
    {
        if new_index + 1 > self.num_nodes {
            self.num_nodes = new_index + 1;
        }
    }

    /// The genome's coefficients — each bias and each connection weight — in
    /// op order. A spawned child supplies one replacement per entry.
    pub fn coefficients(&self) -> (cs: Vec<C>)
        ensures
            cs@ == spec_coefficients(self.ops_spec()),
    {
        let mut cs: Vec<C> = Vec::new();
        let mut i: usize = 0;
        while i < self.ops.len()
            invariant
                i <= self.ops@.len(),
                cs@ == spec_coefficients(self.ops@.subrange(0, i as int)),
            decreases self.ops@.len() - i,
        {
            let op = self.ops[i];
            match op {
                Op::Bias { value_index: _, bias } => cs.push(bias),
                Op::Connection { from_value_index: _, to_value_index: _, weight } => cs.push(
                    weight,
                ),
                Op::Transfer { value_index: _, transfer_fn: _ } => {}
            }
            proof {
                let s = self.ops@;
                assert(s.subrange(0, i + 1).drop_last() =~= s.subrange(0, i as int));
                assert(s.subrange(0, i + 1).last() == s[i as int]);
            }
            i = i + 1;
        }
        proof {
            assert(self.ops@.subrange(0, self.ops@.len() as int) =~= self.ops@);
        }
        cs
    }

    /// A child genome: the same op structure, transfer function and node
    /// count, with the coefficients replaced in order by `new_coefficients`.
    pub fn spawn(&self, new_coefficients: &Vec<C>) -> (g: Self)
        requires
            new_coefficients@.len() == spec_coefficients(self.ops_spec()).len(),
        ensures
            g.ops_spec() == spec_spawn(self.ops_spec(), new_coefficients@),
            g.transfer_fn_spec() == self.transfer_fn_spec(),
            g.num_nodes_spec() == self.num_nodes_spec(),
    {
        let cs = new_coefficients;
        let cs_len = cs.len();
        let mut ops: Vec<Op<C, F>> = Vec::new();
        let mut ci: usize = 0;
        let mut i: usize = 0;
        proof {
            assert(self.ops@.subrange(0, 0) =~= Seq::<Op<C, F>>::empty());
            assert(cs@.subrange(0, 0) =~= Seq::<C>::empty());
        }
        while i < self.ops.len()
            invariant
                i <= self.ops@.len(),
                ci == spec_coefficients(self.ops@.subrange(0, i as int)).len(),
                ci <= cs@.len(),
                cs@.len() == cs_len,
                cs@.len() == spec_coefficients(self.ops@).len(),
                ops@ == spec_spawn(self.ops@.subrange(0, i as int), cs@.subrange(0, ci as int)),
            decreases self.ops@.len() - i,
        {
            proof {
                lemma_coefficients_prefix_le(self.ops@, i + 1);
                let s = self.ops@;
                assert(s.subrange(0, i + 1).drop_last() =~= s.subrange(0, i as int));
                assert(s.subrange(0, i + 1).last() == s[i as int]);
            }
            let op = self.ops[i];
            let has_coefficient = match op {
                Op::Bias { value_index: _, bias: _ } => true,
                Op::Connection { from_value_index: _, to_value_index: _, weight: _ } => true,
                Op::Transfer { value_index: _, transfer_fn: _ } => false,
            };
            if has_coefficient {
                proof {
                    let s = self.ops@;
                    assert(spec_coefficients(s.subrange(0, i + 1)).len() == ci + 1);
                    assert(ci < cs@.len());
                }
                let c = cs[ci];
                ops.push(replace_coefficient(op, c));
                proof {
                    assert(cs@.subrange(0, ci + 1).drop_last() =~= cs@.subrange(0, ci as int));
                    assert(cs@.subrange(0, ci + 1).last() == cs@[ci as int]);
                }
                ci = ci + 1;
            } else {
                ops.push(op);
            }
            i = i + 1;
        }
        proof {
            assert(self.ops@.subrange(0, self.ops@.len() as int) =~= self.ops@);
            assert(cs@.subrange(0, ci as int) =~= cs@);
        }
        SparseNeuralNetGenome { ops, transfer_fn: self.transfer_fn, num_nodes: self.num_nodes }
    }
}

/// The executable twin of `with_coefficient`.
fn replace_coefficient<C: Copy, F: Copy>(op: Op<C, F>, c: C) -> (r: Op<C, F>)
    ensures
        r == with_coefficient(op, c),
{
    match op {
        Op::Bias { value_index, bias: _ } => Op::Bias { value_index, bias: c },
        Op::Connection { from_value_index, to_value_index, weight: _ } => Op::Connection {
            from_value_index,
            to_value_index,
            weight: c,
        },
        Op::Transfer { value_index, transfer_fn } => Op::Transfer { value_index, transfer_fn },
    }
}

/// A prefix of an op list never has more coefficients than the whole list.
proof fn lemma_coefficients_prefix_le<C, F>(ops: Seq<Op<C, F>>, i: int)
    requires
        0 <= i <= ops.len(),
    ensures
        spec_coefficients(ops.subrange(0, i)).len() <= spec_coefficients(ops).len(),
    decreases ops.len() - i,
{
    if i < ops.len() {
        assert(ops.subrange(0, i + 1).drop_last() =~= ops.subrange(0, i));
        lemma_coefficients_prefix_le(ops, i + 1);
    } else {
        assert(ops.subrange(0, i) =~= ops);
    }
}

/// Spawning a genome with its own coefficients reproduces it op for op: with
/// nothing mutated, the child is the parent.
pub proof fn lemma_spawn_unmutated<C, F>(ops: Seq<Op<C, F>>)
    ensures
        spec_spawn(ops, spec_coefficients(ops)) == ops,
    decreases ops.len(),
{
    if ops.len() == 0 {
        assert(spec_spawn(ops, spec_coefficients(ops)) =~= ops);
    } else {
        lemma_spawn_unmutated(ops.drop_last());
        let cs = spec_coefficients(ops);
        match op_coefficient(ops.last()) {
            Some(c) => {
                assert(cs == spec_coefficients(ops.drop_last()).push(c));
                assert(cs.drop_last() =~= spec_coefficients(ops.drop_last()));
                assert(with_coefficient(ops.last(), c) == ops.last());
                assert(spec_spawn(ops, cs) =~= ops);
            }
            None => {
                assert(cs == spec_coefficients(ops.drop_last()));
                assert(spec_spawn(ops, cs) =~= ops);
            }
        }
    }
}

// ----- seeds for spawned genomes ---------------------------------------

/// Draw `n` of the PCG output stream that a 64-bit root seed opens: what
/// `Pcg64Mcg::seed_from_u64(seed)` returns from its `n + 1`-th `next_u64`
/// call. Pure integer arithmetic on the state, so a function of `seed` and
/// `n` alone, the same on every machine.
pub uninterp spec fn nth_child_seed(seed: u64, n: u64) -> u64;

/// One deterministic PCG stream per genome: child seeds are drawn from the
/// parent's stream in order, so the whole tree of descendants unfolds from a
/// single root seed.
pub struct SeedSource {
    seed: u64,
    draws: u64,
}

impl SeedSource {
    /// The root seed this stream was opened on.
    pub closed spec fn seed_spec(&self) -> u64 {
        self.seed
    }

    /// How many child seeds have been drawn so far.
    pub closed spec fn draws_spec(&self) -> u64 {
        self.draws
    }

    pub fn new(seed: u64) -> (s: Self)
        ensures
            s.seed_spec() == seed,
            s.draws_spec() == 0,
    {
        SeedSource { seed, draws: 0 }
    }

    pub fn seed(&self) -> (s: u64)
        ensures
            s == self.seed_spec(),
    {
        self.seed
    }

    pub fn draws(&self) -> (n: u64)
        ensures
            n == self.draws_spec(),
    {
        self.draws
    }

    /// The next seed for a child of this genome: the next draw of the root
    /// seed's stream.
    pub fn child_seed(&mut self) -> (r: u64)
        requires
            old(self).draws_spec() < u64::MAX,
        ensures
            r == nth_child_seed(old(self).seed_spec(), old(self).draws_spec()),
            final(self).seed_spec() == old(self).seed_spec(),
            final(self).draws_spec() == old(self).draws_spec() + 1,
    {
        let r = draw_nth_child_seed(self.seed, self.draws);
        self.draws = self.draws + 1;
        r
    }

    /// The seed source for a child, opened on the next child seed.
    pub fn spawn(&mut self) -> (child: Self)
        requires
            old(self).draws_spec() < u64::MAX,
        ensures
            child.seed_spec() == nth_child_seed(old(self).seed_spec(), old(self).draws_spec()),
            child.draws_spec() == 0,
            final(self).seed_spec() == old(self).seed_spec(),
            final(self).draws_spec() == old(self).draws_spec() + 1,
    {
        let seed = self.child_seed();
        SeedSource::new(seed)
    }
}

/// Relies on rand_pcg::Pcg64Mcg: `seed_from_u64` builds the state from the
/// seed alone, `advance(n)` is documented as equal to `n` `next_u64` calls,
/// and `next_u64` returns the following output — together draw `n` of the
/// seed's stream, a function of `seed` and `n` alone.
#[verifier::external_body]
fn draw_nth_child_seed(seed: u64, n: u64) -> (r: u64)
    ensures
        r == nth_child_seed(seed, n),
{
    let mut rng = <rand_pcg::Pcg64Mcg as rand::SeedableRng>::seed_from_u64(seed);
    rng.advance(n as u128);
    rand::RngCore::next_u64(&mut rng)
}

} // verus!
