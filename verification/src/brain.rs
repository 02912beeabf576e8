//! The brain: a network plus acceleration limits, and the differential
//! decoding of the network's two outputs into speed and rotation deltas.

use vstd::prelude::*;
use crate::fx::{SCALE, HALF_SCALE, clamp_spec, clamp_i64};
use crate::chromosome::{Chromosome, chrom_wf};
use crate::config::{Config, config_wf};
use crate::nn::{
    Network, NetworkError, LayerTopology, net_wf, net_out, net_params, widths_of, topo_widths,
    param_count, lemma_net_params_range, lemma_net_params_len,
};

verus! {

#[derive(Debug)]
pub struct Brain {
    pub speed_accel: i64,
    pub rotation_accel: i64,
    pub nn: Network,
}

/// The layer widths a brain's network must realize under a configuration:
/// one input per eye cell, the hidden width, and two outputs.
pub open spec fn brain_widths(c: Config) -> Seq<int> {
    seq![c.eye_cells as int, c.brain_neurons as int, 2int]
}

/// A brain fits a configuration: its limits are the configured ones and its
/// network is well formed with the configured topology.
pub open spec fn brain_wf(b: Brain, c: Config) -> bool {
    &&& b.speed_accel == c.speed_accel
    &&& b.rotation_accel == c.rotation_accel
    &&& net_wf(b.nn)
    &&& widths_of(b.nn.layers@) == brain_widths(c)
}

/// The first raw output shifted to `[-1/2, 1/2]`, summed with the second
/// and clamped: the speed delta.
pub open spec fn decode_speed(r0: int, r1: int, accel: int) -> int {
    let a = clamp_spec(r0, 0, SCALE as int) - HALF_SCALE as int;
    let b = clamp_spec(r1, 0, SCALE as int) - HALF_SCALE as int;
    clamp_spec(a + b, -accel, accel)
}

/// The difference of the two shifted raw outputs, clamped: the rotation
/// delta.
pub open spec fn decode_rotation(r0: int, r1: int, accel: int) -> int {
    let a = clamp_spec(r0, 0, SCALE as int) - HALF_SCALE as int;
    let b = clamp_spec(r1, 0, SCALE as int) - HALF_SCALE as int;
    clamp_spec(a - b, -accel, accel)
}

/// The topology vector for a configuration.
pub fn brain_topology(c: &Config) -> (r: Vec<LayerTopology>)
    requires
        config_wf(*c),
    ensures
        topo_widths(r@) == brain_widths(*c),
        r@.len() == 3,
        forall|i: int| 0 <= i < r@.len() ==> (#[trigger] r@[i]).neurons >= 1,
{
    let mut v: Vec<LayerTopology> = Vec::new();
    v.push(LayerTopology { neurons: c.eye_cells });
    v.push(LayerTopology { neurons: c.brain_neurons });
    v.push(LayerTopology { neurons: 2 });
    proof {
        assert(topo_widths(v@) =~= brain_widths(*c));
    }
    v
}

impl Brain {
    /// A fresh brain with a randomly weighted network of the configured
    /// topology.
    pub fn random(c: &Config, rng: &mut rand_chacha::ChaCha8Rng) -> (r: Self)
        requires
            config_wf(*c),
        ensures
            brain_wf(r, *c),
    {
        let topology = brain_topology(c);
        let nn = Network::random(&topology, rng);
        Brain { speed_accel: c.speed_accel, rotation_accel: c.rotation_accel, nn }
    }

    /// Rebuilds a brain from a chromosome; the chromosome must hold exactly
    /// the parameter count the configured topology demands, or the network's
    /// own named error comes back.
    pub fn from_chromosome(c: &Config, chromosome: &Chromosome) -> (r: Result<Self, NetworkError>)
        requires
            config_wf(*c),
            chrom_wf(chromosome.genes@),
        ensures
            match r {
                Ok(b) => {
                    &&& brain_wf(b, *c)
                    &&& net_params(b.nn) == chromosome.genes@
                    &&& chromosome.genes@.len() == param_count(brain_widths(*c))
                },
                Err(e) => {
                    &&& e == NetworkError::GeneCountMismatch
                    &&& chromosome.genes@.len() != param_count(brain_widths(*c))
                },
            },
    {
        let topology = brain_topology(c);
        match Network::from_weights(&topology, chromosome) {
            Ok(nn) => Ok(
                Brain { speed_accel: c.speed_accel, rotation_accel: c.rotation_accel, nn },
            ),
            Err(e) => {
                proof {
                    assert(topology@.len() == 3);
                    assert(e == NetworkError::GeneCountMismatch);
                }
                Err(NetworkError::GeneCountMismatch)
            },
        }
    }

    /// The brain's network flattened back into a chromosome.
    pub fn as_chromosome(&self) -> (r: Chromosome)
        requires
            net_wf(self.nn),
        ensures
            r.genes@ == net_params(self.nn),
            chrom_wf(r.genes@),
            r.genes@.len() == param_count(widths_of(self.nn.layers@)),
    {
        proof {
            lemma_net_params_range(self.nn);
            lemma_net_params_len(self.nn);
        }
        let genes = self.nn.weights();
        Chromosome { genes }
    }

    /// Runs the vision vector through the network and decodes the two raw
    /// outputs into a speed delta and a rotation delta, each clamped to the
    /// brain's limits.
    pub fn propagate(&self, c: &Config, vision: Vec<i64>) -> (r: (i64, i64))
        requires
            config_wf(*c),
            brain_wf(*self, *c),
            vision@.len() == c.eye_cells,
            chrom_wf(vision@),
        ensures
            r.0 == decode_speed(
                net_out(self.nn, vision@)[0] as int,
                net_out(self.nn, vision@)[1] as int,
                c.speed_accel as int,
            ),
            r.1 == decode_rotation(
                net_out(self.nn, vision@)[0] as int,
                net_out(self.nn, vision@)[1] as int,
                c.rotation_accel as int,
            ),
            -(c.speed_accel as int) <= r.0 <= c.speed_accel as int,
            -(c.rotation_accel as int) <= r.1 <= c.rotation_accel as int,
    {
        proof {
            assert(crate::nn::layer_in(self.nn.layers@, 0) == widths_of(self.nn.layers@)[0]);
            assert(widths_of(self.nn.layers@)[0] == c.eye_cells as int);
            assert(self.nn.layers@.len() == 2) by {
                assert(widths_of(self.nn.layers@).len() == self.nn.layers@.len() + 1);
            }
            assert(self.nn.layers@.last().neurons@.len() == 2) by {
                assert(widths_of(self.nn.layers@)[2] == self.nn.layers@[1].neurons@.len() as int);
            }
        }
        let response = self.nn.propagate(vision);
        let r0: i64 = clamp_i64(response[0], 0, SCALE) - HALF_SCALE;
        let r1: i64 = clamp_i64(response[1], 0, SCALE) - HALF_SCALE;
        let speed: i64 = clamp_i64(r0 + r1, -self.speed_accel, self.speed_accel);
        let rotation: i64 = clamp_i64(r0 - r1, -self.rotation_accel, self.rotation_accel);
        (speed, rotation)
    }
}

} // verus!
