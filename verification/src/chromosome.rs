//! Chromosomes: the genetic algorithm's unit of heredity.
//!
//! A chromosome is an ordered, fixed-length sequence of fixed-point genes
//! (see `fx`). When it encodes a network, its length equals the network's
//! total parameter count and its order is the flattening order.

use vstd::prelude::*;
use crate::fx::in_range;

verus! {

#[derive(Debug)]
pub struct Chromosome {
    pub genes: Vec<i64>,
}

/// A chromosome is well formed when every gene is a scalar in range.
pub open spec fn chrom_wf(genes: Seq<i64>) -> bool {
    forall|i: int| 0 <= i < genes.len() ==> in_range(#[trigger] genes[i] as int)
}

impl Chromosome {
    pub fn new(genes: Vec<i64>) -> (r: Self)
        requires
            chrom_wf(genes@),
        ensures
            r.genes@ == genes@,
    {
        Chromosome { genes }
    }

    pub fn len(&self) -> (r: usize)
        ensures
            r == self.genes@.len(),
    {
        self.genes.len()
    }

    pub fn gene(&self, i: usize) -> (r: i64)
        requires
            i < self.genes@.len(),
        ensures
            r == self.genes@[i as int],
    {
        self.genes[i]
    }

    pub fn set_gene(&mut self, i: usize, v: i64)
        requires
            i < old(self).genes@.len(),
            in_range(v as int),
        ensures
            final(self).genes@ == old(self).genes@.update(i as int, v),
    {
        self.genes.set(i, v);
    }

    /// The genes, in order, as a plain vector.
    pub fn to_vec(&self) -> (r: Vec<i64>)
        ensures
            r@ == self.genes@,
    {
        self.genes.clone()
    }
}

} // verus!
