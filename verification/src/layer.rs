use vstd::prelude::*;
use crate::error::LinearError;
use crate::matrix::{lemma_offset_injective, Grid, Matrix};
use crate::scheme::{spec_weight_plan, Scheme};

verus! {

/// What a layer is, mathematically: its parameters and the batch it saw last.
pub struct LayerState {
    /// One row for each output, one column for each input.
    pub weight: Grid,
    /// One entry for each output.
    pub bias: Seq<u32>,
    /// The batch of the latest forward pass, if there was one.
    pub cached: Option<Grid>,
}

impl LayerState {
    /// The parameters fit each other, and no dimension is zero.
    pub open spec fn wf(self) -> bool {
        &&& self.weight.wf()
        &&& self.weight.rows >= 1
        &&& self.weight.cols >= 1
        &&& self.bias.len() == self.weight.rows
        &&& self.cached matches Some(batch) ==> batch.wf() && batch.cols == self.weight.cols
    }

    /// The length of an input row.
    pub open spec fn input_dim(self) -> nat {
        self.weight.cols
    }

    /// The length of an output row.
    pub open spec fn output_dim(self) -> nat {
        self.weight.rows
    }

    /// Whether the layer can transform the batch: each of its rows is as long
    /// as an input row.
    pub open spec fn accepts(self, batch: Grid) -> bool {
        batch.cols == self.input_dim()
    }

    /// The shape of what the layer makes of a batch it accepts: one row for
    /// each row of the batch, each as long as an output row.
    pub open spec fn output_shape(self, batch: Grid) -> (nat, nat) {
        (batch.rows, self.output_dim())
    }

    /// The layer with `bits` as the weight from input `j` to output `i`, or the
    /// layer itself where it has no such weight.
    pub open spec fn with_weight(self, i: int, j: int, bits: u32) -> LayerState {
        LayerState { weight: self.weight.with_cell(i, j, bits), ..self }
    }

    /// The layer with `bits` as the bias of output `i`, or the layer itself
    /// where it has no such output.
    pub open spec fn with_bias(self, i: int, bits: u32) -> LayerState {
        if 0 <= i < self.bias.len() {
            LayerState { bias: self.bias.update(i, bits), ..self }
        } else {
            self
        }
    }

    /// The layer after it was offered the batch: a batch it accepts takes the
    /// place of the cached one, any other leaves the layer as it was.
    pub open spec fn after(self, batch: Grid) -> LayerState {
        if self.accepts(batch) {
            LayerState { cached: Some(batch), ..self }
        } else {
            self
        }
    }
}

/// A bias of `n` entries, each the bit pattern of positive zero.
pub open spec fn zero_bias(n: nat) -> Seq<u32> {
    Seq::new(n, |j: int| 0u32)
}

/// The layer made of a weight matrix and a bias vector. A dimension of zero is
/// refused first, then a bias that does not have one entry for each row of the
/// matrix.
pub open spec fn spec_from_parts(weight: Grid, bias: Seq<u32>) -> Result<LayerState, LinearError> {
    if weight.rows == 0 || weight.cols == 0 {
        Err(LinearError::InvalidDimension)
    } else if bias.len() != weight.rows {
        Err(LinearError::ShapeMismatch)
    } else {
        Ok(LayerState { weight, bias, cached: None })
    }
}

/// The new layer from `din` inputs to `dout` outputs whose weights are the
/// given draws in row-major order: the bias is all zero and nothing is cached.
/// A dimension of zero is refused first, then draws that do not fill the
/// matrix.
pub open spec fn spec_new(din: nat, dout: nat, draws: Seq<u32>) -> Result<LayerState, LinearError> {
    if din == 0 || dout == 0 {
        Err(LinearError::InvalidDimension)
    } else if draws.len() != dout * din {
        Err(LinearError::ShapeMismatch)
    } else {
        Ok(
            LayerState {
                weight: Grid { rows: dout, cols: din, cells: draws },
                bias: zero_bias(dout),
                cached: None,
            },
        )
    }
}

/// A fully-connected layer: a weight matrix of shape `(dout, din)`, a bias of
/// `dout` entries, and the batch of the latest forward pass.
#[derive(Debug)]
pub struct Linear {
    weight: Matrix,
    bias: Vec<u32>,
    cached: Option<Matrix>,
}

impl View for Linear {
    type V = LayerState;

    closed spec fn view(&self) -> LayerState {
        LayerState {
            weight: self.weight@,
            bias: self.bias@,
            cached: match self.cached {
                Some(batch) => Some(batch@),
                None => None,
            },
        }
    }
}

/// A vector of `n` zeros.
fn zeros(n: usize) -> (v: Vec<u32>)
    ensures
        v@ == zero_bias(n as nat),
{
    let mut v: Vec<u32> = Vec::new();
    let mut j: usize = 0;
    while j < n
        invariant
            j <= n,
            v@ == zero_bias(j as nat),
        decreases n - j,
    {
        v.push(0);
        j += 1;
        assert(v@ =~= zero_bias(j as nat));
    }
    v
}

impl Linear {
    #[verifier::type_invariant]
    spec fn inv(self) -> bool {
        self@.wf()
    }

    /// Makes a layer from `din` inputs to `dout` outputs out of the draws for
    /// its weights, in row-major order. The bias starts at zero.
    pub fn new(din: usize, dout: usize, draws: Vec<u32>) -> (r: Result<Linear, LinearError>)
        ensures
            match r {
                Ok(layer) => spec_new(din as nat, dout as nat, draws@) == Ok::<
                    LayerState,
                    LinearError,
                >(layer@) && layer@.wf(),
                Err(e) => spec_new(din as nat, dout as nat, draws@) == Err::<
                    LayerState,
                    LinearError,
                >(e),
            },
    {
        if din == 0 || dout == 0 {
            return Err(LinearError::InvalidDimension);
        }
        match Matrix::from_cells(dout, din, draws) {
            Ok(weight) => Linear::from_parts(weight, zeros(dout)),
            Err(e) => Err(e),
        }
    }

    /// Makes a layer out of its weight matrix and its bias vector.
    pub fn from_parts(weight: Matrix, bias: Vec<u32>) -> (r: Result<Linear, LinearError>)
        ensures
            match r {
                Ok(layer) => spec_from_parts(weight@, bias@) == Ok::<LayerState, LinearError>(
                    layer@,
                ) && layer@.wf(),
                Err(e) => spec_from_parts(weight@, bias@) == Err::<LayerState, LinearError>(e),
            },
    {
        if weight.rows() == 0 || weight.cols() == 0 {
            return Err(LinearError::InvalidDimension);
        }
        if bias.len() != weight.rows() {
            return Err(LinearError::ShapeMismatch);
        }
        Ok(Linear { weight, bias, cached: None })
    }

    /// The length of an input row.
    pub fn input_dim(&self) -> (r: usize)
        ensures
            r == self@.input_dim(),
            r >= 1,
            self@.wf(),
    {
        proof {
            use_type_invariant(self);
        }
        self.weight.cols()
    }

    /// The length of an output row.
    pub fn output_dim(&self) -> (r: usize)
        ensures
            r == self@.output_dim(),
            r >= 1,
            self@.wf(),
    {
        proof {
            use_type_invariant(self);
        }
        self.weight.rows()
    }

    /// The weight matrix.
    pub fn weight(&self) -> (r: &Matrix)
        ensures
            r@ == self@.weight,
            self@.wf(),
    {
        proof {
            use_type_invariant(self);
        }
        &self.weight
    }

    /// The bias vector.
    pub fn bias(&self) -> (r: &Vec<u32>)
        ensures
            r@ == self@.bias,
            self@.wf(),
    {
        proof {
            use_type_invariant(self);
        }
        &self.bias
    }

    /// The batch of the latest forward pass, if there was one.
    pub fn cached_input(&self) -> (r: Option<&Matrix>)
        ensures
            match r {
                Some(batch) => self@.cached == Some(batch@),
                None => self@.cached.is_none(),
            },
            self@.wf(),
    {
        proof {
            use_type_invariant(self);
        }
        self.cached.as_ref()
    }

    /// Writes the weight from input `j` to output `i` and hands back the one
    /// it replaces, or changes nothing and hands back `None` where the layer
    /// has no such weight.
    pub fn set_weight(&mut self, i: usize, j: usize, bits: u32) -> (r: Option<u32>)
        ensures
            final(self)@ == old(self)@.with_weight(i as int, j as int, bits),
            final(self)@.wf(),
            r == if old(self)@.weight.holds(i as int, j as int) {
                Some(old(self)@.weight.at(i as int, j as int))
            } else {
                None
            },
    {
        proof {
            use_type_invariant(&*self);
        }
        self.weight.set(i, j, bits)
    }

    /// Writes the bias of output `i` and hands back the one it replaces, or
    /// changes nothing and hands back `None` where the layer has no such
    /// output.
    pub fn set_bias(&mut self, i: usize, bits: u32) -> (r: Option<u32>)
        ensures
            final(self)@ == old(self)@.with_bias(i as int, bits),
            final(self)@.wf(),
            r == if i < old(self)@.bias.len() {
                Some(old(self)@.bias[i as int])
            } else {
                None
            },
    {
        proof {
            use_type_invariant(&*self);
        }
        if i < self.bias.len() {
            let before: u32 = self.bias[i];
            self.bias[i] = bits;
            Some(before)
        } else {
            None
        }
    }

    /// Offers the layer a batch for a forward pass. A batch whose rows are as
    /// long as an input row is cached in place of the one before, and the
    /// shape of the output comes back. Any other batch is refused, and the
    /// layer stays as it was.
    pub fn accept_batch(&mut self, batch: Matrix) -> (r: Result<(usize, usize), LinearError>)
        ensures
            final(self)@ == old(self)@.after(batch@),
            final(self)@.wf(),
            match r {
                Ok(shape) => old(self)@.accepts(batch@) && (shape.0 as nat, shape.1 as nat) == old(
                    self,
                )@.output_shape(batch@),
                Err(e) => !old(self)@.accepts(batch@) && e == LinearError::ShapeMismatch,
            },
    {
        proof {
            use_type_invariant(&*self);
        }
        if batch.cols() != self.weight.cols() {
            return Err(LinearError::ShapeMismatch);
        }
        let shape = (batch.rows(), self.weight.rows());
        self.cached = Some(batch);
        Ok(shape)
    }
}

/// Construction gives the shape that was asked for. From at least one input
/// and one output there is a plan, whichever the scheme; and with as many
/// draws as the plan counts, the layer has a weight matrix of shape
/// `(dout, din)` that holds the draws, a bias of `dout` entries that are all
/// zero, and nothing cached.
pub proof fn lemma_new_shape(din: usize, dout: usize, scheme: Scheme, draws: Seq<u32>)
    requires
        din >= 1,
        dout >= 1,
        draws.len() == spec_weight_plan(din, dout, scheme).unwrap().spec_count(),
    ensures
        spec_weight_plan(din, dout, scheme).is_ok(),
        spec_new(din as nat, dout as nat, draws).is_ok(),
        spec_new(din as nat, dout as nat, draws).unwrap().wf(),
        spec_new(din as nat, dout as nat, draws).unwrap().weight.rows == dout,
        spec_new(din as nat, dout as nat, draws).unwrap().weight.cols == din,
        spec_new(din as nat, dout as nat, draws).unwrap().weight.cells == draws,
        spec_new(din as nat, dout as nat, draws).unwrap().bias.len() == dout,
        forall|j: int|
            0 <= j < dout ==> spec_new(din as nat, dout as nat, draws).unwrap().bias[j] == 0u32,
        spec_new(din as nat, dout as nat, draws).unwrap().cached.is_none(),
{
}

/// A batch whose rows are not as long as an input row is never accepted, and
/// offering it changes nothing in the layer.
pub proof fn lemma_mismatch_refused(layer: LayerState, batch: Grid)
    requires
        batch.cols != layer.input_dim(),
    ensures
        !layer.accepts(batch),
        layer.after(batch) == layer,
{
}

/// Offering the same batch twice is the same as offering it once: the second
/// offer is accepted exactly when the first was, promises the same output
/// shape, and leaves the layer as the first left it. The parameters are
/// untouched by either.
pub proof fn lemma_offer_twice(layer: LayerState, batch: Grid)
    ensures
        layer.after(batch).accepts(batch) == layer.accepts(batch),
        layer.after(batch).output_shape(batch) == layer.output_shape(batch),
        layer.after(batch).after(batch) == layer.after(batch),
        layer.after(batch).weight == layer.weight,
        layer.after(batch).bias == layer.bias,
{
}

/// The shape of a layer never changes: whatever well-formed batch it is
/// offered and whatever weight or bias is written, a well-formed layer stays
/// well-formed, with the dimensions it was made with.
pub proof fn lemma_shape_fixed(layer: LayerState, batch: Grid, i: int, j: int, bits: u32)
    requires
        layer.wf(),
        batch.wf(),
    ensures
        layer.after(batch).wf(),
        layer.after(batch).input_dim() == layer.input_dim(),
        layer.after(batch).output_dim() == layer.output_dim(),
        layer.with_weight(i, j, bits).wf(),
        layer.with_weight(i, j, bits).input_dim() == layer.input_dim(),
        layer.with_weight(i, j, bits).output_dim() == layer.output_dim(),
        layer.with_bias(i, bits).wf(),
        layer.with_bias(i, bits).input_dim() == layer.input_dim(),
        layer.with_bias(i, bits).output_dim() == layer.output_dim(),
{
    if layer.weight.holds(i, j) {
        lemma_offset_injective(layer.weight, i, j, i, j);
    }
}

} // verus!
