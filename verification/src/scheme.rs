use vstd::prelude::*;
use crate::error::LinearError;

verus! {

/// How the weights of a new layer are drawn.
#[derive(Clone, Copy, Debug, PartialEq, Eq, Structural)]
pub enum Scheme {
    /// For a layer that a rectifying non-linearity follows.
    He,
    /// For a layer without that assumption, such as a plain projection.
    Xavier,
}

/// The family of distributions that a scheme draws from.
#[derive(Clone, Copy, Debug, PartialEq, Eq, Structural)]
pub enum Family {
    /// Zero-mean normal; the scale is the standard deviation.
    Normal,
    /// Uniform on the interval from minus the scale to the scale.
    Uniform,
}

impl Scheme {
    /// The scheme that a feed-forward flag selects.
    pub open spec fn of_flag(feed_forward: bool) -> Scheme {
        if feed_forward {
            Scheme::He
        } else {
            Scheme::Xavier
        }
    }

    /// The family that the scheme draws from.
    pub open spec fn spec_family(self) -> Family {
        match self {
            Scheme::He => Family::Normal,
            Scheme::Xavier => Family::Uniform,
        }
    }

    /// The numerator of the squared scale.
    pub open spec fn spec_numerator(self) -> nat {
        match self {
            Scheme::He => 2,
            Scheme::Xavier => 6,
        }
    }

    /// The denominator of the squared scale for a layer from `din` inputs to
    /// `dout` outputs.
    pub open spec fn spec_denominator(self, din: nat, dout: nat) -> nat {
        match self {
            Scheme::He => din,
            Scheme::Xavier => din + dout,
        }
    }

    /// He for a feed-forward layer, Xavier for any other.
    pub fn from_flag(feed_forward: bool) -> (s: Scheme)
        ensures
            s == Scheme::of_flag(feed_forward),
    {
        if feed_forward {
            Scheme::He
        } else {
            Scheme::Xavier
        }
    }

    /// The family that the scheme draws from.
    pub fn family(&self) -> (f: Family)
        ensures
            f == self.spec_family(),
    {
        match self {
            Scheme::He => Family::Normal,
            Scheme::Xavier => Family::Uniform,
        }
    }
}

/// What has to be drawn to fill a weight matrix: its shape, and the scheme
/// with the square of its scale as an exact fraction. The scale itself is the
/// square root of `numerator / denominator`: the standard deviation of a
/// normal draw, or the bound of a uniform one.
#[derive(Clone, Copy, Debug, PartialEq, Eq, Structural)]
pub struct InitPlan {
    pub scheme: Scheme,
    pub rows: usize,
    pub cols: usize,
    pub numerator: u128,
    pub denominator: u128,
}

impl InitPlan {
    /// The number of draws that fill the matrix.
    pub open spec fn spec_count(self) -> nat {
        (self.rows * self.cols) as nat
    }

    /// The number of draws that fill the matrix, or `None` where no vector can
    /// hold that many.
    pub fn count(&self) -> (r: Option<usize>)
        ensures
            r == if self.spec_count() <= usize::MAX {
                Some(self.spec_count() as usize)
            } else {
                None
            },
    {
        self.rows.checked_mul(self.cols)
    }
}

/// The plan for a layer from `din` inputs to `dout` outputs: the weight matrix
/// has one row for each output and one column for each input. A dimension of
/// zero is refused.
pub open spec fn spec_weight_plan(din: usize, dout: usize, scheme: Scheme) -> Result<
    InitPlan,
    LinearError,
> {
    if din == 0 || dout == 0 {
        Err(LinearError::InvalidDimension)
    } else {
        Ok(
            InitPlan {
                scheme,
                rows: dout,
                cols: din,
                numerator: scheme.spec_numerator() as u128,
                denominator: scheme.spec_denominator(din as nat, dout as nat) as u128,
            },
        )
    }
}

/// Plans the weights of a layer from `din` inputs to `dout` outputs: He draws
/// from the normal distribution of variance `2 / din`, Xavier uniformly within
/// the bound whose square is `6 / (din + dout)`.
pub fn weight_plan(din: usize, dout: usize, scheme: Scheme) -> (r: Result<InitPlan, LinearError>)
    ensures
        r == spec_weight_plan(din, dout, scheme),
{
    if din == 0 || dout == 0 {
        return Err(LinearError::InvalidDimension);
    }
    let wide_in: u128 = din as u128;
    let wide_out: u128 = dout as u128;
    let plan = match scheme {
        Scheme::He => InitPlan { scheme, rows: dout, cols: din, numerator: 2, denominator: wide_in },
        Scheme::Xavier => InitPlan {
            scheme,
            rows: dout,
            cols: din,
            numerator: 6,
            denominator: wide_in + wide_out,
        },
    };
    Ok(plan)
}

/// Every layer with at least one input and one output has a plan, whichever
/// the scheme: its shape is `(dout, din)`, and its squared scale is the
/// scheme's fraction, unrounded and with a denominator above zero.
pub proof fn lemma_plan_exists(din: usize, dout: usize, scheme: Scheme)
    requires
        din >= 1,
        dout >= 1,
    ensures
        spec_weight_plan(din, dout, scheme).is_ok(),
        spec_weight_plan(din, dout, scheme).unwrap().scheme == scheme,
        spec_weight_plan(din, dout, scheme).unwrap().rows == dout,
        spec_weight_plan(din, dout, scheme).unwrap().cols == din,
        spec_weight_plan(din, dout, scheme).unwrap().numerator == scheme.spec_numerator(),
        spec_weight_plan(din, dout, scheme).unwrap().denominator == scheme.spec_denominator(
            din as nat,
            dout as nat,
        ),
        spec_weight_plan(din, dout, scheme).unwrap().denominator > 0,
{
}

} // verus!
