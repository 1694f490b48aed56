use vstd::prelude::*;

verus! {

/// The input and output widths of one dense layer: it maps a vector of
/// `input_size` entries to one of `output_size` entries.
#[derive(Debug, Clone, Copy, PartialEq, Eq)]
pub struct LayerShape {
    pub input_size: usize,
    pub output_size: usize,
}

/// A layer was appended whose input width differs from the output width of
/// the layer before it.
#[derive(Debug, Clone, Copy, PartialEq, Eq)]
pub struct ShapeMismatch {
    pub expected: usize,
    pub found: usize,
}

/// Each layer's output width is the next layer's input width.
pub open spec fn chained(shapes: Seq<LayerShape>) -> bool {
    forall|i: int|
        0 <= i < shapes.len() - 1 ==> (#[trigger] shapes[i]).output_size == shapes[i
            + 1].input_size
}

/// The length of the vector that comes out of `shapes`, applied in order to a
/// vector of length `len`; `None` where some layer receives a vector of the
/// wrong length.
pub open spec fn propagate(shapes: Seq<LayerShape>, len: nat) -> Option<nat>
    decreases shapes.len(),
{
    if shapes.len() == 0 {
        Some(len)
    } else {
        match propagate(shapes.drop_last(), len) {
            Some(d) => if d == shapes.last().input_size {
                Some(shapes.last().output_size as nat)
            } else {
                None
            },
            None => None,
        }
    }
}

/// For layers with widths `d0 -> d1 -> ... -> dL`, a vector of length `d0`
/// passes through all of them and comes out with length `dL`.
pub proof fn lemma_forward_shape(shapes: Seq<LayerShape>, len: nat)
    requires
        chained(shapes),
        shapes.len() > 0,
        len == shapes[0].input_size,
    ensures
        propagate(shapes, len) == Some(shapes.last().output_size as nat),
    decreases shapes.len(),
{
    if shapes.len() > 1 {
        let t = shapes.drop_last();
        assert forall|i: int| 0 <= i < t.len() - 1 implies (#[trigger] t[i]).output_size
            == t[i + 1].input_size by {
            assert(shapes[i].output_size == shapes[i + 1].input_size);
        }
        lemma_forward_shape(t, len);
        assert(t.last() == shapes[shapes.len() - 2]);
        assert(shapes[shapes.len() - 2].output_size == shapes[shapes.len() - 1].input_size);
    } else {
        assert(propagate(shapes.drop_last(), len) == Some(len));
    }
}

/// The widths of a network's layers, in order, kept chained.
#[derive(Debug)]
pub struct Topology {
    layers: Vec<LayerShape>,
}

impl View for Topology {
    type V = Seq<LayerShape>;

    closed spec fn view(&self) -> Seq<LayerShape> {
        self.layers@
    }
}

impl Topology {
    /// No layers.
    pub fn new() -> (r: Topology)
        ensures
            r@ == Seq::<LayerShape>::empty(),
    {
        Topology { layers: Vec::new() }
    }

    pub fn len(&self) -> (r: usize)
        ensures
            r == self@.len(),
    {
        self.layers.len()
    }

    /// Appends `shape` when its input width is the current output width (or
    /// when there is no layer yet); otherwise leaves the layers as they are.
    pub fn add_layer(&mut self, shape: LayerShape) -> (r: Result<(), ShapeMismatch>)
        requires
            chained(old(self)@),
        ensures
            chained(final(self)@),
            r is Ok <==> old(self)@.len() == 0 || old(self)@.last().output_size
                == shape.input_size,
            r is Ok ==> final(self)@ == old(self)@.push(shape),
            r matches Err(e) ==> final(self)@ == old(self)@ && e == (ShapeMismatch {
                expected: old(self)@.last().output_size,
                found: shape.input_size,
            }),
    {
        let n = self.layers.len();
        if n > 0 {
            let last = self.layers[n - 1].output_size;
            if last != shape.input_size {
                return Err(ShapeMismatch { expected: last, found: shape.input_size });
            }
        }
        self.layers.push(shape);
        assert(forall|i: int| 0 <= i < n ==> self@[i] == old(self)@[i]);
        Ok(())
    }

    /// The length of the vector that a vector of length `input_len` becomes
    /// after passing through every layer, or `None` where some layer would
    /// receive a vector of the wrong length.
    pub fn output_size(&self, input_len: usize) -> (r: Option<usize>)
        ensures
            match r {
                Some(d) => propagate(self@, input_len as nat) == Some(d as nat),
                None => propagate(self@, input_len as nat) is None,
            },
    {
        let n = self.layers.len();
        let mut d: usize = input_len;
        let mut i: usize = 0;
        while i < n
            invariant
                i <= n,
                n == self@.len(),
                propagate(self@.subrange(0, i as int), input_len as nat) == Some(d as nat),
            decreases n - i,
        {
            assert(self@.subrange(0, i as int + 1).drop_last() =~= self@.subrange(0, i as int));
            let s = self.layers[i];
            if s.input_size != d {
                proof {
                    lemma_propagate_stuck(self@, input_len as nat, i as int + 1);
                }
                return None;
            }
            d = s.output_size;
            i = i + 1;
        }
        assert(self@.subrange(0, n as int) =~= self@);
        Some(d)
    }
}

/// Once a prefix of the layers refuses the vector, so do all the layers.
proof fn lemma_propagate_stuck(shapes: Seq<LayerShape>, len: nat, k: int)
    requires
        0 <= k <= shapes.len(),
        propagate(shapes.subrange(0, k), len) is None,
    ensures
        propagate(shapes, len) is None,
    decreases shapes.len() - k,
{
    if k < shapes.len() {
        assert(shapes.subrange(0, k + 1).drop_last() =~= shapes.subrange(0, k));
        lemma_propagate_stuck(shapes, len, k + 1);
    } else {
        assert(shapes.subrange(0, k) =~= shapes);
    }
}

} // verus!
