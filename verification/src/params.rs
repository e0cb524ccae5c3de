use vstd::prelude::*;
use crate::value::{spec_encode, value_model_wf, encode_value, Value};

verus! {

/// The ordered sequence of binary-encoded bind values for one statement,
/// together with their count. Encode order equals bind-call order equals the
/// statement's positional placeholder order: values are only ever appended,
/// never reordered, and the count always equals the number of entries.
pub struct ParameterBuffer {
    entries: Vec<Vec<u8>>,
    count: usize,
}

impl View for ParameterBuffer {
    type V = Seq<Seq<u8>>;

    closed spec fn view(&self) -> Seq<Seq<u8>> {
        self.entries.deep_view()
    }
}

impl ParameterBuffer {
    /// The buffer's internal invariant: the stored count equals the number
    /// of encoded entries.
    pub closed spec fn wf(&self) -> bool {
        self.count == self.entries@.len()
    }

    /// An empty buffer: no parameters bound yet.
    pub fn new() -> (r: ParameterBuffer)
        ensures
            r@ == Seq::<Seq<u8>>::empty(),
            r.wf(),
    {
        let r = ParameterBuffer { entries: Vec::new(), count: 0 };
        proof {
            assert(r@ =~= Seq::<Seq<u8>>::empty());
        }
        r
    }

    /// Appends the binary encoding of one value and advances the positional
    /// count by exactly one. Buffer mutation only: no I/O.
    pub fn push_value(&mut self, v: &Value)
        requires
            old(self).wf(),
            value_model_wf(v@),
        ensures
            final(self).wf(),
            final(self)@ == old(self)@.push(spec_encode(v@)),
    {
        let bytes = encode_value(v);
        self.entries.push(bytes);
        self.count = self.entries.len();
        proof {
            assert(self@ =~~= old(self)@.push(spec_encode(v@)));
        }
    }

    /// The number of parameters bound so far.
    pub fn len(&self) -> (n: usize)
        requires
            self.wf(),
        ensures
            n == self@.len(),
    {
        self.count
    }
}

} // verus!
