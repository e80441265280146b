//! Binary schemas and the decoded values they produce.
//!
//! A schema is a static description of a nested, length-prefixed,
//! variant-tagged binary encoding; the engine evaluates it one byte at a
//! time so a parse can suspend at any chunk boundary.
use vstd::prelude::*;

verus! {

broadcast use vstd::std_specs::vec::group_vec_axioms;

/// Where a bounded repetition obtains its element count.
pub enum LenSrc {
    /// A single leading count byte.
    Byte,
    /// A leading variable-length unsigned integer.
    ULeb,
    /// The caller already knows the exact count.
    Exact(usize),
}

/// A static description of one binary encoding.
pub enum Schema {
    /// Fixed-width unsigned integer of `width` bytes (1..=8), little- or
    /// big-endian; every bit pattern is a valid value.
    UInt { width: usize, little: bool },
    /// Exactly `n` bytes, kept verbatim.
    Bytes { n: usize },
    /// Exactly `n` bytes, consumed and discarded.
    Skip { n: usize },
    /// Variable-length unsigned integer: 7 value bits per byte plus a
    /// continuation bit, little-endian group order, at most 32 bits;
    /// overlong encodings are rejected.
    ULeb,
    /// Sub-schemas in declared order; the value is the list of their values.
    Tuple { subs: Vec<Schema> },
    /// Bounded repetition: a count (from `len`), rejected outright when it
    /// exceeds `cap`, then that many copies of `elem`.
    Rep { len: LenSrc, elem: Box<Schema>, cap: usize },
    /// Variant dispatch: a variable-length tag selects one branch; an
    /// unrecognized tag is a hard reject.
    Variant { branches: Vec<Schema> },
    /// Runs the inner schema while feeding every consumed byte into the
    /// digest accumulator; the value pairs the observed bytes with the
    /// inner value.
    Observe { inner: Box<Schema> },
}

/// The typed output of a completed (sub)parse.
#[derive(Debug, PartialEq, Eq)]
pub enum Value {
    Unit,
    Int(u64),
    Bytes(Vec<u8>),
    List(Vec<Value>),
    Tagged(u32, Box<Value>),
}

/// Mathematical model of a decoded value.
pub enum GValue {
    Unit,
    Int(u64),
    Bytes(Seq<u8>),
    List(Seq<GValue>),
    Tagged(u32, Box<GValue>),
}

impl View for Value {
    type V = GValue;

    open spec fn view(&self) -> GValue
        decreases self,
    {
        match self {
            Value::Unit => GValue::Unit,
            Value::Int(n) => GValue::Int(*n),
            Value::Bytes(b) => GValue::Bytes(b@),
            Value::List(vs) => GValue::List(vals_view(vs@)),
            Value::Tagged(t, v) => GValue::Tagged(*t, Box::new((**v)@)),
        }
    }
}

/// The models of a sequence of decoded values, in order.
pub open spec fn vals_view(s: Seq<Value>) -> Seq<GValue>
    decreases s,
{
    if s.len() == 0 {
        Seq::empty()
    } else {
        vals_view(s.drop_last()).push(s.last()@)
    }
}

/// Appending a value to a list appends its model to the list's model.
pub proof fn lemma_vals_view_push(s: Seq<Value>, v: Value)
    ensures
        vals_view(s.push(v)) == vals_view(s).push(v@),
{
    assert(s.push(v).drop_last() =~= s);
    assert(s.push(v).last() == v);
}

/// The model list is as long as the value list, element for element.
pub proof fn lemma_vals_view_index(s: Seq<Value>)
    ensures
        vals_view(s).len() == s.len(),
        forall|i: int| 0 <= i < s.len() ==> vals_view(s)[i] == #[trigger] s[i]@,
    decreases s,
{
    if s.len() > 0 {
        lemma_vals_view_index(s.drop_last());
        assert(vals_view(s) == vals_view(s.drop_last()).push(s.last()@));
        assert forall|i: int| 0 <= i < s.len() implies vals_view(s)[i] == #[trigger] s[i]@ by {
            if i < s.len() - 1 {
                assert(s.drop_last()[i] == s[i]);
            } else {
                assert(s.last() == s[i]);
            }
        }
    }
}

} // verus!
