//! Bias-aware one-dimensional signal buffers.
//!
//! A buffer holds a sequence of binary32 bit patterns.  Two orthogonal
//! distinctions are made at the type level: biased versus unbiased, and
//! signal versus error-signal.  A biased buffer carries one trailing bias
//! slot whose value always equals the type's bias constant — one for
//! signals, zero for error signals.  The tags share one representation and
//! exist to make invalid combinations unrepresentable: an error buffer can
//! never be passed where a signal is expected, and the bias slot can never
//! be mutated through an unbiased operation.

use vstd::prelude::*;

use crate::fbits::{f32_eq, f32_eq_bits, BIAS_VALUE_SIGNAL, BIAS_VALUE_ERROR_SIGNAL, ZERO_BITS};
use crate::errors::{Error, ErrorKind, Annotation};

verus! {

/// Element-wise equality of two pattern sequences under binary32 equality.
pub open spec fn f32_seq_eq(a: Seq<u32>, b: Seq<u32>) -> bool {
    &&& a.len() == b.len()
    &&& forall|i: int| 0 <= i < a.len() ==> f32_eq(a[i], b[i])
}

/// Every pattern of the sequence is the zero pattern.
pub open spec fn all_zero(s: Seq<u32>) -> bool {
    forall|i: int| 0 <= i < s.len() ==> s[i] == ZERO_BITS
}

/// Builds a vector of `len` zero patterns.
fn make_zeros(len: usize) -> (r: Vec<u32>)
    ensures
        r@.len() == len,
        all_zero(r@),
{
    let mut v: Vec<u32> = Vec::new();
    let mut k: usize = 0;
    while k < len
        invariant
            k <= len,
            v@.len() == k,
            all_zero(v@),
        decreases len - k,
    {
        v.push(ZERO_BITS);
        k = k + 1;
    }
    v
}

/// Copies the first `len` patterns of `data` into a fresh vector.
fn copy_prefix(data: &Vec<u32>, len: usize) -> (r: Vec<u32>)
    requires
        len <= data@.len(),
    ensures
        r@ == data@.take(len as int),
{
    let mut v: Vec<u32> = Vec::new();
    let mut k: usize = 0;
    while k < len
        invariant
            k <= len,
            len <= data@.len(),
            v@ == data@.take(k as int),
        decreases len - k,
    {
        v.push(data[k]);
        assert(v@ =~= data@.take(k as int + 1));
        k = k + 1;
    }
    v
}

/// Decides element-wise binary32 equality of two pattern vectors.
fn vec_f32_eq(a: &Vec<u32>, b: &Vec<u32>) -> (r: bool)
    ensures
        r == f32_seq_eq(a@, b@),
{
    if a.len() != b.len() {
        return false;
    }
    let mut k: usize = 0;
    while k < a.len()
        invariant
            a@.len() == b@.len(),
            k <= a@.len(),
            forall|i: int| 0 <= i < k ==> f32_eq(a@[i], b@[i]),
        decreases a@.len() - k,
    {
        if !f32_eq_bits(a[k], b[k]) {
            assert(!f32_eq(a@[k as int], b@[k as int]));
            return false;
        }
        k = k + 1;
    }
    true
}

/// Wraps computed contents of known positive length as an unbiased signal
/// buffer, for the crate's own propagation code.
pub(crate) fn unbiased_signal_from_vec(data: Vec<u32>) -> (r: UnbiasedSignalBuffer)
    requires
        data@.len() >= 1,
    ensures
        r.bits() == data@,
        r.wf(),
{
    UnbiasedSignalBuffer { data }
}

/// Wraps computed contents of known positive length as an unbiased
/// error-signal buffer, for the crate's own propagation code.
pub(crate) fn unbiased_error_signal_from_vec(data: Vec<u32>) -> (r: UnbiasedErrorSignalBuffer)
    requires
        data@.len() >= 1,
    ensures
        r.bits() == data@,
        r.wf(),
{
    UnbiasedErrorSignalBuffer { data }
}

/// An owned unbiased signal buffer: at least one pattern, no bias slot.
#[derive(Debug, Clone)]
pub struct UnbiasedSignalBuffer {
    data: Vec<u32>,
}

/// An owned biased signal buffer: the trailing slot always holds the
/// signal bias constant, the value one.
#[derive(Debug, Clone)]
pub struct BiasedSignalBuffer {
    data: Vec<u32>,
}

/// An owned unbiased error-signal buffer: at least one pattern, no bias
/// slot.
#[derive(Debug, Clone)]
pub struct UnbiasedErrorSignalBuffer {
    data: Vec<u32>,
}

/// An owned biased error-signal buffer: the trailing slot always holds the
/// error bias constant, the value zero.
#[derive(Debug, Clone)]
pub struct BiasedErrorSignalBuffer {
    data: Vec<u32>,
}

impl UnbiasedSignalBuffer {
    /// The patterns held by this buffer.
    pub closed spec fn bits(&self) -> Seq<u32> {
        self.data@
    }

    /// The buffer is well formed: it holds at least one pattern.
    pub open spec fn wf(&self) -> bool {
        self.bits().len() >= 1
    }

    /// Wraps caller-supplied patterns; rejects an empty vector.
    pub fn from_raw(data: Vec<u32>) -> (r: Result<UnbiasedSignalBuffer, Error>)
        ensures
            match r {
                Ok(b) => data@.len() >= 1 && b.bits() == data@ && b.wf(),
                Err(e) => data@.len() == 0 && e.kind == ErrorKind::ZeroSizedBuffer
                    && e.annotation == Annotation::Unannotated,
            },
    {
        if data.len() == 0 {
            return Err(Error::attempt_to_create_zero_sized_buffer());
        }
        Ok(UnbiasedSignalBuffer { data })
    }

    /// A buffer of `len` zero patterns; rejects a zero length.
    pub fn zeros(len: usize) -> (r: Result<UnbiasedSignalBuffer, Error>)
        ensures
            match r {
                Ok(b) => len >= 1 && b.bits().len() == len && all_zero(b.bits()) && b.wf(),
                Err(e) => len == 0 && e.kind == ErrorKind::ZeroSizedBuffer && e.annotation
                    == Annotation::Unannotated,
            },
    {
        if len == 0 {
            return Err(Error::attempt_to_create_zero_sized_buffer());
        }
        Ok(UnbiasedSignalBuffer { data: make_zeros(len) })
    }

    /// The buffer's dimension: the number of patterns it holds.
    pub fn dim(&self) -> (r: usize)
        ensures
            r == self.bits().len(),
    {
        self.data.len()
    }

    /// The pattern at position `i`.
    pub fn get(&self, i: usize) -> (r: u32)
        requires
            i < self.bits().len(),
        ensures
            r == self.bits()[i as int],
    {
        self.data[i]
    }

    /// Writes the pattern at position `i`.
    pub fn set(&mut self, i: usize, v: u32)
        requires
            i < old(self).bits().len(),
        ensures
            final(self).bits() == old(self).bits().update(i as int, v),
    {
        self.data[i] = v;
    }

    /// The held patterns, as a vector reference.
    pub fn data(&self) -> (r: &Vec<u32>)
        ensures
            r@ == self.bits(),
    {
        &self.data
    }

    /// An owned snapshot with identical length and content.
    pub fn view(&self) -> (r: UnbiasedSignalBuffer)
        ensures
            r.bits() == self.bits(),
    {
        UnbiasedSignalBuffer { data: copy_prefix(&self.data, self.data.len()) }
    }

    /// Re-biases this signal: an owned biased buffer holding these
    /// patterns followed by the signal bias constant.
    pub fn rebias(&self) -> (r: BiasedSignalBuffer)
        requires
            self.wf(),
        ensures
            r.bits() == self.bits().push(BIAS_VALUE_SIGNAL),
            r.wf(),
    {
        let mut data = copy_prefix(&self.data, self.data.len());
        let ghost z = data@;
        data.push(BIAS_VALUE_SIGNAL);
        proof {
            crate::fbits::lemma_bias_constants();
            assert(z =~= self.bits());
        }
        BiasedSignalBuffer { data }
    }

    /// Copies all patterns of `rhs` into this buffer; fails when the
    /// dimensions differ, mutating neither buffer.
    pub fn assign(&mut self, rhs: &UnbiasedSignalBuffer) -> (r: Result<(), Error>)
        ensures
            match r {
                Ok(()) => old(self).bits().len() == rhs.bits().len() && final(self).bits()
                    == rhs.bits(),
                Err(e) => {
                    &&& old(self).bits().len() != rhs.bits().len()
                    &&& final(self).bits() == old(self).bits()
                    &&& e.kind == (ErrorKind::UnmatchingBufferSizes {
                        lhs: old(self).bits().len() as usize,
                        rhs: rhs.bits().len() as usize,
                    })
                    &&& e.annotation == Annotation::UnbiasedBufferAssign
                },
            },
    {
        if self.data.len() != rhs.data.len() {
            return Err(
                Error::unmatching_buffer_sizes(self.data.len(), rhs.data.len()).with_annotation(
                    Annotation::UnbiasedBufferAssign,
                ),
            );
        }
        self.data = copy_prefix(&rhs.data, rhs.data.len());
        assert(self.data@ =~= rhs.bits());
        Ok(())
    }
}

impl UnbiasedErrorSignalBuffer {
    /// The patterns held by this buffer.
    pub closed spec fn bits(&self) -> Seq<u32> {
        self.data@
    }

    /// The buffer is well formed: it holds at least one pattern.
    pub open spec fn wf(&self) -> bool {
        self.bits().len() >= 1
    }

    /// Wraps caller-supplied patterns; rejects an empty vector.
    pub fn from_raw(data: Vec<u32>) -> (r: Result<UnbiasedErrorSignalBuffer, Error>)
        ensures
            match r {
                Ok(b) => data@.len() >= 1 && b.bits() == data@ && b.wf(),
                Err(e) => data@.len() == 0 && e.kind == ErrorKind::ZeroSizedBuffer
                    && e.annotation == Annotation::Unannotated,
            },
    {
        if data.len() == 0 {
            return Err(Error::attempt_to_create_zero_sized_buffer());
        }
        Ok(UnbiasedErrorSignalBuffer { data })
    }

    /// A buffer of `len` zero patterns; rejects a zero length.
    pub fn zeros(len: usize) -> (r: Result<UnbiasedErrorSignalBuffer, Error>)
        ensures
            match r {
                Ok(b) => len >= 1 && b.bits().len() == len && all_zero(b.bits()) && b.wf(),
                Err(e) => len == 0 && e.kind == ErrorKind::ZeroSizedBuffer && e.annotation
                    == Annotation::Unannotated,
            },
    {
        if len == 0 {
            return Err(Error::attempt_to_create_zero_sized_buffer());
        }
        Ok(UnbiasedErrorSignalBuffer { data: make_zeros(len) })
    }

    /// The buffer's dimension: the number of patterns it holds.
    pub fn dim(&self) -> (r: usize)
        ensures
            r == self.bits().len(),
    {
        self.data.len()
    }

    /// The pattern at position `i`.
    pub fn get(&self, i: usize) -> (r: u32)
        requires
            i < self.bits().len(),
        ensures
            r == self.bits()[i as int],
    {
        self.data[i]
    }

    /// Writes the pattern at position `i`.
    pub fn set(&mut self, i: usize, v: u32)
        requires
            i < old(self).bits().len(),
        ensures
            final(self).bits() == old(self).bits().update(i as int, v),
    {
        self.data[i] = v;
    }

    /// The held patterns, as a vector reference.
    pub fn data(&self) -> (r: &Vec<u32>)
        ensures
            r@ == self.bits(),
    {
        &self.data
    }

    /// An owned snapshot with identical length and content.
    pub fn view(&self) -> (r: UnbiasedErrorSignalBuffer)
        ensures
            r.bits() == self.bits(),
    {
        UnbiasedErrorSignalBuffer { data: copy_prefix(&self.data, self.data.len()) }
    }

    /// Copies all patterns of `rhs` into this buffer; fails when the
    /// dimensions differ, mutating neither buffer.
    pub fn assign(&mut self, rhs: &UnbiasedErrorSignalBuffer) -> (r: Result<(), Error>)
        ensures
            match r {
                Ok(()) => old(self).bits().len() == rhs.bits().len() && final(self).bits()
                    == rhs.bits(),
                Err(e) => {
                    &&& old(self).bits().len() != rhs.bits().len()
                    &&& final(self).bits() == old(self).bits()
                    &&& e.kind == (ErrorKind::UnmatchingBufferSizes {
                        lhs: old(self).bits().len() as usize,
                        rhs: rhs.bits().len() as usize,
                    })
                    &&& e.annotation == Annotation::UnbiasedBufferAssign
                },
            },
    {
        if self.data.len() != rhs.data.len() {
            return Err(
                Error::unmatching_buffer_sizes(self.data.len(), rhs.data.len()).with_annotation(
                    Annotation::UnbiasedBufferAssign,
                ),
            );
        }
        self.data = copy_prefix(&rhs.data, rhs.data.len());
        assert(self.data@ =~= rhs.bits());
        Ok(())
    }
}

impl BiasedSignalBuffer {
    /// The patterns held by this buffer, the trailing bias slot included.
    pub closed spec fn bits(&self) -> Seq<u32> {
        self.data@
    }

    /// The buffer is well formed: at least one value slot plus the bias
    /// slot, and the bias slot holds the signal bias constant.
    pub open spec fn wf(&self) -> bool {
        &&& self.bits().len() >= 2
        &&& f32_eq(self.bits().last(), BIAS_VALUE_SIGNAL)
    }

    /// Wraps caller-supplied patterns whose last element is the bias slot;
    /// rejects an empty vector, a vector of one element (no room for a
    /// value plus the bias slot), and a trailing element that is not the
    /// signal bias constant.
    pub fn from_raw_with_bias(data: Vec<u32>) -> (r: Result<BiasedSignalBuffer, Error>)
        ensures
            match r {
                Ok(b) => {
                    &&& data@.len() >= 2
                    &&& f32_eq(data@.last(), BIAS_VALUE_SIGNAL)
                    &&& b.bits() == data@
                    &&& b.wf()
                },
                Err(e) => {
                    &&& e.annotation == Annotation::Unannotated
                    &&& data@.len() == 0 ==> e.kind == ErrorKind::ZeroSizedBuffer
                    &&& data@.len() == 1 ==> e.kind == (ErrorKind::TooFewValues {
                        expected_min: 2,
                        actual: 1,
                    })
                    &&& data@.len() >= 2 ==> !f32_eq(data@.last(), BIAS_VALUE_SIGNAL) && e.kind
                        == (ErrorKind::UnmatchingBiasValue {
                        expected: BIAS_VALUE_SIGNAL,
                        actual: data@.last(),
                    })
                },
            },
    {
        if data.len() == 0 {
            return Err(Error::attempt_to_create_zero_sized_buffer());
        }
        if data.len() == 1 {
            return Err(Error::too_few_values_provided_for_buffer_creation(2, data.len()));
        }
        let last = data[data.len() - 1];
        if !f32_eq_bits(last, BIAS_VALUE_SIGNAL) {
            return Err(Error::unmatching_user_provided_bias_value(BIAS_VALUE_SIGNAL, last));
        }
        Ok(BiasedSignalBuffer { data })
    }

    /// A buffer of `len` zero patterns followed by the signal bias
    /// constant; rejects a zero length.
    pub fn zeros_with_bias(len: usize) -> (r: Result<BiasedSignalBuffer, Error>)
        ensures
            match r {
                Ok(b) => {
                    &&& len >= 1
                    &&& b.bits().len() == len + 1
                    &&& all_zero(b.bits().take(len as int))
                    &&& b.bits().last() == BIAS_VALUE_SIGNAL
                    &&& b.wf()
                },
                Err(e) => len == 0 && e.kind == ErrorKind::ZeroSizedBuffer && e.annotation
                    == Annotation::Unannotated,
            },
    {
        if len == 0 {
            return Err(Error::attempt_to_create_zero_sized_buffer());
        }
        let mut data = make_zeros(len);
        let ghost z = data@;
        data.push(BIAS_VALUE_SIGNAL);
        proof {
            crate::fbits::lemma_bias_constants();
            assert(data@.take(len as int) =~= z);
        }
        Ok(BiasedSignalBuffer { data })
    }

    /// The buffer's dimension: the number of patterns it holds, the bias
    /// slot included.
    pub fn dim(&self) -> (r: usize)
        ensures
            r == self.bits().len(),
    {
        self.data.len()
    }

    /// The pattern at position `i`.
    pub fn get(&self, i: usize) -> (r: u32)
        requires
            i < self.bits().len(),
        ensures
            r == self.bits()[i as int],
    {
        self.data[i]
    }

    /// Writes the pattern at a non-bias position: the bias slot cannot be
    /// reached through this operation.
    pub fn set_unbiased(&mut self, i: usize, v: u32)
        requires
            old(self).wf(),
            i + 1 < old(self).bits().len(),
        ensures
            final(self).bits() == old(self).bits().update(i as int, v),
            final(self).wf(),
    {
        self.data[i] = v;
    }

    /// The held patterns, as a vector reference.
    pub fn data(&self) -> (r: &Vec<u32>)
        ensures
            r@ == self.bits(),
    {
        &self.data
    }

    /// An owned snapshot with identical length and content.
    pub fn view(&self) -> (r: BiasedSignalBuffer)
        ensures
            r.bits() == self.bits(),
    {
        BiasedSignalBuffer { data: copy_prefix(&self.data, self.data.len()) }
    }

    /// The unbiased view: all patterns except the trailing bias slot, as
    /// an owned unbiased signal buffer.
    pub fn unbias(&self) -> (r: UnbiasedSignalBuffer)
        requires
            self.wf(),
        ensures
            r.bits() == self.bits().take(self.bits().len() - 1),
            r.wf(),
    {
        UnbiasedSignalBuffer { data: copy_prefix(&self.data, self.data.len() - 1) }
    }
}

impl BiasedErrorSignalBuffer {
    /// The patterns held by this buffer, the trailing bias slot included.
    pub closed spec fn bits(&self) -> Seq<u32> {
        self.data@
    }

    /// The buffer is well formed: at least one value slot plus the bias
    /// slot, and the bias slot holds the error bias constant, zero.
    pub open spec fn wf(&self) -> bool {
        &&& self.bits().len() >= 2
        &&& f32_eq(self.bits().last(), BIAS_VALUE_ERROR_SIGNAL)
    }

    /// Wraps caller-supplied patterns whose last element is the bias slot;
    /// rejects an empty vector, a vector of one element, and a trailing
    /// element that is not the error bias constant.
    pub fn from_raw_with_bias(data: Vec<u32>) -> (r: Result<BiasedErrorSignalBuffer, Error>)
        ensures
            match r {
                Ok(b) => {
                    &&& data@.len() >= 2
                    &&& f32_eq(data@.last(), BIAS_VALUE_ERROR_SIGNAL)
                    &&& b.bits() == data@
                    &&& b.wf()
                },
                Err(e) => {
                    &&& e.annotation == Annotation::Unannotated
                    &&& data@.len() == 0 ==> e.kind == ErrorKind::ZeroSizedBuffer
                    &&& data@.len() == 1 ==> e.kind == (ErrorKind::TooFewValues {
                        expected_min: 2,
                        actual: 1,
                    })
                    &&& data@.len() >= 2 ==> !f32_eq(data@.last(), BIAS_VALUE_ERROR_SIGNAL)
                        && e.kind == (ErrorKind::UnmatchingBiasValue {
                        expected: BIAS_VALUE_ERROR_SIGNAL,
                        actual: data@.last(),
                    })
                },
            },
    {
        if data.len() == 0 {
            return Err(Error::attempt_to_create_zero_sized_buffer());
        }
        if data.len() == 1 {
            return Err(Error::too_few_values_provided_for_buffer_creation(2, data.len()));
        }
        let last = data[data.len() - 1];
        if !f32_eq_bits(last, BIAS_VALUE_ERROR_SIGNAL) {
            return Err(Error::unmatching_user_provided_bias_value(BIAS_VALUE_ERROR_SIGNAL, last));
        }
        Ok(BiasedErrorSignalBuffer { data })
    }

    /// A buffer of `len` zero patterns followed by the error bias
    /// constant, itself zero; rejects a zero length.
    pub fn zeros_with_bias(len: usize) -> (r: Result<BiasedErrorSignalBuffer, Error>)
        ensures
            match r {
                Ok(b) => {
                    &&& len >= 1
                    &&& b.bits().len() == len + 1
                    &&& all_zero(b.bits())
                    &&& b.wf()
                },
                Err(e) => len == 0 && e.kind == ErrorKind::ZeroSizedBuffer && e.annotation
                    == Annotation::Unannotated,
            },
    {
        if len == 0 {
            return Err(Error::attempt_to_create_zero_sized_buffer());
        }
        let mut data = make_zeros(len);
        let ghost z = data@;
        data.push(BIAS_VALUE_ERROR_SIGNAL);
        proof {
            crate::fbits::lemma_bias_constants();
            assert(data@.take(len as int) =~= z);
        }
        Ok(BiasedErrorSignalBuffer { data })
    }

    /// Resets every pattern of this buffer to zero; the bias slot is fixed
    /// at zero and stays so.
    pub fn reset_to_zeros(&mut self)
        requires
            old(self).wf(),
        ensures
            final(self).bits().len() == old(self).bits().len(),
            all_zero(final(self).bits()),
            final(self).wf(),
    {
        let n = self.data.len();
        self.data = make_zeros(n);
    }

    /// The buffer's dimension: the number of patterns it holds, the bias
    /// slot included.
    pub fn dim(&self) -> (r: usize)
        ensures
            r == self.bits().len(),
    {
        self.data.len()
    }

    /// The pattern at position `i`.
    pub fn get(&self, i: usize) -> (r: u32)
        requires
            i < self.bits().len(),
        ensures
            r == self.bits()[i as int],
    {
        self.data[i]
    }

    /// Writes the pattern at a non-bias position: the bias slot cannot be
    /// reached through this operation.
    pub fn set_unbiased(&mut self, i: usize, v: u32)
        requires
            old(self).wf(),
            i + 1 < old(self).bits().len(),
        ensures
            final(self).bits() == old(self).bits().update(i as int, v),
            final(self).wf(),
    {
        self.data[i] = v;
    }

    /// The held patterns, as a vector reference.
    pub fn data(&self) -> (r: &Vec<u32>)
        ensures
            r@ == self.bits(),
    {
        &self.data
    }

    /// An owned snapshot with identical length and content.
    pub fn view(&self) -> (r: BiasedErrorSignalBuffer)
        ensures
            r.bits() == self.bits(),
    {
        BiasedErrorSignalBuffer { data: copy_prefix(&self.data, self.data.len()) }
    }

    /// The unbiased view: all patterns except the trailing bias slot, as
    /// an owned unbiased error-signal buffer.
    pub fn unbias(&self) -> (r: UnbiasedErrorSignalBuffer)
        requires
            self.wf(),
        ensures
            r.bits() == self.bits().take(self.bits().len() - 1),
            r.wf(),
    {
        UnbiasedErrorSignalBuffer { data: copy_prefix(&self.data, self.data.len() - 1) }
    }
}

impl PartialEq for UnbiasedSignalBuffer {
    /// Element-wise value equality; the tags are a compile-time
    /// distinction only.
    fn eq(&self, other: &Self) -> bool {
        vec_f32_eq(&self.data, &other.data)
    }
}

impl vstd::std_specs::cmp::PartialEqSpecImpl for UnbiasedSignalBuffer {
    open spec fn obeys_eq_spec() -> bool {
        true
    }

    open spec fn eq_spec(&self, other: &Self) -> bool {
        f32_seq_eq(self.bits(), other.bits())
    }
}

impl PartialEq for UnbiasedErrorSignalBuffer {
    /// Element-wise value equality; the tags are a compile-time
    /// distinction only.
    fn eq(&self, other: &Self) -> bool {
        vec_f32_eq(&self.data, &other.data)
    }
}

impl vstd::std_specs::cmp::PartialEqSpecImpl for UnbiasedErrorSignalBuffer {
    open spec fn obeys_eq_spec() -> bool {
        true
    }

    open spec fn eq_spec(&self, other: &Self) -> bool {
        f32_seq_eq(self.bits(), other.bits())
    }
}

impl PartialEq for BiasedSignalBuffer {
    /// Element-wise value equality; the tags are a compile-time
    /// distinction only.
    fn eq(&self, other: &Self) -> bool {
        vec_f32_eq(&self.data, &other.data)
    }
}

impl vstd::std_specs::cmp::PartialEqSpecImpl for BiasedSignalBuffer {
    open spec fn obeys_eq_spec() -> bool {
        true
    }

    open spec fn eq_spec(&self, other: &Self) -> bool {
        f32_seq_eq(self.bits(), other.bits())
    }
}

impl PartialEq for BiasedErrorSignalBuffer {
    /// Element-wise value equality; the tags are a compile-time
    /// distinction only.
    fn eq(&self, other: &Self) -> bool {
        vec_f32_eq(&self.data, &other.data)
    }
}

impl vstd::std_specs::cmp::PartialEqSpecImpl for BiasedErrorSignalBuffer {
    open spec fn obeys_eq_spec() -> bool {
        true
    }

    open spec fn eq_spec(&self, other: &Self) -> bool {
        f32_seq_eq(self.bits(), other.bits())
    }
}

/// Constructing a biased signal buffer from raw values that end in the
/// correct bias constant and then stripping the bias slot yields exactly
/// the original values minus the last element.  The two requirements are
/// what `from_raw_with_bias` ensures of its successful result and what
/// `unbias` ensures of its result.
pub proof fn lemma_from_raw_with_bias_roundtrip(
    data: Seq<u32>,
    b: BiasedSignalBuffer,
    u: UnbiasedSignalBuffer,
)
    requires
        data.len() >= 2,
        f32_eq(data.last(), BIAS_VALUE_SIGNAL),
        b.bits() == data,
        u.bits() == b.bits().take(b.bits().len() - 1),
    ensures
        u.bits() == data.take(data.len() - 1),
{
}

} // verus!
