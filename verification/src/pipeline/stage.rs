use vstd::prelude::*;
use crate::codec::{
    push_u32_le, push_u64_le, read_u32_le, read_u64_le, spec_u32_from_le, spec_u32_le,
    spec_u64_from_le, spec_u64_le, lemma_u32_le_roundtrip, lemma_u64_le_roundtrip,
};

verus! {

/// A `rows` by `cols` block of activations or gradients, row-major. Each value is held as
/// the bit pattern of its IEEE-754 single-precision number; arithmetic on the values is done
/// by the caller.
#[derive(Debug, PartialEq, Eq)]
pub struct StageData {
    pub values: Vec<u32>,
    pub rows: usize,
    pub cols: usize,
}

/// The mathematical value of a [`StageData`].
pub struct StageDataView {
    pub values: Seq<u32>,
    pub rows: usize,
    pub cols: usize,
}

impl View for StageData {
    type V = StageDataView;

    open spec fn view(&self) -> StageDataView {
        StageDataView { values: self.values@, rows: self.rows, cols: self.cols }
    }
}

impl Clone for StageData {
    fn clone(&self) -> (r: Self)
        ensures
            r@ == self@,
    {
        let values = self.values.clone();
        assert(values@ =~= self.values@);
        StageData { values, rows: self.rows, cols: self.cols }
    }
}

/// The little-endian bytes of each word in turn.
pub open spec fn spec_words_le(words: Seq<u32>) -> Seq<u8> {
    Seq::new(4 * words.len(), |k: int| spec_u32_le(words[k / 4])[k % 4])
}

/// The wire form of a block: `rows` and `cols` as little-endian 64-bit numbers, then the
/// values, each as four little-endian bytes.
pub open spec fn spec_stage_bytes(rows: usize, cols: usize, values: Seq<u32>) -> Seq<u8> {
    spec_u64_le(rows as u64) + spec_u64_le(cols as u64) + spec_words_le(values)
}

/// The dimensions a wire form announces.
pub open spec fn spec_announced_rows(bytes: Seq<u8>) -> usize {
    spec_u64_from_le(bytes.subrange(0, 8)) as usize
}

pub open spec fn spec_announced_cols(bytes: Seq<u8>) -> usize {
    spec_u64_from_le(bytes.subrange(8, 16)) as usize
}

/// `from_bytes` can read these bytes: the header is there, the announced value count fits
/// in a `usize`, and all its values are there.
pub open spec fn stage_bytes_complete(bytes: Seq<u8>) -> bool {
    &&& bytes.len() >= 16
    &&& spec_announced_rows(bytes) * spec_announced_cols(bytes) <= usize::MAX
    &&& 16 + 4 * (spec_announced_rows(bytes) * spec_announced_cols(bytes)) <= bytes.len()
}

/// The values a complete wire form holds.
pub open spec fn spec_announced_values(bytes: Seq<u8>) -> Seq<u32> {
    Seq::new(
        (spec_announced_rows(bytes) * spec_announced_cols(bytes)) as nat,
        |i: int| spec_u32_from_le(bytes.subrange(16 + 4 * i, 16 + 4 * i + 4)),
    )
}

proof fn lemma_words_le_push(words: Seq<u32>, w: u32)
    ensures
        spec_words_le(words.push(w)) == spec_words_le(words) + spec_u32_le(w),
{
    let n = words.len() as int;
    lemma_u32_le_roundtrip(w);
    assert forall|k: int| 0 <= k < 4 * (n + 1) implies #[trigger] spec_words_le(words.push(w))[k] == (
    spec_words_le(words) + spec_u32_le(w))[k] by {
        if k < 4 * n {
            assert(k / 4 < n);
        } else {
            assert(k / 4 == n);
            assert(k % 4 == k - 4 * n);
        }
    }
    assert(spec_words_le(words.push(w)) =~= spec_words_le(words) + spec_u32_le(w));
}

proof fn lemma_words_le_slice(words: Seq<u32>, i: int)
    requires
        0 <= i < words.len(),
    ensures
        spec_words_le(words).subrange(4 * i, 4 * i + 4) == spec_u32_le(words[i]),
{
    let s = spec_words_le(words).subrange(4 * i, 4 * i + 4);
    lemma_u32_le_roundtrip(words[i]);
    assert forall|j: int| 0 <= j < 4 implies #[trigger] s[j] == spec_u32_le(words[i])[j] by {
        assert((4 * i + j) / 4 == i);
        assert((4 * i + j) % 4 == j);
    }
    assert(s =~= spec_u32_le(words[i]));
}

/// Reading the wire form of a block gives the block back.
pub proof fn lemma_stage_bytes_roundtrip(rows: usize, cols: usize, values: Seq<u32>)
    requires
        values.len() == rows * cols,
        rows * cols <= usize::MAX,
    ensures
        stage_bytes_complete(spec_stage_bytes(rows, cols, values)),
        spec_announced_rows(spec_stage_bytes(rows, cols, values)) == rows,
        spec_announced_cols(spec_stage_bytes(rows, cols, values)) == cols,
        spec_announced_values(spec_stage_bytes(rows, cols, values)) == values,
{
    let b = spec_stage_bytes(rows, cols, values);
    lemma_u64_le_roundtrip(rows as u64);
    lemma_u64_le_roundtrip(cols as u64);
    assert(b.subrange(0, 8) =~= spec_u64_le(rows as u64));
    assert(b.subrange(8, 16) =~= spec_u64_le(cols as u64));
    assert((rows as u64) as usize == rows && (cols as u64) as usize == cols);
    let got = spec_announced_values(b);
    assert forall|i: int| 0 <= i < values.len() implies #[trigger] got[i] == values[i] by {
        lemma_words_le_slice(values, i);
        assert(b.subrange(16 + 4 * i, 16 + 4 * i + 4) =~= spec_words_le(values).subrange(4 * i, 4 * i + 4));
        lemma_u32_le_roundtrip(values[i]);
    }
    assert(got =~= values);
}

impl StageData {
    /// The block of the given dimensions holding `values`.
    pub fn new(values: Vec<u32>, rows: usize, cols: usize) -> (r: Self)
        requires
            values@.len() == rows * cols,
        ensures
            r@.values == values@,
            r.rows == rows,
            r.cols == cols,
    {
        Self { values, rows, cols }
    }

    /// The block of the given dimensions whose values are all `+0.0`.
    pub fn zeros(rows: usize, cols: usize) -> (r: Self)
        requires
            rows * cols <= usize::MAX,
        ensures
            r.rows == rows,
            r.cols == cols,
            r@.values == Seq::new((rows * cols) as nat, |i: int| 0u32),
    {
        let n = rows * cols;
        let mut values: Vec<u32> = Vec::new();
        let mut i: usize = 0;
        while i < n
            invariant
                i <= n,
                values@ == Seq::new(i as nat, |k: int| 0u32),
            decreases n - i,
        {
            values.push(0);
            i = i + 1;
            assert(values@ =~= Seq::new(i as nat, |k: int| 0u32));
        }
        Self { values, rows, cols }
    }

    /// The number of values.
    pub fn len(&self) -> (r: usize)
        ensures
            r == self@.values.len(),
    {
        self.values.len()
    }

    /// Whether the block holds no value.
    pub fn is_empty(&self) -> (r: bool)
        ensures
            r == (self@.values.len() == 0),
    {
        self.values.len() == 0
    }

    /// The wire form of the block.
    pub fn to_bytes(&self) -> (r: Vec<u8>)
        ensures
            r@ == spec_stage_bytes(self.rows, self.cols, self@.values),
    {
        let mut bytes: Vec<u8> = Vec::new();
        push_u64_le(&mut bytes, self.rows as u64);
        push_u64_le(&mut bytes, self.cols as u64);
        let ghost header = bytes@;
        let mut i: usize = 0;
        while i < self.values.len()
            invariant
                i <= self.values@.len(),
                header == spec_u64_le(self.rows as u64) + spec_u64_le(self.cols as u64),
                bytes@ == header + spec_words_le(self.values@.take(i as int)),
            decreases self.values@.len() - i,
        {
            let ghost before = self.values@.take(i as int);
            push_u32_le(&mut bytes, self.values[i]);
            proof {
                lemma_words_le_push(before, self.values@[i as int]);
                assert(self.values@.take(i + 1) =~= before.push(self.values@[i as int]));
            }
            i = i + 1;
        }
        assert(self.values@.take(i as int) =~= self.values@);
        bytes
    }

    /// The block whose wire form starts `bytes`.
    pub fn from_bytes(bytes: &[u8]) -> (r: Self)
        requires
            stage_bytes_complete(bytes@),
        ensures
            r.rows == spec_announced_rows(bytes@),
            r.cols == spec_announced_cols(bytes@),
            r@.values == spec_announced_values(bytes@),
    {
        let len = bytes.len();
        let rows = read_u64_le(bytes, 0) as usize;
        let cols = read_u64_le(bytes, 8) as usize;
        let n = rows * cols;
        let mut values: Vec<u32> = Vec::new();
        let mut offset: usize = 16;
        let mut i: usize = 0;
        while i < n
            invariant
                stage_bytes_complete(bytes@),
                rows == spec_announced_rows(bytes@),
                cols == spec_announced_cols(bytes@),
                n == rows * cols,
                len == bytes@.len(),
                i <= n,
                offset == 16 + 4 * i,
                values@ == spec_announced_values(bytes@).take(i as int),
            decreases n - i,
        {
            let v = read_u32_le(bytes, offset);
            values.push(v);
            offset = offset + 4;
            i = i + 1;
            assert(values@ =~= spec_announced_values(bytes@).take(i as int));
        }
        assert(values@ =~= spec_announced_values(bytes@));
        Self { values, rows, cols }
    }

    /// The block whose wire form starts `bytes`, or `None` where the bytes do not hold a
    /// complete wire form: the header is missing, the announced value count does not fit in
    /// a `usize`, or some of its values are missing.
    pub fn try_from_bytes(bytes: &[u8]) -> (r: Option<Self>)
        ensures
            r is Some <==> stage_bytes_complete(bytes@),
            r matches Some(d) ==> d.rows == spec_announced_rows(bytes@) && d.cols == spec_announced_cols(bytes@)
                && d@.values == spec_announced_values(bytes@),
    {
        let len = bytes.len();
        if len < 16 {
            return None;
        }
        let rows = read_u64_le(bytes, 0) as usize;
        let cols = read_u64_le(bytes, 8) as usize;
        let count = match rows.checked_mul(cols) {
            Some(c) => c,
            None => return None,
        };
        if count > (len - 16) / 4 {
            return None;
        }
        assert(16 + 4 * count <= len) by (nonlinear_arith)
            requires
                count <= (len - 16) / 4,
                len >= 16,
        ;
        Some(Self::from_bytes(bytes))
    }
}

} // verus!
