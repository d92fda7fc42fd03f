//! Embedding engines.
//!
//! - [`NoopEmbeddingEngine`]: always available; returns zero vectors, which
//!   enables CI and unit tests without model files.
use vstd::prelude::*;

use crate::arrow::interop::{
    float_list_nulls, float_list_rows, float_list_size, float_list_try_new, float_list_values,
};
use crate::error::MembridError;

verus! {

/// Embedding engine that returns zero vectors.
///
/// Every call returns a vector of `dims` zeros, which is valid Arrow but
/// semantically meaningless for retrieval. Vectors are handed out as the
/// IEEE-754 binary32 bit patterns of their components; `0` is the pattern
/// of `+0.0`.
pub struct NoopEmbeddingEngine {
    dims: usize,
}

/// `n` zero bit patterns.
pub open spec fn zero_bits(n: nat) -> Seq<u32> {
    Seq::new(n, |i: int| 0u32)
}

/// The embedding dimensions that `NoopEmbeddingEngine::default` uses
/// (nomic-embed default).
pub const DEFAULT_DIMS: usize = 768;

impl NoopEmbeddingEngine {
    #[verifier::type_invariant]
    spec fn has_dims(self) -> bool {
        self.dims > 0
    }

    /// The number of dimensions of every embedding.
    pub closed spec fn dims_spec(&self) -> nat {
        self.dims as nat
    }

    pub fn new(dims: usize) -> (e: Self)
        requires
            dims > 0,
        ensures
            e.dims_spec() == dims,
    {
        NoopEmbeddingEngine { dims }
    }

    /// Embed a single text string: `dims` zeros.
    pub fn embed(&self, text: &str) -> (v: Vec<u32>)
        ensures
            v@ == zero_bits(self.dims_spec()),
    {
        let mut v: Vec<u32> = Vec::new();
        for i in 0..self.dims
            invariant
                v@ == zero_bits(i as nat),
        {
            v.push(0u32);
            assert(v@ =~= zero_bits((i + 1) as nat));
        }
        v
    }

    /// Batch embed: one row of `dims` zeros per text, as a fixed-size list
    /// array ready for zero-copy insertion.
    pub fn embed_batch(&self, texts: &[&str]) -> (r: Result<arrow_array::FixedSizeListArray, MembridError>)
        requires
            texts@.len() * self.dims_spec() <= usize::MAX,
        ensures
            self.dims_spec() <= i32::MAX ==> (r matches Ok(a) && float_list_rows(a) == Seq::new(
                texts@.len(),
                |i: int| Some(zero_bits(self.dims_spec())),
            ) && float_list_size(a) == self.dims_spec()),
            r matches Ok(a) ==> float_list_values(a) == zero_bits(texts@.len() * self.dims_spec())
                && float_list_nulls(a) is None,
            r matches Err(e) ==> e is Arrow,
    {
        proof {
            use_type_invariant(self);
        }
        let n = texts.len();
        let dims = self.dims;
        let total = n * dims;
        let mut flat: Vec<u32> = Vec::new();
        for i in 0..total
            invariant
                flat@ == zero_bits(i as nat),
        {
            flat.push(0u32);
            assert(flat@ =~= zero_bits((i + 1) as nat));
        }
        let size: i32 = #[verifier::truncate] (dims as i32);
        proof {
            if dims <= i32::MAX {
                let t: int = n * dims;
                assert(t % (dims as int) == 0 && t / (dims as int) == n) by (nonlinear_arith)
                    requires
                        dims > 0,
                        t == n * dims,
                ;
            }
        }
        let ghost flat_view = flat@;
        match float_list_try_new(size, flat, None) {
            Ok(a) => {
                proof {
                    if dims <= i32::MAX {
                        assert forall|i: int| 0 <= i < n implies #[trigger] float_list_rows(a)[i] == Some(
                            zero_bits(dims as nat),
                        ) by {
                            assert(0 <= i * dims && i * dims + dims <= n * dims) by (nonlinear_arith)
                                requires
                                    0 <= i < n,
                            ;
                            assert(flat_view.subrange(i * dims, i * dims + dims) =~= zero_bits(dims as nat));
                        }
                        assert(float_list_rows(a) =~= Seq::new(
                            n as nat,
                            |i: int| Some(zero_bits(self.dims_spec())),
                        ));
                    }
                }
                Ok(a)
            },
            Err(e) => Err(MembridError::Arrow(e)),
        }
    }

    /// Number of dimensions in the embedding output.
    pub fn dimensions(&self) -> (d: usize)
        ensures
            d == self.dims_spec(),
            d > 0,
    {
        proof {
            use_type_invariant(self);
        }
        self.dims
    }
}

impl Default for NoopEmbeddingEngine {
    /// Returns a `NoopEmbeddingEngine` with 768 dimensions (nomic-embed default).
    fn default() -> (e: Self)
        ensures
            e.dims_spec() == DEFAULT_DIMS,
    {
        Self::new(DEFAULT_DIMS)
    }
}

} // verus!
