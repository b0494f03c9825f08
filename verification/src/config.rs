//! The configuration surface of a run.
//!
//! Every option is required at startup and validated once; the
//! structure is then threaded through the pipeline by reference.  An
//! invalid or absent option is a fatal configuration error before any
//! processing begins.

use vstd::prelude::*;

use crate::errors::PipelineError;
use crate::CHANNELS;

verus! {

/// The options a run needs, validated by [`PipelineConfig::new`].
#[derive(Debug)]
pub struct PipelineConfig {
    /// URL of the vector store.
    pub endpoint: String,
    /// Credential handed to the store on connection.
    pub api_key: String,
    /// Name of the collection written to.
    pub collection_name: String,
    /// Length every stored embedding vector must have.
    pub vector_dim: usize,
    /// Largest number of images processed in one batch.
    pub batch_capacity: usize,
    /// Width every image is resized to before inference.
    pub input_width: u32,
    /// Height every image is resized to before inference.
    pub input_height: u32,
    /// Worker count of the I/O-bound pool (reads and decodes).
    pub io_workers: usize,
    /// Worker count of the CPU-bound pool (resize and normalize).
    pub compute_workers: usize,
}

impl PipelineConfig {
    /// What a usable configuration looks like: nothing absent, nothing
    /// zero, and the preallocated tensor buffer's element count within
    /// the machine's address range.
    pub open spec fn valid(&self) -> bool {
        &&& self.endpoint@.len() > 0
        &&& self.collection_name@.len() > 0
        &&& self.vector_dim >= 1
        &&& self.batch_capacity >= 1
        &&& self.input_width >= 1
        &&& self.input_height >= 1
        &&& self.io_workers >= 1
        &&& self.compute_workers >= 1
        &&& CHANNELS * self.input_width * self.input_height <= usize::MAX
        &&& self.batch_capacity * (CHANNELS * self.input_width
            * self.input_height) <= usize::MAX
    }

    /// Elements of one tensor row: channels times resized height times
    /// resized width.
    pub open spec fn spec_row_len(&self) -> int {
        CHANNELS * self.input_width * self.input_height
    }

    /// Builds a configuration, rejecting any invalid combination of
    /// options.  Succeeds exactly on valid input and keeps every field
    /// as given.
    pub fn new(
        endpoint: String,
        api_key: String,
        collection_name: String,
        vector_dim: usize,
        batch_capacity: usize,
        input_width: u32,
        input_height: u32,
        io_workers: usize,
        compute_workers: usize,
    ) -> (r: Result<PipelineConfig, PipelineError>)
        ensures
            match r {
                Ok(c) => {
                    &&& c.valid()
                    &&& c.endpoint@ == endpoint@
                    &&& c.api_key@ == api_key@
                    &&& c.collection_name@ == collection_name@
                    &&& c.vector_dim == vector_dim
                    &&& c.batch_capacity == batch_capacity
                    &&& c.input_width == input_width
                    &&& c.input_height == input_height
                    &&& c.io_workers == io_workers
                    &&& c.compute_workers == compute_workers
                },
                Err(e) => {
                    &&& e == PipelineError::Config
                    &&& !(PipelineConfig {
                        endpoint: endpoint,
                        api_key: api_key,
                        collection_name: collection_name,
                        vector_dim: vector_dim,
                        batch_capacity: batch_capacity,
                        input_width: input_width,
                        input_height: input_height,
                        io_workers: io_workers,
                        compute_workers: compute_workers,
                    }).valid()
                },
            },
    {
        if endpoint.as_str().is_empty() {
            return Err(PipelineError::Config);
        }
        if collection_name.as_str().is_empty() {
            return Err(PipelineError::Config);
        }
        if vector_dim < 1 || batch_capacity < 1 || io_workers < 1 || compute_workers < 1 {
            return Err(PipelineError::Config);
        }
        if input_width < 1 || input_height < 1 {
            return Err(PipelineError::Config);
        }
        let w: usize = input_width as usize;
        let h: usize = input_height as usize;
        let row_len: usize = match CHANNELS.checked_mul(w) {
            Some(cw) => match cw.checked_mul(h) {
                Some(r) => r,
                None => {
                    return Err(PipelineError::Config);
                },
            },
            None => {
                proof {
                    assert(CHANNELS * w <= CHANNELS * w * h) by (nonlinear_arith)
                        requires
                            h >= 1,
                            CHANNELS * w >= 0,
                    ;
                }
                return Err(PipelineError::Config);
            },
        };
        if batch_capacity.checked_mul(row_len).is_none() {
            return Err(PipelineError::Config);
        }
        Ok(PipelineConfig {
            endpoint,
            api_key,
            collection_name,
            vector_dim,
            batch_capacity,
            input_width,
            input_height,
            io_workers,
            compute_workers,
        })
    }

    /// Elements of one tensor row, as executable arithmetic.
    pub fn row_len(&self) -> (r: usize)
        requires
            self.valid(),
        ensures
            r == self.spec_row_len(),
    {
        let w: usize = self.input_width as usize;
        let h: usize = self.input_height as usize;
        proof {
            assert(CHANNELS * w <= CHANNELS * w * h) by (nonlinear_arith)
                requires
                    h >= 1,
                    w >= 0,
            ;
        }
        CHANNELS * w * h
    }
}

} // verus!
