use vstd::prelude::*;
use vstd::string::{StrSliceExecFns, StringSliceAdditionalSpecFns};
use vstd::utf8::encode_utf8;
use crate::error::{Result, TvmError};
use crate::tensor::Tensor;
use crate::text::{parse_u64_text, spec_parse_unsigned, str_eq};

verus! {

/// Which backend executes jobs.
#[derive(Clone, Debug, PartialEq, Eq)]
pub enum BackendKind {
    CpuReference,
    GpuMiner { device: String },
}

/// Something that executes tensor jobs.
pub trait ExecutionBackend {
    fn kind(&self) -> BackendKind;
}

/// The reference CPU backend.
#[derive(Clone, Copy, Debug, Default)]
pub struct CpuReferenceBackend;

impl ExecutionBackend for CpuReferenceBackend {
    fn kind(&self) -> (out: BackendKind)
        ensures
            out == BackendKind::CpuReference,
    {
        BackendKind::CpuReference
    }
}

/// A GPU miner backend bound to a device name such as `cuda:0`.
#[derive(Clone, Debug, PartialEq, Eq)]
pub struct GpuMinerBackend {
    device: String,
}

impl GpuMinerBackend {
    /// The device this backend runs on.
    pub closed spec fn device_name(&self) -> Seq<char> {
        self.device@
    }

    pub fn new(device: &str) -> (out: Self)
        ensures
            out.device_name() == device@,
    {
        GpuMinerBackend { device: device.to_owned() }
    }

    pub fn device(&self) -> (out: &str)
        ensures
            out@ == self.device_name(),
    {
        self.device.as_str()
    }
}

impl ExecutionBackend for GpuMinerBackend {
    fn kind(&self) -> (out: BackendKind)
        ensures
            out matches BackendKind::GpuMiner { device } && device@ == self.device_name(),
    {
        BackendKind::GpuMiner { device: self.device.clone() }
    }
}

/// Whether the CUDA kernels were compiled in; this build has none.
pub fn cuda_kernels_compiled() -> (out: bool)
    ensures
        !out,
{
    false
}

/// The number of CUDA devices usable by this build: none, as it has no CUDA
/// kernels.
pub fn cuda_device_count() -> (out: Result<u32>)
    ensures
        out == Ok::<u32, crate::error::TvmError>(0),
{
    Ok(0)
}


/// The part of a device name that numbers the CUDA device: what follows a
/// leading `cuda:`, or the whole name.
pub open spec fn device_index_text(device: Seq<char>) -> Seq<char> {
    if device.len() >= 5 && device.subrange(0, 5) == "cuda:"@ {
        device.subrange(5, device.len() as int)
    } else {
        device
    }
}

impl GpuMinerBackend {
    /// The CUDA device index the device name gives, read as `u32` is.
    pub fn cuda_device_index(&self) -> (out: Result<u32>)
        ensures
            match spec_parse_unsigned(encode_utf8(device_index_text(self.device_name())), u32::MAX as nat) {
                Some(v) => out == Ok::<u32, TvmError>(v as u32),
                None => out == Err::<u32, TvmError>(TvmError::InvalidReceipt("invalid cuda device")),
            },
    {
        let n = self.device.unicode_len();
        let index = if n >= 5 && str_eq(self.device.as_str().substring_char(0, 5), "cuda:") {
            self.device.as_str().substring_char(5, n)
        } else {
            self.device.as_str()
        };
        proof {
            reveal_strlit("cuda:");
        }
        assert(index@ == device_index_text(self.device_name()));
        match parse_u64_text(index.as_bytes()) {
            Some(v) => {
                if v <= u32::MAX as u64 {
                    Ok(v as u32)
                } else {
                    Err(TvmError::InvalidReceipt("invalid cuda device"))
                }
            },
            None => Err(TvmError::InvalidReceipt("invalid cuda device")),
        }
    }
}

/// The CUDA kernels multiply matrices only: a tensor of any other rank is
/// refused with its rank.
pub fn require_rank_for_cuda_matmul(tensor: &Tensor) -> (out: Result<()>)
    ensures
        tensor.shape_view().len() == 2 ==> out is Ok,
        tensor.shape_view().len() != 2 ==> out == Err::<(), TvmError>(
            TvmError::UnsupportedRank { rank: tensor.shape_view().len() as usize },
        ),
{
    let rank = tensor.shape().len();
    if rank == 2 {
        Ok(())
    } else {
        Err(TvmError::UnsupportedRank { rank })
    }
}

/// The error a CUDA kernel's status code stands for.
pub open spec fn spec_cuda_error(code: i32) -> TvmError {
    if code == -1 {
        TvmError::InvalidReceipt("cuda kernel received null pointer")
    } else if code == -2 {
        TvmError::InvalidReceipt("cuda device unavailable or invalid shape")
    } else if code == -3 {
        TvmError::InvalidReceipt("cuda allocation failed")
    } else if code == -4 {
        TvmError::InvalidReceipt("cuda host-device copy failed")
    } else if code == -5 {
        TvmError::InvalidReceipt("cuda kernel execution failed")
    } else if code == -6 {
        TvmError::InvalidReceipt("cuda device index out of range")
    } else {
        TvmError::InvalidReceipt("cuda kernel failed")
    }
}

pub fn cuda_error(code: i32) -> (out: TvmError)
    ensures
        out == spec_cuda_error(code),
{
    match code {
        -1 => TvmError::InvalidReceipt("cuda kernel received null pointer"),
        -2 => TvmError::InvalidReceipt("cuda device unavailable or invalid shape"),
        -3 => TvmError::InvalidReceipt("cuda allocation failed"),
        -4 => TvmError::InvalidReceipt("cuda host-device copy failed"),
        -5 => TvmError::InvalidReceipt("cuda kernel execution failed"),
        -6 => TvmError::InvalidReceipt("cuda device index out of range"),
        _ => TvmError::InvalidReceipt("cuda kernel failed"),
    }
}

} // verus!
