use tensor_vm::error::TvmError;
use tensor_vm::runtime::{
    cuda_device_count, cuda_error, cuda_kernels_compiled, require_rank_for_cuda_matmul, BackendKind,
    CpuReferenceBackend, ExecutionBackend, GpuMinerBackend,
};
use tensor_vm::tensor::{DType, Tensor};

#[test]
fn cuda_kernel_feature_flag_reports_availability() {
    assert_eq!(cuda_kernels_compiled(), false);
    assert_eq!(cuda_device_count().unwrap(), 0);
}

#[test]
fn backends_report_their_kind_and_device() {
    let cpu = CpuReferenceBackend;
    let gpu = GpuMinerBackend::new("cuda:0");
    assert_eq!(cpu.kind(), BackendKind::CpuReference);
    assert_eq!(gpu.kind(), BackendKind::GpuMiner { device: "cuda:0".to_owned() });
    assert_eq!(gpu.device(), "cuda:0");
}

#[test]
fn cuda_device_index_reads_the_device_number() {
    assert_eq!(GpuMinerBackend::new("cuda:0").cuda_device_index(), Ok(0));
    assert_eq!(GpuMinerBackend::new("cuda:12").cuda_device_index(), Ok(12));
    assert_eq!(GpuMinerBackend::new("3").cuda_device_index(), Ok(3));
    assert_eq!(
        GpuMinerBackend::new("cuda:x").cuda_device_index(),
        Err(TvmError::InvalidReceipt("invalid cuda device"))
    );
    assert_eq!(
        GpuMinerBackend::new("cuda:4294967296").cuda_device_index(),
        Err(TvmError::InvalidReceipt("invalid cuda device"))
    );
    assert_eq!(
        GpuMinerBackend::new("gpu:1").cuda_device_index(),
        Err(TvmError::InvalidReceipt("invalid cuda device"))
    );
}

#[test]
fn cuda_matmul_needs_rank_two_and_codes_name_errors() {
    let matrix = Tensor::from_vec(vec![2, 2], DType::FieldElement, vec![1, 2, 3, 4]).unwrap();
    assert_eq!(require_rank_for_cuda_matmul(&matrix), Ok(()));
    let vector = Tensor::from_vec(vec![3], DType::FieldElement, vec![1, 2, 3]).unwrap();
    assert_eq!(require_rank_for_cuda_matmul(&vector), Err(TvmError::UnsupportedRank { rank: 1 }));
    assert_eq!(cuda_error(-3), TvmError::InvalidReceipt("cuda allocation failed"));
    assert_eq!(cuda_error(-6), TvmError::InvalidReceipt("cuda device index out of range"));
    assert_eq!(cuda_error(7), TvmError::InvalidReceipt("cuda kernel failed"));
}
