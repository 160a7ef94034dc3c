use llama_lazy::tensor::{Device, Dims, Dtype, LazyTensor, LoadRequest, WeightId, WeightRole};

fn wid(role: WeightRole) -> WeightId {
    WeightId { role, layer: 0 }
}

fn request_bytes(r: &LoadRequest) -> usize {
    let count = match r.dims {
        Dims::R1(a) => a,
        Dims::R2(a, b) => a * b,
    };
    count * r.dtype.width()
}

#[test]
fn byte_size_is_count_times_width() {
    let t = LazyTensor::on_store(wid(WeightRole::LmHead), Dims::R2(3, 4), Dtype::F16).unwrap();
    assert_eq!(t.num_bytes(), 24);
    let t = LazyTensor::on_store(wid(WeightRole::InvFreq), Dims::R1(5), Dtype::F32).unwrap();
    assert_eq!(t.num_bytes(), 20);
}

#[test]
fn byte_size_invariant_across_transition() {
    let mut t = LazyTensor::on_store(wid(WeightRole::QProj), Dims::R2(2, 6), Dtype::F16).unwrap();
    let before = t.num_bytes();
    let mut device = Device::new();
    let _ = t.load_on(&mut device);
    assert_eq!(t.num_bytes(), before);
    assert_eq!(t.num_bytes(), 24);
}

#[test]
fn oversized_shape_is_refused() {
    assert!(LazyTensor::on_store(wid(WeightRole::LmHead), Dims::R2(usize::MAX, 2), Dtype::F16)
        .is_none());
    assert!(LazyTensor::on_store(wid(WeightRole::LmHead), Dims::R1(usize::MAX), Dtype::F32)
        .is_none());
}

#[test]
fn materialization_is_idempotent() {
    let mut t = LazyTensor::on_store(wid(WeightRole::KProj), Dims::R2(2, 2), Dtype::F16).unwrap();
    let mut device = Device::new();
    assert!(t.is_on_disk());
    let first = t.load_on(&mut device);
    assert!(!t.is_on_disk());
    assert_eq!(device.pending.len(), 1);
    let second = t.load_on(&mut device);
    assert_eq!(device.pending.len(), 1);
    assert_eq!(first, second);
}

#[test]
fn leaf_skip_keeps_state_and_budget() {
    let mut t = LazyTensor::on_store(wid(WeightRole::VProj), Dims::R2(4, 4), Dtype::F16).unwrap();
    let mut device = Device::new();
    let r = t.maybe_load(31, &mut device);
    assert_eq!(r, 31);
    assert!(t.is_on_disk());
    assert!(device.pending.is_empty());
    let r = t.maybe_load(32, &mut device);
    assert_eq!(r, 0);
    assert!(!t.is_on_disk());
    assert_eq!(device.pending.len(), 1);
}

#[test]
fn loader_log_carries_exact_request() {
    let mut t = LazyTensor::on_store(wid(WeightRole::UpProj), Dims::R2(2, 5), Dtype::F16).unwrap();
    let mut device = Device::new();
    let _ = t.load_on(&mut device);
    let req = &device.pending[0];
    assert_eq!(req.id.role, WeightRole::UpProj);
    assert_eq!(req.dims, Dims::R2(2, 5));
    assert_eq!(req.dtype, Dtype::F16);
    assert_eq!(request_bytes(req), 20);
}
