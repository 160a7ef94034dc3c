use llama_lazy::model::{load_on_disk, ModelDims};
use llama_lazy::tensor::{Device, Dims, Dtype, WeightRole};

fn small_dims(layers: usize) -> ModelDims {
    // vocab 7, hidden 4, intermediate 5, two heads: every shape is tiny and
    // the per-layer byte total is 268 (4 projections of 32, a 4-byte rotary
    // table, three feed-forward weights of 40, two norms of 8).
    ModelDims::new(7, 4, 5, 2, layers).unwrap()
}

fn request_bytes(dims: Dims, dtype: Dtype) -> usize {
    let count = match dims {
        Dims::R1(a) => a,
        Dims::R2(a, b) => a * b,
    };
    count * dtype.width()
}

#[test]
fn dims_reject_uneven_heads() {
    assert!(ModelDims::new(7, 10, 5, 3, 1).is_none());
}

#[test]
fn dims_reject_odd_head_dim() {
    assert!(ModelDims::new(7, 6, 5, 2, 1).is_none());
}

#[test]
fn dims_reject_zero_sizes() {
    assert!(ModelDims::new(0, 4, 5, 2, 1).is_none());
    assert!(ModelDims::new(7, 0, 5, 2, 1).is_none());
    assert!(ModelDims::new(7, 4, 0, 2, 1).is_none());
    assert!(ModelDims::new(7, 4, 5, 0, 1).is_none());
}

#[test]
fn dims_reject_oversized_weights() {
    assert!(ModelDims::new(usize::MAX, usize::MAX, 5, 2, 1).is_none());
}

#[test]
fn default_architecture_constants() {
    let d = ModelDims::llama_7b();
    assert_eq!(d.vocab, 32000);
    assert_eq!(d.hidden, 4096);
    assert_eq!(d.intermediate, 11008);
    assert_eq!(d.num_heads, 32);
    assert_eq!(d.num_layers, 32);
}

#[test]
fn tree_is_built_on_store_with_exact_total() {
    let d = small_dims(2);
    let m = load_on_disk(&d);
    assert_eq!(m.llama.layers.len(), 2);
    assert!(m.lm_head.is_on_disk());
    assert!(m.llama.embed_tokens.is_on_disk());
    assert!(m.llama.norm.weight.is_on_disk());
    for layer in m.llama.layers.iter() {
        assert!(layer.self_attn.q_proj.is_on_disk());
        assert!(layer.self_attn.rotary_embed.inv_freq.is_on_disk());
        assert!(layer.mlp.down_proj.is_on_disk());
        assert!(layer.input_layer_norm.weight.is_on_disk());
        assert!(layer.post_attention_layer_norm.weight.is_on_disk());
    }
    assert_eq!(m.num_bytes(), 656);
    assert_eq!(m.llama.num_bytes(), 600);
    assert_eq!(m.llama.layers[0].num_bytes(), 268);
    assert_eq!(m.llama.layers[0].self_attn.num_bytes(), 132);
    assert_eq!(m.llama.layers[0].self_attn.rotary_embed.num_bytes(), 4);
    assert_eq!(m.llama.layers[0].mlp.num_bytes(), 120);
    assert_eq!(m.llama.norm.num_bytes(), 8);
}

#[test]
fn tight_budget_skips_for_size() {
    // 32 bytes cover neither the 56-byte head nor the embedding table, but
    // they do cover the first query projection: the loader skips for size
    // and keeps walking, so a weight later in the order can be taken while
    // an earlier one that did not fit stays on the store.
    let d = small_dims(1);
    let mut m = load_on_disk(&d);
    let mut device = Device::new();
    let r = m.maybe_load_on(32, &mut device);
    assert_eq!(r, 0);
    let roles: Vec<WeightRole> = device.pending.iter().map(|q| q.id.role).collect();
    assert_eq!(roles, vec![WeightRole::QProj]);
    assert!(m.lm_head.is_on_disk());
    assert!(m.llama.embed_tokens.is_on_disk());
}

#[test]
fn zero_budget_materializes_nothing() {
    let d = small_dims(2);
    let mut m = load_on_disk(&d);
    let mut device = Device::new();
    let r = m.maybe_load_on(0, &mut device);
    assert_eq!(r, 0);
    assert!(device.pending.is_empty());
    assert!(m.lm_head.is_on_disk());
    assert!(m.llama.embed_tokens.is_on_disk());
    assert!(m.llama.layers[0].self_attn.q_proj.is_on_disk());
}

#[test]
fn exact_budget_takes_first_of_equal_candidates() {
    // The head and the embedding table are both 56 bytes; a budget of
    // exactly 56 goes to the head, which is first in traversal order.
    let d = small_dims(1);
    let mut m = load_on_disk(&d);
    let mut device = Device::new();
    let r = m.maybe_load_on(56, &mut device);
    assert_eq!(r, 0);
    assert_eq!(device.pending.len(), 1);
    assert_eq!(device.pending[0].id.role, WeightRole::LmHead);
    assert!(!m.lm_head.is_on_disk());
    assert!(m.llama.embed_tokens.is_on_disk());
}

#[test]
fn traversal_order_is_fixed() {
    let d = small_dims(1);
    let mut m = load_on_disk(&d);
    let mut device = Device::new();
    let r = m.maybe_load_on(10_000, &mut device);
    assert_eq!(r, 10_000 - 388);
    let roles: Vec<WeightRole> = device.pending.iter().map(|q| q.id.role).collect();
    assert_eq!(
        roles,
        vec![
            WeightRole::LmHead,
            WeightRole::EmbedTokens,
            WeightRole::QProj,
            WeightRole::KProj,
            WeightRole::VProj,
            WeightRole::OProj,
            WeightRole::InvFreq,
            WeightRole::GateProj,
            WeightRole::DownProj,
            WeightRole::UpProj,
            WeightRole::InputNorm,
            WeightRole::PostAttentionNorm,
            WeightRole::FinalNorm,
        ]
    );
    for q in device.pending.iter() {
        assert_eq!(q.id.layer, 0);
    }
}

#[test]
fn layer_order_is_by_index() {
    let d = small_dims(3);
    let mut m = load_on_disk(&d);
    let mut device = Device::new();
    let _ = m.maybe_load_on(usize::MAX, &mut device);
    let layer_of_q: Vec<usize> = device
        .pending
        .iter()
        .filter(|q| q.id.role == WeightRole::QProj)
        .map(|q| q.id.layer)
        .collect();
    assert_eq!(layer_of_q, vec![0, 1, 2]);
}

#[test]
fn budget_is_never_overspent() {
    let d = small_dims(2);
    for budget in [0usize, 1, 55, 56, 60, 100, 300, 656, 1000] {
        let mut m = load_on_disk(&d);
        let mut device = Device::new();
        let r = m.maybe_load_on(budget, &mut device);
        assert!(r <= budget);
        let used: usize = device.pending.iter().map(|q| request_bytes(q.dims, q.dtype)).sum();
        assert_eq!(used, budget - r);
        assert!(used <= budget);
    }
}

#[test]
fn used_bytes_grow_with_budget() {
    let d = small_dims(2);
    let mut previous_used = 0usize;
    for budget in [0usize, 10, 56, 100, 150, 200, 400, 656] {
        let mut m = load_on_disk(&d);
        let mut device = Device::new();
        let r = m.maybe_load_on(budget, &mut device);
        let used = budget - r;
        assert!(used >= previous_used);
        previous_used = used;
    }
}

#[test]
fn marginal_remainder_flows_to_later_small_weights() {
    // 60 bytes: the 56-byte head loads, the 4 left skip everything down to
    // the first layer's 4-byte rotary table.
    let d = small_dims(2);
    let mut m = load_on_disk(&d);
    let mut device = Device::new();
    let r = m.maybe_load_on(60, &mut device);
    assert_eq!(r, 0);
    let roles: Vec<WeightRole> = device.pending.iter().map(|q| q.id.role).collect();
    assert_eq!(roles, vec![WeightRole::LmHead, WeightRole::InvFreq]);
    assert_eq!(device.pending[1].id.layer, 0);
    assert!(m.llama.layers[1].self_attn.rotary_embed.inv_freq.is_on_disk());
}

#[test]
fn repeated_loading_with_grown_budget_is_incremental() {
    let d = small_dims(1);
    let mut m = load_on_disk(&d);
    let mut device = Device::new();
    let r = m.maybe_load_on(56, &mut device);
    assert_eq!(r, 0);
    assert_eq!(device.pending.len(), 1);
    // The head is already resident: a second pass spends nothing on it and
    // reads the embedding table exactly once.
    let r = m.maybe_load_on(56, &mut device);
    assert_eq!(r, 0);
    assert_eq!(device.pending.len(), 2);
    assert_eq!(device.pending[1].id.role, WeightRole::EmbedTokens);
    assert!(!m.llama.embed_tokens.is_on_disk());
}
