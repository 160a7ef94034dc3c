use vstd::prelude::*;
use crate::budget::{greedy, lemma_greedy_concat, lemma_greedy_singleton, lemma_total_size_cons,
    lemma_total_size_singleton, total_size};
use crate::tensor::{weight_size, Device, Dims, Dtype, LazyTensor, WeightId, WeightRole,
    WeightView};

verus! {

/// Architecture constants of the model. The tree shape (layer count and the
/// weight set of each node) is determined by these alone, independent of what
/// the backing store actually holds.
#[derive(Clone, Copy, PartialEq, Eq, Structural, Debug)]
pub struct ModelDims {
    pub vocab: usize,
    pub hidden: usize,
    pub intermediate: usize,
    pub num_heads: usize,
    pub num_layers: usize,
}

impl ModelDims {
    /// Per-head dimension of the attention projections.
    pub open spec fn head_dim(self) -> int {
        self.hidden as int / self.num_heads as int
    }

    /// Half of the per-head dimension: the length of the rotary
    /// inverse-frequency table.
    pub open spec fn half_head_dim(self) -> int {
        self.head_dim() / 2
    }

    /// Well-formed dimensions: nonzero sizes, the hidden size splits evenly
    /// into heads, each head splits into two rotary halves, and every single
    /// weight's byte size fits the machine.
    pub open spec fn wf(self) -> bool {
        &&& self.vocab >= 1
        &&& self.hidden >= 1
        &&& self.intermediate >= 1
        &&& self.num_heads >= 1
        &&& self.hidden % self.num_heads == 0
        &&& self.head_dim() >= 2
        &&& self.head_dim() % 2 == 0
        &&& self.vocab * self.hidden * 2 <= usize::MAX
        &&& self.hidden * self.hidden * 2 <= usize::MAX
        &&& self.hidden * self.intermediate * 2 <= usize::MAX
        &&& self.hidden * 2 <= usize::MAX
        &&& self.half_head_dim() * 4 <= usize::MAX
    }

    /// Checked constructor: accepts exactly the well-formed dimension sets.
    pub fn new(
        vocab: usize,
        hidden: usize,
        intermediate: usize,
        num_heads: usize,
        num_layers: usize,
    ) -> (r: Option<ModelDims>)
        ensures
            match r {
                Some(d) => d == (ModelDims { vocab, hidden, intermediate, num_heads, num_layers })
                    && d.wf(),
                None => !(ModelDims { vocab, hidden, intermediate, num_heads, num_layers }).wf(),
            },
    {
        if vocab == 0 || hidden == 0 || intermediate == 0 || num_heads == 0 {
            return None;
        }
        if hidden % num_heads != 0 {
            return None;
        }
        let head_dim = hidden / num_heads;
        if head_dim == 0 || head_dim % 2 != 0 {
            return None;
        }
        let half_dim = head_dim / 2;
        let vh = match vocab.checked_mul(hidden) {
            Some(p) => p,
            None => {
                return None;
            },
        };
        if vh.checked_mul(2).is_none() {
            return None;
        }
        let hh = match hidden.checked_mul(hidden) {
            Some(p) => p,
            None => {
                return None;
            },
        };
        if hh.checked_mul(2).is_none() {
            return None;
        }
        let hi = match hidden.checked_mul(intermediate) {
            Some(p) => p,
            None => {
                return None;
            },
        };
        if hi.checked_mul(2).is_none() {
            return None;
        }
        if hidden.checked_mul(2).is_none() {
            return None;
        }
        if half_dim.checked_mul(4).is_none() {
            return None;
        }
        Some(ModelDims { vocab, hidden, intermediate, num_heads, num_layers })
    }

    /// The constants of the seven-billion-parameter configuration the
    /// default store layout carries.
    pub fn llama_7b() -> (r: ModelDims)
        ensures
            r == (ModelDims {
                vocab: 32000,
                hidden: 4096,
                intermediate: 11008,
                num_heads: 32,
                num_layers: 32,
            }),
            r.wf(),
    {
        ModelDims { vocab: 32000, hidden: 4096, intermediate: 11008, num_heads: 32, num_layers: 32 }
    }
}

/// The output-projection ("head") weight as declared by the architecture.
pub open spec fn lm_head_view(d: ModelDims) -> WeightView {
    WeightView {
        id: WeightId { role: WeightRole::LmHead, layer: 0 },
        dims: Dims::R2(d.hidden, d.vocab),
        dtype: Dtype::F16,
        on_store: true,
    }
}

/// The embedding table weight as declared by the architecture.
pub open spec fn embed_view(d: ModelDims) -> WeightView {
    WeightView {
        id: WeightId { role: WeightRole::EmbedTokens, layer: 0 },
        dims: Dims::R2(d.vocab, d.hidden),
        dtype: Dtype::F16,
        on_store: true,
    }
}

/// The final normalization weight as declared by the architecture.
pub open spec fn final_norm_view(d: ModelDims) -> WeightView {
    WeightView {
        id: WeightId { role: WeightRole::FinalNorm, layer: 0 },
        dims: Dims::R1(d.hidden),
        dtype: Dtype::F16,
        on_store: true,
    }
}

/// The ten weights of one decoder layer, in the loader's traversal order:
/// the four attention projections, the rotary frequency table, the three
/// feed-forward projections, then the two normalization weights.
pub open spec fn expected_layer(d: ModelDims, layer: usize) -> Seq<WeightView> {
    seq![
        WeightView {
            id: WeightId { role: WeightRole::QProj, layer },
            dims: Dims::R2(d.hidden, d.hidden),
            dtype: Dtype::F16,
            on_store: true,
        },
        WeightView {
            id: WeightId { role: WeightRole::KProj, layer },
            dims: Dims::R2(d.hidden, d.hidden),
            dtype: Dtype::F16,
            on_store: true,
        },
        WeightView {
            id: WeightId { role: WeightRole::VProj, layer },
            dims: Dims::R2(d.hidden, d.hidden),
            dtype: Dtype::F16,
            on_store: true,
        },
        WeightView {
            id: WeightId { role: WeightRole::OProj, layer },
            dims: Dims::R2(d.hidden, d.hidden),
            dtype: Dtype::F16,
            on_store: true,
        },
        WeightView {
            id: WeightId { role: WeightRole::InvFreq, layer },
            dims: Dims::R1((d.half_head_dim()) as usize),
            dtype: Dtype::F32,
            on_store: true,
        },
        WeightView {
            id: WeightId { role: WeightRole::GateProj, layer },
            dims: Dims::R2(d.hidden, d.intermediate),
            dtype: Dtype::F16,
            on_store: true,
        },
        WeightView {
            id: WeightId { role: WeightRole::DownProj, layer },
            dims: Dims::R2(d.intermediate, d.hidden),
            dtype: Dtype::F16,
            on_store: true,
        },
        WeightView {
            id: WeightId { role: WeightRole::UpProj, layer },
            dims: Dims::R2(d.hidden, d.intermediate),
            dtype: Dtype::F16,
            on_store: true,
        },
        WeightView {
            id: WeightId { role: WeightRole::InputNorm, layer },
            dims: Dims::R1(d.hidden),
            dtype: Dtype::F16,
            on_store: true,
        },
        WeightView {
            id: WeightId { role: WeightRole::PostAttentionNorm, layer },
            dims: Dims::R1(d.hidden),
            dtype: Dtype::F16,
            on_store: true,
        },
    ]
}

/// The weights of the first `n` decoder layers, in layer order.
pub open spec fn expected_layers(d: ModelDims, n: int) -> Seq<WeightView>
    decreases n,
{
    if n <= 0 {
        Seq::empty()
    } else {
        expected_layers(d, n - 1) + expected_layer(d, (n - 1) as usize)
    }
}

/// Every weight of the whole tree, in the loader's traversal order: head,
/// embedding, each layer in index order, final normalization.
pub open spec fn expected_weights(d: ModelDims) -> Seq<WeightView> {
    seq![lm_head_view(d), embed_view(d)] + expected_layers(d, d.num_layers as int) + seq![
        final_norm_view(d),
    ]
}

/// Creates one on-store handle whose byte size is known to fit.
fn fresh_weight(id: WeightId, dims: Dims, dtype: Dtype) -> (r: LazyTensor)
    requires
        weight_size(WeightView { id, dims, dtype, on_store: true }) <= usize::MAX,
    ensures
        r.inv(),
        r@ == (WeightView { id, dims, dtype, on_store: true }),
{
    match LazyTensor::on_store(id, dims, dtype) {
        Some(t) => t,
        None => {
            proof {
                assert(false);
            }
            vstd::pervasive::unreached()
        },
    }
}

/// Root-mean-square normalization node: one learned per-feature weight.
/// The arithmetic itself (mean of squares, inverse root, rescale by the
/// weight, with a fixed small stability constant) runs on the compute
/// backend; this node owns the weight's lazy handle.
pub struct RMSNorm {
    pub weight: LazyTensor,
}

impl RMSNorm {
    pub open spec fn weights(self) -> Seq<WeightView> {
        seq![self.weight@]
    }

    pub open spec fn inv(self) -> bool {
        self.weight.inv()
    }

    /// Byte size of the node's weights.
    pub fn num_bytes(&self) -> (r: usize)
        requires
            self.inv(),
        ensures
            r as nat == total_size(self.weights()),
    {
        proof {
            lemma_total_size_singleton(self.weight@);
        }
        self.weight.num_bytes()
    }

    /// Budgeted loading over this node's weights, in traversal order.
    pub fn maybe_load_on(&mut self, max_bytes: usize, device: &mut Device) -> (r: usize)
        requires
            old(self).inv(),
        ensures
            final(self).inv(),
            final(self).weights() == greedy(old(self).weights(), max_bytes as int).after,
            r as int == greedy(old(self).weights(), max_bytes as int).rem,
            final(device).pending@ == old(device).pending@ + greedy(
                old(self).weights(),
                max_bytes as int,
            ).loads,
    {
        let r = self.weight.maybe_load(max_bytes, device);
        proof {
            lemma_greedy_singleton(old(self).weight@, max_bytes as int);
            assert(self.weights() =~= greedy(old(self).weights(), max_bytes as int).after);
            assert(device.pending@ =~= old(device).pending@ + greedy(
                old(self).weights(),
                max_bytes as int,
            ).loads);
        }
        r
    }
}

/// Rotary position node: owns the per-head-half-dimension inverse-frequency
/// table. The sinusoidal encoding built from it and its application to the
/// query/key arrays run on the compute backend.
pub struct RotaryEmbedding {
    pub inv_freq: LazyTensor,
}

impl RotaryEmbedding {
    pub open spec fn weights(self) -> Seq<WeightView> {
        seq![self.inv_freq@]
    }

    pub open spec fn inv(self) -> bool {
        self.inv_freq.inv()
    }

    pub fn num_bytes(&self) -> (r: usize)
        requires
            self.inv(),
        ensures
            r as nat == total_size(self.weights()),
    {
        proof {
            lemma_total_size_singleton(self.inv_freq@);
        }
        self.inv_freq.num_bytes()
    }

    pub fn maybe_load_on(&mut self, max_bytes: usize, device: &mut Device) -> (r: usize)
        requires
            old(self).inv(),
        ensures
            final(self).inv(),
            final(self).weights() == greedy(old(self).weights(), max_bytes as int).after,
            r as int == greedy(old(self).weights(), max_bytes as int).rem,
            final(device).pending@ == old(device).pending@ + greedy(
                old(self).weights(),
                max_bytes as int,
            ).loads,
    {
        let r = self.inv_freq.maybe_load(max_bytes, device);
        proof {
            lemma_greedy_singleton(old(self).inv_freq@, max_bytes as int);
            assert(self.weights() =~= greedy(old(self).weights(), max_bytes as int).after);
            assert(device.pending@ =~= old(device).pending@ + greedy(
                old(self).weights(),
                max_bytes as int,
            ).loads);
        }
        r
    }
}

/// Multi-head self-attention node: the four projection weights and the
/// rotary position node.
pub struct Attention {
    pub q_proj: LazyTensor,
    pub k_proj: LazyTensor,
    pub v_proj: LazyTensor,
    pub o_proj: LazyTensor,
    pub rotary_embed: RotaryEmbedding,
}

impl Attention {
    pub open spec fn weights(self) -> Seq<WeightView> {
        seq![self.q_proj@, self.k_proj@, self.v_proj@, self.o_proj@]
            + self.rotary_embed.weights()
    }

    pub open spec fn inv(self) -> bool {
        &&& self.q_proj.inv()
        &&& self.k_proj.inv()
        &&& self.v_proj.inv()
        &&& self.o_proj.inv()
        &&& self.rotary_embed.inv()
    }

    pub fn num_bytes(&self) -> (r: usize)
        requires
            self.inv(),
            total_size(self.weights()) <= usize::MAX,
        ensures
            r as nat == total_size(self.weights()),
    {
        proof {
            let t4 = self.rotary_embed.weights();
            let t3 = seq![self.o_proj@] + t4;
            let t2 = seq![self.v_proj@] + t3;
            let t1 = seq![self.k_proj@] + t2;
            assert(self.weights() =~= seq![self.q_proj@] + t1);
            lemma_total_size_cons(self.q_proj@, t1);
            lemma_total_size_cons(self.k_proj@, t2);
            lemma_total_size_cons(self.v_proj@, t3);
            lemma_total_size_cons(self.o_proj@, t4);
            lemma_total_size_singleton(self.rotary_embed.inv_freq@);
        }
        let mut r = self.q_proj.num_bytes();
        r = r + self.k_proj.num_bytes();
        r = r + self.v_proj.num_bytes();
        r = r + self.o_proj.num_bytes();
        r = r + self.rotary_embed.num_bytes();
        r
    }

    #[verifier::rlimit(80)]
    pub fn maybe_load_on(&mut self, max_bytes: usize, device: &mut Device) -> (r: usize)
        requires
            old(self).inv(),
        ensures
            final(self).inv(),
            final(self).weights() == greedy(old(self).weights(), max_bytes as int).after,
            r as int == greedy(old(self).weights(), max_bytes as int).rem,
            final(device).pending@ == old(device).pending@ + greedy(
                old(self).weights(),
                max_bytes as int,
            ).loads,
    {
        let b0 = max_bytes;
        let ghost p0 = device.pending@;
        let b1 = self.q_proj.maybe_load(b0, device);
        let ghost p1 = device.pending@;
        let b2 = self.k_proj.maybe_load(b1, device);
        let ghost p2 = device.pending@;
        let b3 = self.v_proj.maybe_load(b2, device);
        let ghost p3 = device.pending@;
        let b4 = self.o_proj.maybe_load(b3, device);
        let ghost p4 = device.pending@;
        let r = self.rotary_embed.maybe_load_on(b4, device);
        proof {
            let wq = old(self).q_proj@;
            let wk = old(self).k_proj@;
            let wv = old(self).v_proj@;
            let wo = old(self).o_proj@;
            let t4 = old(self).rotary_embed.weights();
            let t3 = seq![wo] + t4;
            let t2 = seq![wv] + t3;
            let t1 = seq![wk] + t2;
            let t0 = seq![wq] + t1;
            assert(old(self).weights() =~= t0);
            lemma_greedy_singleton(wq, b0 as int);
            lemma_greedy_singleton(wk, b1 as int);
            lemma_greedy_singleton(wv, b2 as int);
            lemma_greedy_singleton(wo, b3 as int);
            assert(greedy(seq![wq], b0 as int).rem == b1 as int);
            assert(greedy(seq![wk], b1 as int).rem == b2 as int);
            assert(greedy(seq![wv], b2 as int).rem == b3 as int);
            assert(greedy(seq![wo], b3 as int).rem == b4 as int);
            assert(greedy(seq![wq], b0 as int).after == seq![self.q_proj@]);
            assert(greedy(seq![wk], b1 as int).after == seq![self.k_proj@]);
            assert(greedy(seq![wv], b2 as int).after == seq![self.v_proj@]);
            assert(greedy(seq![wo], b3 as int).after == seq![self.o_proj@]);
            assert(p1 =~= p0 + greedy(seq![wq], b0 as int).loads);
            assert(p2 =~= p1 + greedy(seq![wk], b1 as int).loads);
            assert(p3 =~= p2 + greedy(seq![wv], b2 as int).loads);
            assert(p4 =~= p3 + greedy(seq![wo], b3 as int).loads);
            lemma_greedy_concat(seq![wo], t4, b3 as int);
            assert(greedy(t3, b3 as int).rem == r as int);
            assert(greedy(t3, b3 as int).after =~= seq![self.o_proj@]
                + self.rotary_embed.weights());
            assert(device.pending@ =~= p3 + greedy(t3, b3 as int).loads);
            lemma_greedy_concat(seq![wv], t3, b2 as int);
            assert(greedy(t2, b2 as int).rem == r as int);
            assert(greedy(t2, b2 as int).after =~= seq![self.v_proj@] + greedy(
                t3,
                b3 as int,
            ).after);
            assert(device.pending@ =~= p2 + greedy(t2, b2 as int).loads);
            lemma_greedy_concat(seq![wk], t2, b1 as int);
            assert(greedy(t1, b1 as int).rem == r as int);
            assert(greedy(t1, b1 as int).after =~= seq![self.k_proj@] + greedy(
                t2,
                b2 as int,
            ).after);
            assert(device.pending@ =~= p1 + greedy(t1, b1 as int).loads);
            lemma_greedy_concat(seq![wq], t1, b0 as int);
            assert(greedy(t0, b0 as int).rem == r as int);
            assert(self.weights() =~= greedy(t0, b0 as int).after);
            assert(device.pending@ =~= old(device).pending@ + greedy(t0, b0 as int).loads);
        }
        r
    }
}

/// Gated feed-forward node: gate, down and up projection weights. The SiLU
/// gate arithmetic runs on the compute backend.
pub struct MLP {
    pub gate_proj: LazyTensor,
    pub down_proj: LazyTensor,
    pub up_proj: LazyTensor,
}

impl MLP {
    pub open spec fn weights(self) -> Seq<WeightView> {
        seq![self.gate_proj@, self.down_proj@, self.up_proj@]
    }

    pub open spec fn inv(self) -> bool {
        &&& self.gate_proj.inv()
        &&& self.down_proj.inv()
        &&& self.up_proj.inv()
    }

    pub fn num_bytes(&self) -> (r: usize)
        requires
            self.inv(),
            total_size(self.weights()) <= usize::MAX,
        ensures
            r as nat == total_size(self.weights()),
    {
        proof {
            let t2 = seq![self.up_proj@];
            let t1 = seq![self.down_proj@] + t2;
            assert(self.weights() =~= seq![self.gate_proj@] + t1);
            lemma_total_size_cons(self.gate_proj@, t1);
            lemma_total_size_cons(self.down_proj@, t2);
            lemma_total_size_singleton(self.up_proj@);
        }
        let mut r = self.gate_proj.num_bytes();
        r = r + self.down_proj.num_bytes();
        r = r + self.up_proj.num_bytes();
        r
    }

    pub fn maybe_load_on(&mut self, max_bytes: usize, device: &mut Device) -> (r: usize)
        requires
            old(self).inv(),
        ensures
            final(self).inv(),
            final(self).weights() == greedy(old(self).weights(), max_bytes as int).after,
            r as int == greedy(old(self).weights(), max_bytes as int).rem,
            final(device).pending@ == old(device).pending@ + greedy(
                old(self).weights(),
                max_bytes as int,
            ).loads,
    {
        let b0 = max_bytes;
        let b1 = self.gate_proj.maybe_load(b0, device);
        let b2 = self.down_proj.maybe_load(b1, device);
        let r = self.up_proj.maybe_load(b2, device);
        proof {
            let wg = old(self).gate_proj@;
            let wd = old(self).down_proj@;
            let wu = old(self).up_proj@;
            let t2 = seq![wu];
            let t1 = seq![wd] + t2;
            let t0 = seq![wg] + t1;
            assert(old(self).weights() =~= t0);
            lemma_greedy_singleton(wg, b0 as int);
            lemma_greedy_singleton(wd, b1 as int);
            lemma_greedy_singleton(wu, b2 as int);
            lemma_greedy_concat(seq![wg], t1, b0 as int);
            lemma_greedy_concat(seq![wd], t2, b1 as int);
            assert(greedy(t0, b0 as int).rem == r as int);
            assert(self.weights() =~= greedy(t0, b0 as int).after);
            assert(device.pending@ =~= old(device).pending@ + greedy(t0, b0 as int).loads);
        }
        r
    }
}

/// One decoder layer: attention and feed-forward nodes with their two
/// normalization weights. The forward composition (norm, attention, residual
/// add, norm, feed-forward, residual add) runs on the compute backend.
pub struct DecoderLayer {
    pub self_attn: Attention,
    pub mlp: MLP,
    pub input_layer_norm: RMSNorm,
    pub post_attention_layer_norm: RMSNorm,
}

impl DecoderLayer {
    pub open spec fn weights(self) -> Seq<WeightView> {
        self.self_attn.weights() + self.mlp.weights() + self.input_layer_norm.weights()
            + self.post_attention_layer_norm.weights()
    }

    pub open spec fn inv(self) -> bool {
        &&& self.self_attn.inv()
        &&& self.mlp.inv()
        &&& self.input_layer_norm.inv()
        &&& self.post_attention_layer_norm.inv()
    }

    pub fn num_bytes(&self) -> (r: usize)
        requires
            self.inv(),
            total_size(self.weights()) <= usize::MAX,
        ensures
            r as nat == total_size(self.weights()),
    {
        proof {
            let ta = self.self_attn.weights();
            let tm = self.mlp.weights();
            let ti = self.input_layer_norm.weights();
            let tp = self.post_attention_layer_norm.weights();
            assert(self.weights() =~= ta + (tm + (ti + tp)));
            crate::budget::lemma_total_size_concat(ta, tm + (ti + tp));
            crate::budget::lemma_total_size_concat(tm, ti + tp);
            crate::budget::lemma_total_size_concat(ti, tp);
        }
        let mut r = self.self_attn.num_bytes();
        r = r + self.mlp.num_bytes();
        r = r + self.input_layer_norm.num_bytes();
        r = r + self.post_attention_layer_norm.num_bytes();
        r
    }

    #[verifier::rlimit(60)]
    pub fn maybe_load_on(&mut self, max_bytes: usize, device: &mut Device) -> (r: usize)
        requires
            old(self).inv(),
        ensures
            final(self).inv(),
            final(self).weights() == greedy(old(self).weights(), max_bytes as int).after,
            r as int == greedy(old(self).weights(), max_bytes as int).rem,
            final(device).pending@ == old(device).pending@ + greedy(
                old(self).weights(),
                max_bytes as int,
            ).loads,
    {
        let b0 = max_bytes;
        let b1 = self.self_attn.maybe_load_on(b0, device);
        let b2 = self.mlp.maybe_load_on(b1, device);
        let b3 = self.input_layer_norm.maybe_load_on(b2, device);
        let r = self.post_attention_layer_norm.maybe_load_on(b3, device);
        proof {
            let ta = old(self).self_attn.weights();
            let tm = old(self).mlp.weights();
            let ti = old(self).input_layer_norm.weights();
            let tp = old(self).post_attention_layer_norm.weights();
            let t0 = ta + (tm + (ti + tp));
            assert(old(self).weights() =~= t0);
            lemma_greedy_concat(ta, tm + (ti + tp), b0 as int);
            lemma_greedy_concat(tm, ti + tp, b1 as int);
            lemma_greedy_concat(ti, tp, b2 as int);
            assert(greedy(ta, b0 as int).rem == b1 as int);
            assert(greedy(tm, b1 as int).rem == b2 as int);
            assert(greedy(ti, b2 as int).rem == b3 as int);
            assert(greedy(tp, b3 as int).rem == r as int);
            assert(greedy(t0, b0 as int).rem == r as int);
            assert(self.weights() =~= greedy(t0, b0 as int).after);
            assert(device.pending@ =~= old(device).pending@ + greedy(t0, b0 as int).loads);
        }
        r
    }

    /// Builds one layer's nodes with every handle on the store, shaped by the
    /// architecture constants.
    pub fn on_store(d: &ModelDims, layer: usize) -> (r: DecoderLayer)
        requires
            d.wf(),
        ensures
            r.inv(),
            r.weights() == expected_layer(*d, layer),
    {
        let head_dim = d.hidden / d.num_heads;
        let half_dim = head_dim / 2;
        proof {
            assert(d.intermediate * d.hidden == d.hidden * d.intermediate) by (nonlinear_arith);
        }
        let r = DecoderLayer {
            self_attn: Attention {
                q_proj: fresh_weight(
                    WeightId { role: WeightRole::QProj, layer },
                    Dims::R2(d.hidden, d.hidden),
                    Dtype::F16,
                ),
                k_proj: fresh_weight(
                    WeightId { role: WeightRole::KProj, layer },
                    Dims::R2(d.hidden, d.hidden),
                    Dtype::F16,
                ),
                v_proj: fresh_weight(
                    WeightId { role: WeightRole::VProj, layer },
                    Dims::R2(d.hidden, d.hidden),
                    Dtype::F16,
                ),
                o_proj: fresh_weight(
                    WeightId { role: WeightRole::OProj, layer },
                    Dims::R2(d.hidden, d.hidden),
                    Dtype::F16,
                ),
                rotary_embed: RotaryEmbedding {
                    inv_freq: fresh_weight(
                        WeightId { role: WeightRole::InvFreq, layer },
                        Dims::R1(half_dim),
                        Dtype::F32,
                    ),
                },
            },
            mlp: MLP {
                gate_proj: fresh_weight(
                    WeightId { role: WeightRole::GateProj, layer },
                    Dims::R2(d.hidden, d.intermediate),
                    Dtype::F16,
                ),
                down_proj: fresh_weight(
                    WeightId { role: WeightRole::DownProj, layer },
                    Dims::R2(d.intermediate, d.hidden),
                    Dtype::F16,
                ),
                up_proj: fresh_weight(
                    WeightId { role: WeightRole::UpProj, layer },
                    Dims::R2(d.hidden, d.intermediate),
                    Dtype::F16,
                ),
            },
            input_layer_norm: RMSNorm {
                weight: fresh_weight(
                    WeightId { role: WeightRole::InputNorm, layer },
                    Dims::R1(d.hidden),
                    Dtype::F16,
                ),
            },
            post_attention_layer_norm: RMSNorm {
                weight: fresh_weight(
                    WeightId { role: WeightRole::PostAttentionNorm, layer },
                    Dims::R1(d.hidden),
                    Dtype::F16,
                ),
            },
        };
        proof {
            assert(r.weights() =~= expected_layer(*d, layer));
        }
        r
    }
}

/// The weights of a sequence of decoder layers, flattened in layer order.
pub open spec fn layers_weights(ls: Seq<DecoderLayer>) -> Seq<WeightView>
    decreases ls.len(),
{
    if ls.len() == 0 {
        Seq::empty()
    } else {
        ls.first().weights() + layers_weights(ls.drop_first())
    }
}

/// Flattening distributes over concatenation of layer sequences.
pub proof fn lemma_layers_weights_concat(a: Seq<DecoderLayer>, b: Seq<DecoderLayer>)
    ensures
        layers_weights(a + b) == layers_weights(a) + layers_weights(b),
    decreases a.len(),
{
    if a.len() == 0 {
        assert(a + b =~= b);
        assert(layers_weights(a) + layers_weights(b) =~= layers_weights(b));
    } else {
        assert((a + b).first() == a.first());
        assert((a + b).drop_first() =~= a.drop_first() + b);
        lemma_layers_weights_concat(a.drop_first(), b);
        assert(layers_weights(a + b) =~= layers_weights(a) + layers_weights(b));
    }
}

/// Flattening a single layer.
pub proof fn lemma_layers_weights_singleton(l: DecoderLayer)
    ensures
        layers_weights(seq![l]) == l.weights(),
{
    assert(seq![l].drop_first() =~= Seq::<DecoderLayer>::empty());
    assert(layers_weights(Seq::<DecoderLayer>::empty()) == Seq::<WeightView>::empty());
    assert(layers_weights(seq![l]) =~= l.weights());
}

/// The embedding table, the stack of decoder layers and the final
/// normalization. The forward computation (embedding lookup, the layers in
/// index order, the final normalization) runs on the compute backend.
pub struct Llama {
    pub embed_tokens: LazyTensor,
    pub layers: Vec<DecoderLayer>,
    pub norm: RMSNorm,
}

impl Llama {
    pub open spec fn weights(self) -> Seq<WeightView> {
        seq![self.embed_tokens@] + layers_weights(self.layers@) + self.norm.weights()
    }

    pub open spec fn inv(self) -> bool {
        &&& self.embed_tokens.inv()
        &&& forall|j: int| 0 <= j < self.layers@.len() ==> (#[trigger] self.layers@[j]).inv()
        &&& self.norm.inv()
    }

    pub fn num_bytes(&self) -> (r: usize)
        requires
            self.inv(),
            total_size(self.weights()) <= usize::MAX,
        ensures
            r as nat == total_size(self.weights()),
    {
        let ghost lw = layers_weights(self.layers@);
        proof {
            assert(self.weights() =~= seq![self.embed_tokens@] + (lw + self.norm.weights()));
            lemma_total_size_cons(self.embed_tokens@, lw + self.norm.weights());
            crate::budget::lemma_total_size_concat(lw, self.norm.weights());
            lemma_total_size_singleton(self.norm.weight@);
        }
        let mut r = self.embed_tokens.num_bytes();
        let n = self.layers.len();
        let mut i: usize = 0;
        while i < n
            invariant
                i <= n,
                n == self.layers@.len(),
                self.inv(),
                total_size(self.weights()) <= usize::MAX,
                lw == layers_weights(self.layers@),
                total_size(self.weights()) == weight_size(self.embed_tokens@) + total_size(lw)
                    + weight_size(self.norm.weight@),
                r as nat == weight_size(self.embed_tokens@) + total_size(
                    layers_weights(self.layers@.take(i as int)),
                ),
            decreases n - i,
        {
            proof {
                assert(self.layers@ =~= self.layers@.take(i as int) + self.layers@.skip(i as int));
                lemma_layers_weights_concat(
                    self.layers@.take(i as int),
                    self.layers@.skip(i as int),
                );
                assert(self.layers@.skip(i as int) =~= seq![self.layers@[i as int]]
                    + self.layers@.skip(i as int + 1));
                lemma_layers_weights_concat(
                    seq![self.layers@[i as int]],
                    self.layers@.skip(i as int + 1),
                );
                lemma_layers_weights_singleton(self.layers@[i as int]);
                crate::budget::lemma_total_size_concat(
                    layers_weights(self.layers@.take(i as int)),
                    layers_weights(self.layers@.skip(i as int)),
                );
                crate::budget::lemma_total_size_concat(
                    self.layers@[i as int].weights(),
                    layers_weights(self.layers@.skip(i as int + 1)),
                );
                assert(self.layers@.take(i as int + 1) =~= self.layers@.take(i as int) + seq![
                    self.layers@[i as int],
                ]);
                lemma_layers_weights_concat(self.layers@.take(i as int), seq![
                    self.layers@[i as int],
                ]);
                crate::budget::lemma_total_size_concat(
                    layers_weights(self.layers@.take(i as int)),
                    self.layers@[i as int].weights(),
                );
            }
            let lb = self.layers[i].num_bytes();
            r = r + lb;
            i = i + 1;
        }
        proof {
            assert(self.layers@.take(n as int) =~= self.layers@);
        }
        r = r + self.norm.num_bytes();
        r
    }

    #[verifier::rlimit(80)]
    pub fn maybe_load_on(&mut self, max_bytes: usize, device: &mut Device) -> (r: usize)
        requires
            old(self).inv(),
        ensures
            final(self).inv(),
            final(self).weights() == greedy(old(self).weights(), max_bytes as int).after,
            r as int == greedy(old(self).weights(), max_bytes as int).rem,
            final(device).pending@ == old(device).pending@ + greedy(
                old(self).weights(),
                max_bytes as int,
            ).loads,
    {
        let ghost w_all = old(self).weights();
        let ghost lw = layers_weights(old(self).layers@);
        let ghost p0 = device.pending@;
        let b_e = self.embed_tokens.maybe_load(max_bytes, device);
        let ghost e1 = self.embed_tokens;
        let ghost p1 = device.pending@;
        proof {
            lemma_greedy_singleton(old(self).embed_tokens@, max_bytes as int);
        }
        let n = self.layers.len();
        let mut b = b_e;
        let mut i: usize = 0;
        while i < n
            invariant
                i <= n,
                n == self.layers@.len(),
                self.layers@.len() == old(self).layers@.len(),
                forall|j: int| i <= j < n ==> self.layers@[j] == old(self).layers@[j],
                forall|j: int| 0 <= j < n ==> (#[trigger] self.layers@[j]).inv(),
                self.embed_tokens == e1,
                self.norm == old(self).norm,
                layers_weights(self.layers@.take(i as int)) == greedy(
                    layers_weights(old(self).layers@.take(i as int)),
                    b_e as int,
                ).after,
                b as int == greedy(
                    layers_weights(old(self).layers@.take(i as int)),
                    b_e as int,
                ).rem,
                device.pending@ == p1 + greedy(
                    layers_weights(old(self).layers@.take(i as int)),
                    b_e as int,
                ).loads,
            decreases n - i,
        {
            let ghost pre = self.layers@;
            proof {
                assert(old(self).layers@.take(i as int + 1) =~= old(self).layers@.take(i as int)
                    + seq![old(self).layers@[i as int]]);
                lemma_layers_weights_concat(old(self).layers@.take(i as int), seq![
                    old(self).layers@[i as int],
                ]);
                lemma_layers_weights_singleton(old(self).layers@[i as int]);
                lemma_greedy_concat(
                    layers_weights(old(self).layers@.take(i as int)),
                    old(self).layers@[i as int].weights(),
                    b_e as int,
                );
                assert(self.layers@[i as int] == old(self).layers@[i as int]);
            }
            let layer = &mut self.layers[i];
            let lr = layer.maybe_load_on(b, device);
            b = lr;
            proof {
                assert(self.layers@ =~= pre.update(i as int, self.layers@[i as int]));
                assert(self.layers@.take(i as int) =~= pre.take(i as int));
                assert(self.layers@.take(i as int + 1) =~= self.layers@.take(i as int) + seq![
                    self.layers@[i as int],
                ]);
                lemma_layers_weights_concat(self.layers@.take(i as int), seq![
                    self.layers@[i as int],
                ]);
                lemma_layers_weights_singleton(self.layers@[i as int]);
            }
            i = i + 1;
        }
        proof {
            assert(old(self).layers@.take(n as int) =~= old(self).layers@);
            assert(self.layers@.take(n as int) =~= self.layers@);
        }
        let r = self.norm.maybe_load_on(b, device);
        proof {
            let nw = old(self).norm.weights();
            assert(w_all =~= seq![old(self).embed_tokens@] + (lw + nw));
            lemma_greedy_concat(seq![old(self).embed_tokens@], lw + nw, max_bytes as int);
            lemma_greedy_concat(lw, nw, b_e as int);
            assert(greedy(seq![old(self).embed_tokens@], max_bytes as int).rem == b_e as int);
            assert(greedy(w_all, max_bytes as int).rem == r as int);
            assert(self.weights() =~= greedy(w_all, max_bytes as int).after);
            assert(device.pending@ =~= old(device).pending@ + greedy(
                w_all,
                max_bytes as int,
            ).loads);
        }
        r
    }
}

/// The full causal-language-model tree: the decoder stack and the output
/// projection ("head"). Its forward computation (the decoder stack followed
/// by the head projection) runs on the compute backend; any handle still on
/// the store at that point is materialized transparently at first use.
pub struct LlamaForCausalLM {
    pub llama: Llama,
    pub lm_head: LazyTensor,
}

impl LlamaForCausalLM {
    /// Every weight of the tree in the loader's traversal order: head,
    /// embedding, each decoder layer in index order, final normalization.
    pub open spec fn weights(self) -> Seq<WeightView> {
        seq![self.lm_head@] + self.llama.weights()
    }

    pub open spec fn inv(self) -> bool {
        &&& self.llama.inv()
        &&& self.lm_head.inv()
    }

    pub fn num_bytes(&self) -> (r: usize)
        requires
            self.inv(),
            total_size(self.weights()) <= usize::MAX,
        ensures
            r as nat == total_size(self.weights()),
    {
        proof {
            assert(self.weights() =~= seq![self.lm_head@] + self.llama.weights());
            lemma_total_size_cons(self.lm_head@, self.llama.weights());
        }
        let mut r = self.lm_head.num_bytes();
        r = r + self.llama.num_bytes();
        r
    }

    /// The budgeted loader: walks every weight of the tree in the fixed
    /// traversal order, materializes each weight iff it is still on the store
    /// and the remaining budget covers its byte size, and returns the unused
    /// remainder. An insufficient budget is not an error: the weight is
    /// skipped whole and the remainder stays available to later, smaller
    /// weights. Repeating the call with a grown budget is incremental:
    /// weights already resident are never re-read nor counted again.
    pub fn maybe_load_on(&mut self, max_bytes: usize, device: &mut Device) -> (r: usize)
        requires
            old(self).inv(),
        ensures
            final(self).inv(),
            final(self).weights() == greedy(old(self).weights(), max_bytes as int).after,
            r as int == greedy(old(self).weights(), max_bytes as int).rem,
            r <= max_bytes,
            final(device).pending@ == old(device).pending@ + greedy(
                old(self).weights(),
                max_bytes as int,
            ).loads,
    {
        proof {
            crate::budget::lemma_greedy_bounds(old(self).weights(), max_bytes as int);
        }
        let b0 = max_bytes;
        let b1 = self.lm_head.maybe_load(b0, device);
        let r = self.llama.maybe_load_on(b1, device);
        proof {
            let wh = old(self).lm_head@;
            let tl = old(self).llama.weights();
            let t0 = seq![wh] + tl;
            assert(old(self).weights() =~= t0);
            lemma_greedy_singleton(wh, b0 as int);
            lemma_greedy_concat(seq![wh], tl, b0 as int);
            assert(greedy(seq![wh], b0 as int).rem == b1 as int);
            assert(greedy(t0, b0 as int).rem == r as int);
            assert(self.weights() =~= greedy(t0, b0 as int).after);
            assert(device.pending@ =~= old(device).pending@ + greedy(t0, b0 as int).loads);
        }
        r
    }
}

/// Builds the whole model tree from the architecture constants, every weight
/// handle in the on-store state, shaped exactly as the backing store is
/// expected to mirror. No materialization happens here: budget-aware loading
/// is the separate, explicit step the caller applies afterwards.
pub fn load_on_disk(d: &ModelDims) -> (r: LlamaForCausalLM)
    requires
        d.wf(),
    ensures
        r.inv(),
        r.llama.layers@.len() == d.num_layers,
        r.weights() == expected_weights(*d),
{
    proof {
        assert(d.hidden * d.vocab == d.vocab * d.hidden) by (nonlinear_arith);
    }
    let lm_head = fresh_weight(
        WeightId { role: WeightRole::LmHead, layer: 0 },
        Dims::R2(d.hidden, d.vocab),
        Dtype::F16,
    );
    let embed_tokens = fresh_weight(
        WeightId { role: WeightRole::EmbedTokens, layer: 0 },
        Dims::R2(d.vocab, d.hidden),
        Dtype::F16,
    );
    let mut layers: Vec<DecoderLayer> = Vec::new();
    let mut i: usize = 0;
    while i < d.num_layers
        invariant
            i <= d.num_layers,
            layers@.len() == i,
            d.wf(),
            forall|j: int| 0 <= j < i ==> (#[trigger] layers@[j]).inv(),
            layers_weights(layers@) == expected_layers(*d, i as int),
        decreases d.num_layers - i,
    {
        let ghost pre = layers@;
        let layer = DecoderLayer::on_store(d, i);
        layers.push(layer);
        proof {
            assert(layers@ =~= pre + seq![layer]);
            lemma_layers_weights_concat(pre, seq![layer]);
            lemma_layers_weights_singleton(layer);
            assert(expected_layers(*d, i as int + 1) == expected_layers(*d, i as int)
                + expected_layer(*d, i));
        }
        i = i + 1;
    }
    let norm = RMSNorm {
        weight: fresh_weight(
            WeightId { role: WeightRole::FinalNorm, layer: 0 },
            Dims::R1(d.hidden),
            Dtype::F16,
        ),
    };
    let r = LlamaForCausalLM { llama: Llama { embed_tokens, layers, norm }, lm_head };
    proof {
        assert(layers_weights(r.llama.layers@) == expected_layers(*d, d.num_layers as int));
        assert(r.weights() =~= expected_weights(*d));
    }
    r
}

} // verus!
