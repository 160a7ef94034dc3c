use vstd::prelude::*;

verus! {

/// Element type of a parameter tensor on the compute device. Only the width
/// in bytes matters for the resource model; the arithmetic on the elements is
/// the compute backend's concern.
#[derive(Clone, Copy, PartialEq, Eq, Structural, Debug)]
pub enum Dtype {
    F16,
    F32,
}

impl Dtype {
    /// Width of one element in bytes.
    pub open spec fn width_spec(self) -> nat {
        match self {
            Dtype::F16 => 2,
            Dtype::F32 => 4,
        }
    }

    pub fn width(self) -> (r: usize)
        ensures
            r as nat == self.width_spec(),
    {
        match self {
            Dtype::F16 => 2,
            Dtype::F32 => 4,
        }
    }
}

/// Logical shape of a parameter tensor. The model tree only holds vectors
/// and matrices.
#[derive(Clone, Copy, PartialEq, Eq, Structural, Debug)]
pub enum Dims {
    R1(usize),
    R2(usize, usize),
}

impl Dims {
    /// Number of elements the shape spans.
    pub open spec fn elem_count_spec(self) -> nat {
        match self {
            Dims::R1(a) => a as nat,
            Dims::R2(a, b) => (a * b) as nat,
        }
    }

    /// Element count; `None` when it does not fit in `usize`.
    pub fn elem_count(self) -> (r: Option<usize>)
        ensures
            match r {
                Some(c) => c as nat == self.elem_count_spec(),
                None => self.elem_count_spec() > usize::MAX,
            },
    {
        match self {
            Dims::R1(a) => Some(a),
            Dims::R2(a, b) => a.checked_mul(b),
        }
    }
}

/// Structural role of a weight inside the model tree.
#[derive(Clone, Copy, PartialEq, Eq, Structural, Debug)]
pub enum WeightRole {
    LmHead,
    EmbedTokens,
    FinalNorm,
    QProj,
    KProj,
    VProj,
    OProj,
    InvFreq,
    GateProj,
    DownProj,
    UpProj,
    InputNorm,
    PostAttentionNorm,
}

/// Backing-store locator of one parameter tensor: the structural slot of the
/// model tree it fills. Resolving a locator to an actual file path is the
/// store layout's concern, outside this core.
#[derive(Clone, Copy, PartialEq, Eq, Structural, Debug)]
pub struct WeightId {
    pub role: WeightRole,
    /// Index of the decoder layer the weight belongs to; `0` for the weights
    /// outside the layer stack.
    pub layer: usize,
}

/// Descriptor of a tensor resident on the compute device: the shape and the
/// element type under which its bytes were interpreted.
#[derive(Clone, Copy, PartialEq, Eq, Structural, Debug)]
pub struct DeviceTensor {
    pub dims: Dims,
    pub dtype: Dtype,
}

/// One backing-store read requested from the compute backend: read the bytes
/// of the identified weight and place them on the device under the given
/// shape and element type. A read that fails (missing locator, or a byte
/// length other than the shape-implied size) is fatal to the backend.
#[derive(Clone, Copy, PartialEq, Eq, Structural, Debug)]
pub struct LoadRequest {
    pub id: WeightId,
    pub dims: Dims,
    pub dtype: Dtype,
}

/// The verified face of the compute device: a log of the backing-store reads
/// and device transfers requested of it. The unverified backend drains
/// `pending` and performs the actual I/O, so the log also counts the I/O
/// that a sequence of materialization calls performs.
pub struct Device {
    pub pending: Vec<LoadRequest>,
}

impl Device {
    pub fn new() -> (r: Device)
        ensures
            r.pending@ == Seq::<LoadRequest>::empty(),
    {
        Device { pending: Vec::new() }
    }
}

/// Ghost view of a lazy weight handle: its identity, shape, element type and
/// whether its bytes still live on the backing store.
pub ghost struct WeightView {
    pub id: WeightId,
    pub dims: Dims,
    pub dtype: Dtype,
    pub on_store: bool,
}

/// Byte size a weight occupies: element count times element width.
pub open spec fn weight_size(w: WeightView) -> nat {
    w.dims.elem_count_spec() * w.dtype.width_spec()
}

/// View of a weight after materialization: only the state flag changes.
pub open spec fn loaded(w: WeightView) -> WeightView {
    WeightView { on_store: false, ..w }
}

/// The store read that materializing `w` asks of the backend.
pub open spec fn request_of(w: WeightView) -> LoadRequest {
    LoadRequest { id: w.id, dims: w.dims, dtype: w.dtype }
}

/// The device tensor a materialization of `w` returns: a function of the
/// unchanging shape and element type alone, whatever the state.
pub open spec fn descriptor_of(w: WeightView) -> DeviceTensor {
    DeviceTensor { dims: w.dims, dtype: w.dtype }
}

/// The reads one materialization call performs: one while the weight is on
/// the store, none once it is resident.
pub open spec fn io_of(w: WeightView) -> Seq<LoadRequest> {
    if w.on_store {
        seq![request_of(w)]
    } else {
        Seq::empty()
    }
}

/// The element count never exceeds the byte size, and the byte size is the
/// product of count and width.
pub proof fn lemma_size_bounds(w: WeightView)
    ensures
        w.dims.elem_count_spec() <= weight_size(w),
        weight_size(w) == w.dims.elem_count_spec() * w.dtype.width_spec(),
{
    match w.dtype {
        Dtype::F16 => {
            assert(weight_size(w) == w.dims.elem_count_spec() * 2);
        },
        Dtype::F32 => {
            assert(weight_size(w) == w.dims.elem_count_spec() * 4);
        },
    }
}

/// State of a lazy weight handle.
#[derive(Clone, Copy)]
pub enum TensorState {
    /// The bytes still live on the backing store.
    OnStore,
    /// The handle was materialized; the cached device tensor.
    Materialized(DeviceTensor),
}

/// A lazy weight handle: one parameter tensor whose data lives on a backing
/// store until it is first materialized on the compute device. The shape and
/// element type, and with them the byte size, are fixed at construction and
/// never change across the state transition. Each handle is owned exclusively
/// by one slot of the model tree, and materialization mutates its cache, so
/// callers wanting concurrent forward passes must duplicate the tree; the
/// execution model here is single-threaded and synchronous.
pub struct LazyTensor {
    pub id: WeightId,
    pub dims: Dims,
    pub dtype: Dtype,
    pub state: TensorState,
}

impl View for LazyTensor {
    type V = WeightView;

    open spec fn view(&self) -> WeightView {
        WeightView {
            id: self.id,
            dims: self.dims,
            dtype: self.dtype,
            on_store: self.state is OnStore,
        }
    }
}

impl LazyTensor {
    /// Well-formedness: the byte size fits the machine, and a cached device
    /// tensor carries exactly the declared shape and element type.
    pub open spec fn inv(self) -> bool {
        &&& weight_size(self@) <= usize::MAX
        &&& match self.state {
            TensorState::OnStore => true,
            TensorState::Materialized(t) => t.dims == self.dims && t.dtype == self.dtype,
        }
    }

    /// Creates a handle in the on-store state; refuses a shape whose byte
    /// size does not fit in `usize`.
    pub fn on_store(id: WeightId, dims: Dims, dtype: Dtype) -> (r: Option<LazyTensor>)
        ensures
            match r {
                Some(t) => t.inv() && t@ == (WeightView { id, dims, dtype, on_store: true }),
                None => weight_size(WeightView { id, dims, dtype, on_store: true }) > usize::MAX,
            },
    {
        proof {
            lemma_size_bounds(WeightView { id, dims, dtype, on_store: true });
        }
        match dims.elem_count() {
            None => None,
            Some(c) => match c.checked_mul(dtype.width()) {
                None => None,
                Some(_) => Some(LazyTensor { id, dims, dtype, state: TensorState::OnStore }),
            },
        }
    }

    /// Byte size: element count times element width, the same in either
    /// state.
    pub fn num_bytes(&self) -> (r: usize)
        requires
            self.inv(),
        ensures
            r as nat == weight_size(self@),
    {
        proof {
            lemma_size_bounds(self@);
        }
        let c = match self.dims.elem_count() {
            Some(c) => c,
            None => {
                proof {
                    assert(false);
                }
                0
            },
        };
        c * self.dtype.width()
    }

    /// True iff the bytes still live on the backing store; the budgeted
    /// loader uses this to avoid redundant reads and double-counting.
    pub fn is_on_disk(&self) -> (r: bool)
        ensures
            r == self@.on_store,
    {
        match self.state {
            TensorState::OnStore => true,
            TensorState::Materialized(_) => false,
        }
    }

    /// Materializes the handle. While the bytes are on the store this
    /// requests exactly one backing-store read from the device and caches the
    /// resulting tensor; once materialized it performs no I/O and returns the
    /// cached tensor. Since the descriptor is a function of the unchanging
    /// shape and element type, repeated calls return equal tensors.
    pub fn load_on(&mut self, device: &mut Device) -> (r: DeviceTensor)
        requires
            old(self).inv(),
        ensures
            final(self).inv(),
            final(self)@ == loaded(old(self)@),
            r == descriptor_of(old(self)@),
            final(device).pending@ == old(device).pending@ + io_of(old(self)@),
    {
        match self.state {
            TensorState::Materialized(t) => {
                proof {
                    assert(final(device).pending@ =~= old(device).pending@ + io_of(old(self)@));
                }
                t
            },
            TensorState::OnStore => {
                let t = DeviceTensor { dims: self.dims, dtype: self.dtype };
                device.pending.push(LoadRequest { id: self.id, dims: self.dims, dtype: self.dtype });
                self.state = TensorState::Materialized(t);
                proof {
                    assert(final(device).pending@ =~= old(device).pending@ + io_of(old(self)@));
                }
                t
            },
        }
    }

    /// One leaf step of the budgeted loader: materialize iff the remaining
    /// budget covers the byte size and the weight is still on the store; on
    /// success the budget shrinks by exactly that size, on a skip nothing
    /// changes.
    pub fn maybe_load(&mut self, max_bytes: usize, device: &mut Device) -> (r: usize)
        requires
            old(self).inv(),
        ensures
            final(self).inv(),
            ({
                let w = old(self)@;
                if w.on_store && weight_size(w) <= max_bytes {
                    &&& final(self)@ == loaded(w)
                    &&& r == max_bytes - weight_size(w)
                    &&& final(device).pending@ == old(device).pending@ + seq![request_of(w)]
                } else {
                    &&& final(self)@ == w
                    &&& r == max_bytes
                    &&& final(device).pending@ == old(device).pending@
                }
            }),
    {
        let mut remaining = max_bytes;
        if remaining >= self.num_bytes() && self.is_on_disk() {
            let _t = self.load_on(device);
            remaining = remaining - self.num_bytes();
        }
        remaining
    }
}

/// Byte size is a function of shape and element type alone: materialization
/// never changes it.
pub proof fn lemma_size_invariant_under_materialization(w: WeightView)
    ensures
        weight_size(loaded(w)) == weight_size(w),
{
}

/// Materialization is idempotent: it reaches a fixed point after one call, a
/// second call finds the weight resident, performs no backing-store I/O and
/// returns an equal device tensor, and any single call performs at most one
/// read.
pub proof fn lemma_materialize_idempotent(w: WeightView)
    ensures
        loaded(loaded(w)) == loaded(w),
        io_of(loaded(w)) == Seq::<LoadRequest>::empty(),
        io_of(w).len() <= 1,
        descriptor_of(loaded(w)) == descriptor_of(w),
{
}

} // verus!
