//! TinyML inference runtime: tensor shapes with bounds checks, the model
//! slots, loading with SMMU-isolated DMA buffers, capability-checked
//! inference on quantized data and the inference statistics.
//!
//! The TrustZone verification of a model is done by the platform, which
//! hands its outcome to `load_model`; the float32 kernel and the cycle
//! counter are the platform's too and come in as functions.  Counters wrap
//! around.

use vstd::prelude::*;
use crate::arch::aarch64::smmu::{SMMUManager, StreamPermissions, has_mapping, first_fit, aligned_request, regions_after_alloc, region_fits};
use crate::kernel::capabilities::{CapabilityManager, CapabilityRights, CapabilityId, grants};

verus! {

/// Largest model accepted (1 MiB).
pub const MAX_MODEL_SIZE: usize = 1048576;

/// Most dimensions of a tensor.
pub const MAX_TENSOR_DIMS: usize = 4;

/// Most elements of a tensor.
pub const MAX_TENSOR_ELEMENTS: usize = 65536;

/// Model slots of the runtime.
pub const MODEL_SLOTS: usize = 16;

/// First SMMU stream identifier of the models' DMA buffers.
pub const NPU_STREAM_BASE: u32 = 2000;

/// Quantization types supported by the inference engine.
#[derive(Clone, Copy, Debug, PartialEq, Eq, Structural)]
pub enum QuantizationType {
    Float32,
    Int8Symmetric,
    Int8Asymmetric,
    Int16,
}

/// Tensor shape with its element count.
#[derive(Clone, Copy, Debug, PartialEq, Eq)]
pub struct TensorShape {
    pub dims: [usize; 4],
    pub num_dims: usize,
    pub total_elements: usize,
}

/// Scanning `dims` from `i` with the running product `acc`: the element
/// count, or the first problem met (a zero dimension, then a product past
/// `usize`).
pub open spec fn dims_scan(dims: Seq<usize>, i: int, acc: int) -> Result<int, &'static str>
    decreases dims.len() - i,
{
    if i >= dims.len() || i < 0 {
        Ok(acc)
    } else if dims[i] == 0 {
        Err("Zero dimension not allowed")
    } else if acc * dims[i] > usize::MAX {
        Err("Tensor size overflow")
    } else {
        dims_scan(dims, i + 1, acc * dims[i])
    }
}

/// The outcome of building a shape from `dims`.
pub open spec fn shape_outcome(dims: Seq<usize>) -> Result<int, &'static str> {
    if dims.len() > MAX_TENSOR_DIMS {
        Err("Too many tensor dimensions")
    } else {
        match dims_scan(dims, 0, 1) {
            Ok(t) => if t > MAX_TENSOR_ELEMENTS {
                Err("Tensor too large")
            } else {
                Ok(t)
            },
            Err(e) => Err(e),
        }
    }
}

/// Bytes of one element of type `q`.
pub open spec fn element_size(q: QuantizationType) -> int {
    match q {
        QuantizationType::Float32 => 4,
        QuantizationType::Int8Symmetric | QuantizationType::Int8Asymmetric => 1,
        QuantizationType::Int16 => 2,
    }
}

impl TensorShape {
    /// A shape of the given dimensions: at most four, none zero, at most
    /// 65536 elements.
    pub fn new(dims: &[usize]) -> (r: Result<Self, &'static str>)
        ensures
            match shape_outcome(dims@) {
                Ok(t) => r matches Ok(s) && s.total_elements == t && s.num_dims == dims@.len() && (forall|i: int|
                    0 <= i < 4 ==> #[trigger] s.dims@[i] == (if i < dims@.len() {
                        dims@[i]
                    } else {
                        0usize
                    })),
                Err(e) => r == Err::<TensorShape, &'static str>(e),
            },
    {
        if dims.len() > MAX_TENSOR_DIMS {
            return Err("Too many tensor dimensions");
        }
        let mut total: usize = 1;
        let mut shape_dims: [usize; 4] = [0, 0, 0, 0];
        let mut i: usize = 0;
        while i < dims.len()
            invariant
                i <= dims@.len(),
                dims@.len() <= 4,
                dims_scan(dims@, 0, 1) == dims_scan(dims@, i as int, total as int),
                forall|k: int| 0 <= k < 4 ==> #[trigger] shape_dims@[k] == (if k < i {
                    dims@[k]
                } else {
                    0usize
                }),
            decreases dims@.len() - i,
        {
            let dim = dims[i];
            if dim == 0 {
                return Err("Zero dimension not allowed");
            }
            shape_dims[i] = dim;
            total = match total.checked_mul(dim) {
                Some(t) => t,
                None => {
                    return Err("Tensor size overflow");
                },
            };
            i = i + 1;
        }
        if total > MAX_TENSOR_ELEMENTS {
            return Err("Tensor too large");
        }
        Ok(TensorShape { dims: shape_dims, num_dims: dims.len(), total_elements: total })
    }

    /// Bytes the tensor takes with elements of type `data_type`.
    pub fn memory_size(&self, data_type: QuantizationType) -> (r: usize)
        requires
            self.total_elements <= MAX_TENSOR_ELEMENTS,
        ensures
            r == self.total_elements * element_size(data_type),
            r <= 4 * MAX_TENSOR_ELEMENTS,
    {
        let element_size: usize = match data_type {
            QuantizationType::Float32 => 4,
            QuantizationType::Int8Symmetric | QuantizationType::Int8Asymmetric => 1,
            QuantizationType::Int16 => 2,
        };
        self.total_elements * element_size
    }
}

/// Inference statistics.
#[derive(Clone, Copy, Debug, PartialEq, Eq, Structural)]
pub struct InferenceStats {
    pub total_inferences: u64,
    pub total_cycles: u64,
    pub min_latency_cycles: u64,
    pub max_latency_cycles: u64,
    pub failed_inferences: u64,
    pub security_violations: u64,
}

impl Default for InferenceStats {
    fn default() -> (r: Self)
        ensures
            r == InferenceStats::zero(),
    {
        InferenceStats {
            total_inferences: 0,
            total_cycles: 0,
            min_latency_cycles: 0,
            max_latency_cycles: 0,
            failed_inferences: 0,
            security_violations: 0,
        }
    }
}

impl InferenceStats {
    pub open spec fn zero() -> InferenceStats {
        InferenceStats {
            total_inferences: 0,
            total_cycles: 0,
            min_latency_cycles: 0,
            max_latency_cycles: 0,
            failed_inferences: 0,
            security_violations: 0,
        }
    }

    /// Statistics after one successful inference of `cycles` cycles.
    pub open spec fn after_inference(self, cycles: u64) -> InferenceStats {
        InferenceStats {
            total_inferences: self.total_inferences.wrapping_add(1),
            total_cycles: self.total_cycles.wrapping_add(cycles),
            min_latency_cycles: if self.min_latency_cycles == 0 || cycles < self.min_latency_cycles {
                cycles
            } else {
                self.min_latency_cycles
            },
            max_latency_cycles: if cycles > self.max_latency_cycles {
                cycles
            } else {
                self.max_latency_cycles
            },
            ..self
        }
    }

    /// Records a successful inference of `cycles` cycles.
    pub fn record_inference(&mut self, cycles: u64)
        ensures
            *final(self) == old(self).after_inference(cycles),
    {
        self.total_inferences = self.total_inferences.wrapping_add(1);
        self.total_cycles = self.total_cycles.wrapping_add(cycles);
        if self.min_latency_cycles == 0 || cycles < self.min_latency_cycles {
            self.min_latency_cycles = cycles;
        }
        if cycles > self.max_latency_cycles {
            self.max_latency_cycles = cycles;
        }
    }

    /// Records a failed inference.
    pub fn record_failure(&mut self)
        ensures
            *final(self) == (InferenceStats { failed_inferences: old(self).failed_inferences.wrapping_add(1), ..*old(self) }),
    {
        self.failed_inferences = self.failed_inferences.wrapping_add(1);
    }

    /// Records a security violation.
    pub fn record_security_violation(&mut self)
        ensures
            *final(self) == (InferenceStats {
                security_violations: old(self).security_violations.wrapping_add(1),
                ..*old(self)
            }),
    {
        self.security_violations = self.security_violations.wrapping_add(1);
    }

    /// Mean cycles per inference (rounded down); zero before any.
    pub fn average_latency_cycles(&self) -> (r: u64)
        ensures
            r == (if self.total_inferences > 0 {
                self.total_cycles / self.total_inferences
            } else {
                0
            }),
    {
        if self.total_inferences > 0 {
            self.total_cycles / self.total_inferences
        } else {
            0
        }
    }
}

/// A loaded model.
#[derive(Clone, Copy, Debug)]
pub struct LoadedModel {
    pub model_id: u32,
    pub model_hash: [u8; 32],
    pub model_data: &'static [u8],
    pub model_size: usize,
    pub security_context: u32,
    pub quantization: QuantizationType,
    pub input_shape: TensorShape,
    pub output_shape: TensorShape,
    /// SMMU address of the model's DMA buffer.
    pub dma_buffer_iova: Option<u64>,
}

/// The AI runtime: sixteen model slots and the statistics.
pub struct AiRuntime {
    pub initialized: bool,
    pub loaded_models: Vec<Option<LoadedModel>>,
    pub inference_stats: InferenceStats,
}

/// Quantized models run on the NPU through a DMA buffer; float32 models
/// run on the CPU.
pub open spec fn needs_dma(q: QuantizationType) -> bool {
    q != QuantizationType::Float32
}

/// Whether models of type `quantization` need a DMA buffer.
pub fn needs_dma_buffer(quantization: QuantizationType) -> (r: bool)
    ensures
        r == needs_dma(quantization),
{
    match quantization {
        QuantizationType::Int8Symmetric | QuantizationType::Int8Asymmetric => true,
        QuantizationType::Int16 => true,
        QuantizationType::Float32 => false,
    }
}

/// Physical address of the DMA buffer of stream `stream_id`.
pub open spec fn dma_physical(stream_id: u32) -> u64 {
    (0x8000_0000u64 + stream_id * 0x10000) as u64
}

/// Maps a DMA buffer of `size` bytes for stream `stream_id` through the
/// SMMU: read-write, privileged and secure, never executable.
pub fn allocate_dma_buffer(smmu: &mut SMMUManager, stream_id: u32, size: usize) -> (r: Result<u64, &'static str>)
    requires
        old(smmu).wf(),
        size <= usize::MAX - 0xFFF,
    ensures
        final(smmu).wf(),
        final(smmu).has_device() == old(smmu).has_device(),
        r matches Ok(iova) ==> has_mapping(final(smmu).mappings_view(), stream_id, iova),
        r matches Ok(iova) ==> exists|i: int|
            first_fit(old(smmu).regions_view(), aligned_request(size), i) && iova == old(smmu).regions_view()[i].start
                && final(smmu).regions_view() == regions_after_alloc(
                old(smmu).regions_view(),
                i,
                aligned_request(size),
                stream_id,
            ),
        (forall|i: int|
            0 <= i < old(smmu).regions_view().len() ==> !region_fits(
                #[trigger] old(smmu).regions_view()[i],
                aligned_request(size),
            )) ==> r == Err::<u64, &'static str>("No suitable IOVA range available")
            && final(smmu).mappings_view() == old(smmu).mappings_view(),
        !old(smmu).has_device() && (exists|i: int|
            0 <= i < old(smmu).regions_view().len() && region_fits(
                #[trigger] old(smmu).regions_view()[i],
                aligned_request(size),
            )) ==> r is Ok,
{
    let physical_addr = 0x8000_0000u64 + (stream_id as u64 * 0x10000);
    let permissions = StreamPermissions { read: true, write: true, execute: false, privileged: true, secure: true };
    smmu.map_dma(stream_id, physical_addr, size, permissions)
}

/// Bytes of the DMA buffer of a model: the larger of its input and output
/// tensors.
pub open spec fn dma_buffer_bytes(input: TensorShape, output: TensorShape, q: QuantizationType) -> usize {
    let a = input.total_elements * element_size(q);
    let b = output.total_elements * element_size(q);
    (if a >= b {
        a
    } else {
        b
    }) as usize
}

/// Some IOVA region of `smmu` can serve `bytes`.
pub open spec fn iova_space_for(smmu: SMMUManager, bytes: usize) -> bool {
    exists|i: int|
        0 <= i < smmu.regions_view().len() && region_fits(#[trigger] smmu.regions_view()[i], aligned_request(bytes))
}

/// The first empty model slot, if any.
pub open spec fn first_free_slot(slots: Seq<Option<LoadedModel>>) -> Option<int> {
    if exists|i: int| 0 <= i < slots.len() && #[trigger] slots[i] is None {
        Some(choose|i: int| 0 <= i < slots.len() && #[trigger] slots[i] is None && forall|j: int| 0 <= j < i ==> slots[j] is Some)
    } else {
        None
    }
}

/// `out` is `input` with every byte raised by one, saturating, and the rest
/// of `out` (past the input) as it was.
pub open spec fn int8_transform(input: Seq<u8>, before: Seq<u8>, out: Seq<u8>) -> bool {
    &&& out.len() == before.len()
    &&& forall|i: int|
        0 <= i < out.len() ==> #[trigger] out[i] == (if i < input.len() {
            if input[i] == 255 {
                255u8
            } else {
                (input[i] + 1) as u8
            }
        } else {
            before[i]
        })
}

impl AiRuntime {
    /// Sixteen slots once initialized; loaded models have shapes within the
    /// element bound.
    pub open spec fn wf(&self) -> bool {
        &&& self.initialized ==> self.loaded_models@.len() == MODEL_SLOTS
        &&& forall|i: int|
            #![trigger self.loaded_models@[i]]
            0 <= i < self.loaded_models@.len() ==> (self.loaded_models@[i] matches Some(m) ==> m.input_shape.total_elements
                <= MAX_TENSOR_ELEMENTS && m.output_shape.total_elements <= MAX_TENSOR_ELEMENTS)
    }

    /// A runtime not yet initialized.
    pub fn new() -> (r: Self)
        ensures
            r.wf(),
            !r.initialized,
            r.inference_stats == InferenceStats::zero(),
    {
        AiRuntime { initialized: false, loaded_models: Vec::new(), inference_stats: InferenceStats::default() }
    }

    /// Empties the model slots and the statistics; a second call is refused.
    pub fn init(&mut self) -> (r: Result<(), &'static str>)
        requires
            old(self).wf(),
        ensures
            final(self).wf(),
            old(self).initialized ==> r == Err::<(), &'static str>("AI runtime already initialized") && *final(self)
                == *old(self),
            !old(self).initialized ==> r == Ok::<(), &'static str>(()) && final(self).initialized
                && final(self).inference_stats == InferenceStats::zero() && forall|i: int|
                0 <= i < MODEL_SLOTS ==> #[trigger] final(self).loaded_models@[i] is None,
    {
        if self.initialized {
            return Err("AI runtime already initialized");
        }
        let mut slots: Vec<Option<LoadedModel>> = Vec::new();
        let mut i: usize = 0;
        while i < MODEL_SLOTS
            invariant
                i <= MODEL_SLOTS,
                slots@.len() == i,
                forall|k: int| 0 <= k < i ==> #[trigger] slots@[k] is None,
            decreases MODEL_SLOTS - i,
        {
            slots.push(None);
            i = i + 1;
        }
        self.loaded_models = slots;
        self.inference_stats = InferenceStats::default();
        self.initialized = true;
        Ok(())
    }

    /// The first empty slot.
    fn find_free_slot(&self) -> (r: Option<usize>)
        requires
            self.loaded_models@.len() == MODEL_SLOTS,
        ensures
            match first_free_slot(self.loaded_models@) {
                Some(i) => r == Some(i as usize),
                None => r is None,
            },
    {
        let mut i: usize = 0;
        while i < MODEL_SLOTS
            invariant
                i <= MODEL_SLOTS,
                self.loaded_models@.len() == MODEL_SLOTS,
                forall|k: int| 0 <= k < i ==> (#[trigger] self.loaded_models@[k]) is Some,
            decreases MODEL_SLOTS - i,
        {
            if self.loaded_models[i].is_none() {
                proof {
                    let s = self.loaded_models@;
                    assert(s[i as int] is None);
                    let c = choose|c: int| 0 <= c < s.len() && #[trigger] s[c] is None && forall|j: int| 0 <= j < c ==> s[j] is Some;
                    if c < i {
                        assert(s[c] is Some);
                    } else if c > i {
                        assert(s[i as int] is Some);
                    }
                }
                return Some(i);
            }
            i = i + 1;
        }
        None
    }

    /// Loads a model into the first free slot.  A model over 1 MiB is a
    /// security violation; `verification` is the outcome of its TrustZone
    /// verification, whose error is passed on.  Quantized models get a DMA
    /// buffer on stream `2000 + id`, sized for the larger of input and
    /// output.
    pub fn load_model(
        &mut self,
        smmu: &mut SMMUManager,
        model_data: &'static [u8],
        model_hash: [u8; 32],
        input_shape: TensorShape,
        output_shape: TensorShape,
        quantization: QuantizationType,
        security_context_id: u32,
        verification: Result<bool, &'static str>,
    ) -> (r: Result<u32, &'static str>)
        requires
            old(self).wf(),
            old(smmu).wf(),
            input_shape.total_elements <= MAX_TENSOR_ELEMENTS,
            output_shape.total_elements <= MAX_TENSOR_ELEMENTS,
        ensures
            final(self).wf(),
            final(smmu).wf(),
            final(self).initialized == old(self).initialized,
            !old(self).initialized ==> r == Err::<u32, &'static str>("AI runtime not initialized") && *final(self)
                == *old(self),
            old(self).initialized && model_data@.len() > MAX_MODEL_SIZE ==> r == Err::<u32, &'static str>(
                "Model size exceeds maximum",
            ) && final(self).inference_stats == (InferenceStats {
                security_violations: old(self).inference_stats.security_violations.wrapping_add(1),
                ..old(self).inference_stats
            }) && final(self).loaded_models@ == old(self).loaded_models@,
            old(self).initialized && model_data@.len() <= MAX_MODEL_SIZE && verification is Err ==> r == Err::<
                u32,
                &'static str,
            >(verification->Err_0) && *final(self) == *old(self),
            old(self).initialized && model_data@.len() <= MAX_MODEL_SIZE && verification is Ok && first_free_slot(
                old(self).loaded_models@,
            ) is None ==> r == Err::<u32, &'static str>("No free model slots") && *final(self) == *old(self),
            old(self).initialized && model_data@.len() <= MAX_MODEL_SIZE && verification is Ok && first_free_slot(
                old(self).loaded_models@,
            ) is Some && needs_dma(quantization) && !iova_space_for(
                *old(smmu),
                dma_buffer_bytes(input_shape, output_shape, quantization),
            ) ==> r == Err::<u32, &'static str>("No suitable IOVA range available") && final(self).loaded_models@
                == old(self).loaded_models@,
            old(self).initialized && model_data@.len() <= MAX_MODEL_SIZE && verification is Ok && first_free_slot(
                old(self).loaded_models@,
            ) is Some && (!needs_dma(quantization) || (!old(smmu).has_device() && iova_space_for(
                *old(smmu),
                dma_buffer_bytes(input_shape, output_shape, quantization),
            ))) ==> r is Ok,
            r matches Ok(id) ==> {
                &&& old(self).initialized && model_data@.len() <= MAX_MODEL_SIZE && verification is Ok
                &&& first_free_slot(old(self).loaded_models@) == Some(id as int)
                &&& final(self).inference_stats == old(self).inference_stats
                &&& final(self).loaded_models@.len() == MODEL_SLOTS
                &&& forall|i: int| 0 <= i < MODEL_SLOTS && i != id ==> #[trigger] final(self).loaded_models@[i] == old(
                    self,
                ).loaded_models@[i]
                &&& final(self).loaded_models@[id as int] matches Some(m) && m.model_id == id && m.model_hash == model_hash
                    && m.model_data == model_data && m.model_size == model_data@.len() && m.security_context
                    == security_context_id && m.quantization == quantization && m.input_shape == input_shape
                    && m.output_shape == output_shape && (m.dma_buffer_iova is Some <==> needs_dma(quantization))
                    && (m.dma_buffer_iova matches Some(iova) ==> has_mapping(
                    final(smmu).mappings_view(),
                    (NPU_STREAM_BASE + id) as u32,
                    iova,
                ))
            },
    {
        if !self.initialized {
            return Err("AI runtime not initialized");
        }
        if model_data.len() > MAX_MODEL_SIZE {
            self.inference_stats.record_security_violation();
            return Err("Model size exceeds maximum");
        }
        match verification {
            Ok(_) => {},
            Err(e) => {
                return Err(e);
            },
        }
        let model_id = match self.find_free_slot() {
            Some(i) => i as u32,
            None => {
                return Err("No free model slots");
            },
        };
        let dma_buffer_iova = if needs_dma_buffer(quantization) {
            let in_size = input_shape.memory_size(quantization);
            let out_size = output_shape.memory_size(quantization);
            let buffer_size = if in_size >= out_size {
                in_size
            } else {
                out_size
            };
            let stream_id = NPU_STREAM_BASE + model_id;
            match allocate_dma_buffer(smmu, stream_id, buffer_size) {
                Ok(iova) => Some(iova),
                Err(e) => {
                    return Err(e);
                },
            }
        } else {
            None
        };
        let loaded_model = LoadedModel {
            model_id,
            model_hash,
            model_data,
            model_size: model_data.len(),
            security_context: security_context_id,
            quantization,
            input_shape,
            output_shape,
            dma_buffer_iova,
        };
        self.loaded_models.set(model_id as usize, Some(loaded_model));
        Ok(model_id)
    }
}

/// INT8 (symmetric) inference on the NPU path: each input byte raised by
/// one, saturating; a model without a DMA buffer cannot run.
pub fn infer_int8_symmetric(model: &LoadedModel, input_data: &[u8], output_data: &mut Vec<u8>) -> (r: Result<
    (),
    &'static str,
>)
    ensures
        model.dma_buffer_iova is None ==> r == Err::<(), &'static str>("INT8 inference requires DMA buffer")
            && final(output_data)@ == old(output_data)@,
        model.dma_buffer_iova is Some ==> r is Ok && int8_transform(input_data@, old(output_data)@, final(output_data)@),
{
    match model.dma_buffer_iova {
        Some(_) => {},
        None => {
            return Err("INT8 inference requires DMA buffer");
        },
    }
    let mut i: usize = 0;
    while i < input_data.len()
        invariant
            i <= input_data@.len(),
            output_data@.len() == old(output_data)@.len(),
            forall|k: int|
                0 <= k < output_data@.len() ==> #[trigger] output_data@[k] == (if k < i && k < input_data@.len() {
                    if input_data@[k] == 255 {
                        255u8
                    } else {
                        (input_data@[k] + 1) as u8
                    }
                } else {
                    old(output_data)@[k]
                }),
        decreases input_data@.len() - i,
    {
        if i < output_data.len() {
            let v = input_data[i].saturating_add(1);
            output_data.set(i, v);
        }
        i = i + 1;
    }
    Ok(())
}

/// INT8 asymmetric inference: as symmetric.
pub fn infer_int8_asymmetric(model: &LoadedModel, input_data: &[u8], output_data: &mut Vec<u8>) -> (r: Result<
    (),
    &'static str,
>)
    ensures
        model.dma_buffer_iova is None ==> r == Err::<(), &'static str>("INT8 inference requires DMA buffer")
            && final(output_data)@ == old(output_data)@,
        model.dma_buffer_iova is Some ==> r is Ok && int8_transform(input_data@, old(output_data)@, final(output_data)@),
{
    infer_int8_symmetric(model, input_data, output_data)
}

/// The little-endian 16-bit value of bytes `2k` and `2k + 1` of `s`.
pub open spec fn le_i16_at(s: Seq<u8>, k: int) -> i16 {
    ((s[2 * k] as int + 256 * s[2 * k + 1] as int) as u16) as i16
}

/// INT16 inference: each 16-bit value raised by 100, saturating.
/// `out` has the length of `before`, and each of its 16-bit values that
/// has a counterpart in `input` is that value plus 100, saturating.
pub open spec fn int16_transform(input: Seq<u8>, before: Seq<u8>, out: Seq<u8>) -> bool {
    &&& out.len() == before.len()
    &&& forall|k: int|
        0 <= k < input.len() / 2 && k < before.len() / 2 ==> #[trigger] le_i16_at(out, k) == (if le_i16_at(input, k)
            > i16::MAX - 100 {
            i16::MAX
        } else {
            (le_i16_at(input, k) + 100) as i16
        })
}

pub fn infer_int16(input_data: &[u8], output_data: &mut Vec<u8>) -> (r: Result<(), &'static str>)
    ensures
        r is Ok,
        int16_transform(input_data@, old(output_data)@, final(output_data)@),
{
    let in_len = input_data.len();
    let n_in = in_len / 2;
    let n_out = output_data.len() / 2;
    let ghost before = output_data@;
    let mut k: usize = 0;
    while k < n_in
        invariant
            k <= n_in,
            in_len == input_data@.len(),
            n_in == input_data@.len() / 2,
            n_out == before.len() / 2,
            output_data@.len() == before.len(),
            forall|j: int|
                0 <= j < k && j < n_out ==> #[trigger] le_i16_at(output_data@, j) == (if le_i16_at(input_data@, j) > i16::MAX
                    - 100 {
                    i16::MAX
                } else {
                    (le_i16_at(input_data@, j) + 100) as i16
                }),
        decreases n_in - k,
    {
        if k < n_out {
            assert(2 * k + 1 < in_len);
            assert(2 * k + 1 < output_data@.len());
            let lo = input_data[2 * k];
            let hi = input_data[2 * k + 1];
            let raw: u16 = (lo as u16) | ((hi as u16) << 8u16);
            let val: i16 = #[verifier::truncate] (raw as i16);
            let res: i16 = if val > i16::MAX - 100 {
                i16::MAX
            } else {
                val + 100
            };
            let bits: u16 = #[verifier::truncate] (res as u16);
            let b0: u8 = #[verifier::truncate] ((bits & 0xFF) as u8);
            let b1: u8 = #[verifier::truncate] ((bits >> 8u16) as u8);
            let ghost prev = output_data@;
            output_data.set(2 * k, b0);
            output_data.set(2 * k + 1, b1);
            proof {
                assert(raw == (lo as int + 256 * hi as int) as u16) by (bit_vector)
                    requires
                        raw == (lo as u16) | ((hi as u16) << 8u16),
                ;
                assert(val == le_i16_at(input_data@, k as int));
                assert(((b0 as int + 256 * b1 as int) as u16) as i16 == res) by (bit_vector)
                    requires
                        bits == res as u16,
                        b0 == (bits & 0xFF) as u8,
                        b1 == (bits >> 8u16) as u8,
                ;
                assert(output_data@[2 * k as int] == b0 && output_data@[2 * k + 1] == b1);
                assert(le_i16_at(output_data@, k as int) == res);
                assert forall|j: int| 0 <= j < k + 1 && j < n_out implies #[trigger] le_i16_at(output_data@, j) == (if le_i16_at(
                    input_data@,
                    j,
                ) > i16::MAX - 100 {
                    i16::MAX
                } else {
                    (le_i16_at(input_data@, j) + 100) as i16
                }) by {
                    if j < k {
                        assert(output_data@[2 * j] == prev[2 * j]);
                        assert(output_data@[2 * j + 1] == prev[2 * j + 1]);
                        assert(le_i16_at(output_data@, j) == le_i16_at(prev, j));
                    }
                }
            }
        }
        k = k + 1;
    }
    Ok(())
}

impl AiRuntime {
    /// Runs model `model_id` on `input_data` into `output_data`, as the
    /// kernel entity 0 holding `capability_id` with the execute and read
    /// rights; the sizes must match the model's shapes.  Quantized models
    /// run here; a float32 model runs through `float32_kernel`, which
    /// answers the output bytes.  `clock` reads the cycle counter around the
    /// run; a success is recorded with its cycles, a failed run as a
    /// failure, a missing capability as a security violation.
    pub fn infer<K: Fn(&[u8]) -> Vec<u8>, C: Fn() -> u64>(
        &mut self,
        caps: &mut CapabilityManager,
        model_id: u32,
        input_data: &[u8],
        output_data: &mut Vec<u8>,
        capability_id: CapabilityId,
        float32_kernel: &K,
        clock: &C,
    ) -> (r: Result<u64, &'static str>)
        requires
            old(self).wf(),
            old(caps).wf(),
            forall|x: &[u8]| float32_kernel.requires((x,)),
            forall|u: ()| clock.requires(u),
        ensures
            final(self).wf(),
            final(caps).wf(),
            final(caps).next_id_spec() == old(caps).next_id_spec(),
            final(self).initialized == old(self).initialized,
            final(self).loaded_models@ == old(self).loaded_models@,
            !old(self).initialized ==> r == Err::<u64, &'static str>("AI runtime not initialized"),
            old(self).initialized && !(model_id < MODEL_SLOTS && old(self).loaded_models@[model_id as int] is Some) ==> r
                == Err::<u64, &'static str>("Invalid model ID") && final(self).inference_stats == old(self).inference_stats,
            old(self).initialized && model_id < MODEL_SLOTS && old(self).loaded_models@[model_id as int] is Some && !(old(
                caps,
            ).has_space(0) && grants(
                old(caps).space_caps(0),
                capability_id,
                CapabilityRights::EXECUTE | CapabilityRights::READ,
            )) ==> r == Err::<u64, &'static str>("Insufficient capabilities for inference") && final(self).inference_stats
                == (InferenceStats {
                security_violations: old(self).inference_stats.security_violations.wrapping_add(1),
                ..old(self).inference_stats
            }),
            old(self).initialized && model_id < MODEL_SLOTS && (old(self).loaded_models@[model_id as int] matches Some(m)
                && input_data@.len() == m.input_shape.total_elements * element_size(m.quantization) && old(
                output_data,
            )@.len() == m.output_shape.total_elements * element_size(m.quantization) && (needs_dma(m.quantization)
                ==> m.dma_buffer_iova is Some)) && old(caps).has_space(0) && grants(
                old(caps).space_caps(0),
                capability_id,
                CapabilityRights::EXECUTE | CapabilityRights::READ,
            ) ==> r is Ok,
            r matches Ok(cycles) ==> final(self).inference_stats == old(self).inference_stats.after_inference(cycles),
            r is Err ==> final(self).inference_stats == old(self).inference_stats || final(self).inference_stats == (
            InferenceStats {
                failed_inferences: old(self).inference_stats.failed_inferences.wrapping_add(1),
                ..old(self).inference_stats
            }) || final(self).inference_stats == (InferenceStats {
                security_violations: old(self).inference_stats.security_violations.wrapping_add(1),
                ..old(self).inference_stats
            }),
            r is Ok ==> (old(self).loaded_models@[model_id as int] matches Some(m) && (m.quantization
                == QuantizationType::Int8Symmetric || m.quantization == QuantizationType::Int8Asymmetric ==> int8_transform(
                input_data@,
                old(output_data)@,
                final(output_data)@,
            ) && (m.quantization == QuantizationType::Int16 ==> int16_transform(
                input_data@,
                old(output_data)@,
                final(output_data)@,
            )) && (m.quantization == QuantizationType::Float32 ==> float32_kernel.ensures(
                (input_data,),
                *final(output_data),
            )))),
    {
        let start_cycles = clock();
        if !self.initialized {
            return Err("AI runtime not initialized");
        }
        if model_id as usize >= self.loaded_models.len() {
            return Err("Invalid model ID");
        }
        let model = match self.loaded_models[model_id as usize] {
            Some(m) => m,
            None => {
                return Err("Invalid model ID");
            },
        };
        let required = CapabilityRights::new(CapabilityRights::EXECUTE | CapabilityRights::READ);
        if !caps.check_capability(0, capability_id, required) {
            self.inference_stats.record_security_violation();
            return Err("Insufficient capabilities for inference");
        }
        let expected_input_size = model.input_shape.memory_size(model.quantization);
        let expected_output_size = model.output_shape.memory_size(model.quantization);
        if input_data.len() != expected_input_size {
            return Err("Invalid input data size");
        }
        if output_data.len() != expected_output_size {
            return Err("Invalid output buffer size");
        }
        let result = match model.quantization {
            QuantizationType::Int8Symmetric => infer_int8_symmetric(&model, input_data, output_data),
            QuantizationType::Int8Asymmetric => infer_int8_asymmetric(&model, input_data, output_data),
            QuantizationType::Float32 => {
                let out = float32_kernel(input_data);
                *output_data = out;
                Ok(())
            },
            QuantizationType::Int16 => infer_int16(input_data, output_data),
        };
        let end_cycles = clock();
        let inference_cycles = end_cycles.wrapping_sub(start_cycles);
        match result {
            Ok(()) => {
                self.inference_stats.record_inference(inference_cycles);
                Ok(inference_cycles)
            },
            Err(e) => {
                self.inference_stats.record_failure();
                Err(e)
            },
        }
    }

    /// Empties slot `model_id`, unmapping its DMA buffer.
    pub fn unload_model(&mut self, smmu: &mut SMMUManager, model_id: u32) -> (r: Result<(), &'static str>)
        requires
            old(self).wf(),
            old(smmu).wf(),
        ensures
            final(self).wf(),
            final(smmu).wf(),
            final(self).initialized == old(self).initialized,
            final(self).inference_stats == old(self).inference_stats,
            !old(self).initialized ==> r == Err::<(), &'static str>("AI runtime not initialized") && *final(self)
                == *old(self),
            old(self).initialized && model_id >= MODEL_SLOTS ==> r == Err::<(), &'static str>("Invalid model ID")
                && *final(self) == *old(self),
            old(self).initialized && model_id < MODEL_SLOTS ==> final(self).loaded_models@ == old(
                self,
            ).loaded_models@.update(model_id as int, None),
            old(self).initialized && model_id < MODEL_SLOTS && (old(self).loaded_models@[model_id as int] matches Some(m)
                && m.dma_buffer_iova is None) ==> r is Ok,
            old(self).initialized && model_id < MODEL_SLOTS && old(self).loaded_models@[model_id as int] is None ==> r is Ok,
    {
        if !self.initialized {
            return Err("AI runtime not initialized");
        }
        if model_id >= 16 {
            return Err("Invalid model ID");
        }
        let slot = self.loaded_models[model_id as usize];
        self.loaded_models.set(model_id as usize, None);
        match slot {
            Some(model) => {
                match model.dma_buffer_iova {
                    Some(dma_iova) => {
                        let stream_id = NPU_STREAM_BASE + model_id;
                        match smmu.unmap_dma(stream_id, dma_iova) {
                            Ok(()) => {},
                            Err(e) => {
                                return Err(e);
                            },
                        }
                    },
                    None => {},
                }
            },
            None => {},
        }
        Ok(())
    }

    /// The statistics; zero before initialization.
    pub fn get_stats(&self) -> (r: InferenceStats)
        ensures
            r == (if self.initialized {
                self.inference_stats
            } else {
                InferenceStats::zero()
            }),
    {
        if self.initialized {
            self.inference_stats
        } else {
            InferenceStats::default()
        }
    }
}

/// Cycle budget of an inference: 40 µs at 24 cycles per µs.
pub const TARGET_CYCLES: u64 = 960;

/// Whether the mean inference meets the 40 µs target; met before any
/// inference.
pub fn validate_performance_target(runtime: &AiRuntime) -> (r: Result<bool, &'static str>)
    ensures
        ({
            let s = if runtime.initialized {
                runtime.inference_stats
            } else {
                InferenceStats::zero()
            };
            r == Ok::<bool, &'static str>(s.total_inferences == 0 || s.total_cycles / s.total_inferences <= TARGET_CYCLES)
        }),
{
    let stats = runtime.get_stats();
    if stats.total_inferences == 0 {
        return Ok(true);
    }
    let cpu_freq_ghz: u64 = 24;
    let target_cycles = 40 * cpu_freq_ghz;
    Ok(stats.average_latency_cycles() <= target_cycles)
}

} // verus!
