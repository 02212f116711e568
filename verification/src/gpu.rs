//! The batch engine on a compute device. The device itself is not reached from
//! here: a batch is planned as the bytes to upload and the sizes to dispatch
//! with, and the bytes that the device hands back are read into addresses.

use crate::base58::tron_address_bytes;
use crate::batch::{is_batch_outcome, predict_salts, reversed, salt_predictions, texts_view};
use crate::codec::hex_encode;
use crate::dispatch::{
    can_dispatch, checked_dispatch, group_count, group_width, threads_needed, Dispatch,
    ADDRESSES_PER_THREAD,
};
use crate::error::{Create2Error, ErrorView};
use crate::params::{
    is_first_long_salt, le32, pack_salts, packed_salts, push_le32, Create2Params,
    Create2TronParams,
};
use crate::pool::BufferPool;
use crate::predictor::{address_error, invalid_salt_text, ChainFormat};
use crate::readback::{
    pairs_view, read_back, read_results, read_results_spec, record_at, record_len, text_prefix,
    written_text, EVM_RECORD_LEN, TRON_RECORD_LEN,
};
use crate::search::random_u32;
use crate::text::bytes_of;
use vstd::prelude::*;
use vstd::utf8::*;

verus! {

/// The name under which the device program's entry point is looked up.
pub fn kernel_name(format: ChainFormat) -> (name: &'static str)
    ensures
        name@ == match format {
            ChainFormat::Evm => "compute_create2_batch"@,
            ChainFormat::Tron => "compute_create2_tron_batch"@,
        },
{
    match format {
        ChainFormat::Evm => "compute_create2_batch",
        ChainFormat::Tron => "compute_create2_tron_batch",
    }
}

/// The step of the setup at which the device failed.
#[derive(Clone, Copy, Debug, PartialEq, Eq, Structural)]
pub enum SetupStage {
    /// No compute device was found.
    Device,
    /// The device program did not compile.
    Compile,
    /// The entry point is not in the device program.
    Function,
    /// The pipeline could not be built.
    Pipeline,
}

/// The text in front of what the device said of a failed setup step.
pub open spec fn stage_text(stage: SetupStage) -> Seq<char> {
    match stage {
        SetupStage::Device => "Metal device not found. "@,
        SetupStage::Compile => "Failed to compile Metal shader: "@,
        SetupStage::Function => "Failed to get compute function: "@,
        SetupStage::Pipeline => "Failed to create compute pipeline: "@,
    }
}

/// The error for a setup step that failed, `detail` being what the device said
/// of it.
pub fn setup_error(stage: SetupStage, detail: &str) -> (e: Create2Error)
    ensures
        e@ == ErrorView::GpuError(stage_text(stage) + detail@),
{
    let mut text = match stage {
        SetupStage::Device => "Metal device not found. ".to_owned(),
        SetupStage::Compile => "Failed to compile Metal shader: ".to_owned(),
        SetupStage::Function => "Failed to get compute function: ".to_owned(),
        SetupStage::Pipeline => "Failed to create compute pipeline: ".to_owned(),
    };
    text.append(detail);
    Create2Error::GpuError(text)
}

/// What is to be done on the device for one batch.
pub struct BatchPlan {
    /// The bytes of the parameter block.
    pub params: Vec<u8>,
    /// The bytes of the salts buffer; none where the device makes the salts.
    pub salts: Vec<u8>,
    /// The sizes to dispatch with; no groups where the batch is empty.
    pub dispatch: Dispatch,
    /// The number of result records to read back.
    pub count: u32,
}

/// The 40 digits of the address bytes in a text of the alternate chain; none
/// where the text holds no address.
pub open spec fn tron_digits(text: Seq<char>) -> Seq<u8> {
    match tron_address_bytes(text) {
        Ok(address) => hex_encode(address),
        Err(_) => Seq::empty(),
    }
}

/// The bytes of the parameter block of a batch. On the hexadecimal chain the
/// block holds the digits of the two addresses as given; on the alternate chain
/// the digits of the address bytes read from the two texts. The seed and its
/// flag follow where the device makes the salts itself, and always on the
/// alternate chain.
pub open spec fn params_bytes(
    format: ChainFormat,
    implementation: Seq<char>,
    deployer: Seq<char>,
    batch_size: u32,
    random_seed: Option<u32>,
) -> Seq<u8> {
    let sizes = le32(batch_size) + le32(ADDRESSES_PER_THREAD);
    let seed = match random_seed {
        Some(seed) => le32(seed) + le32(1),
        None => le32(0) + le32(0),
    };
    match format {
        ChainFormat::Evm => {
            let addresses = bytes_of(implementation).subrange(2, 42) + bytes_of(deployer).subrange(
                2,
                42,
            );
            if random_seed is Some {
                addresses + sizes + seed
            } else {
                addresses + sizes
            }
        },
        ChainFormat::Tron => tron_digits(implementation) + tron_digits(deployer) + sizes + seed,
    }
}

/// The sizes with which a batch of `count` salts is dispatched.
pub open spec fn planned_dispatch(format: ChainFormat, count: u32, max_threads: nat) -> Dispatch {
    if count == 0 {
        Dispatch { threads_per_group: 0, thread_groups: 0 }
    } else {
        let needed = threads_needed(count as nat, ADDRESSES_PER_THREAD as nat);
        let width = group_width(format, needed, max_threads);
        Dispatch { threads_per_group: width as u64, thread_groups: group_count(needed, width) as u64 }
    }
}

/// The text of the error for a batch that the buffers cannot hold.
pub open spec fn oversized_text() -> Seq<char> {
    "Batch exceeds the batch size"@
}

/// Whether a batch of `count` salts cannot be laid out on a device that takes
/// `max_threads` threads in a group: the group that the ladder gives for it
/// has no thread in it.
pub open spec fn unplannable(format: ChainFormat, count: u32, max_threads: nat) -> bool {
    count > 0 && !can_dispatch(format, count as nat, ADDRESSES_PER_THREAD as nat, max_threads)
}

/// The text of the error for a batch that cannot be laid out on the device.
pub open spec fn unplannable_text() -> Seq<char> {
    "Device cannot form a group for this batch"@
}

/// The parameter block of a batch, or the error of the two addresses.
fn parameter_block(
    format: ChainFormat,
    implementation: &str,
    deployer: &str,
    batch_size: u32,
    random_seed: Option<u32>,
) -> (block: Result<Vec<u8>, Create2Error>)
    ensures
        match block {
            Ok(bytes) => address_error(format, implementation@, deployer@) is None && bytes@
                == params_bytes(format, implementation@, deployer@, batch_size, random_seed),
            Err(e) => address_error(format, implementation@, deployer@) == Some(e@),
        },
{
    match format {
        ChainFormat::Evm => {
            let params = match Create2Params::new(
                implementation,
                deployer,
                batch_size,
                ADDRESSES_PER_THREAD,
            ) {
                Err(e) => {
                    return Err(e);
                },
                Ok(params) => params,
            };
            let mut bytes = params.to_bytes();
            match random_seed {
                Some(seed) => {
                    push_le32(&mut bytes, seed);
                    push_le32(&mut bytes, 1);
                },
                None => {},
            }
            assert(bytes@ =~= params_bytes(
                format,
                implementation@,
                deployer@,
                batch_size,
                random_seed,
            ));
            Ok(bytes)
        },
        ChainFormat::Tron => {
            let params = match Create2TronParams::new(
                implementation,
                deployer,
                batch_size,
                ADDRESSES_PER_THREAD,
                random_seed,
            ) {
                Err(e) => {
                    return Err(e);
                },
                Ok(params) => params,
            };
            let bytes = params.to_bytes();
            assert(bytes@ =~= params_bytes(
                format,
                implementation@,
                deployer@,
                batch_size,
                random_seed,
            ));
            Ok(bytes)
        },
    }
}

/// What was learned of a compute device at setup, as far as planning needs it.
pub struct MetalCompute {
    format: ChainFormat,
    batch_size: usize,
    max_threads_per_group: usize,
}

impl MetalCompute {
    /// The format in which the device program renders addresses.
    pub closed spec fn format(&self) -> ChainFormat {
        self.format
    }

    /// The most salts in one batch: what the buffers are sized for.
    pub closed spec fn capacity(&self) -> nat {
        self.batch_size as nat
    }

    /// The most threads that the device takes in one group.
    pub closed spec fn max_threads(&self) -> nat {
        self.max_threads_per_group as nat
    }

    /// What always holds of an instance: a batch holds a salt and its size
    /// fits in 32 bits, and the device takes a thread in a group.
    pub open spec fn wf(&self) -> bool {
        &&& 1 <= self.capacity() <= u32::MAX
        &&& self.max_threads() >= 1
    }

    /// The text of the error for a batch size that a block cannot hold.
    pub open spec fn batch_size_text() -> Seq<char> {
        "Batch size must be between 1 and 4294967295"@
    }

    /// The text of the error for a device that takes no thread in a group.
    pub open spec fn group_text() -> Seq<char> {
        "Device allows no thread in a group"@
    }

    /// An instance for batches of up to `batch_size` salts on a device that
    /// takes `max_threads_per_group` threads in a group. The batch size must
    /// be at least 1 and fit in 32 bits, and the device must take a thread in
    /// a group.
    pub fn new(format: ChainFormat, batch_size: usize, max_threads_per_group: usize) -> (compute:
        Result<Self, Create2Error>)
        ensures
            match compute {
                Ok(c) => {
                    &&& c.wf()
                    &&& c.format() == format
                    &&& c.capacity() == batch_size
                    &&& c.max_threads() == max_threads_per_group
                },
                Err(e) => if batch_size < 1 || batch_size > u32::MAX {
                    e@ == ErrorView::GpuError(Self::batch_size_text())
                } else {
                    &&& e@ == ErrorView::GpuError(Self::group_text())
                    &&& max_threads_per_group < 1
                },
            },
    {
        if batch_size < 1 || batch_size > 0xffff_ffff {
            return Err(
                Create2Error::GpuError("Batch size must be between 1 and 4294967295".to_owned()),
            );
        }
        if max_threads_per_group < 1 {
            return Err(Create2Error::GpuError("Device allows no thread in a group".to_owned()));
        }
        Ok(MetalCompute { format, batch_size, max_threads_per_group })
    }

    /// An empty pool of buffers of the sizes that this instance needs.
    pub fn new_pool<B>(&self) -> (pool: BufferPool<B>)
        requires
            self.wf(),
        ensures
            pool.wf(),
            pool.batch_size() == self.capacity(),
            pool.record_bytes() == record_len(self.format()),
    {
        let record_len: usize = match self.format {
            ChainFormat::Evm => EVM_RECORD_LEN,
            ChainFormat::Tron => TRON_RECORD_LEN,
        };
        BufferPool::new(self.batch_size, record_len)
    }

    /// The sizes with which `count` salts are dispatched, or the error of a
    /// batch that cannot be laid out on the device.
    fn dispatch_for(&self, count: u32) -> (dispatch: Result<Dispatch, Create2Error>)
        requires
            self.wf(),
        ensures
            match dispatch {
                Ok(sizes) => !unplannable(self.format(), count, self.max_threads()) && sizes
                    == planned_dispatch(self.format(), count, self.max_threads()),
                Err(e) => unplannable(self.format(), count, self.max_threads()) && e@
                    == ErrorView::GpuError(unplannable_text()),
            },
    {
        if count == 0 {
            return Ok(Dispatch { threads_per_group: 0, thread_groups: 0 });
        }
        match checked_dispatch(
            self.format,
            count,
            ADDRESSES_PER_THREAD,
            self.max_threads_per_group,
        ) {
            Some(sizes) => Ok(sizes),
            None => Err(
                Create2Error::GpuError("Device cannot form a group for this batch".to_owned()),
            ),
        }
    }

    /// Whether `plan` is what planning a batch over `salts` gives: the plan
    /// with the packed salts, or the error of a batch that does not fit the
    /// buffers, of one that cannot be laid out on the device, of the addresses,
    /// or of the first salt that is longer than its slot.
    pub open spec fn is_plan(
        &self,
        implementation: Seq<char>,
        deployer: Seq<char>,
        salts: Seq<String>,
        plan: Result<BatchPlan, Create2Error>,
    ) -> bool {
        match plan {
            Ok(p) => {
                &&& salts.len() <= self.capacity()
                &&& !unplannable(self.format(), p.count, self.max_threads())
                &&& address_error(self.format(), implementation, deployer) is None
                &&& forall|i: int|
                    0 <= i < salts.len() ==> bytes_of((#[trigger] salts[i])@).len() <= 32
                &&& p.count == salts.len()
                &&& p.params@ == params_bytes(
                    self.format(),
                    implementation,
                    deployer,
                    p.count,
                    None,
                )
                &&& p.salts@ == packed_salts(salts)
                &&& p.dispatch == planned_dispatch(self.format(), p.count, self.max_threads())
            },
            Err(e) => if salts.len() > self.capacity() {
                e@ == ErrorView::GpuError(oversized_text())
            } else if unplannable(self.format(), salts.len() as u32, self.max_threads()) {
                e@ == ErrorView::GpuError(unplannable_text())
            } else if address_error(self.format(), implementation, deployer) is Some {
                address_error(self.format(), implementation, deployer) == Some(e@)
            } else {
                exists|index: int|
                    #[trigger] is_first_long_salt(salts, index) && e@ == ErrorView::InvalidSalt(
                        invalid_salt_text(bytes_of(salts[index]@).len()),
                    )
            },
        }
    }

    /// Plans a batch over the salts given. The batch must fit the buffers and
    /// the device; then the two addresses are checked, then the salts, each of
    /// which must fit its slot.
    pub fn plan_batch(&self, implementation: &str, deployer: &str, salts: &[String]) -> (plan:
        Result<BatchPlan, Create2Error>)
        requires
            self.wf(),
        ensures
            self.is_plan(implementation@, deployer@, salts@, plan),
    {
        if salts.len() > self.batch_size {
            return Err(Create2Error::GpuError("Batch exceeds the batch size".to_owned()));
        }
        let count = salts.len() as u32;
        let dispatch = match self.dispatch_for(count) {
            Err(e) => {
                return Err(e);
            },
            Ok(dispatch) => dispatch,
        };
        let params = match parameter_block(self.format, implementation, deployer, count, None) {
            Err(e) => {
                return Err(e);
            },
            Ok(params) => params,
        };
        let packed = match pack_salts(salts) {
            Err(e) => {
                return Err(e);
            },
            Ok(packed) => packed,
        };
        Ok(BatchPlan { params, salts: packed, dispatch, count })
    }

    /// Whether `plan` is what planning a batch of `batch_size` salts made on
    /// the device from `random_seed` gives: the plan with that seed and no
    /// salts, or the error of a batch that does not fit the buffers, of one
    /// that cannot be laid out on the device, or of the addresses.
    pub open spec fn is_random_plan(
        &self,
        implementation: Seq<char>,
        deployer: Seq<char>,
        batch_size: usize,
        random_seed: u32,
        plan: Result<BatchPlan, Create2Error>,
    ) -> bool {
        match plan {
            Ok(p) => {
                &&& batch_size <= self.capacity()
                &&& !unplannable(self.format(), p.count, self.max_threads())
                &&& address_error(self.format(), implementation, deployer) is None
                &&& p.count == batch_size
                &&& p.params@ == params_bytes(
                    self.format(),
                    implementation,
                    deployer,
                    p.count,
                    Some(random_seed),
                )
                &&& p.salts@ == Seq::<u8>::empty()
                &&& p.dispatch == planned_dispatch(self.format(), p.count, self.max_threads())
            },
            Err(e) => if batch_size > self.capacity() {
                e@ == ErrorView::GpuError(oversized_text())
            } else if unplannable(self.format(), batch_size as u32, self.max_threads()) {
                e@ == ErrorView::GpuError(unplannable_text())
            } else {
                address_error(self.format(), implementation, deployer) == Some(e@)
            },
        }
    }

    /// Plans a batch of `batch_size` salts that the device makes itself from
    /// `random_seed`. The batch must fit the buffers and the device, and the
    /// two addresses must be valid.
    pub fn plan_random_batch(
        &self,
        implementation: &str,
        deployer: &str,
        batch_size: usize,
        random_seed: u32,
    ) -> (plan: Result<BatchPlan, Create2Error>)
        requires
            self.wf(),
        ensures
            self.is_random_plan(implementation@, deployer@, batch_size, random_seed, plan),
    {
        if batch_size > self.batch_size {
            return Err(Create2Error::GpuError("Batch exceeds the batch size".to_owned()));
        }
        let count = batch_size as u32;
        let dispatch = match self.dispatch_for(count) {
            Err(e) => {
                return Err(e);
            },
            Ok(dispatch) => dispatch,
        };
        let params = match parameter_block(
            self.format,
            implementation,
            deployer,
            count,
            Some(random_seed),
        ) {
            Err(e) => {
                return Err(e);
            },
            Ok(params) => params,
        };
        Ok(BatchPlan { params, salts: Vec::new(), dispatch, count })
    }

    /// Reads the results of a batch of `count` salts out of the bytes of the
    /// results buffer.
    pub fn read_batch(&self, results: &[u8], count: u32) -> (read: Result<
        Vec<(String, u32)>,
        Create2Error,
    >)
        ensures
            match read {
                Ok(pairs) => read_results_spec(self.format(), results@, count as nat) == Ok::<
                    Seq<(Seq<char>, u32)>,
                    ErrorView,
                >(pairs_view(pairs@)),
                Err(e) => read_results_spec(self.format(), results@, count as nat) == Err::<
                    Seq<(Seq<char>, u32)>,
                    ErrorView,
                >(e@),
            },
    {
        read_results(self.format, results, count)
    }
}

/// A compute instance with the batch size that its buffers were made for.
pub struct GpuAccelerator {
    compute: MetalCompute,
    batch_size: usize,
}

impl GpuAccelerator {
    /// The compute instance.
    pub closed spec fn compute(&self) -> MetalCompute {
        self.compute
    }

    /// The batch size that the buffers were made for.
    pub closed spec fn size(&self) -> usize {
        self.batch_size
    }

    /// What always holds of an accelerator: its instance is well formed, and
    /// its batch size is that of the instance.
    pub open spec fn wf(&self) -> bool {
        self.compute().wf() && self.size() == self.compute().capacity()
    }

    /// The accelerator on a compute instance that has been set up.
    pub fn new(compute: MetalCompute) -> (accelerator: Self)
        requires
            compute.wf(),
        ensures
            accelerator.wf(),
            accelerator.compute() == compute,
    {
        let batch_size = compute.batch_size;
        GpuAccelerator { compute, batch_size }
    }

    /// The most salts in one batch.
    pub fn batch_size(&self) -> (size: usize)
        ensures
            size == self.size(),
    {
        self.batch_size
    }

    /// Plans a batch over the salts given, as the compute instance does.
    pub fn plan_batch(&self, implementation: &str, deployer: &str, salts: &[String]) -> (plan:
        Result<BatchPlan, Create2Error>)
        requires
            self.wf(),
        ensures
            self.compute().is_plan(implementation@, deployer@, salts@, plan),
    {
        self.compute.plan_batch(implementation, deployer, salts)
    }

    /// Plans a batch of `batch_size` salts that the device makes itself, from a
    /// seed drawn at random. Whatever the seed, the plan is the one that the
    /// compute instance makes with it.
    pub fn plan_random_batch(&self, implementation: &str, deployer: &str, batch_size: usize) -> (plan:
        Result<BatchPlan, Create2Error>)
        requires
            self.wf(),
        ensures
            exists|random_seed: u32| #[trigger]
                self.compute().is_random_plan(
                    implementation@,
                    deployer@,
                    batch_size,
                    random_seed,
                    plan,
                ),
    {
        let random_seed = random_u32();
        self.compute.plan_random_batch(implementation, deployer, batch_size, random_seed)
    }

    /// Reads the results of a batch of `count` salts, as the compute instance
    /// does.
    pub fn read_batch(&self, results: &[u8], count: u32) -> (read: Result<
        Vec<(String, u32)>,
        Create2Error,
    >)
        ensures
            match read {
                Ok(pairs) => read_results_spec(
                    self.compute().format(),
                    results@,
                    count as nat,
                ) == Ok::<Seq<(Seq<char>, u32)>, ErrorView>(pairs_view(pairs@)),
                Err(e) => read_results_spec(self.compute().format(), results@, count as nat)
                    == Err::<Seq<(Seq<char>, u32)>, ErrorView>(e@),
            },
    {
        self.compute.read_batch(results, count)
    }
}

/// The addresses of the pairs read back, without the indices.
pub open spec fn addresses_of(pairs: Seq<(Seq<char>, u32)>) -> Seq<Seq<char>> {
    Seq::new(pairs.len(), |i: int| pairs[i].0)
}

/// Takes the addresses out of the pairs read back, in their order.
pub fn take_addresses(pairs: Vec<(String, u32)>) -> (addresses: Vec<String>)
    ensures
        texts_view(addresses@) == addresses_of(pairs_view(pairs@)),
{
    let ghost wanted = addresses_of(pairs_view(pairs@));
    let mut rest = reversed(pairs);
    let mut addresses: Vec<String> = Vec::new();
    while rest.len() > 0
        invariant
            wanted == addresses_of(pairs_view(pairs@)),
            rest@.len() + addresses@.len() == pairs@.len(),
            forall|k: int|
                0 <= k < rest@.len() ==> #[trigger] rest@[k] == pairs@[pairs@.len() - 1 - k],
            forall|i: int| 0 <= i < addresses@.len() ==> (#[trigger] addresses@[i])@ == wanted[i],
        decreases rest.len(),
    {
        let ghost last = rest@[rest@.len() - 1];
        assert(last == pairs@[addresses@.len() as int]);
        match rest.pop() {
            Some(pair) => {
                addresses.push(pair.0);
            },
            None => {},
        }
    }
    assert(texts_view(addresses@) =~= wanted);
    addresses
}

/// What a predictor does with a batch of salts.
pub enum BatchStep {
    /// No device is there and the addresses were computed here.
    Done(Vec<String>),
    /// The batch is to be dispatched on the device as planned.
    Dispatch(BatchPlan),
}

/// A predictor on the compute device, if one was set up.
pub struct Create2Predictor {
    format: ChainFormat,
    gpu_accelerator: Option<GpuAccelerator>,
}

impl Create2Predictor {
    /// The format of the addresses.
    pub closed spec fn format(&self) -> ChainFormat {
        self.format
    }

    /// The accelerator, if a device was set up.
    pub closed spec fn accelerator(&self) -> Option<GpuAccelerator> {
        self.gpu_accelerator
    }

    /// What always holds of a predictor: its accelerator, if there is one, is
    /// well formed and renders the predictor's format.
    pub open spec fn wf(&self) -> bool {
        self.accelerator() matches Some(gpu) ==> gpu.wf() && gpu.compute().format()
            == self.format()
    }

    /// A predictor for a format. It has an accelerator where the device was
    /// asked for and its setup succeeded; a setup that failed leaves a
    /// predictor without one.
    pub fn new(format: ChainFormat, use_gpu: bool, setup: Result<GpuAccelerator, Create2Error>) -> (predictor:
        Self)
        requires
            setup matches Ok(gpu) ==> gpu.wf() && gpu.compute().format() == format,
        ensures
            predictor.wf(),
            predictor.format() == format,
            predictor.accelerator() == match setup {
                Ok(gpu) => if use_gpu {
                    Some(gpu)
                } else {
                    None
                },
                Err(_) => None,
            },
    {
        let gpu_accelerator = match setup {
            Ok(gpu) => if use_gpu {
                Some(gpu)
            } else {
                None
            },
            Err(_) => None,
        };
        Create2Predictor { format, gpu_accelerator }
    }

    /// Whether the predictor has an accelerator.
    pub fn is_gpu_enabled(&self) -> (enabled: bool)
        ensures
            enabled == self.accelerator() is Some,
    {
        self.gpu_accelerator.is_some()
    }

    /// The part of `total` salts that goes in the next batch when `done` of
    /// them are done: from `done` up to a full batch further, or to the end.
    /// There is none when all are done, or without an accelerator.
    pub fn next_chunk(&self, done: usize, total: usize) -> (chunk: Option<(usize, usize)>)
        requires
            self.wf(),
        ensures
            match chunk {
                Some((start, end)) => match self.accelerator() {
                    Some(gpu) => {
                        &&& done < total
                        &&& start == done
                        &&& end == if total - done < gpu.size() {
                            total as int
                        } else {
                            done + gpu.size()
                        }
                        &&& start < end <= total
                    },
                    None => false,
                },
                None => self.accelerator() is None || done >= total,
            },
    {
        match &self.gpu_accelerator {
            None => None,
            Some(gpu) => {
                if done >= total {
                    None
                } else if total - done < gpu.batch_size() {
                    Some((done, total))
                } else {
                    Some((done, done + gpu.batch_size()))
                }
            },
        }
    }

    /// Begins a batch over the salts given. With an accelerator the batch is
    /// planned for the device. Without one, the alternate chain's predictor
    /// computes the addresses here, one salt after the other, and the
    /// hexadecimal chain's predictor reports that no device is there.
    pub fn begin_batch_with_salt(&self, implementation: &str, deployer: &str, salts: &[String]) -> (step:
        Result<BatchStep, Create2Error>)
        requires
            self.wf(),
        ensures
            match self.accelerator() {
                Some(gpu) => match step {
                    Ok(BatchStep::Dispatch(plan)) => gpu.compute().is_plan(
                        implementation@,
                        deployer@,
                        salts@,
                        Ok(plan),
                    ),
                    Ok(BatchStep::Done(_)) => false,
                    Err(e) => gpu.compute().is_plan(implementation@, deployer@, salts@, Err(e)),
                },
                None => match self.format() {
                    ChainFormat::Evm => step matches Err(e) && e@ == ErrorView::GpuUnavailable,
                    ChainFormat::Tron => match step {
                        Ok(BatchStep::Done(addresses)) => is_batch_outcome(
                            salt_predictions(
                                ChainFormat::Tron,
                                implementation@,
                                deployer@,
                                salts@,
                            ),
                            Ok(texts_view(addresses@)),
                        ),
                        Ok(BatchStep::Dispatch(_)) => false,
                        Err(e) => is_batch_outcome(
                            salt_predictions(
                                ChainFormat::Tron,
                                implementation@,
                                deployer@,
                                salts@,
                            ),
                            Err(e@),
                        ),
                    },
                },
            },
    {
        match &self.gpu_accelerator {
            Some(gpu) => match gpu.plan_batch(implementation, deployer, salts) {
                Ok(plan) => Ok(BatchStep::Dispatch(plan)),
                Err(e) => Err(e),
            },
            None => match self.format {
                ChainFormat::Evm => Err(Create2Error::GpuUnavailable),
                ChainFormat::Tron => match predict_salts(
                    ChainFormat::Tron,
                    implementation,
                    deployer,
                    salts,
                ) {
                    Ok(addresses) => Ok(BatchStep::Done(addresses)),
                    Err(e) => Err(e),
                },
            },
        }
    }

    /// Begins a batch of `batch_size` salts that the device makes itself. It
    /// needs an accelerator: without one, no device is there.
    pub fn begin_batch_address(&self, implementation: &str, deployer: &str, batch_size: usize) -> (plan:
        Result<BatchPlan, Create2Error>)
        requires
            self.wf(),
        ensures
            match self.accelerator() {
                Some(gpu) => exists|random_seed: u32| #[trigger]
                    gpu.compute().is_random_plan(
                        implementation@,
                        deployer@,
                        batch_size,
                        random_seed,
                        plan,
                    ),
                None => plan matches Err(e) && e@ == ErrorView::GpuUnavailable,
            },
    {
        match &self.gpu_accelerator {
            Some(gpu) => gpu.plan_random_batch(implementation, deployer, batch_size),
            None => Err(Create2Error::GpuUnavailable),
        }
    }

    /// Ends a batch: reads the addresses of `count` salts out of the bytes of
    /// the results buffer, in the order of their records. Without an
    /// accelerator, no device is there.
    pub fn finish_batch(&self, results: &[u8], count: u32) -> (addresses: Result<
        Vec<String>,
        Create2Error,
    >)
        requires
            self.wf(),
        ensures
            match self.accelerator() {
                Some(_) => match addresses {
                    Ok(texts) => read_results_spec(self.format(), results@, count as nat)
                        matches Ok(pairs) && texts_view(texts@) == addresses_of(pairs),
                    Err(e) => read_results_spec(self.format(), results@, count as nat) == Err::<
                        Seq<(Seq<char>, u32)>,
                        ErrorView,
                    >(e@),
                },
                None => addresses matches Err(e) && e@ == ErrorView::GpuUnavailable,
            },
    {
        match &self.gpu_accelerator {
            Some(gpu) => match gpu.read_batch(results, count) {
                Ok(pairs) => Ok(take_addresses(pairs)),
                Err(e) => Err(e),
            },
            None => Err(Create2Error::GpuUnavailable),
        }
    }
}

/// Whether the record at `index` holds `address` as a device writes it: the
/// record was written, and its text is the address without the characters that
/// reading puts in front.
pub open spec fn record_holds(
    format: ChainFormat,
    results: Seq<u8>,
    index: nat,
    address: Seq<char>,
) -> bool {
    let prefix = text_prefix(format);
    &&& address.len() >= prefix.len()
    &&& address.subrange(0, prefix.len() as int) == prefix
    &&& written_text(format, record_at(format, results, index)) == Some(
        bytes_of(address.subrange(prefix.len() as int, address.len() as int)),
    )
}

/// The pairs that are read from records that hold `addresses`, the first
/// `count` of them.
pub open spec fn indexed_pairs(addresses: Seq<Seq<char>>, count: nat) -> Seq<(Seq<char>, u32)> {
    Seq::new(count, |i: int| (addresses[i], i as u32))
}

/// Records that hold the addresses read back as these addresses, each with its
/// index.
pub proof fn lemma_read_back_written(
    format: ChainFormat,
    results: Seq<u8>,
    addresses: Seq<Seq<char>>,
    count: nat,
)
    requires
        count <= addresses.len(),
        count <= u32::MAX,
        forall|i: int|
            0 <= i < count ==> #[trigger] record_holds(format, results, i as nat, addresses[i]),
    ensures
        read_back(format, results, count) == Ok::<Seq<(Seq<char>, u32)>, ErrorView>(
            indexed_pairs(addresses, count),
        ),
    decreases count,
{
    if count == 0 {
        assert(indexed_pairs(addresses, 0) =~= Seq::<(Seq<char>, u32)>::empty());
    } else {
        let index = (count - 1) as nat;
        lemma_read_back_written(format, results, addresses, index);
        let address = addresses[index as int];
        let prefix = text_prefix(format);
        let tail = address.subrange(prefix.len() as int, address.len() as int);
        assert(record_holds(format, results, index, address));
        encode_utf8_valid_utf8(tail);
        encode_utf8_decode_utf8(tail);
        assert(prefix + tail =~= address);
        assert(indexed_pairs(addresses, index).push((address, index as u32)) =~= indexed_pairs(
            addresses,
            count,
        ));
    }
}

/// The two backends agree where the device does its part: if a batch computed
/// here succeeds, and the device has written for each salt the address
/// predicted for it, then what is read back from the device is the addresses of
/// the batch computed here, in the same order.
pub proof fn lemma_backends_agree(
    format: ChainFormat,
    implementation: Seq<char>,
    deployer: Seq<char>,
    salts: Seq<String>,
    addresses: Seq<Seq<char>>,
    results: Seq<u8>,
)
    requires
        is_batch_outcome(
            salt_predictions(format, implementation, deployer, salts),
            Ok::<Seq<Seq<char>>, ErrorView>(addresses),
        ),
        salts.len() <= u32::MAX,
        results.len() >= record_len(format) * salts.len(),
        forall|i: int|
            0 <= i < salts.len() ==> #[trigger] record_holds(
                format,
                results,
                i as nat,
                addresses[i],
            ),
    ensures
        read_results_spec(format, results, salts.len()) matches Ok(pairs) && addresses_of(pairs)
            == addresses,
{
    lemma_read_back_written(format, results, addresses, salts.len());
    assert(addresses_of(indexed_pairs(addresses, salts.len())) =~= addresses);
}

/// The two backends agree however the salts are cut into batches: if the
/// batch of all the salts succeeds when computed here, and the salts are cut in
/// two at `cut`, and the device has written for each salt of either part the
/// address predicted for it, then what is read back from the two parts, put
/// together, is the addresses of the whole batch computed here.
pub proof fn lemma_backends_agree_in_parts(
    format: ChainFormat,
    implementation: Seq<char>,
    deployer: Seq<char>,
    salts: Seq<String>,
    addresses: Seq<Seq<char>>,
    cut: int,
    first_results: Seq<u8>,
    second_results: Seq<u8>,
)
    requires
        is_batch_outcome(
            salt_predictions(format, implementation, deployer, salts),
            Ok::<Seq<Seq<char>>, ErrorView>(addresses),
        ),
        0 <= cut <= salts.len() <= u32::MAX,
        first_results.len() >= record_len(format) * cut,
        second_results.len() >= record_len(format) * (salts.len() - cut),
        forall|i: int|
            0 <= i < cut ==> #[trigger] record_holds(format, first_results, i as nat, addresses[i]),
        forall|i: int|
            0 <= i < salts.len() - cut ==> #[trigger] record_holds(
                format,
                second_results,
                i as nat,
                addresses[cut + i],
            ),
    ensures
        read_results_spec(format, first_results, cut as nat) matches Ok(first) && read_results_spec(
            format,
            second_results,
            (salts.len() - cut) as nat,
        ) matches Ok(second) && addresses_of(first) + addresses_of(second) == addresses,
{
    let head = addresses.subrange(0, cut);
    let tail = addresses.subrange(cut, addresses.len() as int);
    assert forall|i: int| 0 <= i < cut implies #[trigger] record_holds(
        format,
        first_results,
        i as nat,
        head[i],
    ) by {
        assert(record_holds(format, first_results, i as nat, addresses[i]));
    }
    assert forall|i: int| 0 <= i < salts.len() - cut implies #[trigger] record_holds(
        format,
        second_results,
        i as nat,
        tail[i],
    ) by {
        assert(record_holds(format, second_results, i as nat, addresses[cut + i]));
    }
    lemma_read_back_written(format, first_results, head, cut as nat);
    lemma_read_back_written(format, second_results, tail, (salts.len() - cut) as nat);
    assert(addresses_of(indexed_pairs(head, cut as nat)) =~= head);
    assert(addresses_of(indexed_pairs(tail, (salts.len() - cut) as nat)) =~= tail);
    assert(head + tail =~= addresses);
}

} // verus!
