use create2_predict::dispatch::{checked_dispatch, plan_dispatch, Dispatch};
use create2_predict::error::Create2Error;
use create2_predict::gpu::{
    kernel_name, setup_error, take_addresses, BatchStep, Create2Predictor, GpuAccelerator,
    MetalCompute, SetupStage,
};
use create2_predict::params::{pack_salts, push_le32, Create2Params, Create2TronParams};
use create2_predict::pool::{Acquired, BufferKind, BufferPool};
use create2_predict::batch::predict_salts;
use create2_predict::predictor::{predict_tron_address, ChainFormat};
use create2_predict::readback::{read_le32, read_results, Create2Result, Create2TronResult};

const IMPLEMENTATION: &str = "0xa84c57e9966df7df79bff42f35c68aae71796f64";
const DEPLOYER: &str = "0xfe15afcb5b9831b8af5fd984678250e95de8e312";
const TRON_IMPLEMENTATION: &str = "TL2ScqgY9ckK5h1VQExuMNrweyVSSdAtHa";
const TRON_DEPLOYER: &str = "TFgphAx29XEwrS8feFMpPfqzypjYzNysSH";

fn evm_record(address: &str, index: u32) -> Vec<u8> {
    let mut record = address.as_bytes().to_vec();
    record.extend_from_slice(&index.to_le_bytes());
    record
}

fn tron_record(address: &[u8], index: u32, len: u32) -> Vec<u8> {
    let mut record = vec![0u8; 64];
    record[..address.len()].copy_from_slice(address);
    record.extend_from_slice(&index.to_le_bytes());
    record.extend_from_slice(&len.to_le_bytes());
    record
}

#[test]
fn le32_is_little_endian() {
    let mut buffer = vec![9u8];
    push_le32(&mut buffer, 0x0403_0201);
    assert_eq!(buffer, vec![9, 1, 2, 3, 4]);
    assert_eq!(read_le32(&buffer, 1), 0x0403_0201);
    let mut buffer = Vec::new();
    push_le32(&mut buffer, u32::MAX);
    assert_eq!(buffer, vec![255, 255, 255, 255]);
    assert_eq!(read_le32(&buffer, 0), u32::MAX);
}

#[test]
fn evm_params_hold_the_digits_as_given() {
    let params = Create2Params::new(IMPLEMENTATION, DEPLOYER, 3, 4).unwrap();
    assert_eq!(&params.implementation[..], &IMPLEMENTATION.as_bytes()[2..]);
    assert_eq!(&params.deployer[..], &DEPLOYER.as_bytes()[2..]);
    let block = params.to_bytes();
    assert_eq!(block.len(), 88);
    assert_eq!(&block[0..40], &IMPLEMENTATION.as_bytes()[2..]);
    assert_eq!(&block[40..80], &DEPLOYER.as_bytes()[2..]);
    assert_eq!(&block[80..88], &[3, 0, 0, 0, 4, 0, 0, 0]);
    assert!(matches!(
        Create2Params::new("0x12", DEPLOYER, 3, 4),
        Err(Create2Error::InvalidAddress(_))
    ));
}

#[test]
fn tron_params_hold_the_digits_of_the_address_bytes() {
    let params = Create2TronParams::new(TRON_IMPLEMENTATION, TRON_DEPLOYER, 7, 4, Some(0xabcd)).unwrap();
    assert_eq!(params.random_seed, 0xabcd);
    assert_eq!(params.use_gpu_random, 1);
    assert!(params.implementation.iter().all(|b| b.is_ascii_hexdigit()));
    let block = params.to_bytes();
    assert_eq!(block.len(), 96);
    assert_eq!(&block[80..96], &[7, 0, 0, 0, 4, 0, 0, 0, 0xcd, 0xab, 0, 0, 1, 0, 0, 0]);
    let plain = Create2TronParams::new(TRON_IMPLEMENTATION, TRON_DEPLOYER, 7, 4, None).unwrap();
    assert_eq!(plain.random_seed, 0);
    assert_eq!(plain.use_gpu_random, 0);
    assert_eq!(plain.implementation, params.implementation);
    assert!(Create2TronParams::new("0", TRON_DEPLOYER, 7, 4, None).is_err());
}

#[test]
fn salts_are_packed_in_slots_of_32_bytes() {
    let salts = vec!["ab".to_string(), "".to_string(), "z".repeat(32)];
    let packed = pack_salts(&salts).unwrap();
    assert_eq!(packed.len(), 96);
    assert_eq!(&packed[0..2], b"ab");
    assert!(packed[2..64].iter().all(|b| *b == 0));
    assert!(packed[64..96].iter().all(|b| *b == b'z'));
    assert_eq!(pack_salts(&[]).unwrap(), Vec::<u8>::new());
}

#[test]
fn packing_refuses_the_first_long_salt() {
    let salts = vec!["ab".to_string(), "y".repeat(35), "z".repeat(33)];
    match pack_salts(&salts) {
        Err(Create2Error::InvalidSalt(text)) => {
            assert_eq!(text, "Salt length should not exceed 32 characters, got 35")
        }
        _ => panic!("the second salt is too long"),
    }
}

#[test]
fn evm_dispatch_follows_the_fixed_ladder() {
    assert_eq!(
        plan_dispatch(ChainFormat::Evm, 65_536, 4, 1024),
        Dispatch { threads_per_group: 1024, thread_groups: 16 }
    );
    assert_eq!(
        plan_dispatch(ChainFormat::Evm, 16_384, 4, 1024),
        Dispatch { threads_per_group: 512, thread_groups: 8 }
    );
    assert_eq!(
        plan_dispatch(ChainFormat::Evm, 4_096, 4, 1024),
        Dispatch { threads_per_group: 256, thread_groups: 4 }
    );
    assert_eq!(
        plan_dispatch(ChainFormat::Evm, 1_000, 4, 1024),
        Dispatch { threads_per_group: 64, thread_groups: 4 }
    );
    assert_eq!(
        plan_dispatch(ChainFormat::Evm, 1, 4, 1024),
        Dispatch { threads_per_group: 1, thread_groups: 1 }
    );
    assert_eq!(
        plan_dispatch(ChainFormat::Evm, 65_536, 4, 256),
        Dispatch { threads_per_group: 256, thread_groups: 64 }
    );
    assert_eq!(
        plan_dispatch(ChainFormat::Evm, 5, 4, 1024),
        Dispatch { threads_per_group: 2, thread_groups: 1 }
    );
}

#[test]
fn tron_dispatch_follows_the_ladder_on_the_limit() {
    assert_eq!(
        plan_dispatch(ChainFormat::Tron, 262_144, 4, 1024),
        Dispatch { threads_per_group: 1024, thread_groups: 64 }
    );
    assert_eq!(
        plan_dispatch(ChainFormat::Tron, 16_384, 4, 1024),
        Dispatch { threads_per_group: 512, thread_groups: 8 }
    );
    assert_eq!(
        plan_dispatch(ChainFormat::Tron, 4_096, 4, 1024),
        Dispatch { threads_per_group: 256, thread_groups: 4 }
    );
    assert_eq!(
        plan_dispatch(ChainFormat::Tron, 2_000, 4, 1024),
        Dispatch { threads_per_group: 256, thread_groups: 2 }
    );
    assert_eq!(
        plan_dispatch(ChainFormat::Tron, 400, 4, 1024),
        Dispatch { threads_per_group: 64, thread_groups: 2 }
    );
    assert_eq!(
        plan_dispatch(ChainFormat::Tron, 100, 4, 1024),
        Dispatch { threads_per_group: 25, thread_groups: 1 }
    );
    assert_eq!(
        plan_dispatch(ChainFormat::Tron, u32::MAX, 4, 1024),
        Dispatch { threads_per_group: 1024, thread_groups: 1_048_576 }
    );
}

#[test]
fn dispatch_covers_the_batch() {
    for batch in [1u32, 3, 4, 5, 63, 64, 65, 255, 1_000, 4_097, 70_001] {
        for max in [4usize, 32, 100, 1024] {
            for format in [ChainFormat::Evm, ChainFormat::Tron] {
                let plan = plan_dispatch(format, batch, 4, max);
                assert!(plan.threads_per_group >= 1);
                assert!(plan.threads_per_group <= max as u64);
                assert!(plan.thread_groups * plan.threads_per_group * 4 >= batch as u64);
                assert!((plan.thread_groups - 1) * plan.threads_per_group * 4 < batch as u64);
            }
        }
    }
}

#[test]
fn records_are_read_from_their_bytes() {
    let record = evm_record("22fbfb2264b9cd1ade8ce5013012c817878d783c", 9);
    let result = Create2Result::from_bytes(&record);
    assert_eq!(&result.address[..], b"22fbfb2264b9cd1ade8ce5013012c817878d783c");
    assert_eq!(result.salt_index, 9);
    let record = tron_record(b"TQGeReoGywayLjiFDedvJTrxAALh7uZnqH", 5, 34);
    let result = Create2TronResult::from_bytes(&record);
    assert_eq!(&result.address[..34], b"TQGeReoGywayLjiFDedvJTrxAALh7uZnqH");
    assert_eq!(result.salt_index, 5);
    assert_eq!(result.address_len, 34);
}

#[test]
fn evm_results_are_read_with_their_prefix() {
    let mut results = evm_record("22fbfb2264b9cd1ade8ce5013012c817878d783c", 0);
    results.extend(evm_record("00000000000000000000000000000000000000ff", 1));
    let pairs = read_results(ChainFormat::Evm, &results, 2).unwrap();
    assert_eq!(
        pairs,
        vec![
            ("0x22fbfb2264b9cd1ade8ce5013012c817878d783c".to_string(), 0),
            ("0x00000000000000000000000000000000000000ff".to_string(), 1),
        ]
    );
    assert_eq!(read_results(ChainFormat::Evm, &results, 1).unwrap().len(), 1);
    assert_eq!(read_results(ChainFormat::Evm, &results, 0).unwrap().len(), 0);
}

#[test]
fn tron_results_skip_what_was_not_written() {
    let mut results = tron_record(b"TQGeReoGywayLjiFDedvJTrxAALh7uZnqH", 0, 34);
    results.extend(tron_record(b"", 1, 0));
    results.extend(tron_record(b"TL2ScqgY9ckK5h1VQExuMNrweyVSSdAtHa", 2, 65));
    results.extend(tron_record(b"TL2ScqgY9ckK5h1VQExuMNrweyVSSdAtHa", 3, 34));
    let pairs = read_results(ChainFormat::Tron, &results, 4).unwrap();
    assert_eq!(
        pairs,
        vec![
            ("TQGeReoGywayLjiFDedvJTrxAALh7uZnqH".to_string(), 0),
            ("TL2ScqgY9ckK5h1VQExuMNrweyVSSdAtHa".to_string(), 3),
        ]
    );
}

#[test]
fn results_that_are_no_text_are_an_error() {
    let mut results = evm_record("22fbfb2264b9cd1ade8ce5013012c817878d783c", 0);
    let mut bad = evm_record("22fbfb2264b9cd1ade8ce5013012c817878d783c", 1);
    bad[3] = 0xff;
    results.extend(bad);
    results.extend(evm_record("22fbfb2264b9cd1ade8ce5013012c817878d783c", 2));
    match read_results(ChainFormat::Evm, &results, 3) {
        Err(Create2Error::GpuError(text)) => {
            assert_eq!(text, "Failed to decode address at index 1")
        }
        _ => panic!("the second record is no text"),
    }
    assert!(read_results(ChainFormat::Evm, &results, 1).is_ok());
}

#[test]
fn results_need_a_record_for_each_salt() {
    let results = evm_record("22fbfb2264b9cd1ade8ce5013012c817878d783c", 0);
    match read_results(ChainFormat::Evm, &results[..43], 1) {
        Err(Create2Error::GpuError(text)) => assert_eq!(text, "Result buffer too small"),
        _ => panic!("43 bytes hold no record"),
    }
    assert!(matches!(
        read_results(ChainFormat::Tron, &results, 1),
        Err(Create2Error::GpuError(_))
    ));
}

#[test]
fn pool_reuses_what_comes_back_in_order() {
    let mut pool: BufferPool<u32> = BufferPool::new(1024, 44);
    match pool.acquire(BufferKind::Salts) {
        Acquired::Allocate { byte_len, zero_fill } => {
            assert_eq!(byte_len, 32 * 1024);
            assert!(!zero_fill);
        }
        Acquired::Reused(_) => panic!("the pool is empty"),
    }
    match pool.acquire(BufferKind::Results) {
        Acquired::Allocate { byte_len, zero_fill } => {
            assert_eq!(byte_len, 44 * 1024);
            assert!(zero_fill);
        }
        Acquired::Reused(_) => panic!("the pool is empty"),
    }
    pool.release(BufferKind::Salts, 1);
    pool.release(BufferKind::Salts, 2);
    pool.release(BufferKind::Results, 3);
    assert!(matches!(pool.acquire(BufferKind::Salts), Acquired::Reused(1)));
    assert!(matches!(pool.acquire(BufferKind::Salts), Acquired::Reused(2)));
    assert!(matches!(pool.acquire(BufferKind::Salts), Acquired::Allocate { .. }));
    assert!(matches!(pool.acquire(BufferKind::Results), Acquired::Reused(3)));
}

#[test]
fn pool_keeps_16_buffers_of_a_kind() {
    let mut pool: BufferPool<u32> = BufferPool::new(8, 72);
    for buffer in 0..20 {
        pool.release(BufferKind::Results, buffer);
    }
    for buffer in 0..16 {
        match pool.acquire(BufferKind::Results) {
            Acquired::Reused(b) => assert_eq!(b, buffer),
            Acquired::Allocate { .. } => panic!("16 buffers were kept"),
        }
    }
    match pool.acquire(BufferKind::Results) {
        Acquired::Allocate { byte_len, zero_fill } => {
            assert_eq!(byte_len, 72 * 8);
            assert!(zero_fill);
        }
        Acquired::Reused(_) => panic!("only 16 buffers were kept"),
    }
    assert!(matches!(pool.acquire(BufferKind::Salts), Acquired::Allocate { .. }));
}

#[test]
fn kernel_names_go_by_the_format() {
    assert_eq!(kernel_name(ChainFormat::Evm), "compute_create2_batch");
    assert_eq!(kernel_name(ChainFormat::Tron), "compute_create2_tron_batch");
}

#[test]
fn setup_errors_say_the_step() {
    match setup_error(SetupStage::Compile, "line 3") {
        Create2Error::GpuError(text) => assert_eq!(text, "Failed to compile Metal shader: line 3"),
        _ => panic!("a setup failure is a device error"),
    }
    match setup_error(SetupStage::Device, "") {
        Create2Error::GpuError(text) => assert_eq!(text, "Metal device not found. "),
        _ => panic!("a setup failure is a device error"),
    }
}

#[test]
fn compute_refuses_sizes_it_cannot_plan_with() {
    assert!(matches!(MetalCompute::new(ChainFormat::Evm, 0, 1024), Err(Create2Error::GpuError(_))));
    assert!(matches!(MetalCompute::new(ChainFormat::Evm, 16, 0), Err(Create2Error::GpuError(_))));
    assert!(matches!(MetalCompute::new(ChainFormat::Tron, 16, 0), Err(Create2Error::GpuError(_))));
    assert!(MetalCompute::new(ChainFormat::Evm, 16, 1).is_ok());
    assert!(MetalCompute::new(ChainFormat::Tron, 16, 1).is_ok());
    assert!(MetalCompute::new(ChainFormat::Tron, 16, 4).is_ok());
}

#[test]
fn small_devices_take_the_batches_that_form_a_group() {
    assert_eq!(
        checked_dispatch(ChainFormat::Tron, 4, 4, 2),
        Some(Dispatch { threads_per_group: 1, thread_groups: 1 })
    );
    assert_eq!(checked_dispatch(ChainFormat::Tron, 5, 4, 2), None);
    assert_eq!(checked_dispatch(ChainFormat::Tron, 28, 4, 2), None);
    assert_eq!(
        checked_dispatch(ChainFormat::Tron, 29, 4, 2),
        Some(Dispatch { threads_per_group: 1, thread_groups: 8 })
    );
    assert_eq!(
        checked_dispatch(ChainFormat::Tron, 128, 4, 2),
        Some(Dispatch { threads_per_group: 2, thread_groups: 16 })
    );
    assert_eq!(
        checked_dispatch(ChainFormat::Evm, 5, 4, 1),
        Some(Dispatch { threads_per_group: 1, thread_groups: 2 })
    );
    for batch in 1..200u32 {
        for max in 4..8usize {
            assert!(checked_dispatch(ChainFormat::Tron, batch, 4, max).is_some());
        }
        assert!(checked_dispatch(ChainFormat::Evm, batch, 4, 1).is_some());
    }
}

#[test]
fn planning_refuses_a_batch_that_forms_no_group() {
    let compute = MetalCompute::new(ChainFormat::Tron, 64, 2).unwrap();
    match compute.plan_random_batch(TRON_IMPLEMENTATION, TRON_DEPLOYER, 8, 1) {
        Err(Create2Error::GpuError(text)) => {
            assert_eq!(text, "Device cannot form a group for this batch")
        }
        _ => panic!("two threads in a group are needed and a quarter of the limit is none"),
    }
    let salts: Vec<String> = (0..8).map(|i| format!("salt {}", i)).collect();
    assert!(matches!(
        compute.plan_batch("bad", TRON_DEPLOYER, &salts),
        Err(Create2Error::GpuError(_))
    ));
    assert!(compute.plan_batch(TRON_IMPLEMENTATION, TRON_DEPLOYER, &salts[..4]).is_ok());
    let plan = compute.plan_random_batch(TRON_IMPLEMENTATION, TRON_DEPLOYER, 40, 1).unwrap();
    assert_eq!(plan.dispatch, Dispatch { threads_per_group: 1, thread_groups: 10 });
}

#[test]
fn batch_plan_holds_block_salts_and_sizes() {
    let compute = MetalCompute::new(ChainFormat::Evm, 65_536, 1024).unwrap();
    let salts: Vec<String> = (0..10).map(|i| format!("Salt-{}", i)).collect();
    let plan = compute.plan_batch(IMPLEMENTATION, DEPLOYER, &salts).unwrap();
    assert_eq!(plan.count, 10);
    assert_eq!(plan.params.len(), 88);
    assert_eq!(&plan.params[80..88], &[10, 0, 0, 0, 4, 0, 0, 0]);
    assert_eq!(plan.salts.len(), 320);
    assert_eq!(&plan.salts[32..38], b"Salt-1");
    assert_eq!(plan.dispatch, Dispatch { threads_per_group: 3, thread_groups: 1 });
    let empty = compute.plan_batch(IMPLEMENTATION, DEPLOYER, &[]).unwrap();
    assert_eq!(empty.count, 0);
    assert_eq!(empty.dispatch, Dispatch { threads_per_group: 0, thread_groups: 0 });
}

#[test]
fn batch_plan_errors_come_in_order() {
    let compute = MetalCompute::new(ChainFormat::Evm, 2, 1024).unwrap();
    let three: Vec<String> = vec!["a".repeat(40), "b".to_string(), "c".to_string()];
    match compute.plan_batch("bad", DEPLOYER, &three) {
        Err(Create2Error::GpuError(text)) => assert_eq!(text, "Batch exceeds the batch size"),
        _ => panic!("three salts do not fit"),
    }
    assert!(matches!(
        compute.plan_batch("bad", DEPLOYER, &three[..2]),
        Err(Create2Error::InvalidAddress(_))
    ));
    assert!(matches!(
        compute.plan_batch(IMPLEMENTATION, DEPLOYER, &three[..2]),
        Err(Create2Error::InvalidSalt(_))
    ));
    assert!(compute.plan_batch(IMPLEMENTATION, DEPLOYER, &three[1..]).is_ok());
}

#[test]
fn random_batch_plan_carries_the_seed() {
    let compute = MetalCompute::new(ChainFormat::Tron, 262_144, 1024).unwrap();
    let plan = compute
        .plan_random_batch(TRON_IMPLEMENTATION, TRON_DEPLOYER, 262_144, 0x0102_0304)
        .unwrap();
    assert_eq!(plan.count, 262_144);
    assert!(plan.salts.is_empty());
    assert_eq!(plan.params.len(), 96);
    assert_eq!(&plan.params[88..96], &[4, 3, 2, 1, 1, 0, 0, 0]);
    assert_eq!(plan.dispatch, Dispatch { threads_per_group: 1024, thread_groups: 64 });
    assert!(matches!(
        compute.plan_random_batch(TRON_IMPLEMENTATION, TRON_DEPLOYER, 262_145, 1),
        Err(Create2Error::GpuError(_))
    ));
    let evm = MetalCompute::new(ChainFormat::Evm, 16, 1024).unwrap();
    let plan = evm.plan_random_batch(IMPLEMENTATION, DEPLOYER, 16, 7).unwrap();
    assert_eq!(plan.params.len(), 96);
    assert_eq!(&plan.params[80..96], &[16, 0, 0, 0, 4, 0, 0, 0, 7, 0, 0, 0, 1, 0, 0, 0]);
}

#[test]
fn accelerator_plans_as_its_instance() {
    let compute = MetalCompute::new(ChainFormat::Tron, 64, 1024).unwrap();
    let accelerator = GpuAccelerator::new(compute);
    assert_eq!(accelerator.batch_size(), 64);
    let plan = accelerator.plan_random_batch(TRON_IMPLEMENTATION, TRON_DEPLOYER, 64).unwrap();
    assert_eq!(plan.count, 64);
    assert_eq!(&plan.params[92..96], &[1, 0, 0, 0]);
    let salts = vec!["tron-network-salt".to_string()];
    let plan = accelerator.plan_batch(TRON_IMPLEMENTATION, TRON_DEPLOYER, &salts).unwrap();
    assert_eq!(&plan.params[88..96], &[0, 0, 0, 0, 0, 0, 0, 0]);
    assert_eq!(plan.salts.len(), 32);
    let results = tron_record(b"TQGeReoGywayLjiFDedvJTrxAALh7uZnqH", 0, 34);
    let pairs = accelerator.read_batch(&results, 1).unwrap();
    assert_eq!(pairs, vec![("TQGeReoGywayLjiFDedvJTrxAALh7uZnqH".to_string(), 0)]);
    assert_eq!(take_addresses(pairs), vec!["TQGeReoGywayLjiFDedvJTrxAALh7uZnqH".to_string()]);
}

#[test]
fn predictor_without_device_says_so() {
    let failed = Err(setup_error(SetupStage::Device, ""));
    let predictor = Create2Predictor::new(ChainFormat::Evm, true, failed);
    assert!(!predictor.is_gpu_enabled());
    let salts = vec!["test-salt-test".to_string()];
    assert!(matches!(
        predictor.begin_batch_with_salt(IMPLEMENTATION, DEPLOYER, &salts),
        Err(Create2Error::GpuUnavailable)
    ));
    assert!(matches!(
        predictor.begin_batch_address(IMPLEMENTATION, DEPLOYER, 4),
        Err(Create2Error::GpuUnavailable)
    ));
    assert!(matches!(predictor.finish_batch(&[], 0), Err(Create2Error::GpuUnavailable)));
    assert_eq!(predictor.next_chunk(0, 10), None);
    let compute = MetalCompute::new(ChainFormat::Evm, 16, 1024).unwrap();
    let unused = Create2Predictor::new(ChainFormat::Evm, false, Ok(GpuAccelerator::new(compute)));
    assert!(!unused.is_gpu_enabled());
}

#[test]
fn tron_predictor_without_device_computes_here() {
    let failed = Err(setup_error(SetupStage::Device, ""));
    let predictor = Create2Predictor::new(ChainFormat::Tron, true, failed);
    let salts = vec!["tron-network-salt".to_string(), "other".to_string()];
    match predictor.begin_batch_with_salt(TRON_IMPLEMENTATION, TRON_DEPLOYER, &salts) {
        Ok(BatchStep::Done(addresses)) => {
            assert_eq!(addresses.len(), 2);
            assert_eq!(addresses[0], "TQGeReoGywayLjiFDedvJTrxAALh7uZnqH");
            assert_eq!(
                addresses[1],
                predict_tron_address(TRON_IMPLEMENTATION, TRON_DEPLOYER, "other").unwrap()
            );
        }
        _ => panic!("without a device the addresses are computed here"),
    }
    assert!(matches!(
        predictor.begin_batch_address(TRON_IMPLEMENTATION, TRON_DEPLOYER, 4),
        Err(Create2Error::GpuUnavailable)
    ));
}

#[test]
fn predictor_with_device_plans_and_reads() {
    let compute = MetalCompute::new(ChainFormat::Evm, 4, 1024).unwrap();
    let predictor = Create2Predictor::new(ChainFormat::Evm, true, Ok(GpuAccelerator::new(compute)));
    assert!(predictor.is_gpu_enabled());
    assert_eq!(predictor.next_chunk(0, 10), Some((0, 4)));
    assert_eq!(predictor.next_chunk(4, 10), Some((4, 8)));
    assert_eq!(predictor.next_chunk(8, 10), Some((8, 10)));
    assert_eq!(predictor.next_chunk(10, 10), None);
    let salts = vec!["test-salt-test".to_string()];
    match predictor.begin_batch_with_salt(IMPLEMENTATION, DEPLOYER, &salts) {
        Ok(BatchStep::Dispatch(plan)) => {
            assert_eq!(plan.count, 1);
            assert_eq!(&plan.salts[..14], b"test-salt-test");
        }
        _ => panic!("with a device the batch is dispatched"),
    }
    let results = evm_record("22FBFB2264B9Cd1ADe8ce5013012c817878D783C", 0);
    assert_eq!(
        predictor.finish_batch(&results, 1).unwrap(),
        vec!["0x22FBFB2264B9Cd1ADe8ce5013012c817878D783C".to_string()]
    );
    let plan = predictor.begin_batch_address(IMPLEMENTATION, DEPLOYER, 4).unwrap();
    assert_eq!(plan.count, 4);
    assert!(matches!(
        predictor.begin_batch_address(IMPLEMENTATION, DEPLOYER, 5),
        Err(Create2Error::GpuError(_))
    ));
}

#[test]
fn records_of_the_predicted_addresses_read_back_as_the_batch() {
    let salts: Vec<String> = (0..12).map(|i| format!("salt {}", i)).collect();
    let here = predict_salts(ChainFormat::Evm, IMPLEMENTATION, DEPLOYER, &salts).unwrap();
    let mut results = Vec::new();
    for (i, address) in here.iter().enumerate() {
        results.extend(evm_record(&address[2..], i as u32));
    }
    let compute = MetalCompute::new(ChainFormat::Evm, 16, 1024).unwrap();
    let predictor = Create2Predictor::new(ChainFormat::Evm, true, Ok(GpuAccelerator::new(compute)));
    assert_eq!(predictor.finish_batch(&results, 12).unwrap(), here);

    let here = predict_salts(ChainFormat::Tron, TRON_IMPLEMENTATION, TRON_DEPLOYER, &salts).unwrap();
    let mut results = Vec::new();
    for (i, address) in here.iter().enumerate() {
        results.extend(tron_record(address.as_bytes(), i as u32, address.len() as u32));
    }
    let compute = MetalCompute::new(ChainFormat::Tron, 16, 1024).unwrap();
    let predictor = Create2Predictor::new(ChainFormat::Tron, true, Ok(GpuAccelerator::new(compute)));
    assert_eq!(predictor.finish_batch(&results, 12).unwrap(), here);
}

#[test]
fn batches_cut_in_chunks_join_to_the_whole_batch() {
    let salts: Vec<String> = (0..10).map(|i| format!("salt {}", i)).collect();
    let here = predict_salts(ChainFormat::Evm, IMPLEMENTATION, DEPLOYER, &salts).unwrap();
    for batch_size in [1usize, 3, 4, 10, 16] {
        let compute = MetalCompute::new(ChainFormat::Evm, batch_size, 1024).unwrap();
        let predictor =
            Create2Predictor::new(ChainFormat::Evm, true, Ok(GpuAccelerator::new(compute)));
        let mut joined = Vec::new();
        let mut done = 0;
        while let Some((start, end)) = predictor.next_chunk(done, salts.len()) {
            assert_eq!(start, done);
            let plan = match predictor
                .begin_batch_with_salt(IMPLEMENTATION, DEPLOYER, &salts[start..end])
                .unwrap()
            {
                BatchStep::Dispatch(plan) => plan,
                BatchStep::Done(_) => panic!("with a device the batch is dispatched"),
            };
            assert_eq!(plan.count as usize, end - start);
            let mut results = Vec::new();
            for (i, address) in here[start..end].iter().enumerate() {
                results.extend(evm_record(&address[2..], i as u32));
            }
            joined.extend(predictor.finish_batch(&results, plan.count).unwrap());
            done = end;
        }
        assert_eq!(done, salts.len());
        assert_eq!(joined, here);
    }
}
