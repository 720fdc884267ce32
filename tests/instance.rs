use selene::emulator::{Emulator, EventHook, UserCall};
use selene::encoder::{F64Bits, OutputStream, OutputStreamError};
use selene::error_model::{BatchResult, ErrorModelInterface, PluginError};
use selene::instance::{
    bounded_sample, exit_tag_bytes, filename_slug, InstanceConfig, InstanceError, SeleneInstance,
};
use selene::operation::BatchOperation;
use selene::runtime::SimpleRuntime;
use selene::time::Instant;
use selene::utils::{Metric, MetricValue};

struct Quiet {
    seeds: Vec<(u64, u64, u64)>,
}

impl ErrorModelInterface for Quiet {
    fn exit(&mut self) -> Result<(), PluginError> {
        Ok(())
    }
    fn shot_start(&mut self, a: u64, b: u64, c: u64) -> Result<(), PluginError> {
        self.seeds.push((a, b, c));
        Ok(())
    }
    fn shot_end(&mut self) -> Result<(), PluginError> {
        Ok(())
    }
    fn dump_simulator_state(&mut self, _file: &str, _qubits: &[u64]) -> Result<(), PluginError> {
        Ok(())
    }
    fn handle_operations(&mut self, _ops: BatchOperation) -> Result<BatchResult, PluginError> {
        Ok(BatchResult::new())
    }
    fn get_metric(&mut self, n: u8) -> Result<Option<Metric>, PluginError> {
        if n == 0 {
            Ok(Some(Metric { tag: b"flips".to_vec(), value: MetricValue::U64(3) }))
        } else {
            Ok(None)
        }
    }
    fn get_simulator_metric(&mut self, _n: u8) -> Result<Option<Metric>, PluginError> {
        Ok(None)
    }
}

struct NoHook;

impl EventHook for NoHook {
    fn on_user_call(&mut self, _call: &UserCall) {}
    fn on_runtime_batch(&mut self, _batch: &BatchOperation) {}
    fn on_shot_start(&mut self, _shot_id: u64) {}
    fn on_shot_end(&mut self) {}
    fn write(&mut self, _t: u64, _e: &mut OutputStream) -> Result<(), OutputStreamError> {
        Ok(())
    }
}

fn config(provide_metrics: bool) -> InstanceConfig {
    InstanceConfig {
        n_qubits: 2,
        shot_offset: 10,
        shot_increment: 3,
        runtime_seed: 100,
        error_model_seed: 200,
        simulator_seed: 300,
        provide_metrics,
    }
}

fn instance(provide_metrics: bool) -> SeleneInstance<Quiet, NoHook> {
    let em = Emulator {
        runtime: SimpleRuntime::new(2, Instant(0)),
        error_model: Quiet { seeds: Vec::new() },
        event_hooks: NoHook,
    };
    SeleneInstance::new(config(provide_metrics), em)
}

fn string_value(s: &[u8]) -> Vec<u8> {
    let mut v = vec![3, 0];
    v.extend_from_slice(&(s.len() as u16).to_le_bytes());
    v.extend_from_slice(s);
    v
}

#[test]
fn shot_ids_and_seeds() {
    let mut inst = instance(false);
    assert_eq!(inst.shot_number, 10);
    inst.shot_start(2).unwrap();
    assert_eq!(inst.shot_number, 16);
    assert_eq!(inst.emulator.error_model.seeds, vec![(16, 216, 316)]);
    inst.shot_end().unwrap();
    let out = inst.out_encoder.flush();
    let mut expected = vec![0u8; 8];
    expected.extend(string_value(b"USER:__SHOT_BOUNDARY__"));
    expected.extend_from_slice(&[1, 0, 0, 0]);
    expected.extend_from_slice(&0u64.to_le_bytes());
    expected.extend_from_slice(&[0, 0, 0, 0]);
    assert_eq!(out, expected);
}

#[test]
fn metrics_written_at_shot_end() {
    let mut inst = instance(true);
    inst.shot_start(0).unwrap();
    inst.shot_end().unwrap();
    let out = inst.out_encoder.flush();
    let tag = b"METRICS:INT:emulator:shot_number";
    let mut first = vec![0u8; 8];
    first.extend(string_value(tag));
    first.extend_from_slice(&[1, 0, 0, 0]);
    first.extend_from_slice(&10u64.to_le_bytes());
    first.extend_from_slice(&[0, 0, 0, 0]);
    assert_eq!(&out[..first.len()], &first[..]);
    let rest = &out[first.len()..];
    let second = string_value(b"METRICS:INT:error_model:flips");
    assert_eq!(&rest[8..8 + second.len()], &second[..]);
}

#[test]
fn write_metric_type_names() {
    let mut inst = instance(false);
    inst.write_metric(b"c", b"t", MetricValue::Bool(true)).unwrap();
    inst.write_metric(b"c", b"t", MetricValue::F64(F64Bits(0))).unwrap();
    let out = inst.out_encoder.flush();
    let mut expected = vec![0u8; 8];
    expected.extend(string_value(b"METRICS:BOOL:c:t"));
    expected.extend_from_slice(&[4, 0, 0, 0, 1, 0, 0, 0, 0]);
    expected.extend(vec![0u8; 8]);
    expected.extend(string_value(b"METRICS:FLOAT:c:t"));
    expected.extend_from_slice(&[2, 0, 0, 0]);
    expected.extend(vec![0u8; 8]);
    expected.extend_from_slice(&[0, 0, 0, 0]);
    assert_eq!(out, expected);
}

#[test]
fn exit_tags() {
    assert_eq!(exit_tag_bytes(b"boom"), b"EXIT:INT:boom".to_vec());
    assert_eq!(exit_tag_bytes(b"EXIT:INT:done"), b"EXIT:INT:done".to_vec());
    assert_eq!(exit_tag_bytes(b"EXIT:IN"), b"EXIT:INT:EXIT:IN".to_vec());
    let mut inst = instance(false);
    inst.time_cursor = 5;
    inst.print_panic("oops", 7).unwrap();
    inst.print_exit("EXIT:INT:bye", 0).unwrap();
    let out = inst.out_encoder.flush();
    let mut expected = 5u64.to_le_bytes().to_vec();
    expected.extend(string_value(b"EXIT:INT:oops"));
    expected.extend_from_slice(&[1, 0, 0, 0]);
    expected.extend_from_slice(&7u64.to_le_bytes());
    expected.extend_from_slice(&[0, 0, 0, 0]);
    expected.extend_from_slice(&5u64.to_le_bytes());
    expected.extend(string_value(b"EXIT:INT:bye"));
    expected.extend_from_slice(&[1, 0, 0, 0]);
    expected.extend_from_slice(&0u64.to_le_bytes());
    expected.extend_from_slice(&[0, 0, 0, 0]);
    assert_eq!(out, expected);
    inst.exit();
    assert_eq!(inst.out_encoder.flush(), vec![0xFF; 8]);
}

#[test]
fn print_tagged_value() {
    let mut inst = instance(false);
    inst.print("X", 7u64).unwrap();
    let out = inst.out_encoder.flush();
    let mut expected = vec![0u8; 8];
    expected.extend(string_value(b"X"));
    expected.extend_from_slice(&[1, 0, 0, 0]);
    expected.extend_from_slice(&7u64.to_le_bytes());
    expected.extend_from_slice(&[0, 0, 0, 0]);
    assert_eq!(out, expected);
    assert!(inst.print("bad\0", 1u64).is_err());
}

#[test]
fn slugs() {
    assert_eq!(filename_slug("__my state: 1!__"), b"my_state__1".to_vec());
    assert_eq!(filename_slug("é-x"), b"x".to_vec());
    assert_eq!(filename_slug("a é b"), b"a___b".to_vec());
    assert_eq!(filename_slug("___"), Vec::<u8>::new());
}

#[test]
fn bounded_sampling() {
    // 2^32 mod 3 == 1: draw 0 is rejected, the rest reduce mod 3
    assert_eq!(bounded_sample(0, 3), None);
    assert_eq!(bounded_sample(1, 3), Some(1));
    assert_eq!(bounded_sample(u32::MAX, 3), Some(0));
    assert_eq!(bounded_sample(0, 1), Some(0));
    assert_eq!(bounded_sample(12345, 1 << 31), Some(12345));
}

#[test]
fn random_stream() {
    let mut inst = instance(false);
    assert!(matches!(inst.random_u32(), Err(InstanceError::PrngNotSeeded)));
    assert!(matches!(inst.random_advance(1), Err(InstanceError::PrngNotSeeded)));
    assert!(matches!(inst.random_u32_bounded(3), Err(InstanceError::PrngNotSeeded)));
    inst.random_seed(7);
    let a = inst.random_u32().unwrap();
    let b = inst.random_u32().unwrap();
    inst.random_seed(7);
    assert_eq!(inst.random_u32().unwrap(), a);
    inst.random_seed(7);
    inst.random_advance(1).unwrap();
    assert_eq!(inst.random_u32().unwrap(), b);
    for _ in 0..100 {
        assert!(inst.random_u32_bounded(6).unwrap() < 6);
    }
    assert!(matches!(inst.random_u32_bounded(0), Err(InstanceError::ZeroBound)));
}

#[test]
fn dump_state_message() {
    let mut inst = instance(false);
    inst.dump_state("m", "/tmp/m_1.state", &[0]).unwrap();
    let out = inst.out_encoder.flush();
    let mut expected = vec![0u8; 8];
    expected.extend(string_value(b"m"));
    expected.extend(string_value(b"/tmp/m_1.state"));
    expected.extend_from_slice(&[0, 0, 0, 0]);
    assert_eq!(out, expected);
}
