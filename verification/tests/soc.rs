use apple_silicon::command::decode_output;
use apple_silicon::command::FixedOutput;
use apple_silicon::command::SystemCommand;
use apple_silicon::error::Error;
use apple_silicon::soc::cpu_info;
use apple_silicon::soc::gpu_info;
use apple_silicon::soc::SocInfo;

struct MockCommand {
    output: Vec<u8>,
}

impl MockCommand {
    fn new(output: &str) -> Self {
        Self {
            output: output.as_bytes().to_vec(),
        }
    }
}

impl SystemCommand for MockCommand {
    fn execute(&self, _binary: &str, _args: &[&str]) -> Result<Vec<u8>, Error> {
        Ok(self.output.clone())
    }
}

#[test]
fn test_gpu_info() {
    let mock_output = r#"Graphics/Displays:
            Apple M2:
              Total Number of Cores: 10"#;
    let cmd = MockCommand::new(mock_output);

    let result = gpu_info(&cmd);
    assert_eq!(result.unwrap(), 10);
}

#[test]
fn test_cpu_info_success() {
    let mock_output = "Apple M2\n8\n4\n4\n";
    let cmd = MockCommand::new(mock_output);

    let result = cpu_info(&cmd);
    assert!(result.is_ok());
    let (brand, cores, p_cores, e_cores) = result.unwrap();
    assert_eq!(brand, "Apple M2");
    assert_eq!(cores, 8);
    assert_eq!(p_cores, 4);
    assert_eq!(e_cores, 4);
}

#[test]
fn test_cpu_info_missing_core_count() {
    let mock_output = "Apple M2\n";
    let cmd = MockCommand::new(mock_output);

    let result = cpu_info(&cmd);
    assert!(matches!(result, Err(Error::ParseInt { .. })));
}

#[test]
fn test_cpu_info_invalid_core_count() {
    let mock_output = "Apple M2\ninvalid\n";
    let cmd = MockCommand::new(mock_output);

    let result = cpu_info(&cmd);
    assert!(matches!(result, Err(Error::ParseInt { .. })));
}

struct Scripted {
    cpu: Result<Vec<u8>, std::io::ErrorKind>,
    gpu: Result<Vec<u8>, std::io::ErrorKind>,
    calls: std::cell::RefCell<Vec<(String, Vec<String>)>>,
}

impl Scripted {
    fn new(cpu: &str, gpu: &str) -> Self {
        Scripted {
            cpu: Ok(cpu.as_bytes().to_vec()),
            gpu: Ok(gpu.as_bytes().to_vec()),
            calls: std::cell::RefCell::new(Vec::new()),
        }
    }
}

impl SystemCommand for Scripted {
    fn execute(&self, binary: &str, args: &[&str]) -> Result<Vec<u8>, Error> {
        self.calls
            .borrow_mut()
            .push((binary.to_string(), args.iter().map(|a| a.to_string()).collect()));
        let script = if binary.ends_with("sysctl") { &self.cpu } else { &self.gpu };
        match script {
            Ok(bytes) => Ok(bytes.clone()),
            Err(kind) => Err(Error::from(std::io::Error::from(*kind))),
        }
    }
}

const CPU_M1_PRO: &str = "Apple M1 Pro\n10\n8\n2\n";
const GPU_16: &str = "Graphics/Displays:\n\n    Apple M1 Pro:\n\n      Chipset Model: Apple M1 Pro\n      Type: GPU\n      Total Number of Cores: 16\n      Vendor: Apple (0x106b)\n";

fn fields(info: &SocInfo) -> (String, u16, u16, Option<u32>, Option<u32>, Option<u32>, Option<u32>, u16, u16) {
    (
        info.cpu_brand_name.clone(),
        info.num_cpu_cores,
        info.num_gpu_cores,
        info.cpu_max_power,
        info.gpu_max_power,
        info.cpu_max_bw,
        info.gpu_max_bw,
        info.e_core_count,
        info.p_core_count,
    )
}

#[test]
fn new_makes_the_record() {
    let cmd = Scripted::new(CPU_M1_PRO, GPU_16);
    let info = SocInfo::new(&cmd).unwrap();
    assert_eq!(info.cpu_brand_name, "Apple M1 Pro");
    assert_eq!(info.num_cpu_cores, 10);
    assert_eq!(info.num_gpu_cores, 16);
    assert_eq!(info.p_core_count, 8);
    assert_eq!(info.e_core_count, 2);
    assert_eq!(info.cpu_max_power, Some(30));
    assert_eq!(info.gpu_max_power, Some(30));
    assert_eq!(info.cpu_max_bw, Some(200));
    assert_eq!(info.gpu_max_bw, Some(200));
}

#[test]
fn new_runs_the_two_queries_in_order() {
    let cmd = Scripted::new(CPU_M1_PRO, GPU_16);
    SocInfo::new(&cmd).unwrap();
    let calls = cmd.calls.borrow();
    assert_eq!(calls.len(), 2);
    assert_eq!(calls[0].0, "/usr/sbin/sysctl");
    assert_eq!(
        calls[0].1,
        vec![
            "-n",
            "machdep.cpu.brand_string",
            "machdep.cpu.core_count",
            "hw.perflevel0.logicalcpu",
            "hw.perflevel1.logicalcpu",
        ]
    );
    assert_eq!(calls[1].0, "/usr/sbin/system_profiler");
    assert_eq!(calls[1].1, vec!["-detailLevel", "basic", "SPDisplaysDataType"]);
}

#[test]
fn new_stops_at_the_first_failure() {
    let cmd = Scripted::new("Apple M1 Pro\nten\n8\n2\n", GPU_16);
    assert!(matches!(SocInfo::new(&cmd), Err(Error::ParseInt { .. })));
    assert_eq!(cmd.calls.borrow().len(), 1);

    let cmd = Scripted::new(CPU_M1_PRO, "no such line\n");
    match SocInfo::new(&cmd) {
        Err(Error::Parse(text)) => assert_eq!(text, "no such line\n"),
        other => panic!("gave {:?}", other),
    }
    assert_eq!(cmd.calls.borrow().len(), 2);
}

#[test]
fn new_hands_on_the_error_of_a_run() {
    let mut cmd = Scripted::new(CPU_M1_PRO, GPU_16);
    cmd.cpu = Err(std::io::ErrorKind::NotFound);
    match SocInfo::new(&cmd) {
        Err(Error::Io { source }) => assert_eq!(source.kind(), std::io::ErrorKind::NotFound),
        other => panic!("gave {:?}", other),
    }
    assert_eq!(cmd.calls.borrow().len(), 1);

    let mut cmd = Scripted::new(CPU_M1_PRO, GPU_16);
    cmd.gpu = Err(std::io::ErrorKind::PermissionDenied);
    match SocInfo::new(&cmd) {
        Err(Error::Io { source }) => {
            assert_eq!(source.kind(), std::io::ErrorKind::PermissionDenied)
        }
        other => panic!("gave {:?}", other),
    }
}

#[test]
fn new_twice_gives_the_same_record() {
    let cmd = Scripted::new(CPU_M1_PRO, GPU_16);
    let first = SocInfo::new(&cmd).unwrap();
    let second = SocInfo::new(&cmd).unwrap();
    assert_eq!(fields(&first), fields(&second));
}

#[test]
fn from_outputs_twice_gives_the_same_record() {
    let first = SocInfo::from_outputs(CPU_M1_PRO.as_bytes().to_vec(), GPU_16.as_bytes().to_vec());
    let second = SocInfo::from_outputs(CPU_M1_PRO.as_bytes().to_vec(), GPU_16.as_bytes().to_vec());
    assert_eq!(fields(&first.unwrap()), fields(&second.unwrap()));
}

#[test]
fn from_outputs_agrees_with_new() {
    let cmd = Scripted::new(CPU_M1_PRO, GPU_16);
    let a = SocInfo::new(&cmd).unwrap();
    let b = SocInfo::from_outputs(CPU_M1_PRO.as_bytes().to_vec(), GPU_16.as_bytes().to_vec())
        .unwrap();
    assert_eq!(fields(&a), fields(&b));
}

#[test]
fn from_outputs_reports_the_cpu_failure_first() {
    let r = SocInfo::from_outputs(b"Apple M2".to_vec(), b"nothing".to_vec());
    match r {
        Err(Error::Parse(text)) => assert_eq!(text, "Apple M2"),
        other => panic!("gave {:?}", other),
    }
    let r = SocInfo::from_outputs(vec![0xFF], b"Total Number of Cores: 8".to_vec());
    assert!(matches!(r, Err(Error::Utf8Conversion { .. })));
    let r = SocInfo::from_outputs(b"Apple M2\n8\n4\n4\n".to_vec(), vec![0xFF]);
    assert!(matches!(r, Err(Error::Utf8Conversion { .. })));
}

#[test]
fn assemble_unknown_chip_has_zeros() {
    let info = SocInfo::assemble("Some CPU".to_string(), 4, 2, 2, 0);
    assert_eq!(
        fields(&info),
        ("Some CPU".to_string(), 4, 0, Some(0), Some(0), Some(0), Some(0), 2, 2)
    );
}

#[test]
fn assemble_keeps_performance_and_efficiency_apart() {
    let info = SocInfo::assemble("Apple M1".to_string(), 8, 5, 3, 7);
    assert_eq!(info.p_core_count, 5);
    assert_eq!(info.e_core_count, 3);
    assert_eq!(info.num_cpu_cores, 8);
    assert_eq!(info.num_gpu_cores, 7);
    assert_eq!(info.cpu_max_power, Some(20));
    assert_eq!(info.gpu_max_power, Some(20));
    assert_eq!(info.cpu_max_bw, Some(70));
    assert_eq!(info.gpu_max_bw, Some(70));
}

#[test]
fn gpu_info_without_the_line_is_a_parse_error() {
    let cmd = MockCommand::new("Graphics/Displays:\n    Apple M2:\n");
    assert!(matches!(gpu_info(&cmd), Err(Error::Parse(_))));
}

#[test]
fn cpu_info_of_bytes_that_are_not_text() {
    let cmd = MockCommand { output: vec![b'A', 0xFF, b'\n'] };
    assert!(matches!(cpu_info(&cmd), Err(Error::Utf8Conversion { .. })));
}

#[test]
fn errors_are_made_from_their_sources() {
    let e = Error::from(std::io::Error::from(std::io::ErrorKind::NotFound));
    assert!(matches!(e, Error::Io { .. }));
    let e = Error::from(String::from_utf8(vec![0xFF]).unwrap_err());
    assert!(matches!(e, Error::Utf8Conversion { .. }));
    let e = Error::from(apple_silicon::error::ParseIntError {
        kind: apple_silicon::error::IntErrorKind::Empty,
    });
    assert!(matches!(e, Error::ParseInt { .. }));
}

#[test]
fn fixed_output_answers_every_call_alike() {
    let cmd = FixedOutput { output: b"Apple M2\n8\n4\n4\n".to_vec() };
    let a = cmd.execute("/usr/sbin/sysctl", &["-n"]).unwrap();
    let b = cmd.execute("/usr/sbin/system_profiler", &[]).unwrap();
    assert_eq!(a, b"Apple M2\n8\n4\n4\n".to_vec());
    assert_eq!(a, b);
}

#[test]
fn new_with_fixed_output_reads_it_as_both_reports() {
    let text = "Apple M2\n8\n4\n4\n  Total Number of Cores: 10\n";
    let cmd = FixedOutput { output: text.as_bytes().to_vec() };
    let first = SocInfo::new(&cmd).unwrap();
    assert_eq!(
        fields(&first),
        ("Apple M2".to_string(), 8, 10, Some(25), Some(15), Some(100), Some(100), 4, 4)
    );
    let second = SocInfo::new(&cmd).unwrap();
    assert_eq!(fields(&first), fields(&second));
    let third =
        SocInfo::from_outputs(text.as_bytes().to_vec(), text.as_bytes().to_vec()).unwrap();
    assert_eq!(fields(&first), fields(&third));
}

#[test]
fn new_with_fixed_output_fails_alike() {
    let cmd = FixedOutput { output: b"Apple M2\n8\n4\n4\n".to_vec() };
    for _ in 0..2 {
        match SocInfo::new(&cmd) {
            Err(Error::Parse(text)) => assert_eq!(text, "Apple M2\n8\n4\n4\n"),
            other => panic!("gave {:?}", other),
        }
    }
}

#[test]
fn decode_output_gives_the_text() {
    assert_eq!(decode_output(Vec::new()).unwrap(), "");
    assert_eq!(decode_output("Apple M2 é€😀\n".as_bytes().to_vec()).unwrap(), "Apple M2 é€😀\n");
    assert_eq!(decode_output(vec![0xE2, 0x82, 0xAC]).unwrap(), "€");
}

#[test]
fn decode_output_rejects_malformed_bytes() {
    for bytes in [vec![0x80], vec![0xE2, 0x82], vec![0xF5, 0x80, 0x80, 0x80], vec![b'a', 0xC0, 0xAF]] {
        assert!(matches!(decode_output(bytes), Err(Error::Utf8Conversion { .. })));
    }
}
