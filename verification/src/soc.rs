//! The record of a system-on-chip, and the pipeline that fills it.

use crate::chip::classify;
use crate::chip::specs_of;
use crate::chip::AppleChip;
use crate::chip::Bandwidth;
use crate::chip::Watts;
use crate::command::args_view;
use crate::command::output_view;
use crate::command::FixedOutput;
use crate::command::SystemCommand;
use crate::cpu::count_view;
use crate::cpu::cpu_report;
use crate::cpu::cpu_view;
use crate::cpu::lemma_brand_is_not_empty;
use crate::cpu::parse_cpu_info;
use crate::cpu::CoreCount;
use crate::cpu::CpuFields;
use crate::error::Error;
use crate::error::Failure;
use crate::gpu::gpu_report;
use crate::gpu::parse_gpu_info;
use vstd::prelude::*;

verus! {

/// Information about the chip.
#[derive(Debug)]
pub struct SocInfo {
    /// The CPU brand name.
    pub cpu_brand_name: String,
    /// Number of CPU cores.
    pub num_cpu_cores: CoreCount,
    /// Number of GPU cores.
    pub num_gpu_cores: CoreCount,
    /// Maximum CPU power in watts, where known.
    pub cpu_max_power: Option<Watts>,
    /// Maximum GPU power in watts, where known.
    pub gpu_max_power: Option<Watts>,
    /// Maximum CPU bandwidth in GB/s, where known.
    pub cpu_max_bw: Option<Bandwidth>,
    /// Maximum GPU bandwidth in GB/s, where known.
    pub gpu_max_bw: Option<Bandwidth>,
    /// Number of efficiency cores.
    pub e_core_count: CoreCount,
    /// Number of performance cores.
    pub p_core_count: CoreCount,
}

/// A [`SocInfo`] as a mathematical value.
pub struct SocRecord {
    pub cpu_brand_name: Seq<char>,
    pub num_cpu_cores: CoreCount,
    pub num_gpu_cores: CoreCount,
    pub cpu_max_power: Option<Watts>,
    pub gpu_max_power: Option<Watts>,
    pub cpu_max_bw: Option<Bandwidth>,
    pub gpu_max_bw: Option<Bandwidth>,
    pub e_core_count: CoreCount,
    pub p_core_count: CoreCount,
}

impl View for SocInfo {
    type V = SocRecord;

    open spec fn view(&self) -> SocRecord {
        SocRecord {
            cpu_brand_name: self.cpu_brand_name@,
            num_cpu_cores: self.num_cpu_cores,
            num_gpu_cores: self.num_gpu_cores,
            cpu_max_power: self.cpu_max_power,
            gpu_max_power: self.gpu_max_power,
            cpu_max_bw: self.cpu_max_bw,
            gpu_max_bw: self.gpu_max_bw,
            e_core_count: self.e_core_count,
            p_core_count: self.p_core_count,
        }
    }
}

/// The record that goes with the fields of a CPU report and a number of GPU
/// cores: the counts as read, and the nominal figures of the chip that the
/// brand name names.
pub open spec fn record_of(cpu: CpuFields, gpu: CoreCount) -> SocRecord {
    let specs = specs_of(classify(cpu.0));
    SocRecord {
        cpu_brand_name: cpu.0,
        num_cpu_cores: cpu.1,
        num_gpu_cores: gpu,
        cpu_max_power: Some(specs.cpu_tdp),
        gpu_max_power: Some(specs.gpu_tdp),
        cpu_max_bw: Some(specs.cpu_bw),
        gpu_max_bw: Some(specs.gpu_bw),
        e_core_count: cpu.3,
        p_core_count: cpu.2,
    }
}

/// What the pipeline gives for the outcomes of its two readings: the first
/// failure, the CPU report's before the display report's, or the record.
pub open spec fn soc_info_of(cpu: Result<CpuFields, Failure>, gpu: Result<CoreCount, Failure>) -> Result<
    SocRecord,
    Failure,
> {
    match cpu {
        Err(e) => Err(e),
        Ok(fields) => match gpu {
            Err(e) => Err(e),
            Ok(cores) => Ok(record_of(fields, cores)),
        },
    }
}

/// The result of the pipeline, as a mathematical value.
pub open spec fn soc_view(r: Result<SocInfo, Error>) -> Result<SocRecord, Failure> {
    match r {
        Ok(info) => Ok(info@),
        Err(e) => Err(e@),
    }
}

/// Path of the program that reports on the CPU.
pub open spec fn sysctl_path() -> Seq<char> {
    "/usr/sbin/sysctl"@
}

/// Arguments of the CPU query: values only, then the brand name, the number
/// of cores, and the numbers of performance and of efficiency cores.
pub open spec fn sysctl_args() -> Seq<Seq<char>> {
    seq![
        "-n"@,
        "machdep.cpu.brand_string"@,
        "machdep.cpu.core_count"@,
        "hw.perflevel0.logicalcpu"@,
        "hw.perflevel1.logicalcpu"@,
    ]
}

/// Path of the program that reports on the displays.
pub open spec fn profiler_path() -> Seq<char> {
    "/usr/sbin/system_profiler"@
}

/// Arguments of the display query, in basic detail.
pub open spec fn profiler_args() -> Seq<Seq<char>> {
    seq!["-detailLevel"@, "basic"@, "SPDisplaysDataType"@]
}

/// What the CPU reading makes of a run's outcome: a run that failed fails
/// the reading with the same error, and output is read as a CPU report.
pub open spec fn cpu_outcome(run: Result<Seq<u8>, Failure>) -> Result<CpuFields, Failure> {
    match run {
        Ok(output) => cpu_report(output),
        Err(e) => Err(e),
    }
}

/// What the display reading makes of a run's outcome: a run that failed
/// fails the reading with the same error, and output is read as a display
/// report.
pub open spec fn gpu_outcome(run: Result<Seq<u8>, Failure>) -> Result<CoreCount, Failure> {
    match run {
        Ok(output) => gpu_report(output),
        Err(e) => Err(e),
    }
}

/// The runs `cpu` and `gpu` account for `result`: `cmd` can answer the CPU
/// query with `cpu`; if that report can be read, it can answer the display
/// query with `gpu`; and `result` is what the pipeline makes of the two.
pub open spec fn accounts_for<C: SystemCommand>(
    cmd: &C,
    cpu: Result<Seq<u8>, Failure>,
    gpu: Result<Seq<u8>, Failure>,
    result: Result<SocRecord, Failure>,
) -> bool {
    &&& cmd.may_give(sysctl_path(), sysctl_args(), cpu)
    &&& cpu_outcome(cpu) is Ok ==> cmd.may_give(profiler_path(), profiler_args(), gpu)
    &&& result == soc_info_of(cpu_outcome(cpu), gpu_outcome(gpu))
}

/// `result` is what the pipeline can give with `cmd`: the CPU query is run,
/// then, if its report can be read, the display query, and `result` is made
/// of the two outcomes.
pub open spec fn is_run_of<C: SystemCommand>(cmd: &C, result: Result<SocRecord, Failure>) -> bool {
    exists|cpu: Result<Seq<u8>, Failure>, gpu: Result<Seq<u8>, Failure>|
        accounts_for(cmd, cpu, gpu, result)
}

/// `cmd` answers each call in one way only, as one that returns fixed
/// output does.
pub open spec fn answers_alike<C: SystemCommand>(cmd: &C) -> bool {
    forall|
        binary: Seq<char>,
        args: Seq<Seq<char>>,
        first: Result<Seq<u8>, Failure>,
        second: Result<Seq<u8>, Failure>,
    |
        #![trigger cmd.may_give(binary, args, first), cmd.may_give(binary, args, second)]
        cmd.may_give(binary, args, first) && cmd.may_give(binary, args, second) ==> first
            == second
}

/// Two runs of the pipeline with a command that answers each call in one
/// way only give the same result: the same record, or the same failure.
pub proof fn lemma_runs_agree<C: SystemCommand>(
    cmd: &C,
    first: Result<SocRecord, Failure>,
    second: Result<SocRecord, Failure>,
)
    requires
        answers_alike(cmd),
        is_run_of(cmd, first),
        is_run_of(cmd, second),
    ensures
        first == second,
{
    let (cpu1, gpu1) = choose|cpu: Result<Seq<u8>, Failure>, gpu: Result<Seq<u8>, Failure>|
        accounts_for(cmd, cpu, gpu, first);
    let (cpu2, gpu2) = choose|cpu: Result<Seq<u8>, Failure>, gpu: Result<Seq<u8>, Failure>|
        accounts_for(cmd, cpu, gpu, second);
    assert(cpu1 == cpu2);
    if cpu_outcome(cpu1) is Ok {
        assert(gpu1 == gpu2);
    }
}

/// Every record that the pipeline makes has a brand name that is not empty,
/// and holds the nominal figures of the chip that this name names.
pub proof fn lemma_run_makes_whole_record<C: SystemCommand>(
    cmd: &C,
    result: Result<SocRecord, Failure>,
)
    requires
        is_run_of(cmd, result),
    ensures
        result matches Ok(record) ==> {
            &&& record.cpu_brand_name.len() > 0
            &&& record.cpu_max_power == Some(specs_of(classify(record.cpu_brand_name)).cpu_tdp)
            &&& record.gpu_max_power == Some(specs_of(classify(record.cpu_brand_name)).gpu_tdp)
            &&& record.cpu_max_bw == Some(specs_of(classify(record.cpu_brand_name)).cpu_bw)
            &&& record.gpu_max_bw == Some(specs_of(classify(record.cpu_brand_name)).gpu_bw)
        },
{
    let (cpu, gpu) = choose|cpu: Result<Seq<u8>, Failure>, gpu: Result<Seq<u8>, Failure>|
        accounts_for(cmd, cpu, gpu, result);
    if let Ok(output) = cpu {
        if vstd::utf8::valid_utf8(output) {
            lemma_brand_is_not_empty(vstd::utf8::decode_utf8(output));
        }
    }
}

/// With a command that answers every call with the same bytes, the pipeline
/// reads those bytes as both reports, and every run gives the same result.
pub proof fn lemma_fixed_output_run(cmd: &FixedOutput, result: Result<SocRecord, Failure>)
    requires
        is_run_of(cmd, result),
    ensures
        answers_alike(cmd),
        result == soc_info_of(cpu_report(cmd.output@), gpu_report(cmd.output@)),
{
    let (cpu, gpu) = choose|cpu: Result<Seq<u8>, Failure>, gpu: Result<Seq<u8>, Failure>|
        accounts_for(cmd, cpu, gpu, result);
    assert(cpu == Ok::<Seq<u8>, Failure>(cmd.output@));
}

/// Two results that the pipeline gives for the same two outputs are the
/// same, field for field.
pub proof fn lemma_same_outputs_same_result(
    cpu_output: Seq<u8>,
    gpu_output: Seq<u8>,
    first: Result<SocInfo, Error>,
    second: Result<SocInfo, Error>,
)
    requires
        soc_view(first) == soc_info_of(cpu_report(cpu_output), gpu_report(gpu_output)),
        soc_view(second) == soc_info_of(cpu_report(cpu_output), gpu_report(gpu_output)),
    ensures
        soc_view(first) == soc_view(second),
        first matches Ok(a) ==> second matches Ok(b) && a@ == b@,
{
}

/// Asks `cmd` for the CPU report and reads it.
pub fn cpu_info<C: SystemCommand>(cmd: &C) -> (r: Result<
    (String, CoreCount, CoreCount, CoreCount),
    Error,
>)
    ensures
        exists|run: Result<Seq<u8>, Failure>|
            #[trigger] cmd.may_give(sysctl_path(), sysctl_args(), run) && cpu_view(r)
                == cpu_outcome(run),
{
    let args = [
        "-n",
        "machdep.cpu.brand_string",
        "machdep.cpu.core_count",
        "hw.perflevel0.logicalcpu",
        "hw.perflevel1.logicalcpu",
    ];
    proof {
        assert(args_view(args@) =~= sysctl_args());
    }
    let run = cmd.execute("/usr/sbin/sysctl", args.as_slice());
    let ghost seen = output_view(run);
    let r = match run {
        Ok(output) => parse_cpu_info(output),
        Err(e) => Err(e),
    };
    proof {
        assert(cmd.may_give(sysctl_path(), sysctl_args(), seen) && cpu_view(r) == cpu_outcome(
            seen,
        ));
    }
    r
}

/// Asks `cmd` for the display report and reads the number of GPU cores.
pub fn gpu_info<C: SystemCommand>(cmd: &C) -> (r: Result<CoreCount, Error>)
    ensures
        exists|run: Result<Seq<u8>, Failure>|
            #[trigger] cmd.may_give(profiler_path(), profiler_args(), run) && count_view(r)
                == gpu_outcome(run),
{
    let args = ["-detailLevel", "basic", "SPDisplaysDataType"];
    proof {
        assert(args_view(args@) =~= profiler_args());
    }
    let run = cmd.execute("/usr/sbin/system_profiler", args.as_slice());
    let ghost seen = output_view(run);
    let r = match run {
        Ok(output) => parse_gpu_info(output),
        Err(e) => Err(e),
    };
    proof {
        assert(cmd.may_give(profiler_path(), profiler_args(), seen) && count_view(r)
            == gpu_outcome(seen));
    }
    r
}

impl SocInfo {
    /// Reads both reports through `cmd` and makes the record. The first
    /// step that fails ends the run with its error.
    pub fn new<C: SystemCommand>(cmd: &C) -> (r: Result<SocInfo, Error>)
        ensures
            is_run_of(cmd, soc_view(r)),
    {
        let cpu = cpu_info(cmd);
        let ghost cpu_run = choose|run: Result<Seq<u8>, Failure>|
            #[trigger] cmd.may_give(sysctl_path(), sysctl_args(), run) && cpu_view(cpu)
                == cpu_outcome(run);
        let (brand, total, performance, efficiency) = match cpu {
            Ok(fields) => fields,
            Err(e) => {
                proof {
                    assert(accounts_for(cmd, cpu_run, cpu_run, Err::<SocRecord, Failure>(e@)));
                }
                return Err(e);
            },
        };
        let gpu = gpu_info(cmd);
        let ghost gpu_run = choose|run: Result<Seq<u8>, Failure>|
            #[trigger] cmd.may_give(profiler_path(), profiler_args(), run) && count_view(gpu)
                == gpu_outcome(run);
        let r = match gpu {
            Ok(cores) => Ok(SocInfo::assemble(brand, total, performance, efficiency, cores)),
            Err(e) => Err(e),
        };
        proof {
            assert(accounts_for(cmd, cpu_run, gpu_run, soc_view(r)));
        }
        r
    }

    /// Makes the record from the output of the CPU query and that of the
    /// display query.
    pub fn from_outputs(cpu_output: Vec<u8>, gpu_output: Vec<u8>) -> (r: Result<SocInfo, Error>)
        ensures
            soc_view(r) == soc_info_of(cpu_report(cpu_output@), gpu_report(gpu_output@)),
    {
        let (brand, total, performance, efficiency) = match parse_cpu_info(cpu_output) {
            Ok(fields) => fields,
            Err(e) => {
                return Err(e);
            },
        };
        match parse_gpu_info(gpu_output) {
            Ok(cores) => Ok(SocInfo::assemble(brand, total, performance, efficiency, cores)),
            Err(e) => Err(e),
        }
    }

    /// Makes the record from the fields of the CPU report and the number of
    /// GPU cores, with the nominal figures of the chip that `brand` names.
    pub fn assemble(
        brand: String,
        total: CoreCount,
        performance: CoreCount,
        efficiency: CoreCount,
        gpu_cores: CoreCount,
    ) -> (info: SocInfo)
        ensures
            info@ == record_of((brand@, total, performance, efficiency), gpu_cores),
    {
        let chip = AppleChip::from_brand_string(brand.as_str());
        let specs = chip.get_specs();
        SocInfo {
            cpu_brand_name: brand,
            num_cpu_cores: total,
            num_gpu_cores: gpu_cores,
            cpu_max_power: Some(specs.cpu_tdp),
            gpu_max_power: Some(specs.gpu_tdp),
            cpu_max_bw: Some(specs.cpu_bw),
            gpu_max_bw: Some(specs.gpu_bw),
            e_core_count: efficiency,
            p_core_count: performance,
        }
    }
}

} // verus!
