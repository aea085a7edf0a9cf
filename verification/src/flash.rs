//! The interpreter of a flash program: it walks the steps of a descriptor
//! and says, for each, what is to be done to the device.

use crate::aml::{large_write_fits, large_write_refusal, AmlogicSoC, LargeWrite};
use crate::config::{
    is_unsupported, steps_view, support_verdict, DataOrFile, FlashConfig, FlashStep,
    FlashStepView, MetaFile, StringOrFile, WaitValue,
};
use crate::error::{invalid_operation, Error, ErrorView};
use crate::partitions::{
    is_accessible, law_table_sizes, partition, superbird_partition, PartitionInfo,
};
use crate::stream::{build_env_import, env_import_command, SizeProbe, ADDR_TMP, TRANSFER_BLOCK_SIZE};
use vstd::prelude::*;
use vstd::string::StringSliceAdditionalSpecFns;

verus! {

/// Where the files that a descriptor refers to are found.
#[derive(Debug)]
pub enum FlashMode {
    /// Relative to the working directory.
    Standalone,
    /// Under this directory.
    Directory(String),
    /// Inside the archive that the descriptor came from.
    Archive,
}

/// Where one file is found.
#[derive(Debug)]
pub enum FileSource {
    /// At this path, relative to the working directory.
    WorkingDir { path: String },
    /// At `path` under the directory `base`.
    Under { base: String, path: String },
    /// As the entry of this name in the archive.
    Entry { name: String },
}

/// The name under which a file is looked up in an archive: its path without
/// one leading `./`.
pub open spec fn entry_name(path: Seq<char>) -> Seq<char> {
    if path.len() >= 2 && path[0] == '.' && path[1] == '/' {
        path.subrange(2, path.len() as int)
    } else {
        path
    }
}

/// Says where the file `file` is found in the mode `mode`.
pub fn locate(mode: &FlashMode, file: &MetaFile) -> (source: FileSource)
    ensures
        match mode {
            FlashMode::Standalone => source matches FileSource::WorkingDir { path } && path@
                == file.file_path@,
            FlashMode::Directory(dir) => source matches FileSource::Under { base, path } && base@
                == dir@ && path@ == file.file_path@,
            FlashMode::Archive => source matches FileSource::Entry { name } && name@
                == entry_name(file.file_path@),
        },
{
    match mode {
        FlashMode::Standalone => FileSource::WorkingDir { path: file.file_path.clone() },
        FlashMode::Directory(dir) => FileSource::Under {
            base: dir.clone(),
            path: file.file_path.clone(),
        },
        FlashMode::Archive => {
            let path = file.file_path.as_str();
            let len = path.unicode_len();
            if len >= 2 && path.get_char(0) == '.' && path.get_char(1) == '/' {
                FileSource::Entry { name: path.substring_char(2, len).to_owned() }
            } else {
                FileSource::Entry { name: file.file_path.clone() }
            }
        },
    }
}

/// What a step has yielded.
#[derive(Debug)]
pub enum FlashOutcome {
    /// The step is done; the program goes on.
    Normal,
    /// All steps are done.
    Complete,
    /// The program waits for the user.
    AwaitUserInput(String),
    /// The status of a bulk command.
    BulkcmdStatResult(String),
    /// Bytes that were read.
    ReadResult(Vec<u8>),
    /// What the device calls itself.
    IdentifyResult(String),
    /// The length and offset that the device asks for.
    GetBootAMLCResult(u32, u32),
    /// Size and offset of a partition, where its size could be told.
    ValidatePartitionResult(Option<usize>, Option<usize>),
}

/// What is to be done for one step of a program.
#[derive(Debug)]
#[allow(inconsistent_fields)]
pub enum StepPlan {
    /// Send the bulk command.
    Bulkcmd { command: String },
    /// Start execution at `address`.
    Run { address: u32, keep_power: bool },
    /// Write the data to memory in one request.
    WriteSimpleMemory { address: u32, data: DataOrFile },
    /// Stream the data to the disk at `address`.
    WriteLargeMemory { address: u32, data: DataOrFile, block_length: usize, append_zeros: bool },
    /// Send the data as one AMLC packet.
    WriteAmlcData { seq: u8, amlc_offset: u32, data: DataOrFile },
    /// Chain-load with these images.
    Bl2Boot { bl2: DataOrFile, bootloader: DataOrFile },
    /// Restore the partition from the data.
    RestorePartition { name: String, data: DataOrFile },
    /// Replace the environment with the text.
    WriteEnv { value: StringOrFile },
    /// Log the message; the device is not touched.
    Log { message: String },
    /// Sleep for so many milliseconds.
    Wait { ms: u64 },
}

/// What a [`StepPlan`] holds.
#[allow(inconsistent_fields)]
pub enum StepPlanView {
    Bulkcmd { command: Seq<char> },
    Run { address: u32, keep_power: bool },
    WriteSimpleMemory { address: u32, data: crate::config::DataOrFileView },
    WriteLargeMemory {
        address: u32,
        data: crate::config::DataOrFileView,
        block_length: usize,
        append_zeros: bool,
    },
    WriteAmlcData { seq: u8, amlc_offset: u32, data: crate::config::DataOrFileView },
    Bl2Boot { bl2: crate::config::DataOrFileView, bootloader: crate::config::DataOrFileView },
    RestorePartition { name: Seq<char>, data: crate::config::DataOrFileView },
    WriteEnv { value: crate::config::StringOrFileView },
    Log { message: Seq<char> },
    Wait { ms: u64 },
}

impl View for StepPlan {
    type V = StepPlanView;

    open spec fn view(&self) -> StepPlanView {
        match self {
            StepPlan::Bulkcmd { command } => StepPlanView::Bulkcmd { command: command@ },
            StepPlan::Run { address, keep_power } => StepPlanView::Run {
                address: *address,
                keep_power: *keep_power,
            },
            StepPlan::WriteSimpleMemory { address, data } => StepPlanView::WriteSimpleMemory {
                address: *address,
                data: data@,
            },
            StepPlan::WriteLargeMemory {
                address,
                data,
                block_length,
                append_zeros,
            } => StepPlanView::WriteLargeMemory {
                address: *address,
                data: data@,
                block_length: *block_length,
                append_zeros: *append_zeros,
            },
            StepPlan::WriteAmlcData { seq, amlc_offset, data } => StepPlanView::WriteAmlcData {
                seq: *seq,
                amlc_offset: *amlc_offset,
                data: data@,
            },
            StepPlan::Bl2Boot { bl2, bootloader } => StepPlanView::Bl2Boot {
                bl2: bl2@,
                bootloader: bootloader@,
            },
            StepPlan::RestorePartition { name, data } => StepPlanView::RestorePartition {
                name: name@,
                data: data@,
            },
            StepPlan::WriteEnv { value } => StepPlanView::WriteEnv { value: value@ },
            StepPlan::Log { message } => StepPlanView::Log { message: message@ },
            StepPlan::Wait { ms } => StepPlanView::Wait { ms: *ms },
        }
    }
}

/// What is to be done for a supported step: the device stays powered when a
/// `run` step does not say otherwise, and a large write is padded with zeros
/// when it does not say otherwise.
pub open spec fn plan_of(step: FlashStepView) -> StepPlanView
    recommends
        !is_unsupported(step),
{
    match step {
        FlashStepView::Bulkcmd { value } => StepPlanView::Bulkcmd { command: value },
        FlashStepView::Run { value } => StepPlanView::Run {
            address: value.0,
            keep_power: value.1 != Some(false),
        },
        FlashStepView::WriteSimpleMemory { value } => StepPlanView::WriteSimpleMemory {
            address: value.address,
            data: value.data,
        },
        FlashStepView::WriteLargeMemory { value } => StepPlanView::WriteLargeMemory {
            address: value.address,
            data: value.data,
            block_length: value.block_length,
            append_zeros: value.append_zeros != Some(false),
        },
        FlashStepView::WriteAMLCData { value } => StepPlanView::WriteAmlcData {
            seq: value.seq,
            amlc_offset: value.amlc_offset,
            data: value.data,
        },
        FlashStepView::Bl2Boot { value } => StepPlanView::Bl2Boot {
            bl2: value.bl2,
            bootloader: value.bootloader,
        },
        FlashStepView::RestorePartition { value } => StepPlanView::RestorePartition {
            name: value.name,
            data: value.data,
        },
        FlashStepView::WriteEnv { value } => StepPlanView::WriteEnv { value },
        FlashStepView::Log { value } => StepPlanView::Log { message: value },
        FlashStepView::Wait { value: crate::config::WaitView::Time { time } } => StepPlanView::Wait {
            ms: time,
        },
        _ => StepPlanView::Wait { ms: 0 },
    }
}

/// Says what is to be done for a supported step.
pub fn plan_step(step: &FlashStep) -> (plan: StepPlan)
    requires
        !is_unsupported(step@),
    ensures
        plan@ == plan_of(step@),
{
    match step {
        FlashStep::Bulkcmd { value } => StepPlan::Bulkcmd { command: value.clone() },
        FlashStep::Run { value } => StepPlan::Run {
            address: value.address,
            keep_power: match value.keep_power {
                Some(k) => k,
                None => true,
            },
        },
        FlashStep::WriteSimpleMemory { value } => StepPlan::WriteSimpleMemory {
            address: value.address,
            data: value.data.duplicate(),
        },
        FlashStep::WriteLargeMemory { value } => StepPlan::WriteLargeMemory {
            address: value.address,
            data: value.data.duplicate(),
            block_length: value.block_length,
            append_zeros: match value.append_zeros {
                Some(z) => z,
                None => true,
            },
        },
        FlashStep::WriteAMLCData { value } => StepPlan::WriteAmlcData {
            seq: value.seq,
            amlc_offset: value.amlc_offset,
            data: value.data.duplicate(),
        },
        FlashStep::Bl2Boot { value } => StepPlan::Bl2Boot {
            bl2: value.bl2.duplicate(),
            bootloader: value.bootloader.duplicate(),
        },
        FlashStep::RestorePartition { value } => StepPlan::RestorePartition {
            name: value.name.clone(),
            data: value.data.duplicate(),
        },
        FlashStep::WriteEnv { value } => StepPlan::WriteEnv { value: value.duplicate() },
        FlashStep::Log { value } => StepPlan::Log { message: value.clone() },
        FlashStep::Wait { value } => match value {
            WaitValue::Time { time } => StepPlan::Wait { ms: *time },
            WaitValue::UserInput { .. } => StepPlan::Wait { ms: 0 },
        },
        _ => StepPlan::Wait { ms: 0 },
    }
}

/// A flash program that is being run.
#[derive(Debug)]
pub struct Flasher {
    pub config: FlashConfig,
    pub mode: FlashMode,
    /// The number of steps taken up so far.
    pub step: usize,
}

/// One turn of the interpreter.
#[derive(Debug)]
pub enum FlashTurn {
    /// The step number `index`, counted from 1, is taken up: `step` is what
    /// the observer is told, `plan` what is to be done.
    Step { index: usize, step: FlashStep, plan: StepPlan },
    /// All steps are done.
    Finished,
}

impl Flasher {
    /// The program can be run, and no more steps are taken up than it has.
    pub open spec fn wf(&self) -> bool {
        &&& support_verdict(self.config@) is Ok
        &&& self.step <= self.config.steps@.len()
    }

    /// A program that has not started, made of a descriptor that can be run.
    pub fn new(config: FlashConfig, mode: FlashMode) -> (r: Result<Flasher, Error>)
        ensures
            match support_verdict(config@) {
                Err(e) => r is Err && r->Err_0@ == e,
                Ok(_) => r == Ok::<Flasher, Error>(Flasher { config, mode, step: 0 }) && r->Ok_0.wf(),
            },
    {
        match config.check_config_supported() {
            Err(e) => Err(e),
            Ok(_) => Ok(Flasher { config, mode, step: 0 }),
        }
    }

    /// A program made of a descriptor in JSON text, whose files are found
    /// relative to the working directory.
    pub fn from_json(meta: &str) -> (r: Result<Flasher, Error>)
        ensures
            r is Ok ==> r->Ok_0.wf() && r->Ok_0.step == 0 && r->Ok_0.mode is Standalone,
            match crate::json::json_document(meta@) {
                None => r is Err && r->Err_0 is Json,
                Some(doc) => match crate::schema::decode_config(doc) {
                    None => r is Err && r->Err_0@ == ErrorView::Json(crate::config::no_descriptor()),
                    Some(config) => match support_verdict(config) {
                        Err(e) => r is Err && r->Err_0@ == e,
                        Ok(_) => r is Ok && r->Ok_0.config@ == config,
                    },
                },
            },
    {
        match FlashConfig::from_standalone(meta) {
            Err(e) => Err(e),
            Ok(config) => Ok(Flasher { config, mode: FlashMode::Standalone, step: 0 }),
        }
    }

    /// The total number of steps of the program.
    pub fn num_steps(&self) -> (n: usize)
        ensures
            n == self.config.steps@.len(),
    {
        self.config.steps.len()
    }

    /// The number, counted from 1, of the step that comes next.
    pub fn current_step(&self) -> (n: usize)
        requires
            self.step < usize::MAX,
        ensures
            n == self.step + 1,
    {
        self.step + 1
    }

    /// Takes up the next step: the counter moves on by one, and the step is
    /// handed out with its number and with what is to be done for it. When no
    /// step is left, the program is finished and the counter stays.
    pub fn flash(&mut self) -> (turn: FlashTurn)
        requires
            old(self).wf(),
        ensures
            final(self).wf(),
            final(self).config == old(self).config,
            final(self).mode == old(self).mode,
            final(self).step >= old(self).step,
            old(self).step < old(self).config.steps@.len() ==> {
                &&& final(self).step == old(self).step + 1
                &&& turn matches FlashTurn::Step { index, step, plan }
                &&& index == old(self).step + 1
                &&& step@ == old(self).config.steps@[old(self).step as int]@
                &&& plan@ == plan_of(step@)
                &&& !is_unsupported(step@)
            },
            old(self).step >= old(self).config.steps@.len() ==> {
                &&& final(self).step == old(self).step
                &&& turn is Finished
            },
    {
        if self.step >= self.config.steps.len() {
            return FlashTurn::Finished;
        }
        proof {
            crate::config::law_accepted_is_supported(self.config@);
            assert(steps_view(self.config.steps@)[self.step as int]
                == self.config.steps@[self.step as int]@);
        }
        let step = self.config.steps[self.step].duplicate();
        let plan = plan_step(&step);
        self.step = self.step + 1;
        FlashTurn::Step { index: self.step, step, plan }
    }
}

/// Everything that replaces the environment: the command that opens it, the
/// transfer of the text into the staging RAM, and the command that imports
/// it.
#[derive(Debug)]
pub struct EnvWrite {
    pub open: String,
    pub upload: LargeWrite,
    pub import: String,
}

impl AmlogicSoC {
    /// Frames the replacement of the environment by `text`, which must be
    /// ASCII.
    pub fn write_env(&self, text: &str) -> (r: Result<EnvWrite, Error>)
        ensures
            !vstd::string::is_ascii(text) ==> r is Err && r->Err_0@
                == ErrorView::InvalidOperation("env data must be ascii"@),
            vstd::string::is_ascii(text) ==> (r is Ok <==> large_write_fits(
                text.spec_bytes().len() as int,
                TRANSFER_BLOCK_SIZE as int,
                true,
            )),
            vstd::string::is_ascii(text) && r is Err ==> r->Err_0@ == ErrorView::InvalidOperation(
                large_write_refusal(
                    text.spec_bytes().len() as int,
                    TRANSFER_BLOCK_SIZE as int,
                    true,
                )->Some_0,
            ),
            r is Ok ==> {
                &&& r->Ok_0.open@ == "amlmmc env"@
                &&& r->Ok_0.upload.frames(
                    self.endpoint_out,
                    ADDR_TMP,
                    text.spec_bytes(),
                    TRANSFER_BLOCK_SIZE,
                )
                &&& r->Ok_0.import@ == env_import_command(text.spec_bytes().len() as int)
            },
    {
        if !text.is_ascii() {
            return Err(invalid_operation("env data must be ascii"));
        }
        let bytes = text.as_bytes();
        match self.write_large_memory(ADDR_TMP, bytes, TRANSFER_BLOCK_SIZE, true) {
            Err(e) => Err(e),
            Ok(upload) => Ok(
                EnvWrite {
                    open: "amlmmc env".to_owned(),
                    upload,
                    import: build_env_import(bytes.len()),
                },
            ),
        }
    }

    /// Starts probing the size of the partition `name` for a restore: the
    /// partition's entry in the table, the probing command, and the state
    /// that waits for the answer. Nothing for a name that the table does not
    /// hold, or that may not be accessed.
    pub fn probe_partition(&self, name: &str) -> (r: Option<(PartitionInfo, String, SizeProbe)>)
        ensures
            r is Some <==> superbird_partition(name@) is Some && is_accessible(name@),
            r is Some ==> {
                &&& r->Some_0.0 == superbird_partition(name@)->Some_0
                &&& r->Some_0.1@ == crate::stream::read_command(
                    name@,
                    r->Some_0.0.part_bytes(),
                )
                &&& r->Some_0.2.name@ == name@
                &&& r->Some_0.2.size == r->Some_0.0.part_bytes()
                &&& r->Some_0.2.wf()
            },
    {
        let info = match partition(name) {
            Some(info) => info,
            None => {
                return None;
            },
        };
        proof {
            if is_accessible(name@) {
                law_table_sizes(name@);
            }
        }
        match self.validate_partition_size(name, &info) {
            Ok((command, probe)) => Some((info, command, probe)),
            Err(_) => None,
        }
    }
}

/// The outcome of probing a partition's size: size and offset where the
/// probe found the size, neither where it did not.
pub fn validation_outcome(found: Option<(usize, PartitionInfo)>) -> (outcome: FlashOutcome)
    ensures
        outcome == match found {
            Some((size, info)) => FlashOutcome::ValidatePartitionResult(Some(size), Some(info.offset)),
            None => FlashOutcome::ValidatePartitionResult(None, None),
        },
{
    match found {
        Some((size, info)) => FlashOutcome::ValidatePartitionResult(Some(size), Some(info.offset)),
        None => FlashOutcome::ValidatePartitionResult(None, None),
    }
}

/// The size of the partition that a restore goes into, told from the
/// outcome of probing it: without a size and an offset nothing is restored.
pub fn restore_size(outcome: &FlashOutcome) -> (r: Result<usize, Error>)
    ensures
        match *outcome {
            FlashOutcome::ValidatePartitionResult(Some(size), Some(_)) => r == Ok::<usize, Error>(
                size,
            ),
            _ => r is Err && r->Err_0@ == ErrorView::InvalidOperation(
                "Failed to validate partition size!"@,
            ),
        },
{
    match outcome {
        FlashOutcome::ValidatePartitionResult(Some(size), Some(_)) => Ok(*size),
        _ => Err(invalid_operation("Failed to validate partition size!")),
    }
}

} // verus!
