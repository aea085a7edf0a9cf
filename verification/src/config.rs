//! The flash descriptor: a named, versioned program made of typed steps.

use crate::decode::read_config;
use crate::error::{malformed, outcome_view, Error, ErrorView};
use crate::json::{json_document, parse_value, tree_of, Json, JsonView};
use crate::schema::decode_config;
use crate::usb::copy_all;
use vstd::prelude::*;

verus! {

/// The only descriptor format version that is understood.
pub const SUPPORTED_META_VERSION: usize = 1;

/// The text that an optional string holds, if any.
pub open spec fn text_view(text: Option<String>) -> Option<Seq<char>> {
    match text {
        Some(t) => Some(t@),
        None => None,
    }
}

/// Reference to a file in the flash package.
#[derive(Debug)]
pub struct MetaFile {
    /// Path to the file.
    pub file_path: String,
    /// Optional encoding for text files.
    pub encoding: Option<String>,
}

/// What a [`MetaFile`] holds.
pub struct MetaFileView {
    pub file_path: Seq<char>,
    pub encoding: Option<Seq<char>>,
}

impl View for MetaFile {
    type V = MetaFileView;

    open spec fn view(&self) -> MetaFileView {
        MetaFileView { file_path: self.file_path@, encoding: text_view(self.encoding) }
    }
}

/// Data that is either inline or taken from a file.
#[derive(Debug)]
pub enum DataOrFile {
    /// Inline binary data.
    Data(Vec<u8>),
    /// Reference to a file containing the data.
    File(MetaFile),
}

/// What a [`DataOrFile`] holds.
pub enum DataOrFileView {
    Data(Seq<u8>),
    File(MetaFileView),
}

impl View for DataOrFile {
    type V = DataOrFileView;

    open spec fn view(&self) -> DataOrFileView {
        match self {
            DataOrFile::Data(d) => DataOrFileView::Data(d@),
            DataOrFile::File(f) => DataOrFileView::File(f@),
        }
    }
}

/// Text that is either inline or taken from a file.
#[derive(Debug)]
pub enum StringOrFile {
    /// Inline string.
    String(String),
    /// Reference to a file containing the string.
    File(MetaFile),
}

/// What a [`StringOrFile`] holds.
pub enum StringOrFileView {
    String(Seq<char>),
    File(MetaFileView),
}

impl View for StringOrFile {
    type V = StringOrFileView;

    open spec fn view(&self) -> StringOrFileView {
        match self {
            StringOrFile::String(s) => StringOrFileView::String(s@),
            StringOrFile::File(f) => StringOrFileView::File(f@),
        }
    }
}

/// Parameters of a `run` step.
#[derive(Debug)]
pub struct RunValue {
    pub address: u32,
    pub keep_power: Option<bool>,
}

impl View for RunValue {
    type V = (u32, Option<bool>);

    open spec fn view(&self) -> (u32, Option<bool>) {
        (self.address, self.keep_power)
    }
}

/// Parameters of a `writeSimpleMemory` step.
#[derive(Debug)]
pub struct WriteSimpleMemoryValue {
    pub address: u32,
    pub data: DataOrFile,
}

/// What a [`WriteSimpleMemoryValue`] holds.
pub struct WriteSimpleMemoryView {
    pub address: u32,
    pub data: DataOrFileView,
}

impl View for WriteSimpleMemoryValue {
    type V = WriteSimpleMemoryView;

    open spec fn view(&self) -> WriteSimpleMemoryView {
        WriteSimpleMemoryView { address: self.address, data: self.data@ }
    }
}

/// Parameters of a `writeLargeMemory` step.
#[derive(Debug)]
pub struct WriteLargeMemoryValue {
    pub address: u32,
    pub data: DataOrFile,
    pub block_length: usize,
    pub append_zeros: Option<bool>,
}

/// What a [`WriteLargeMemoryValue`] holds.
pub struct WriteLargeMemoryView {
    pub address: u32,
    pub data: DataOrFileView,
    pub block_length: usize,
    pub append_zeros: Option<bool>,
}

impl View for WriteLargeMemoryValue {
    type V = WriteLargeMemoryView;

    open spec fn view(&self) -> WriteLargeMemoryView {
        WriteLargeMemoryView {
            address: self.address,
            data: self.data@,
            block_length: self.block_length,
            append_zeros: self.append_zeros,
        }
    }
}

/// Parameters of the two read steps.
#[derive(Debug)]
pub struct ReadMemoryValue {
    pub address: u32,
    pub length: usize,
}

impl View for ReadMemoryValue {
    type V = (u32, usize);

    open spec fn view(&self) -> (u32, usize) {
        (self.address, self.length)
    }
}

/// Parameters of a `writeAMLCData` step.
#[derive(Debug)]
pub struct WriteAMLCDataValue {
    pub seq: u8,
    pub amlc_offset: u32,
    pub data: DataOrFile,
}

/// What a [`WriteAMLCDataValue`] holds.
pub struct WriteAMLCDataView {
    pub seq: u8,
    pub amlc_offset: u32,
    pub data: DataOrFileView,
}

impl View for WriteAMLCDataValue {
    type V = WriteAMLCDataView;

    open spec fn view(&self) -> WriteAMLCDataView {
        WriteAMLCDataView { seq: self.seq, amlc_offset: self.amlc_offset, data: self.data@ }
    }
}

/// Parameters of a `bl2Boot` step.
#[derive(Debug)]
pub struct BL2BootValue {
    pub bl2: DataOrFile,
    pub bootloader: DataOrFile,
}

/// What a [`BL2BootValue`] holds.
pub struct BL2BootView {
    pub bl2: DataOrFileView,
    pub bootloader: DataOrFileView,
}

impl View for BL2BootValue {
    type V = BL2BootView;

    open spec fn view(&self) -> BL2BootView {
        BL2BootView { bl2: self.bl2@, bootloader: self.bootloader@ }
    }
}

/// Parameters of a `validatePartitionSize` step.
#[derive(Debug)]
pub struct ValidatePartitionSizeValue {
    pub name: String,
}

impl View for ValidatePartitionSizeValue {
    type V = Seq<char>;

    open spec fn view(&self) -> Seq<char> {
        self.name@
    }
}

/// Parameters of a `restorePartition` step.
#[derive(Debug)]
pub struct RestorePartitionValue {
    pub name: String,
    pub data: DataOrFile,
}

/// What a [`RestorePartitionValue`] holds.
pub struct RestorePartitionView {
    pub name: Seq<char>,
    pub data: DataOrFileView,
}

impl View for RestorePartitionValue {
    type V = RestorePartitionView;

    open spec fn view(&self) -> RestorePartitionView {
        RestorePartitionView { name: self.name@, data: self.data@ }
    }
}

/// What a `wait` step waits for.
#[derive(Debug)]
pub enum WaitValue {
    UserInput { message: String },
    Time { time: u64 },
}

/// What a [`WaitValue`] holds.
pub enum WaitView {
    UserInput { message: Seq<char> },
    Time { time: u64 },
}

impl View for WaitValue {
    type V = WaitView;

    open spec fn view(&self) -> WaitView {
        match self {
            WaitValue::UserInput { message } => WaitView::UserInput { message: message@ },
            WaitValue::Time { time } => WaitView::Time { time: *time },
        }
    }
}

/// A step in the flashing process.
#[derive(Debug)]
#[allow(inconsistent_fields)]
pub enum FlashStep {
    /// Identify the device.
    Identify { variable: Option<String> },
    /// Send a bulk command.
    Bulkcmd { value: String },
    /// Send a bulk command and keep its status.
    BulkcmdStat { value: String, variable: Option<String> },
    /// Run code at an address.
    Run { value: RunValue },
    /// Write a small amount of data to memory.
    WriteSimpleMemory { value: WriteSimpleMemoryValue },
    /// Stream a large amount of data to the disk.
    WriteLargeMemory { value: WriteLargeMemoryValue },
    /// Read a small amount of data from memory.
    ReadSimpleMemory { value: ReadMemoryValue, variable: Option<String> },
    /// Read a large amount of data from memory.
    ReadLargeMemory { value: ReadMemoryValue, variable: Option<String> },
    /// Ask the device which part of the bootloader it wants next.
    GetBootAMLC { variable: Option<String> },
    /// Send one AMLC packet.
    WriteAMLCData { value: WriteAMLCDataValue },
    /// Chain-load through BL2.
    Bl2Boot { value: BL2BootValue },
    /// Probe the size of a partition.
    ValidatePartitionSize { value: ValidatePartitionSizeValue, variable: Option<String> },
    /// Restore a partition from an image.
    RestorePartition { value: RestorePartitionValue },
    /// Replace the bootloader environment.
    WriteEnv { value: StringOrFile },
    /// Log a message.
    Log { value: String },
    /// Wait.
    Wait { value: WaitValue },
}

/// What a [`FlashStep`] holds.
#[allow(inconsistent_fields)]
pub enum FlashStepView {
    Identify { variable: Option<Seq<char>> },
    Bulkcmd { value: Seq<char> },
    BulkcmdStat { value: Seq<char>, variable: Option<Seq<char>> },
    Run { value: (u32, Option<bool>) },
    WriteSimpleMemory { value: WriteSimpleMemoryView },
    WriteLargeMemory { value: WriteLargeMemoryView },
    ReadSimpleMemory { value: (u32, usize), variable: Option<Seq<char>> },
    ReadLargeMemory { value: (u32, usize), variable: Option<Seq<char>> },
    GetBootAMLC { variable: Option<Seq<char>> },
    WriteAMLCData { value: WriteAMLCDataView },
    Bl2Boot { value: BL2BootView },
    ValidatePartitionSize { value: Seq<char>, variable: Option<Seq<char>> },
    RestorePartition { value: RestorePartitionView },
    WriteEnv { value: StringOrFileView },
    Log { value: Seq<char> },
    Wait { value: WaitView },
}

impl View for FlashStep {
    type V = FlashStepView;

    open spec fn view(&self) -> FlashStepView {
        match self {
            FlashStep::Identify { variable } => FlashStepView::Identify {
                variable: text_view(*variable),
            },
            FlashStep::Bulkcmd { value } => FlashStepView::Bulkcmd { value: value@ },
            FlashStep::BulkcmdStat { value, variable } => FlashStepView::BulkcmdStat {
                value: value@,
                variable: text_view(*variable),
            },
            FlashStep::Run { value } => FlashStepView::Run { value: value@ },
            FlashStep::WriteSimpleMemory { value } => FlashStepView::WriteSimpleMemory {
                value: value@,
            },
            FlashStep::WriteLargeMemory { value } => FlashStepView::WriteLargeMemory {
                value: value@,
            },
            FlashStep::ReadSimpleMemory { value, variable } => FlashStepView::ReadSimpleMemory {
                value: value@,
                variable: text_view(*variable),
            },
            FlashStep::ReadLargeMemory { value, variable } => FlashStepView::ReadLargeMemory {
                value: value@,
                variable: text_view(*variable),
            },
            FlashStep::GetBootAMLC { variable } => FlashStepView::GetBootAMLC {
                variable: text_view(*variable),
            },
            FlashStep::WriteAMLCData { value } => FlashStepView::WriteAMLCData { value: value@ },
            FlashStep::Bl2Boot { value } => FlashStepView::Bl2Boot { value: value@ },
            FlashStep::ValidatePartitionSize { value, variable } => {
                FlashStepView::ValidatePartitionSize {
                    value: value@,
                    variable: text_view(*variable),
                }
            },
            FlashStep::RestorePartition { value } => FlashStepView::RestorePartition {
                value: value@,
            },
            FlashStep::WriteEnv { value } => FlashStepView::WriteEnv { value: value@ },
            FlashStep::Log { value } => FlashStepView::Log { value: value@ },
            FlashStep::Wait { value } => FlashStepView::Wait { value: value@ },
        }
    }
}

/// The views of the steps of a program, in order.
pub open spec fn steps_view(steps: Seq<FlashStep>) -> Seq<FlashStepView> {
    steps.map_values(|s: FlashStep| s@)
}

/// The views of the seeds of a descriptor's variables, in order.
pub open spec fn variables_view(variables: Seq<(String, usize)>) -> Seq<(Seq<char>, usize)> {
    variables.map_values(|v: (String, usize)| (v.0@, v.1))
}

/// A whole flash descriptor.
#[derive(Debug)]
pub struct FlashConfig {
    /// Name of the flash configuration.
    pub name: String,
    /// Version of the flash configuration.
    pub version: String,
    /// Description of what the flash configuration does.
    pub description: String,
    /// Sequence of steps to execute during flashing.
    pub steps: Vec<FlashStep>,
    /// Seeds of the variables, by name. No name occurs twice.
    pub variables: Option<Vec<(String, usize)>>,
    /// Version of the metadata format.
    pub metadata_version: usize,
}

/// What a [`FlashConfig`] holds.
pub struct FlashConfigView {
    pub name: Seq<char>,
    pub version: Seq<char>,
    pub description: Seq<char>,
    pub steps: Seq<FlashStepView>,
    pub variables: Option<Seq<(Seq<char>, usize)>>,
    pub metadata_version: usize,
}

impl FlashConfigView {
    /// No variable is named twice.
    pub open spec fn wf(self) -> bool {
        self.variables is Some ==> crate::schema::distinct_names(self.variables->Some_0)
    }
}

impl View for FlashConfig {
    type V = FlashConfigView;

    open spec fn view(&self) -> FlashConfigView {
        FlashConfigView {
            name: self.name@,
            version: self.version@,
            description: self.description@,
            steps: steps_view(self.steps@),
            variables: match self.variables {
                Some(v) => Some(variables_view(v@)),
                None => None,
            },
            metadata_version: self.metadata_version,
        }
    }
}

/// Whether a step is of a kind that the schema knows but no flash program
/// may hold: the steps that read something back, the probe of a partition's
/// size, and the wait for user input.
pub open spec fn is_unsupported(step: FlashStepView) -> bool {
    ||| step is Identify
    ||| step is ReadLargeMemory
    ||| step is ReadSimpleMemory
    ||| step is GetBootAMLC
    ||| step is BulkcmdStat
    ||| step is ValidatePartitionSize
    ||| step matches FlashStepView::Wait { value: WaitView::UserInput { .. } }
}

/// The first step of a program that is not supported, if there is one.
pub open spec fn first_unsupported(steps: Seq<FlashStepView>) -> Option<FlashStepView>
    decreases steps.len(),
{
    if steps.len() == 0 {
        None
    } else if is_unsupported(steps[0]) {
        Some(steps[0])
    } else {
        first_unsupported(steps.skip(1))
    }
}

/// Whether a descriptor can be run: its format version must be 1, and none
/// of its steps may be unsupported. The version is looked at first.
pub open spec fn support_verdict(config: FlashConfigView) -> Result<(), ErrorView> {
    if config.metadata_version != SUPPORTED_META_VERSION {
        Err(ErrorView::UnsupportedVersion(config.metadata_version))
    } else {
        match first_unsupported(config.steps) {
            Some(step) => Err(ErrorView::UnsupportedFeature(step)),
            None => Ok(()),
        }
    }
}

/// A program with an unsupported step has a first one, and that one is
/// unsupported.
pub proof fn lemma_first_unsupported(steps: Seq<FlashStepView>, i: int)
    requires
        0 <= i < steps.len(),
        is_unsupported(steps[i]),
    ensures
        first_unsupported(steps) is Some,
        is_unsupported(first_unsupported(steps)->Some_0),
    decreases steps.len(),
{
    if !is_unsupported(steps[0]) {
        assert(steps.skip(1)[i - 1] == steps[i]);
        lemma_first_unsupported(steps.skip(1), i - 1);
    }
}

/// A program is run only if all its steps are supported.
pub proof fn lemma_all_supported(steps: Seq<FlashStepView>)
    requires
        first_unsupported(steps) is None,
    ensures
        forall|i: int| 0 <= i < steps.len() ==> !is_unsupported(#[trigger] steps[i]),
    decreases steps.len(),
{
    if steps.len() > 0 {
        lemma_all_supported(steps.skip(1));
        assert forall|i: int| 0 <= i < steps.len() implies !is_unsupported(
            #[trigger] steps[i],
        ) by {
            if i > 0 {
                assert(steps.skip(1)[i - 1] == steps[i]);
            }
        }
    }
}

/// A descriptor of any format version but 1 is refused for its version,
/// whatever else it holds.
pub proof fn law_version_is_checked(config: FlashConfigView)
    requires
        config.metadata_version != SUPPORTED_META_VERSION,
    ensures
        support_verdict(config) == Err::<(), ErrorView>(
            ErrorView::UnsupportedVersion(config.metadata_version),
        ),
{
}

/// A descriptor of format version 1 that holds an unsupported step is
/// refused for a step of it that is unsupported.
pub proof fn law_features_are_checked(config: FlashConfigView, i: int)
    requires
        config.metadata_version == SUPPORTED_META_VERSION,
        0 <= i < config.steps.len(),
        is_unsupported(config.steps[i]),
    ensures
        support_verdict(config) matches Err(ErrorView::UnsupportedFeature(step))
            && is_unsupported(step),
{
    lemma_first_unsupported(config.steps, i);
}

/// A descriptor that is accepted has format version 1 and only supported
/// steps.
pub proof fn law_accepted_is_supported(config: FlashConfigView)
    requires
        support_verdict(config) is Ok,
    ensures
        config.metadata_version == SUPPORTED_META_VERSION,
        forall|i: int| 0 <= i < config.steps.len() ==> !is_unsupported(#[trigger] config.steps[i]),
{
    lemma_all_supported(config.steps);
}

/// The message for a document that the schema refuses.
pub open spec fn no_descriptor() -> Seq<char> {
    "the document is not a flash descriptor"@
}

/// Every descriptor that is read from a document names no variable twice.
pub proof fn law_read_is_well_formed(doc: JsonView)
    requires
        decode_config(doc) is Some,
    ensures
        decode_config(doc)->Some_0.wf(),
{
    match doc {
        JsonView::Object(m) => {
            match crate::json::member(m, "variables"@) {
                Some(JsonView::Object(vars)) => {
                    crate::schema::lemma_last_of_each_distinct(vars);
                },
                _ => {},
            }
        },
        _ => {},
    }
}

/// What reading the document `doc` as a descriptor must give: an error of
/// the kind `Json` where the schema refuses it, the verdict's error where the
/// descriptor cannot be run, and else the descriptor.
pub open spec fn reads_as(r: Result<FlashConfig, Error>, doc: JsonView) -> bool {
    match decode_config(doc) {
        None => r is Err && r->Err_0@ == ErrorView::Json(no_descriptor()),
        Some(config) => match support_verdict(config) {
            Err(e) => r is Err && r->Err_0@ == e,
            Ok(_) => r is Ok && r->Ok_0@ == config,
        },
    }
}

impl MetaFile {
    /// A copy of this file reference.
    pub fn duplicate(&self) -> (copy: MetaFile)
        ensures
            copy@ == self@,
    {
        MetaFile {
            file_path: self.file_path.clone(),
            encoding: match &self.encoding {
                Some(e) => Some(e.clone()),
                None => None,
            },
        }
    }
}

impl DataOrFile {
    /// A copy of this payload.
    pub fn duplicate(&self) -> (copy: DataOrFile)
        ensures
            copy@ == self@,
    {
        match self {
            DataOrFile::Data(d) => DataOrFile::Data(copy_all(d.as_slice())),
            DataOrFile::File(f) => DataOrFile::File(f.duplicate()),
        }
    }
}

impl StringOrFile {
    /// A copy of this payload.
    pub fn duplicate(&self) -> (copy: StringOrFile)
        ensures
            copy@ == self@,
    {
        match self {
            StringOrFile::String(t) => StringOrFile::String(t.clone()),
            StringOrFile::File(f) => StringOrFile::File(f.duplicate()),
        }
    }
}

/// A copy of an optional text.
pub fn duplicate_text(text: &Option<String>) -> (copy: Option<String>)
    ensures
        text_view(copy) == text_view(*text),
{
    match text {
        Some(t) => Some(t.clone()),
        None => None,
    }
}

impl FlashStep {
    /// A copy of this step.
    pub fn duplicate(&self) -> (copy: FlashStep)
        ensures
            copy@ == self@,
    {
        match self {
            FlashStep::Identify { variable } => FlashStep::Identify {
                variable: duplicate_text(variable),
            },
            FlashStep::Bulkcmd { value } => FlashStep::Bulkcmd { value: value.clone() },
            FlashStep::BulkcmdStat { value, variable } => FlashStep::BulkcmdStat {
                value: value.clone(),
                variable: duplicate_text(variable),
            },
            FlashStep::Run { value } => FlashStep::Run {
                value: RunValue { address: value.address, keep_power: value.keep_power },
            },
            FlashStep::WriteSimpleMemory { value } => FlashStep::WriteSimpleMemory {
                value: WriteSimpleMemoryValue {
                    address: value.address,
                    data: value.data.duplicate(),
                },
            },
            FlashStep::WriteLargeMemory { value } => FlashStep::WriteLargeMemory {
                value: WriteLargeMemoryValue {
                    address: value.address,
                    data: value.data.duplicate(),
                    block_length: value.block_length,
                    append_zeros: value.append_zeros,
                },
            },
            FlashStep::ReadSimpleMemory { value, variable } => FlashStep::ReadSimpleMemory {
                value: ReadMemoryValue { address: value.address, length: value.length },
                variable: duplicate_text(variable),
            },
            FlashStep::ReadLargeMemory { value, variable } => FlashStep::ReadLargeMemory {
                value: ReadMemoryValue { address: value.address, length: value.length },
                variable: duplicate_text(variable),
            },
            FlashStep::GetBootAMLC { variable } => FlashStep::GetBootAMLC {
                variable: duplicate_text(variable),
            },
            FlashStep::WriteAMLCData { value } => FlashStep::WriteAMLCData {
                value: WriteAMLCDataValue {
                    seq: value.seq,
                    amlc_offset: value.amlc_offset,
                    data: value.data.duplicate(),
                },
            },
            FlashStep::Bl2Boot { value } => FlashStep::Bl2Boot {
                value: BL2BootValue {
                    bl2: value.bl2.duplicate(),
                    bootloader: value.bootloader.duplicate(),
                },
            },
            FlashStep::ValidatePartitionSize { value, variable } => {
                FlashStep::ValidatePartitionSize {
                    value: ValidatePartitionSizeValue { name: value.name.clone() },
                    variable: duplicate_text(variable),
                }
            },
            FlashStep::RestorePartition { value } => FlashStep::RestorePartition {
                value: RestorePartitionValue {
                    name: value.name.clone(),
                    data: value.data.duplicate(),
                },
            },
            FlashStep::WriteEnv { value } => FlashStep::WriteEnv { value: value.duplicate() },
            FlashStep::Log { value } => FlashStep::Log { value: value.clone() },
            FlashStep::Wait { value } => FlashStep::Wait {
                value: match value {
                    WaitValue::UserInput { message } => WaitValue::UserInput {
                        message: message.clone(),
                    },
                    WaitValue::Time { time } => WaitValue::Time { time: *time },
                },
            },
        }
    }

    /// Whether this step is of a kind that no flash program may hold.
    pub fn is_unsupported(&self) -> (b: bool)
        ensures
            b == is_unsupported(self@),
    {
        match self {
            FlashStep::Identify { .. } => true,
            FlashStep::ReadLargeMemory { .. } => true,
            FlashStep::ReadSimpleMemory { .. } => true,
            FlashStep::GetBootAMLC { .. } => true,
            FlashStep::BulkcmdStat { .. } => true,
            FlashStep::ValidatePartitionSize { .. } => true,
            FlashStep::Wait { value } => match value {
                WaitValue::UserInput { .. } => true,
                WaitValue::Time { .. } => false,
            },
            _ => false,
        }
    }
}

impl FlashConfig {
    /// Checks that this descriptor can be run: its format version is 1 and
    /// none of its steps is unsupported. The error names the version, or
    /// holds the first unsupported step.
    pub fn check_config_supported(&self) -> (r: Result<(), Error>)
        ensures
            outcome_view(r) == support_verdict(self@),
    {
        if self.metadata_version != SUPPORTED_META_VERSION {
            return Err(Error::UnsupportedVersion(self.metadata_version));
        }
        let ghost all = steps_view(self.steps@);
        let mut i: usize = 0;
        assert(all.subrange(0, all.len() as int) =~= all);
        while i < self.steps.len()
            invariant
                i <= self.steps@.len(),
                self.metadata_version == SUPPORTED_META_VERSION,
                all == steps_view(self.steps@),
                first_unsupported(all) == first_unsupported(
                    all.subrange(i as int, all.len() as int),
                ),
            decreases self.steps@.len() - i,
        {
            proof {
                let rest = all.subrange(i as int, all.len() as int);
                assert(rest[0] == all[i as int]);
                assert(all[i as int] == self.steps@[i as int]@);
            }
            if self.steps[i].is_unsupported() {
                return Err(Error::UnsupportedFeature(self.steps[i].duplicate()));
            }
            assert(all.subrange(i as int, all.len() as int).skip(1) =~= all.subrange(
                i + 1,
                all.len() as int,
            ));
            i = i + 1;
        }
        Ok(())
    }

    /// Reads a descriptor from a JSON document and checks that it can be
    /// run.
    pub fn from_document(doc: &Json) -> (r: Result<FlashConfig, Error>)
        ensures
            reads_as(r, doc@),
            r is Ok ==> r->Ok_0@.wf(),
    {
        proof {
            if decode_config(doc@) is Some {
                law_read_is_well_formed(doc@);
            }
        }
        match read_config(doc) {
            None => Err(malformed("the document is not a flash descriptor")),
            Some(config) => match config.check_config_supported() {
                Err(e) => Err(e),
                Ok(_) => Ok(config),
            },
        }
    }

    /// Reads a descriptor from JSON text and checks that it can be run.
    ///
    /// Text that is no JSON document is refused with an error of the kind
    /// `Json`; what the document must hold is told by [`reads_as`].
    pub fn from_standalone(json: &str) -> (r: Result<FlashConfig, Error>)
        ensures
            match json_document(json@) {
                None => r is Err && r->Err_0 is Json,
                Some(doc) => reads_as(r, doc),
            },
            r is Ok ==> r->Ok_0@.wf(),
    {
        match parse_value(json) {
            Err(message) => Err(Error::Json(message)),
            Ok(value) => {
                let doc = tree_of(&value);
                FlashConfig::from_document(&doc)
            },
        }
    }

    /// The number of steps of the program.
    pub fn num_steps(&self) -> (n: usize)
        ensures
            n == self@.steps.len(),
    {
        self.steps.len()
    }
}

} // verus!
