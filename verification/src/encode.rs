//! Writing a flash program as a JSON tree, and the proof that reading it
//! back gives the same program.
//!
//! Optional members that hold nothing are left out.

use crate::config::{
    BL2BootView, DataOrFileView, FlashConfigView, FlashStepView, MetaFileView,
    RestorePartitionView, StringOrFileView, WaitView, WriteAMLCDataView, WriteLargeMemoryView,
    WriteSimpleMemoryView,
};
use crate::json::{member, JsonView};
use crate::schema::{
    distinct_names, last_of_each, lemma_member_found, seed_of, decode_config, decode_steps, decode_variables, optional_variables, steps_member, decode_step, decode_tagged, decode_bl2_boot, decode_read, decode_restore, decode_run, decode_wait, decode_write_amlc, decode_write_large, decode_write_simple,
    as_count, count_member, data_member, decode_bytes, decode_data_or_file, decode_meta_file,
    decode_string_or_file, object_member, optional_flag_member, optional_text_member, text_member,
};
use vstd::prelude::*;

verus! {

/// The members `rest` behind a member called `key`.
pub open spec fn with(key: Seq<char>, value: JsonView, rest: Seq<(Seq<char>, JsonView)>) -> Seq<
    (Seq<char>, JsonView),
> {
    seq![(key, value)] + rest
}

/// The members `rest` behind a member called `key`, if it holds something.
pub open spec fn with_optional(
    key: Seq<char>,
    value: Option<JsonView>,
    rest: Seq<(Seq<char>, JsonView)>,
) -> Seq<(Seq<char>, JsonView)> {
    match value {
        Some(v) => with(key, v, rest),
        None => rest,
    }
}

/// No members.
pub open spec fn no_members() -> Seq<(Seq<char>, JsonView)> {
    Seq::empty()
}

/// An optional text as an optional JSON string.
pub open spec fn optional_text(text: Option<Seq<char>>) -> Option<JsonView> {
    match text {
        Some(t) => Some(JsonView::Text(t)),
        None => None,
    }
}

/// An optional boolean as an optional JSON boolean.
pub open spec fn optional_flag(flag: Option<bool>) -> Option<JsonView> {
    match flag {
        Some(b) => Some(JsonView::Bool(b)),
        None => None,
    }
}

/// A number as a JSON number.
pub open spec fn count(n: int) -> JsonView {
    JsonView::Number(Some(n as u64))
}

/// Looking a member up behind another: the one in front is found first.
pub proof fn lemma_member_with(
    key: Seq<char>,
    value: JsonView,
    rest: Seq<(Seq<char>, JsonView)>,
    wanted: Seq<char>,
)
    ensures
        member(with(key, value, rest), wanted) == if key == wanted {
            Some(value)
        } else {
            member(rest, wanted)
        },
{
    assert(with(key, value, rest).skip(1) =~= rest);
}

/// Looking a member up behind an optional one.
pub proof fn lemma_member_with_optional(
    key: Seq<char>,
    value: Option<JsonView>,
    rest: Seq<(Seq<char>, JsonView)>,
    wanted: Seq<char>,
)
    ensures
        member(with_optional(key, value, rest), wanted) == if key == wanted && value is Some {
            value
        } else {
            member(rest, wanted)
        },
{
    if value is Some {
        lemma_member_with(key, value->Some_0, rest, wanted);
    }
}

/// The members `rest` behind a member called `key`, with every lookup among
/// them: the member in front is found first, any other name is looked up
/// among the rest.
pub proof fn front(key: Seq<char>, value: JsonView, rest: Seq<(Seq<char>, JsonView)>) -> (m: Seq<
    (Seq<char>, JsonView),
>)
    ensures
        m == with(key, value, rest),
        forall|wanted: Seq<char>|
            #[trigger] member(with(key, value, rest), wanted) == if key == wanted {
                Some(value)
            } else {
                member(rest, wanted)
            },
{
    assert forall|wanted: Seq<char>|
        #[trigger] member(with(key, value, rest), wanted) == if key == wanted {
            Some(value)
        } else {
            member(rest, wanted)
        } by {
        lemma_member_with(key, value, rest, wanted);
    }
    with(key, value, rest)
}

/// The members `rest` behind an optional member called `key`, with every
/// lookup among them.
pub proof fn front_optional(
    key: Seq<char>,
    value: Option<JsonView>,
    rest: Seq<(Seq<char>, JsonView)>,
) -> (m: Seq<(Seq<char>, JsonView)>)
    ensures
        m == with_optional(key, value, rest),
        forall|wanted: Seq<char>|
            #[trigger] member(with_optional(key, value, rest), wanted) == if key == wanted
                && value is Some {
                value
            } else {
                member(rest, wanted)
            },
{
    assert forall|wanted: Seq<char>|
        #[trigger] member(with_optional(key, value, rest), wanted) == if key == wanted
            && value is Some {
            value
        } else {
            member(rest, wanted)
        } by {
        lemma_member_with_optional(key, value, rest, wanted);
    }
    with_optional(key, value, rest)
}

/// A file reference as a JSON object.
pub open spec fn encode_meta_file(file: MetaFileView) -> JsonView {
    JsonView::Object(
        with(
            "filePath"@,
            JsonView::Text(file.file_path),
            with_optional("encoding"@, optional_text(file.encoding), no_members()),
        ),
    )
}

/// Bytes as a JSON array of numbers.
pub open spec fn encode_bytes(bytes: Seq<u8>) -> Seq<JsonView> {
    Seq::new(bytes.len(), |i: int| count(bytes[i] as int))
}

/// Data as a JSON array of bytes, or as a file reference.
pub open spec fn encode_data_or_file(data: DataOrFileView) -> JsonView {
    match data {
        DataOrFileView::Data(bytes) => JsonView::Array(encode_bytes(bytes)),
        DataOrFileView::File(file) => encode_meta_file(file),
    }
}

/// Text as a JSON string, or as a file reference.
pub open spec fn encode_string_or_file(text: StringOrFileView) -> JsonView {
    match text {
        StringOrFileView::String(t) => JsonView::Text(t),
        StringOrFileView::File(file) => encode_meta_file(file),
    }
}

/// A file reference is read back as it was written.
pub proof fn lemma_meta_file_round_trip(file: MetaFileView)
    ensures
        decode_meta_file(encode_meta_file(file)) == Some(file),
{
    reveal_strlit("filePath");
    reveal_strlit("encoding");
    let m1 = front_optional("encoding"@, optional_text(file.encoding), no_members());
    let m0 = front("filePath"@, JsonView::Text(file.file_path), m1);
    assert("filePath"@.len() != "encoding"@.len() || "filePath"@[0] != "encoding"@[0]);
}

/// Data is read back as it was written.
pub proof fn lemma_data_round_trip(data: DataOrFileView)
    ensures
        decode_data_or_file(encode_data_or_file(data)) == Some(data),
{
    match data {
        DataOrFileView::Data(bytes) => {
            let items = encode_bytes(bytes);
            assert forall|i: int| 0 <= i < items.len() implies as_count(
                #[trigger] items[i],
                255,
            ) is Some by {}
            assert(decode_bytes(items)->Some_0 =~= bytes);
        },
        DataOrFileView::File(file) => {
            lemma_meta_file_round_trip(file);
        },
    }
}

/// Text is read back as it was written.
pub proof fn lemma_text_round_trip(text: StringOrFileView)
    ensures
        decode_string_or_file(encode_string_or_file(text)) == Some(text),
{
    match text {
        StringOrFileView::String(t) => {},
        StringOrFileView::File(file) => {
            lemma_meta_file_round_trip(file);
        },
    }
}

/// The members that hold the parameters of a `run` step.
pub open spec fn encode_run(value: (u32, Option<bool>)) -> Seq<(Seq<char>, JsonView)> {
    with("address"@, count(value.0 as int), with_optional("keepPower"@, optional_flag(value.1), no_members()))
}

/// The parameters of a `run` step are read back as they were written.
pub proof fn lemma_run_round_trip(value: (u32, Option<bool>))
    ensures
        decode_run(encode_run(value)) == Some(value),
{
    reveal_strlit("address");
    reveal_strlit("keepPower");
    let m2 = no_members();
    let m1 = front_optional("keepPower"@, optional_flag(value.1), m2);
    let m0 = front("address"@, count(value.0 as int), m1);
    assert("address"@.len() != "keepPower"@.len());
    assert(encode_run(value) == m0);
}

/// The members that hold the parameters of a `writeSimpleMemory` step.
pub open spec fn encode_write_simple(value: WriteSimpleMemoryView) -> Seq<(Seq<char>, JsonView)> {
    with("address"@, count(value.address as int), with("data"@, encode_data_or_file(value.data), no_members()))
}

/// The parameters of a `writeSimpleMemory` step are read back as they were written.
pub proof fn lemma_write_simple_round_trip(value: WriteSimpleMemoryView)
    ensures
        decode_write_simple(encode_write_simple(value)) == Some(value),
{
    reveal_strlit("address");
    reveal_strlit("data");
    let m2 = no_members();
    let m1 = front("data"@, encode_data_or_file(value.data), m2);
    let m0 = front("address"@, count(value.address as int), m1);
    assert("address"@.len() != "data"@.len());
    assert(encode_write_simple(value) == m0);
    lemma_data_round_trip(value.data);
}

/// The members that hold the parameters of a `writeLargeMemory` step.
pub open spec fn encode_write_large(value: WriteLargeMemoryView) -> Seq<(Seq<char>, JsonView)> {
    with("address"@, count(value.address as int), with("data"@, encode_data_or_file(value.data), with("blockLength"@, count(value.block_length as int), with_optional("appendZeros"@, optional_flag(value.append_zeros), no_members()))))
}

/// The parameters of a `writeLargeMemory` step are read back as they were written.
pub proof fn lemma_write_large_round_trip(value: WriteLargeMemoryView)
    ensures
        decode_write_large(encode_write_large(value)) == Some(value),
{
    reveal_strlit("address");
    reveal_strlit("data");
    reveal_strlit("blockLength");
    reveal_strlit("appendZeros");
    let m4 = no_members();
    let m3 = front_optional("appendZeros"@, optional_flag(value.append_zeros), m4);
    let m2 = front("blockLength"@, count(value.block_length as int), m3);
    let m1 = front("data"@, encode_data_or_file(value.data), m2);
    let m0 = front("address"@, count(value.address as int), m1);
    assert("address"@.len() != "data"@.len());
    assert("address"@.len() != "blockLength"@.len());
    assert("address"@.len() != "appendZeros"@.len());
    assert("data"@.len() != "blockLength"@.len());
    assert("data"@.len() != "appendZeros"@.len());
    assert("blockLength"@[0] != "appendZeros"@[0]);
    assert(encode_write_large(value) == m0);
    lemma_data_round_trip(value.data);
}

/// The members that hold the parameters of a read step.
pub open spec fn encode_read(value: (u32, usize)) -> Seq<(Seq<char>, JsonView)> {
    with("address"@, count(value.0 as int), with("length"@, count(value.1 as int), no_members()))
}

/// The parameters of a read step are read back as they were written.
pub proof fn lemma_read_round_trip(value: (u32, usize))
    ensures
        decode_read(encode_read(value)) == Some(value),
{
    reveal_strlit("address");
    reveal_strlit("length");
    let m2 = no_members();
    let m1 = front("length"@, count(value.1 as int), m2);
    let m0 = front("address"@, count(value.0 as int), m1);
    assert("address"@.len() != "length"@.len());
    assert(encode_read(value) == m0);
}

/// The members that hold the parameters of a `writeAMLCData` step.
pub open spec fn encode_write_amlc(value: WriteAMLCDataView) -> Seq<(Seq<char>, JsonView)> {
    with("seq"@, count(value.seq as int), with("amlcOffset"@, count(value.amlc_offset as int), with("data"@, encode_data_or_file(value.data), no_members())))
}

/// The parameters of a `writeAMLCData` step are read back as they were written.
pub proof fn lemma_write_amlc_round_trip(value: WriteAMLCDataView)
    ensures
        decode_write_amlc(encode_write_amlc(value)) == Some(value),
{
    reveal_strlit("seq");
    reveal_strlit("amlcOffset");
    reveal_strlit("data");
    let m3 = no_members();
    let m2 = front("data"@, encode_data_or_file(value.data), m3);
    let m1 = front("amlcOffset"@, count(value.amlc_offset as int), m2);
    let m0 = front("seq"@, count(value.seq as int), m1);
    assert("seq"@.len() != "amlcOffset"@.len());
    assert("seq"@.len() != "data"@.len());
    assert("amlcOffset"@.len() != "data"@.len());
    assert(encode_write_amlc(value) == m0);
    lemma_data_round_trip(value.data);
}

/// The members that hold the parameters of a `bl2Boot` step.
pub open spec fn encode_bl2_boot(value: BL2BootView) -> Seq<(Seq<char>, JsonView)> {
    with("bl2"@, encode_data_or_file(value.bl2), with("bootloader"@, encode_data_or_file(value.bootloader), no_members()))
}

/// The parameters of a `bl2Boot` step are read back as they were written.
pub proof fn lemma_bl2_boot_round_trip(value: BL2BootView)
    ensures
        decode_bl2_boot(encode_bl2_boot(value)) == Some(value),
{
    reveal_strlit("bl2");
    reveal_strlit("bootloader");
    let m2 = no_members();
    let m1 = front("bootloader"@, encode_data_or_file(value.bootloader), m2);
    let m0 = front("bl2"@, encode_data_or_file(value.bl2), m1);
    assert("bl2"@.len() != "bootloader"@.len());
    assert(encode_bl2_boot(value) == m0);
    lemma_data_round_trip(value.bl2);
    lemma_data_round_trip(value.bootloader);
}

/// The members that hold the parameters of a `restorePartition` step.
pub open spec fn encode_restore(value: RestorePartitionView) -> Seq<(Seq<char>, JsonView)> {
    with("name"@, JsonView::Text(value.name), with("data"@, encode_data_or_file(value.data), no_members()))
}

/// The parameters of a `restorePartition` step are read back as they were written.
pub proof fn lemma_restore_round_trip(value: RestorePartitionView)
    ensures
        decode_restore(encode_restore(value)) == Some(value),
{
    reveal_strlit("name");
    reveal_strlit("data");
    let m2 = no_members();
    let m1 = front("data"@, encode_data_or_file(value.data), m2);
    let m0 = front("name"@, JsonView::Text(value.name), m1);
    assert("name"@[0] != "data"@[0]);
    assert(encode_restore(value) == m0);
    lemma_data_round_trip(value.data);
}

/// The members that hold what a `wait` step waits for.
pub open spec fn encode_wait(value: WaitView) -> Seq<(Seq<char>, JsonView)> {
    match value {
        WaitView::UserInput { message } => with(
            "type"@,
            JsonView::Text("userInput"@),
            with("message"@, JsonView::Text(message), no_members()),
        ),
        WaitView::Time { time } => with(
            "type"@,
            JsonView::Text("time"@),
            with("time"@, count(time as int), no_members()),
        ),
    }
}

/// What a `wait` step waits for is read back as it was written.
pub proof fn lemma_wait_round_trip(value: WaitView)
    ensures
        decode_wait(encode_wait(value)) == Some(value),
{
    reveal_strlit("userInput");
    reveal_strlit("time");
    assert("userInput"@.len() != "time"@.len());
    match value {
        WaitView::UserInput { message } => {
            reveal_strlit("type");
            reveal_strlit("message");
            let m2 = no_members();
            let m1 = front("message"@, JsonView::Text(message), m2);
            let m0 = front("type"@, JsonView::Text("userInput"@), m1);
            assert("type"@.len() != "message"@.len());
            assert(encode_wait(value) == m0);
        },
        WaitView::Time { time } => {
            reveal_strlit("type");
            reveal_strlit("time");
            let m2 = no_members();
            let m1 = front("time"@, count(time as int), m2);
            let m0 = front("type"@, JsonView::Text("time"@), m1);
            assert("type"@[1] != "time"@[1]);
            assert(encode_wait(value) == m0);
        },
    }
}

/// A step as a JSON object: its kind under `type`, then its members.
pub open spec fn encode_step(step: FlashStepView) -> JsonView {
    match step {
        FlashStepView::Identify { variable } => JsonView::Object(
            with("type"@, JsonView::Text("identify"@), with_optional("variable"@, optional_text(variable), no_members())),
        ),
        FlashStepView::Bulkcmd { value } => JsonView::Object(
            with("type"@, JsonView::Text("bulkcmd"@), with("value"@, JsonView::Text(value), no_members())),
        ),
        FlashStepView::BulkcmdStat { value, variable } => JsonView::Object(
            with("type"@, JsonView::Text("bulkcmdStat"@), with("value"@, JsonView::Text(value), with_optional("variable"@, optional_text(variable), no_members()))),
        ),
        FlashStepView::Run { value } => JsonView::Object(
            with("type"@, JsonView::Text("run"@), with("value"@, JsonView::Object(encode_run(value)), no_members())),
        ),
        FlashStepView::WriteSimpleMemory { value } => JsonView::Object(
            with("type"@, JsonView::Text("writeSimpleMemory"@), with("value"@, JsonView::Object(encode_write_simple(value)), no_members())),
        ),
        FlashStepView::WriteLargeMemory { value } => JsonView::Object(
            with("type"@, JsonView::Text("writeLargeMemory"@), with("value"@, JsonView::Object(encode_write_large(value)), no_members())),
        ),
        FlashStepView::ReadSimpleMemory { value, variable } => JsonView::Object(
            with("type"@, JsonView::Text("readSimpleMemory"@), with("value"@, JsonView::Object(encode_read(value)), with_optional("variable"@, optional_text(variable), no_members()))),
        ),
        FlashStepView::ReadLargeMemory { value, variable } => JsonView::Object(
            with("type"@, JsonView::Text("readLargeMemory"@), with("value"@, JsonView::Object(encode_read(value)), with_optional("variable"@, optional_text(variable), no_members()))),
        ),
        FlashStepView::GetBootAMLC { variable } => JsonView::Object(
            with("type"@, JsonView::Text("getBootAMLC"@), with_optional("variable"@, optional_text(variable), no_members())),
        ),
        FlashStepView::WriteAMLCData { value } => JsonView::Object(
            with("type"@, JsonView::Text("writeAMLCData"@), with("value"@, JsonView::Object(encode_write_amlc(value)), no_members())),
        ),
        FlashStepView::Bl2Boot { value } => JsonView::Object(
            with("type"@, JsonView::Text("bl2Boot"@), with("value"@, JsonView::Object(encode_bl2_boot(value)), no_members())),
        ),
        FlashStepView::ValidatePartitionSize { value, variable } => JsonView::Object(
            with("type"@, JsonView::Text("validatePartitionSize"@), with("value"@, JsonView::Object(with("name"@, JsonView::Text(value), no_members())), with_optional("variable"@, optional_text(variable), no_members()))),
        ),
        FlashStepView::RestorePartition { value } => JsonView::Object(
            with("type"@, JsonView::Text("restorePartition"@), with("value"@, JsonView::Object(encode_restore(value)), no_members())),
        ),
        FlashStepView::WriteEnv { value } => JsonView::Object(
            with("type"@, JsonView::Text("writeEnv"@), with("value"@, encode_string_or_file(value), no_members())),
        ),
        FlashStepView::Log { value } => JsonView::Object(
            with("type"@, JsonView::Text("log"@), with("value"@, JsonView::Text(value), no_members())),
        ),
        FlashStepView::Wait { value } => JsonView::Object(
            with("type"@, JsonView::Text("wait"@), with("value"@, JsonView::Object(encode_wait(value)), no_members())),
        ),
    }
}

/// A step is read back as it was written.
pub proof fn lemma_step_round_trip(step: FlashStepView)
    ensures
        decode_step(encode_step(step)) == Some(step),
{
    reveal_strlit("type");
    reveal_strlit("value");
    reveal_strlit("variable");
    reveal_strlit("identify");
    reveal_strlit("bulkcmd");
    reveal_strlit("bulkcmdStat");
    reveal_strlit("run");
    reveal_strlit("writeSimpleMemory");
    reveal_strlit("writeLargeMemory");
    reveal_strlit("readSimpleMemory");
    reveal_strlit("readLargeMemory");
    reveal_strlit("getBootAMLC");
    reveal_strlit("writeAMLCData");
    reveal_strlit("bl2Boot");
    reveal_strlit("validatePartitionSize");
    reveal_strlit("restorePartition");
    reveal_strlit("writeEnv");
    reveal_strlit("log");
    reveal_strlit("wait");
    match step {
        FlashStepView::Identify { variable } => {
            let m2 = no_members();
            let m1 = front_optional("variable"@, optional_text(variable), m2);
            let m0 = front("type"@, JsonView::Text("identify"@), m1);
            assert("type"@.len() != "variable"@.len());
            assert(encode_step(step) == JsonView::Object(m0));
        },
        FlashStepView::Bulkcmd { value } => {
            assert("bulkcmd"@.len() != "identify"@.len());
            let m2 = no_members();
            let m1 = front("value"@, JsonView::Text(value), m2);
            let m0 = front("type"@, JsonView::Text("bulkcmd"@), m1);
            assert("type"@.len() != "value"@.len());
            assert(encode_step(step) == JsonView::Object(m0));
        },
        FlashStepView::BulkcmdStat { value, variable } => {
            assert("bulkcmdStat"@.len() != "identify"@.len());
            assert("bulkcmdStat"@.len() != "bulkcmd"@.len());
            let m3 = no_members();
            let m2 = front_optional("variable"@, optional_text(variable), m3);
            let m1 = front("value"@, JsonView::Text(value), m2);
            let m0 = front("type"@, JsonView::Text("bulkcmdStat"@), m1);
            assert("type"@.len() != "value"@.len());
            assert("type"@.len() != "variable"@.len());
            assert("value"@.len() != "variable"@.len());
            assert(encode_step(step) == JsonView::Object(m0));
        },
        FlashStepView::Run { value } => {
            assert("run"@.len() != "identify"@.len());
            assert("run"@.len() != "bulkcmd"@.len());
            assert("run"@.len() != "bulkcmdStat"@.len());
            let m2 = no_members();
            let m1 = front("value"@, JsonView::Object(encode_run(value)), m2);
            let m0 = front("type"@, JsonView::Text("run"@), m1);
            assert("type"@.len() != "value"@.len());
            assert(encode_step(step) == JsonView::Object(m0));
            lemma_run_round_trip(value);
        },
        FlashStepView::WriteSimpleMemory { value } => {
            assert("writeSimpleMemory"@.len() != "identify"@.len());
            assert("writeSimpleMemory"@.len() != "bulkcmd"@.len());
            assert("writeSimpleMemory"@.len() != "bulkcmdStat"@.len());
            assert("writeSimpleMemory"@.len() != "run"@.len());
            let m2 = no_members();
            let m1 = front("value"@, JsonView::Object(encode_write_simple(value)), m2);
            let m0 = front("type"@, JsonView::Text("writeSimpleMemory"@), m1);
            assert("type"@.len() != "value"@.len());
            assert(encode_step(step) == JsonView::Object(m0));
            lemma_write_simple_round_trip(value);
        },
        FlashStepView::WriteLargeMemory { value } => {
            assert("writeLargeMemory"@.len() != "identify"@.len());
            assert("writeLargeMemory"@.len() != "bulkcmd"@.len());
            assert("writeLargeMemory"@.len() != "bulkcmdStat"@.len());
            assert("writeLargeMemory"@.len() != "run"@.len());
            assert("writeLargeMemory"@.len() != "writeSimpleMemory"@.len());
            let m2 = no_members();
            let m1 = front("value"@, JsonView::Object(encode_write_large(value)), m2);
            let m0 = front("type"@, JsonView::Text("writeLargeMemory"@), m1);
            assert("type"@.len() != "value"@.len());
            assert(encode_step(step) == JsonView::Object(m0));
            lemma_write_large_round_trip(value);
        },
        FlashStepView::ReadSimpleMemory { value, variable } => {
            assert("readSimpleMemory"@.len() != "identify"@.len());
            assert("readSimpleMemory"@.len() != "bulkcmd"@.len());
            assert("readSimpleMemory"@.len() != "bulkcmdStat"@.len());
            assert("readSimpleMemory"@.len() != "run"@.len());
            assert("readSimpleMemory"@.len() != "writeSimpleMemory"@.len());
            assert("readSimpleMemory"@[0] != "writeLargeMemory"@[0]);
            let m3 = no_members();
            let m2 = front_optional("variable"@, optional_text(variable), m3);
            let m1 = front("value"@, JsonView::Object(encode_read(value)), m2);
            let m0 = front("type"@, JsonView::Text("readSimpleMemory"@), m1);
            assert("type"@.len() != "value"@.len());
            assert("type"@.len() != "variable"@.len());
            assert("value"@.len() != "variable"@.len());
            assert(encode_step(step) == JsonView::Object(m0));
            lemma_read_round_trip(value);
        },
        FlashStepView::ReadLargeMemory { value, variable } => {
            assert("readLargeMemory"@.len() != "identify"@.len());
            assert("readLargeMemory"@.len() != "bulkcmd"@.len());
            assert("readLargeMemory"@.len() != "bulkcmdStat"@.len());
            assert("readLargeMemory"@.len() != "run"@.len());
            assert("readLargeMemory"@.len() != "writeSimpleMemory"@.len());
            assert("readLargeMemory"@.len() != "writeLargeMemory"@.len());
            assert("readLargeMemory"@.len() != "readSimpleMemory"@.len());
            let m3 = no_members();
            let m2 = front_optional("variable"@, optional_text(variable), m3);
            let m1 = front("value"@, JsonView::Object(encode_read(value)), m2);
            let m0 = front("type"@, JsonView::Text("readLargeMemory"@), m1);
            assert("type"@.len() != "value"@.len());
            assert("type"@.len() != "variable"@.len());
            assert("value"@.len() != "variable"@.len());
            assert(encode_step(step) == JsonView::Object(m0));
            lemma_read_round_trip(value);
        },
        FlashStepView::GetBootAMLC { variable } => {
            assert("getBootAMLC"@.len() != "identify"@.len());
            assert("getBootAMLC"@.len() != "bulkcmd"@.len());
            assert("getBootAMLC"@[0] != "bulkcmdStat"@[0]);
            assert("getBootAMLC"@.len() != "run"@.len());
            assert("getBootAMLC"@.len() != "writeSimpleMemory"@.len());
            assert("getBootAMLC"@.len() != "writeLargeMemory"@.len());
            assert("getBootAMLC"@.len() != "readSimpleMemory"@.len());
            assert("getBootAMLC"@.len() != "readLargeMemory"@.len());
            let m2 = no_members();
            let m1 = front_optional("variable"@, optional_text(variable), m2);
            let m0 = front("type"@, JsonView::Text("getBootAMLC"@), m1);
            assert("type"@.len() != "variable"@.len());
            assert(encode_step(step) == JsonView::Object(m0));
        },
        FlashStepView::WriteAMLCData { value } => {
            assert("writeAMLCData"@.len() != "identify"@.len());
            assert("writeAMLCData"@.len() != "bulkcmd"@.len());
            assert("writeAMLCData"@.len() != "bulkcmdStat"@.len());
            assert("writeAMLCData"@.len() != "run"@.len());
            assert("writeAMLCData"@.len() != "writeSimpleMemory"@.len());
            assert("writeAMLCData"@.len() != "writeLargeMemory"@.len());
            assert("writeAMLCData"@.len() != "readSimpleMemory"@.len());
            assert("writeAMLCData"@.len() != "readLargeMemory"@.len());
            assert("writeAMLCData"@.len() != "getBootAMLC"@.len());
            let m2 = no_members();
            let m1 = front("value"@, JsonView::Object(encode_write_amlc(value)), m2);
            let m0 = front("type"@, JsonView::Text("writeAMLCData"@), m1);
            assert("type"@.len() != "value"@.len());
            assert(encode_step(step) == JsonView::Object(m0));
            lemma_write_amlc_round_trip(value);
        },
        FlashStepView::Bl2Boot { value } => {
            assert("bl2Boot"@.len() != "identify"@.len());
            assert("bl2Boot"@[1] != "bulkcmd"@[1]);
            assert("bl2Boot"@.len() != "bulkcmdStat"@.len());
            assert("bl2Boot"@.len() != "run"@.len());
            assert("bl2Boot"@.len() != "writeSimpleMemory"@.len());
            assert("bl2Boot"@.len() != "writeLargeMemory"@.len());
            assert("bl2Boot"@.len() != "readSimpleMemory"@.len());
            assert("bl2Boot"@.len() != "readLargeMemory"@.len());
            assert("bl2Boot"@.len() != "getBootAMLC"@.len());
            assert("bl2Boot"@.len() != "writeAMLCData"@.len());
            let m2 = no_members();
            let m1 = front("value"@, JsonView::Object(encode_bl2_boot(value)), m2);
            let m0 = front("type"@, JsonView::Text("bl2Boot"@), m1);
            assert("type"@.len() != "value"@.len());
            assert(encode_step(step) == JsonView::Object(m0));
            lemma_bl2_boot_round_trip(value);
        },
        FlashStepView::ValidatePartitionSize { value, variable } => {
            assert("validatePartitionSize"@.len() != "identify"@.len());
            assert("validatePartitionSize"@.len() != "bulkcmd"@.len());
            assert("validatePartitionSize"@.len() != "bulkcmdStat"@.len());
            assert("validatePartitionSize"@.len() != "run"@.len());
            assert("validatePartitionSize"@.len() != "writeSimpleMemory"@.len());
            assert("validatePartitionSize"@.len() != "writeLargeMemory"@.len());
            assert("validatePartitionSize"@.len() != "readSimpleMemory"@.len());
            assert("validatePartitionSize"@.len() != "readLargeMemory"@.len());
            assert("validatePartitionSize"@.len() != "getBootAMLC"@.len());
            assert("validatePartitionSize"@.len() != "writeAMLCData"@.len());
            assert("validatePartitionSize"@.len() != "bl2Boot"@.len());
            let m3 = no_members();
            let m2 = front_optional("variable"@, optional_text(variable), m3);
            let m1 = front("value"@, JsonView::Object(with("name"@, JsonView::Text(value), no_members())), m2);
            let m0 = front("type"@, JsonView::Text("validatePartitionSize"@), m1);
            assert("type"@.len() != "value"@.len());
            assert("type"@.len() != "variable"@.len());
            assert("value"@.len() != "variable"@.len());
            assert(encode_step(step) == JsonView::Object(m0));
            reveal_strlit("name");
            lemma_member_with("name"@, JsonView::Text(value), no_members(), "name"@);
        },
        FlashStepView::RestorePartition { value } => {
            assert("restorePartition"@.len() != "identify"@.len());
            assert("restorePartition"@.len() != "bulkcmd"@.len());
            assert("restorePartition"@.len() != "bulkcmdStat"@.len());
            assert("restorePartition"@.len() != "run"@.len());
            assert("restorePartition"@.len() != "writeSimpleMemory"@.len());
            assert("restorePartition"@[0] != "writeLargeMemory"@[0]);
            assert("restorePartition"@[2] != "readSimpleMemory"@[2]);
            assert("restorePartition"@.len() != "readLargeMemory"@.len());
            assert("restorePartition"@.len() != "getBootAMLC"@.len());
            assert("restorePartition"@.len() != "writeAMLCData"@.len());
            assert("restorePartition"@.len() != "bl2Boot"@.len());
            assert("restorePartition"@.len() != "validatePartitionSize"@.len());
            let m2 = no_members();
            let m1 = front("value"@, JsonView::Object(encode_restore(value)), m2);
            let m0 = front("type"@, JsonView::Text("restorePartition"@), m1);
            assert("type"@.len() != "value"@.len());
            assert(encode_step(step) == JsonView::Object(m0));
            lemma_restore_round_trip(value);
        },
        FlashStepView::WriteEnv { value } => {
            assert("writeEnv"@[0] != "identify"@[0]);
            assert("writeEnv"@.len() != "bulkcmd"@.len());
            assert("writeEnv"@.len() != "bulkcmdStat"@.len());
            assert("writeEnv"@.len() != "run"@.len());
            assert("writeEnv"@.len() != "writeSimpleMemory"@.len());
            assert("writeEnv"@.len() != "writeLargeMemory"@.len());
            assert("writeEnv"@.len() != "readSimpleMemory"@.len());
            assert("writeEnv"@.len() != "readLargeMemory"@.len());
            assert("writeEnv"@.len() != "getBootAMLC"@.len());
            assert("writeEnv"@.len() != "writeAMLCData"@.len());
            assert("writeEnv"@.len() != "bl2Boot"@.len());
            assert("writeEnv"@.len() != "validatePartitionSize"@.len());
            assert("writeEnv"@.len() != "restorePartition"@.len());
            let m2 = no_members();
            let m1 = front("value"@, encode_string_or_file(value), m2);
            let m0 = front("type"@, JsonView::Text("writeEnv"@), m1);
            assert("type"@.len() != "value"@.len());
            assert(encode_step(step) == JsonView::Object(m0));
            lemma_text_round_trip(value);
        },
        FlashStepView::Log { value } => {
            assert("log"@.len() != "identify"@.len());
            assert("log"@.len() != "bulkcmd"@.len());
            assert("log"@.len() != "bulkcmdStat"@.len());
            assert("log"@[0] != "run"@[0]);
            assert("log"@.len() != "writeSimpleMemory"@.len());
            assert("log"@.len() != "writeLargeMemory"@.len());
            assert("log"@.len() != "readSimpleMemory"@.len());
            assert("log"@.len() != "readLargeMemory"@.len());
            assert("log"@.len() != "getBootAMLC"@.len());
            assert("log"@.len() != "writeAMLCData"@.len());
            assert("log"@.len() != "bl2Boot"@.len());
            assert("log"@.len() != "validatePartitionSize"@.len());
            assert("log"@.len() != "restorePartition"@.len());
            assert("log"@.len() != "writeEnv"@.len());
            let m2 = no_members();
            let m1 = front("value"@, JsonView::Text(value), m2);
            let m0 = front("type"@, JsonView::Text("log"@), m1);
            assert("type"@.len() != "value"@.len());
            assert(encode_step(step) == JsonView::Object(m0));
        },
        FlashStepView::Wait { value } => {
            assert("wait"@.len() != "identify"@.len());
            assert("wait"@.len() != "bulkcmd"@.len());
            assert("wait"@.len() != "bulkcmdStat"@.len());
            assert("wait"@.len() != "run"@.len());
            assert("wait"@.len() != "writeSimpleMemory"@.len());
            assert("wait"@.len() != "writeLargeMemory"@.len());
            assert("wait"@.len() != "readSimpleMemory"@.len());
            assert("wait"@.len() != "readLargeMemory"@.len());
            assert("wait"@.len() != "getBootAMLC"@.len());
            assert("wait"@.len() != "writeAMLCData"@.len());
            assert("wait"@.len() != "bl2Boot"@.len());
            assert("wait"@.len() != "validatePartitionSize"@.len());
            assert("wait"@.len() != "restorePartition"@.len());
            assert("wait"@.len() != "writeEnv"@.len());
            assert("wait"@.len() != "log"@.len());
            let m2 = no_members();
            let m1 = front("value"@, JsonView::Object(encode_wait(value)), m2);
            let m0 = front("type"@, JsonView::Text("wait"@), m1);
            assert("type"@.len() != "value"@.len());
            assert(encode_step(step) == JsonView::Object(m0));
            lemma_wait_round_trip(value);
        },
    }
}

/// The steps of a program as JSON values, in order.
pub open spec fn encode_steps(steps: Seq<FlashStepView>) -> Seq<JsonView> {
    Seq::new(steps.len(), |i: int| encode_step(steps[i]))
}

/// The seeds of the variables as the members of a JSON object, in order.
pub open spec fn encode_variables(seeds: Seq<(Seq<char>, usize)>) -> Seq<(Seq<char>, JsonView)> {
    Seq::new(seeds.len(), |i: int| (seeds[i].0, count(seeds[i].1 as int)))
}

/// The variables of a descriptor as an optional JSON object.
pub open spec fn optional_variables_object(seeds: Option<Seq<(Seq<char>, usize)>>) -> Option<
    JsonView,
> {
    match seeds {
        Some(s) => Some(JsonView::Object(encode_variables(s))),
        None => None,
    }
}

/// A descriptor as a JSON object.
pub open spec fn encode_config(config: FlashConfigView) -> JsonView {
    JsonView::Object(
        with("name"@, JsonView::Text(config.name), with("version"@, JsonView::Text(config.version), with("description"@, JsonView::Text(config.description), with("steps"@, JsonView::Array(encode_steps(config.steps)), with_optional("variables"@, optional_variables_object(config.variables), with("metadataVersion"@, count(config.metadata_version as int), no_members())))))),
    )
}

/// The steps of a program are read back as they were written.
pub proof fn lemma_steps_round_trip(steps: Seq<FlashStepView>)
    ensures
        decode_steps(encode_steps(steps)) == Some(steps),
{
    let items = encode_steps(steps);
    assert forall|i: int| 0 <= i < items.len() implies decode_step(#[trigger] items[i]) == Some(
        steps[i],
    ) by {
        lemma_step_round_trip(steps[i]);
    }
    assert(decode_steps(items)->Some_0 =~= steps);
}

/// No member of written seeds has a name that none of the seeds has.
pub proof fn lemma_written_names(seeds: Seq<(Seq<char>, usize)>, key: Seq<char>)
    requires
        forall|i: int| 0 <= i < seeds.len() ==> (#[trigger] seeds[i]).0 != key,
    ensures
        member(encode_variables(seeds), key) is None,
{
    let m = encode_variables(seeds);
    lemma_member_found(m, key);
    if member(m, key) is Some {
        let i = choose|i: int| 0 <= i < m.len() && (#[trigger] m[i]).0 == key;
        assert(seeds[i].0 == key);
    }
}

/// Seeds among which no name occurs twice are read back as they were
/// written.
pub proof fn lemma_variables_round_trip(seeds: Seq<(Seq<char>, usize)>)
    requires
        distinct_names(seeds),
    ensures
        decode_variables(encode_variables(seeds)) == Some(seeds),
    decreases seeds.len(),
{
    let m = encode_variables(seeds);
    assert forall|i: int| 0 <= i < m.len() implies as_count(
        (#[trigger] m[i]).1,
        usize::MAX as u64,
    ) is Some by {}
    if seeds.len() == 0 {
        assert(last_of_each(m) =~= seeds);
    } else {
        let tail = seeds.skip(1);
        assert(m.skip(1) =~= encode_variables(tail));
        assert(distinct_names(tail)) by {
            assert forall|i: int, j: int| 0 <= i < j < tail.len() implies tail[i].0
                != tail[j].0 by {
                assert(tail[i] == seeds[i + 1] && tail[j] == seeds[j + 1]);
            }
        }
        lemma_variables_round_trip(tail);
        assert forall|i: int| 0 <= i < tail.len() implies (#[trigger] tail[i]).0
            != seeds[0].0 by {
            assert(tail[i] == seeds[i + 1]);
        }
        lemma_written_names(tail, seeds[0].0);
        assert(seed_of(m[0]) == seeds[0]);
        assert(last_of_each(m) =~= seeds);
    }
}

/// Reading is the inverse of writing: every descriptor that names no
/// variable twice, written as a JSON document and read back, is the descriptor
/// that was written, with the same steps in the same order.
pub proof fn law_round_trip(config: FlashConfigView)
    requires
        config.wf(),
    ensures
        decode_config(encode_config(config)) == Some(config),
        decode_config(encode_config(config))->Some_0.steps == config.steps,
{
    reveal_strlit("name");
    reveal_strlit("version");
    reveal_strlit("description");
    reveal_strlit("steps");
    reveal_strlit("variables");
    reveal_strlit("metadataVersion");
    let m6 = no_members();
    let m5 = front("metadataVersion"@, count(config.metadata_version as int), m6);
    let m4 = front_optional("variables"@, optional_variables_object(config.variables), m5);
    let m3 = front("steps"@, JsonView::Array(encode_steps(config.steps)), m4);
    let m2 = front("description"@, JsonView::Text(config.description), m3);
    let m1 = front("version"@, JsonView::Text(config.version), m2);
    let m0 = front("name"@, JsonView::Text(config.name), m1);
    assert("name"@.len() != "version"@.len());
    assert("name"@.len() != "description"@.len());
    assert("name"@.len() != "steps"@.len());
    assert("name"@.len() != "variables"@.len());
    assert("name"@.len() != "metadataVersion"@.len());
    assert("version"@.len() != "description"@.len());
    assert("version"@.len() != "steps"@.len());
    assert("version"@.len() != "variables"@.len());
    assert("version"@.len() != "metadataVersion"@.len());
    assert("description"@.len() != "steps"@.len());
    assert("description"@.len() != "variables"@.len());
    assert("description"@.len() != "metadataVersion"@.len());
    assert("steps"@.len() != "variables"@.len());
    assert("steps"@.len() != "metadataVersion"@.len());
    assert("variables"@.len() != "metadataVersion"@.len());
    assert(encode_config(config) == JsonView::Object(m0));
    lemma_steps_round_trip(config.steps);
    if config.variables is Some {
        lemma_variables_round_trip(config.variables->Some_0);
    }
}

} // verus!
