//! The schema of the flash descriptor: how a JSON document is read as a
//! flash program.
//!
//! Keys are in camel case. Members that the schema does not name are passed
//! over. An optional member may be missing or `null`.

use crate::config::{
    BL2BootView, DataOrFileView, FlashConfigView, FlashStepView, MetaFileView,
    RestorePartitionView, StringOrFileView, WaitView, WriteAMLCDataView, WriteLargeMemoryView,
    WriteSimpleMemoryView,
};
use crate::json::{member, JsonView};
use vstd::prelude::*;

verus! {

/// The text of a JSON string.
pub open spec fn as_text(j: JsonView) -> Option<Seq<char>> {
    match j {
        JsonView::Text(t) => Some(t),
        _ => None,
    }
}

/// The value of a JSON number that is whole and lies between 0 and `max`.
pub open spec fn as_count(j: JsonView, max: u64) -> Option<u64> {
    match j {
        JsonView::Number(Some(n)) => if n <= max {
            Some(n)
        } else {
            None
        },
        _ => None,
    }
}

/// The value of a JSON boolean.
pub open spec fn as_flag(j: JsonView) -> Option<bool> {
    match j {
        JsonView::Bool(b) => Some(b),
        _ => None,
    }
}

/// The members of a JSON object.
pub open spec fn as_object(j: JsonView) -> Option<Seq<(Seq<char>, JsonView)>> {
    match j {
        JsonView::Object(m) => Some(m),
        _ => None,
    }
}

/// The text of the member `key`, which must be there.
pub open spec fn text_member(m: Seq<(Seq<char>, JsonView)>, key: Seq<char>) -> Option<Seq<char>> {
    match member(m, key) {
        Some(v) => as_text(v),
        None => None,
    }
}

/// The number of the member `key`, which must be there.
pub open spec fn count_member(m: Seq<(Seq<char>, JsonView)>, key: Seq<char>, max: u64) -> Option<
    u64,
> {
    match member(m, key) {
        Some(v) => as_count(v, max),
        None => None,
    }
}

/// The members of the member `key`, which must be there and an object.
pub open spec fn object_member(m: Seq<(Seq<char>, JsonView)>, key: Seq<char>) -> Option<
    Seq<(Seq<char>, JsonView)>,
> {
    match member(m, key) {
        Some(v) => as_object(v),
        None => None,
    }
}

/// The text of the member `key`, which may be missing or `null`. The outer
/// option tells whether the member is as the schema wants it.
pub open spec fn optional_text_member(m: Seq<(Seq<char>, JsonView)>, key: Seq<char>) -> Option<
    Option<Seq<char>>,
> {
    match member(m, key) {
        None => Some(None),
        Some(JsonView::Null) => Some(None),
        Some(v) => match as_text(v) {
            Some(t) => Some(Some(t)),
            None => None,
        },
    }
}

/// The boolean of the member `key`, which may be missing or `null`.
pub open spec fn optional_flag_member(m: Seq<(Seq<char>, JsonView)>, key: Seq<char>) -> Option<
    Option<bool>,
> {
    match member(m, key) {
        None => Some(None),
        Some(JsonView::Null) => Some(None),
        Some(v) => match as_flag(v) {
            Some(b) => Some(Some(b)),
            None => None,
        },
    }
}

/// A file reference: an object with a `filePath` and, if it likes, an
/// `encoding`.
pub open spec fn decode_meta_file(j: JsonView) -> Option<MetaFileView> {
    match j {
        JsonView::Object(m) => match (
            text_member(m, "filePath"@),
            optional_text_member(m, "encoding"@),
        ) {
            (Some(file_path), Some(encoding)) => Some(MetaFileView { file_path, encoding }),
            _ => None,
        },
        _ => None,
    }
}

/// Inline bytes: numbers from 0 to 255.
pub open spec fn decode_bytes(items: Seq<JsonView>) -> Option<Seq<u8>> {
    if forall|i: int| 0 <= i < items.len() ==> as_count(#[trigger] items[i], 255) is Some {
        Some(Seq::new(items.len(), |i: int| as_count(items[i], 255)->Some_0 as u8))
    } else {
        None
    }
}

/// Data that is inline, as an array of bytes, or a file reference.
pub open spec fn decode_data_or_file(j: JsonView) -> Option<DataOrFileView> {
    match j {
        JsonView::Array(items) => match decode_bytes(items) {
            Some(bytes) => Some(DataOrFileView::Data(bytes)),
            None => None,
        },
        _ => match decode_meta_file(j) {
            Some(file) => Some(DataOrFileView::File(file)),
            None => None,
        },
    }
}

/// Text that is inline, as a string, or a file reference.
pub open spec fn decode_string_or_file(j: JsonView) -> Option<StringOrFileView> {
    match j {
        JsonView::Text(t) => Some(StringOrFileView::String(t)),
        _ => match decode_meta_file(j) {
            Some(file) => Some(StringOrFileView::File(file)),
            None => None,
        },
    }
}

/// The data of the member `key`, which must be there.
pub open spec fn data_member(m: Seq<(Seq<char>, JsonView)>, key: Seq<char>) -> Option<
    DataOrFileView,
> {
    match member(m, key) {
        Some(v) => decode_data_or_file(v),
        None => None,
    }
}

/// The parameters of a `run` step.
pub open spec fn decode_run(v: Seq<(Seq<char>, JsonView)>) -> Option<(u32, Option<bool>)> {
    match (count_member(v, "address"@, u32::MAX as u64), optional_flag_member(v, "keepPower"@)) {
        (Some(address), Some(keep_power)) => Some((address as u32, keep_power)),
        _ => None,
    }
}

/// The parameters of a `writeSimpleMemory` step.
pub open spec fn decode_write_simple(v: Seq<(Seq<char>, JsonView)>) -> Option<
    WriteSimpleMemoryView,
> {
    match (count_member(v, "address"@, u32::MAX as u64), data_member(v, "data"@)) {
        (Some(address), Some(data)) => Some(
            WriteSimpleMemoryView { address: address as u32, data },
        ),
        _ => None,
    }
}

/// The parameters of a `writeLargeMemory` step.
pub open spec fn decode_write_large(v: Seq<(Seq<char>, JsonView)>) -> Option<WriteLargeMemoryView> {
    match (
        count_member(v, "address"@, u32::MAX as u64),
        data_member(v, "data"@),
        count_member(v, "blockLength"@, usize::MAX as u64),
        optional_flag_member(v, "appendZeros"@),
    ) {
        (Some(address), Some(data), Some(block_length), Some(append_zeros)) => Some(
            WriteLargeMemoryView {
                address: address as u32,
                data,
                block_length: block_length as usize,
                append_zeros,
            },
        ),
        _ => None,
    }
}

/// The parameters of a read step.
pub open spec fn decode_read(v: Seq<(Seq<char>, JsonView)>) -> Option<(u32, usize)> {
    match (
        count_member(v, "address"@, u32::MAX as u64),
        count_member(v, "length"@, usize::MAX as u64),
    ) {
        (Some(address), Some(length)) => Some((address as u32, length as usize)),
        _ => None,
    }
}

/// The parameters of a `writeAMLCData` step.
pub open spec fn decode_write_amlc(v: Seq<(Seq<char>, JsonView)>) -> Option<WriteAMLCDataView> {
    match (
        count_member(v, "seq"@, 255),
        count_member(v, "amlcOffset"@, u32::MAX as u64),
        data_member(v, "data"@),
    ) {
        (Some(seq), Some(amlc_offset), Some(data)) => Some(
            WriteAMLCDataView { seq: seq as u8, amlc_offset: amlc_offset as u32, data },
        ),
        _ => None,
    }
}

/// The parameters of a `bl2Boot` step.
pub open spec fn decode_bl2_boot(v: Seq<(Seq<char>, JsonView)>) -> Option<BL2BootView> {
    match (data_member(v, "bl2"@), data_member(v, "bootloader"@)) {
        (Some(bl2), Some(bootloader)) => Some(BL2BootView { bl2, bootloader }),
        _ => None,
    }
}

/// The parameters of a `restorePartition` step.
pub open spec fn decode_restore(v: Seq<(Seq<char>, JsonView)>) -> Option<RestorePartitionView> {
    match (text_member(v, "name"@), data_member(v, "data"@)) {
        (Some(name), Some(data)) => Some(RestorePartitionView { name, data }),
        _ => None,
    }
}

/// What a `wait` step waits for, told by its own `type`.
pub open spec fn decode_wait(v: Seq<(Seq<char>, JsonView)>) -> Option<WaitView> {
    match text_member(v, "type"@) {
        None => None,
        Some(tag) => if tag == "userInput"@ {
            match text_member(v, "message"@) {
                Some(message) => Some(WaitView::UserInput { message }),
                None => None,
            }
        } else if tag == "time"@ {
            match count_member(v, "time"@, u64::MAX) {
                Some(time) => Some(WaitView::Time { time }),
                None => None,
            }
        } else {
            None
        },
    }
}

/// A step of the kind `tag` with the members `m`.
pub open spec fn decode_tagged(tag: Seq<char>, m: Seq<(Seq<char>, JsonView)>) -> Option<
    FlashStepView,
> {
    if tag == "identify"@ {
        match optional_text_member(m, "variable"@) {
            Some(variable) => Some(FlashStepView::Identify { variable }),
            None => None,
        }
    } else if tag == "bulkcmd"@ {
        match text_member(m, "value"@) {
            Some(value) => Some(FlashStepView::Bulkcmd { value }),
            None => None,
        }
    } else if tag == "bulkcmdStat"@ {
        match (text_member(m, "value"@), optional_text_member(m, "variable"@)) {
            (Some(value), Some(variable)) => Some(FlashStepView::BulkcmdStat { value, variable }),
            _ => None,
        }
    } else if tag == "run"@ {
        match object_member(m, "value"@) {
            Some(v) => match decode_run(v) {
                Some(value) => Some(FlashStepView::Run { value }),
                None => None,
            },
            None => None,
        }
    } else if tag == "writeSimpleMemory"@ {
        match object_member(m, "value"@) {
            Some(v) => match decode_write_simple(v) {
                Some(value) => Some(FlashStepView::WriteSimpleMemory { value }),
                None => None,
            },
            None => None,
        }
    } else if tag == "writeLargeMemory"@ {
        match object_member(m, "value"@) {
            Some(v) => match decode_write_large(v) {
                Some(value) => Some(FlashStepView::WriteLargeMemory { value }),
                None => None,
            },
            None => None,
        }
    } else if tag == "readSimpleMemory"@ {
        match (object_member(m, "value"@), optional_text_member(m, "variable"@)) {
            (Some(v), Some(variable)) => match decode_read(v) {
                Some(value) => Some(FlashStepView::ReadSimpleMemory { value, variable }),
                None => None,
            },
            _ => None,
        }
    } else if tag == "readLargeMemory"@ {
        match (object_member(m, "value"@), optional_text_member(m, "variable"@)) {
            (Some(v), Some(variable)) => match decode_read(v) {
                Some(value) => Some(FlashStepView::ReadLargeMemory { value, variable }),
                None => None,
            },
            _ => None,
        }
    } else if tag == "getBootAMLC"@ {
        match optional_text_member(m, "variable"@) {
            Some(variable) => Some(FlashStepView::GetBootAMLC { variable }),
            None => None,
        }
    } else if tag == "writeAMLCData"@ {
        match object_member(m, "value"@) {
            Some(v) => match decode_write_amlc(v) {
                Some(value) => Some(FlashStepView::WriteAMLCData { value }),
                None => None,
            },
            None => None,
        }
    } else if tag == "bl2Boot"@ {
        match object_member(m, "value"@) {
            Some(v) => match decode_bl2_boot(v) {
                Some(value) => Some(FlashStepView::Bl2Boot { value }),
                None => None,
            },
            None => None,
        }
    } else if tag == "validatePartitionSize"@ {
        match (object_member(m, "value"@), optional_text_member(m, "variable"@)) {
            (Some(v), Some(variable)) => match text_member(v, "name"@) {
                Some(value) => Some(FlashStepView::ValidatePartitionSize { value, variable }),
                None => None,
            },
            _ => None,
        }
    } else if tag == "restorePartition"@ {
        match object_member(m, "value"@) {
            Some(v) => match decode_restore(v) {
                Some(value) => Some(FlashStepView::RestorePartition { value }),
                None => None,
            },
            None => None,
        }
    } else if tag == "writeEnv"@ {
        match member(m, "value"@) {
            Some(v) => match decode_string_or_file(v) {
                Some(value) => Some(FlashStepView::WriteEnv { value }),
                None => None,
            },
            None => None,
        }
    } else if tag == "log"@ {
        match text_member(m, "value"@) {
            Some(value) => Some(FlashStepView::Log { value }),
            None => None,
        }
    } else if tag == "wait"@ {
        match object_member(m, "value"@) {
            Some(v) => match decode_wait(v) {
                Some(value) => Some(FlashStepView::Wait { value }),
                None => None,
            },
            None => None,
        }
    } else {
        None
    }
}

/// A step: an object whose `type` names its kind.
pub open spec fn decode_step(j: JsonView) -> Option<FlashStepView> {
    match j {
        JsonView::Object(m) => match text_member(m, "type"@) {
            Some(tag) => decode_tagged(tag, m),
            None => None,
        },
        _ => None,
    }
}

/// The steps of a program, in order: each item must be a step.
pub open spec fn decode_steps(items: Seq<JsonView>) -> Option<Seq<FlashStepView>> {
    if forall|i: int| 0 <= i < items.len() ==> decode_step(#[trigger] items[i]) is Some {
        Some(Seq::new(items.len(), |i: int| decode_step(items[i])->Some_0))
    } else {
        None
    }
}

/// The seed that a member gives.
pub open spec fn seed_of(m: (Seq<char>, JsonView)) -> (Seq<char>, usize) {
    (m.0, as_count(m.1, usize::MAX as u64)->Some_0 as usize)
}

/// The seeds that the members `m` give, each name once: where a name comes
/// more than once, its last member counts.
pub open spec fn last_of_each(m: Seq<(Seq<char>, JsonView)>) -> Seq<(Seq<char>, usize)>
    decreases m.len(),
{
    if m.len() == 0 {
        Seq::empty()
    } else if member(m.skip(1), m[0].0) is Some {
        last_of_each(m.skip(1))
    } else {
        seq![seed_of(m[0])] + last_of_each(m.skip(1))
    }
}

/// Whether no name occurs twice among the seeds.
pub open spec fn distinct_names(seeds: Seq<(Seq<char>, usize)>) -> bool {
    forall|i: int, j: int| 0 <= i < j < seeds.len() ==> seeds[i].0 != seeds[j].0
}

/// The seeds of the variables, by name: each must be a whole number that
/// fits a machine word, and of a name that comes more than once the last
/// seed counts.
pub open spec fn decode_variables(m: Seq<(Seq<char>, JsonView)>) -> Option<
    Seq<(Seq<char>, usize)>,
> {
    if forall|i: int| 0 <= i < m.len() ==> as_count((#[trigger] m[i]).1, usize::MAX as u64) is Some {
        Some(last_of_each(m))
    } else {
        None
    }
}

/// A name is found among the members exactly if one of them has it.
pub proof fn lemma_member_found(m: Seq<(Seq<char>, JsonView)>, key: Seq<char>)
    ensures
        member(m, key) is Some <==> exists|i: int| 0 <= i < m.len() && (#[trigger] m[i]).0 == key,
    decreases m.len(),
{
    if m.len() > 0 {
        lemma_member_found(m.skip(1), key);
        if m[0].0 != key {
            if member(m.skip(1), key) is Some {
                let i = choose|i: int| 0 <= i < m.skip(1).len() && (#[trigger] m.skip(1)[i]).0 == key;
                assert(m[i + 1].0 == key);
            }
            if exists|i: int| 0 <= i < m.len() && (#[trigger] m[i]).0 == key {
                let i = choose|i: int| 0 <= i < m.len() && (#[trigger] m[i]).0 == key;
                assert(m.skip(1)[i - 1].0 == key);
            }
        }
    }
}

/// Every seed that is kept has the name of a member.
pub proof fn lemma_kept_names(m: Seq<(Seq<char>, JsonView)>, key: Seq<char>)
    requires
        member(m, key) is None,
    ensures
        forall|j: int| 0 <= j < last_of_each(m).len() ==> (#[trigger] last_of_each(m)[j]).0 != key,
    decreases m.len(),
{
    if m.len() > 0 {
        lemma_kept_names(m.skip(1), key);
        let rest = last_of_each(m.skip(1));
        let all = last_of_each(m);
        assert forall|j: int| 0 <= j < all.len() implies (#[trigger] all[j]).0 != key by {
            if member(m.skip(1), m[0].0) is Some {
                assert(all[j] == rest[j]);
            } else if j > 0 {
                assert(all[j] == rest[j - 1]);
            }
        }
    }
}

/// No name occurs twice among the seeds that are kept.
pub proof fn lemma_last_of_each_distinct(m: Seq<(Seq<char>, JsonView)>)
    ensures
        distinct_names(last_of_each(m)),
    decreases m.len(),
{
    if m.len() > 0 {
        lemma_last_of_each_distinct(m.skip(1));
        if member(m.skip(1), m[0].0) is None {
            lemma_kept_names(m.skip(1), m[0].0);
            let rest = last_of_each(m.skip(1));
            let all = last_of_each(m);
            assert forall|i: int, j: int| 0 <= i < j < all.len() implies all[i].0 != all[j].0 by {
                assert(all[j] == rest[j - 1]);
                if i > 0 {
                    assert(all[i] == rest[i - 1]);
                }
            }
        }
    }
}

/// The variables of a descriptor, which may be missing or `null`.
pub open spec fn optional_variables(m: Seq<(Seq<char>, JsonView)>) -> Option<
    Option<Seq<(Seq<char>, usize)>>,
> {
    match member(m, "variables"@) {
        None => Some(None),
        Some(JsonView::Null) => Some(None),
        Some(JsonView::Object(vars)) => match decode_variables(vars) {
            Some(seeds) => Some(Some(seeds)),
            None => None,
        },
        Some(_) => None,
    }
}

/// The steps of a descriptor: the member `steps`, which must be an array of
/// steps.
pub open spec fn steps_member(m: Seq<(Seq<char>, JsonView)>) -> Option<Seq<FlashStepView>> {
    match member(m, "steps"@) {
        Some(JsonView::Array(items)) => decode_steps(items),
        _ => None,
    }
}

/// A whole descriptor.
pub open spec fn decode_config(j: JsonView) -> Option<FlashConfigView> {
    match j {
        JsonView::Object(m) => match (
            text_member(m, "name"@),
            text_member(m, "version"@),
            text_member(m, "description"@),
            steps_member(m),
            optional_variables(m),
            count_member(m, "metadataVersion"@, usize::MAX as u64),
        ) {
            (
                Some(name),
                Some(version),
                Some(description),
                Some(steps),
                Some(variables),
                Some(metadata_version),
            ) => Some(
                FlashConfigView {
                    name,
                    version,
                    description,
                    steps,
                    variables,
                    metadata_version: metadata_version as usize,
                },
            ),
            _ => None,
        },
        _ => None,
    }
}

} // verus!
