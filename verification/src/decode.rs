//! Reading a flash program from a JSON tree, member by member.

use crate::config::{
    BL2BootValue, DataOrFile, FlashConfig, FlashStep, MetaFile, ReadMemoryValue,
    RestorePartitionValue, RunValue, StringOrFile, ValidatePartitionSizeValue, WaitValue,
    WriteAMLCDataValue, WriteLargeMemoryValue, WriteSimpleMemoryValue,
};
use crate::json::{
    find_member, items_view, lemma_array_view, lemma_object_view, member, members_view, Json,
    JsonView,
};
use crate::schema::{
    as_count, count_member, data_member, decode_bl2_boot, decode_bytes, decode_config,
    decode_data_or_file, decode_meta_file, decode_read, decode_restore, decode_run, decode_step,
    decode_steps, decode_string_or_file, decode_tagged, decode_variables, decode_wait,
    distinct_names, last_of_each, lemma_last_of_each_distinct, seed_of,
    decode_write_amlc, decode_write_large, decode_write_simple, object_member,
    optional_flag_member, optional_text_member, optional_variables, steps_member, text_member,
};
use crate::text::same_text;
use vstd::prelude::*;

verus! {

/// Whether what was read is what the schema says: nothing where the schema
/// refuses the document, else a value with the view that the schema gives.
pub open spec fn agrees<T: View>(read: Option<T>, schema: Option<T::V>) -> bool {
    match (read, schema) {
        (Some(x), Some(v)) => x@ == v,
        (None, None) => true,
        _ => false,
    }
}

/// Reads the text of the member `key`.
pub fn get_text(m: &Vec<(String, Json)>, key: &str) -> (r: Option<String>)
    ensures
        agrees(r, text_member(members_view(m@), key@)),
{
    match find_member(m, key) {
        Some(Json::Text(t)) => Some(t.clone()),
        _ => None,
    }
}

/// Reads the number of the member `key`, which must not be above `max`.
pub fn get_count(m: &Vec<(String, Json)>, key: &str, max: u64) -> (r: Option<u64>)
    ensures
        r == count_member(members_view(m@), key@, max),
{
    match find_member(m, key) {
        Some(Json::Number(Some(n))) => if *n <= max {
            Some(*n)
        } else {
            None
        },
        _ => None,
    }
}

/// Reads the members of the member `key`.
pub fn get_object<'a>(m: &'a Vec<(String, Json)>, key: &str) -> (r: Option<
    &'a Vec<(String, Json)>,
>)
    ensures
        match object_member(members_view(m@), key@) {
            Some(v) => r is Some && members_view(r->Some_0@) == v,
            None => r is None,
        },
{
    match find_member(m, key) {
        Some(Json::Object(inner)) => {
            proof {
                lemma_object_view(*inner);
            }
            Some(inner)
        },
        _ => None,
    }
}

/// Reads the text of the optional member `key`.
pub fn get_optional_text(m: &Vec<(String, Json)>, key: &str) -> (r: Option<Option<String>>)
    ensures
        match optional_text_member(members_view(m@), key@) {
            None => r is None,
            Some(None) => r == Some(None::<String>),
            Some(Some(t)) => r matches Some(Some(x)) && x@ == t,
        },
{
    match find_member(m, key) {
        None => Some(None),
        Some(Json::Null) => Some(None),
        Some(Json::Text(t)) => Some(Some(t.clone())),
        Some(_) => None,
    }
}

/// Reads the boolean of the optional member `key`.
pub fn get_optional_flag(m: &Vec<(String, Json)>, key: &str) -> (r: Option<Option<bool>>)
    ensures
        r == optional_flag_member(members_view(m@), key@),
{
    match find_member(m, key) {
        None => Some(None),
        Some(Json::Null) => Some(None),
        Some(Json::Bool(b)) => Some(Some(*b)),
        Some(_) => None,
    }
}

/// Reads a file reference.
pub fn read_meta_file(j: &Json) -> (r: Option<MetaFile>)
    ensures
        agrees(r, decode_meta_file(j@)),
{
    match j {
        Json::Object(m) => {
            proof {
                lemma_object_view(*m);
            }
            let file_path = match get_text(m, "filePath") {
                Some(t) => t,
                None => {
                    return None;
                },
            };
            let encoding = match get_optional_text(m, "encoding") {
                Some(e) => e,
                None => {
                    return None;
                },
            };
            Some(MetaFile { file_path, encoding })
        },
        _ => None,
    }
}

/// Reads inline bytes.
pub fn read_bytes(items: &Vec<Json>) -> (r: Option<Vec<u8>>)
    ensures
        agrees(r, decode_bytes(items_view(items@))),
{
    let ghost all = items_view(items@);
    let mut out: Vec<u8> = Vec::new();
    let mut i: usize = 0;
    while i < items.len()
        invariant
            i <= items@.len(),
            all == items_view(items@),
            out@.len() == i,
            forall|k: int| 0 <= k < i ==> as_count(#[trigger] all[k], 255) is Some,
            forall|k: int| 0 <= k < i ==> out@[k] == as_count(all[k], 255)->Some_0 as u8,
        decreases items@.len() - i,
    {
        match &items[i] {
            Json::Number(Some(n)) => {
                if *n > 255 {
                    assert(as_count(all[i as int], 255) is None);
                    return None;
                }
                out.push(*n as u8);
            },
            _ => {
                assert(as_count(all[i as int], 255) is None);
                return None;
            },
        }
        i = i + 1;
    }
    assert(out@ =~= decode_bytes(all)->Some_0);
    Some(out)
}

/// Reads data that is inline or in a file.
pub fn read_data_or_file(j: &Json) -> (r: Option<DataOrFile>)
    ensures
        agrees(r, decode_data_or_file(j@)),
{
    match j {
        Json::Array(items) => {
            proof {
                lemma_array_view(*items);
            }
            match read_bytes(items) {
                Some(bytes) => Some(DataOrFile::Data(bytes)),
                None => None,
            }
        },
        _ => match read_meta_file(j) {
            Some(file) => Some(DataOrFile::File(file)),
            None => None,
        },
    }
}

/// Reads text that is inline or in a file.
pub fn read_string_or_file(j: &Json) -> (r: Option<StringOrFile>)
    ensures
        agrees(r, decode_string_or_file(j@)),
{
    match j {
        Json::Text(t) => Some(StringOrFile::String(t.clone())),
        _ => match read_meta_file(j) {
            Some(file) => Some(StringOrFile::File(file)),
            None => None,
        },
    }
}

/// Reads the data of the member `key`.
pub fn get_data(m: &Vec<(String, Json)>, key: &str) -> (r: Option<DataOrFile>)
    ensures
        agrees(r, data_member(members_view(m@), key@)),
{
    match find_member(m, key) {
        Some(v) => read_data_or_file(v),
        None => None,
    }
}

/// Reads the parameters of a `run` step.
pub fn read_run(v: &Vec<(String, Json)>) -> (r: Option<RunValue>)
    ensures
        agrees(r, decode_run(members_view(v@))),
{
    let address = match get_count(v, "address", u32::MAX as u64) {
        Some(a) => a as u32,
        None => {
            return None;
        },
    };
    let keep_power = match get_optional_flag(v, "keepPower") {
        Some(k) => k,
        None => {
            return None;
        },
    };
    Some(RunValue { address, keep_power })
}

/// Reads the parameters of a `writeSimpleMemory` step.
pub fn read_write_simple(v: &Vec<(String, Json)>) -> (r: Option<WriteSimpleMemoryValue>)
    ensures
        agrees(r, decode_write_simple(members_view(v@))),
{
    let address = match get_count(v, "address", u32::MAX as u64) {
        Some(a) => a as u32,
        None => {
            return None;
        },
    };
    let data = match get_data(v, "data") {
        Some(d) => d,
        None => {
            return None;
        },
    };
    Some(WriteSimpleMemoryValue { address, data })
}

/// Reads the parameters of a `writeLargeMemory` step.
pub fn read_write_large(v: &Vec<(String, Json)>) -> (r: Option<WriteLargeMemoryValue>)
    ensures
        agrees(r, decode_write_large(members_view(v@))),
{
    let address = match get_count(v, "address", u32::MAX as u64) {
        Some(a) => a as u32,
        None => {
            return None;
        },
    };
    let data = match get_data(v, "data") {
        Some(d) => d,
        None => {
            return None;
        },
    };
    let block_length = match get_count(v, "blockLength", usize::MAX as u64) {
        Some(b) => b as usize,
        None => {
            return None;
        },
    };
    let append_zeros = match get_optional_flag(v, "appendZeros") {
        Some(z) => z,
        None => {
            return None;
        },
    };
    Some(WriteLargeMemoryValue { address, data, block_length, append_zeros })
}

/// Reads the parameters of a read step.
pub fn read_read(v: &Vec<(String, Json)>) -> (r: Option<ReadMemoryValue>)
    ensures
        agrees(r, decode_read(members_view(v@))),
{
    let address = match get_count(v, "address", u32::MAX as u64) {
        Some(a) => a as u32,
        None => {
            return None;
        },
    };
    let length = match get_count(v, "length", usize::MAX as u64) {
        Some(l) => l as usize,
        None => {
            return None;
        },
    };
    Some(ReadMemoryValue { address, length })
}

/// Reads the parameters of a `writeAMLCData` step.
pub fn read_write_amlc(v: &Vec<(String, Json)>) -> (r: Option<WriteAMLCDataValue>)
    ensures
        agrees(r, decode_write_amlc(members_view(v@))),
{
    let seq = match get_count(v, "seq", 255) {
        Some(s) => s as u8,
        None => {
            return None;
        },
    };
    let amlc_offset = match get_count(v, "amlcOffset", u32::MAX as u64) {
        Some(a) => a as u32,
        None => {
            return None;
        },
    };
    let data = match get_data(v, "data") {
        Some(d) => d,
        None => {
            return None;
        },
    };
    Some(WriteAMLCDataValue { seq, amlc_offset, data })
}

/// Reads the parameters of a `bl2Boot` step.
pub fn read_bl2_boot(v: &Vec<(String, Json)>) -> (r: Option<BL2BootValue>)
    ensures
        agrees(r, decode_bl2_boot(members_view(v@))),
{
    let bl2 = match get_data(v, "bl2") {
        Some(d) => d,
        None => {
            return None;
        },
    };
    let bootloader = match get_data(v, "bootloader") {
        Some(d) => d,
        None => {
            return None;
        },
    };
    Some(BL2BootValue { bl2, bootloader })
}

/// Reads the parameters of a `restorePartition` step.
pub fn read_restore(v: &Vec<(String, Json)>) -> (r: Option<RestorePartitionValue>)
    ensures
        agrees(r, decode_restore(members_view(v@))),
{
    let name = match get_text(v, "name") {
        Some(n) => n,
        None => {
            return None;
        },
    };
    let data = match get_data(v, "data") {
        Some(d) => d,
        None => {
            return None;
        },
    };
    Some(RestorePartitionValue { name, data })
}

/// Reads what a `wait` step waits for.
pub fn read_wait(v: &Vec<(String, Json)>) -> (r: Option<WaitValue>)
    ensures
        agrees(r, decode_wait(members_view(v@))),
{
    let tag = match get_text(v, "type") {
        Some(t) => t,
        None => {
            return None;
        },
    };
    if same_text(tag.as_str(), "userInput") {
        match get_text(v, "message") {
            Some(message) => Some(WaitValue::UserInput { message }),
            None => None,
        }
    } else if same_text(tag.as_str(), "time") {
        match get_count(v, "time", u64::MAX) {
            Some(time) => Some(WaitValue::Time { time }),
            None => None,
        }
    } else {
        None
    }
}

/// Reads a step of the kind `tag` from the members `m`.
pub fn read_tagged(tag: &str, m: &Vec<(String, Json)>) -> (r: Option<FlashStep>)
    ensures
        agrees(r, decode_tagged(tag@, members_view(m@))),
{
    if same_text(tag, "identify") {
        match get_optional_text(m, "variable") {
            Some(variable) => Some(FlashStep::Identify { variable }),
            None => None,
        }
    } else if same_text(tag, "bulkcmd") {
        match get_text(m, "value") {
            Some(value) => Some(FlashStep::Bulkcmd { value }),
            None => None,
        }
    } else if same_text(tag, "bulkcmdStat") {
        let value = match get_text(m, "value") {
            Some(v) => v,
            None => {
                return None;
            },
        };
        match get_optional_text(m, "variable") {
            Some(variable) => Some(FlashStep::BulkcmdStat { value, variable }),
            None => None,
        }
    } else if same_text(tag, "run") {
        match get_object(m, "value") {
            Some(v) => match read_run(v) {
                Some(value) => Some(FlashStep::Run { value }),
                None => None,
            },
            None => None,
        }
    } else if same_text(tag, "writeSimpleMemory") {
        match get_object(m, "value") {
            Some(v) => match read_write_simple(v) {
                Some(value) => Some(FlashStep::WriteSimpleMemory { value }),
                None => None,
            },
            None => None,
        }
    } else if same_text(tag, "writeLargeMemory") {
        match get_object(m, "value") {
            Some(v) => match read_write_large(v) {
                Some(value) => Some(FlashStep::WriteLargeMemory { value }),
                None => None,
            },
            None => None,
        }
    } else if same_text(tag, "readSimpleMemory") {
        let v = match get_object(m, "value") {
            Some(v) => v,
            None => {
                return None;
            },
        };
        let variable = match get_optional_text(m, "variable") {
            Some(x) => x,
            None => {
                return None;
            },
        };
        match read_read(v) {
            Some(value) => Some(FlashStep::ReadSimpleMemory { value, variable }),
            None => None,
        }
    } else if same_text(tag, "readLargeMemory") {
        let v = match get_object(m, "value") {
            Some(v) => v,
            None => {
                return None;
            },
        };
        let variable = match get_optional_text(m, "variable") {
            Some(x) => x,
            None => {
                return None;
            },
        };
        match read_read(v) {
            Some(value) => Some(FlashStep::ReadLargeMemory { value, variable }),
            None => None,
        }
    } else if same_text(tag, "getBootAMLC") {
        match get_optional_text(m, "variable") {
            Some(variable) => Some(FlashStep::GetBootAMLC { variable }),
            None => None,
        }
    } else if same_text(tag, "writeAMLCData") {
        match get_object(m, "value") {
            Some(v) => match read_write_amlc(v) {
                Some(value) => Some(FlashStep::WriteAMLCData { value }),
                None => None,
            },
            None => None,
        }
    } else if same_text(tag, "bl2Boot") {
        match get_object(m, "value") {
            Some(v) => match read_bl2_boot(v) {
                Some(value) => Some(FlashStep::Bl2Boot { value }),
                None => None,
            },
            None => None,
        }
    } else if same_text(tag, "validatePartitionSize") {
        let v = match get_object(m, "value") {
            Some(v) => v,
            None => {
                return None;
            },
        };
        let variable = match get_optional_text(m, "variable") {
            Some(x) => x,
            None => {
                return None;
            },
        };
        match get_text(v, "name") {
            Some(name) => Some(
                FlashStep::ValidatePartitionSize {
                    value: ValidatePartitionSizeValue { name },
                    variable,
                },
            ),
            None => None,
        }
    } else if same_text(tag, "restorePartition") {
        match get_object(m, "value") {
            Some(v) => match read_restore(v) {
                Some(value) => Some(FlashStep::RestorePartition { value }),
                None => None,
            },
            None => None,
        }
    } else if same_text(tag, "writeEnv") {
        match find_member(m, "value") {
            Some(v) => match read_string_or_file(v) {
                Some(value) => Some(FlashStep::WriteEnv { value }),
                None => None,
            },
            None => None,
        }
    } else if same_text(tag, "log") {
        match get_text(m, "value") {
            Some(value) => Some(FlashStep::Log { value }),
            None => None,
        }
    } else if same_text(tag, "wait") {
        match get_object(m, "value") {
            Some(v) => match read_wait(v) {
                Some(value) => Some(FlashStep::Wait { value }),
                None => None,
            },
            None => None,
        }
    } else {
        None
    }
}

/// Reads a step.
pub fn read_step(j: &Json) -> (r: Option<FlashStep>)
    ensures
        agrees(r, decode_step(j@)),
{
    match j {
        Json::Object(m) => {
            proof {
                lemma_object_view(*m);
            }
            match get_text(m, "type") {
                Some(tag) => read_tagged(tag.as_str(), m),
                None => None,
            }
        },
        _ => None,
    }
}

/// Reads the steps of a program.
pub fn read_steps(items: &Vec<Json>) -> (r: Option<Vec<FlashStep>>)
    ensures
        match decode_steps(items_view(items@)) {
            Some(steps) => r is Some && crate::config::steps_view(r->Some_0@) == steps,
            None => r is None,
        },
{
    let ghost all = items_view(items@);
    let mut out: Vec<FlashStep> = Vec::new();
    let mut i: usize = 0;
    while i < items.len()
        invariant
            i <= items@.len(),
            all == items_view(items@),
            out@.len() == i,
            forall|k: int| 0 <= k < i ==> decode_step(#[trigger] all[k]) is Some,
            forall|k: int| 0 <= k < i ==> (#[trigger] out@[k])@ == decode_step(all[k])->Some_0,
        decreases items@.len() - i,
    {
        match read_step(&items[i]) {
            Some(step) => {
                out.push(step);
            },
            None => {
                assert(decode_step(all[i as int]) is None);
                return None;
            },
        }
        i = i + 1;
    }
    assert(crate::config::steps_view(out@) =~= decode_steps(all)->Some_0);
    Some(out)
}

/// Whether one of the members from place `from` on is called `name`.
pub fn named_from(m: &Vec<(String, Json)>, from: usize, name: &str) -> (found: bool)
    requires
        from <= m@.len(),
    ensures
        found == (member(
            members_view(m@).subrange(from as int, m@.len() as int),
            name@,
        ) is Some),
{
    let ghost all = members_view(m@);
    let mut j: usize = from;
    while j < m.len()
        invariant
            from <= j <= m@.len(),
            all == members_view(m@),
            member(all.subrange(from as int, all.len() as int), name@) is Some <==> member(
                all.subrange(j as int, all.len() as int),
                name@,
            ) is Some,
        decreases m@.len() - j,
    {
        if same_text(m[j].0.as_str(), name) {
            return true;
        }
        assert(all.subrange(j as int, all.len() as int).skip(1) =~= all.subrange(
            j + 1,
            all.len() as int,
        ));
        j = j + 1;
    }
    false
}

/// Reads the seeds of the variables. No name occurs twice among them: of a
/// name that comes more than once, the last seed counts.
pub fn read_variables(m: &Vec<(String, Json)>) -> (r: Option<Vec<(String, usize)>>)
    ensures
        match decode_variables(members_view(m@)) {
            Some(seeds) => r is Some && crate::config::variables_view(r->Some_0@) == seeds,
            None => r is None,
        },
        r is Some ==> distinct_names(crate::config::variables_view(r->Some_0@)),
{
    let ghost all = members_view(m@);
    let mut out: Vec<(String, usize)> = Vec::new();
    let mut i: usize = 0;
    proof {
        assert(all.subrange(0, all.len() as int) =~= all);
        assert(crate::config::variables_view(out@) + last_of_each(all) =~= last_of_each(all));
    }
    while i < m.len()
        invariant
            i <= m@.len(),
            all == members_view(m@),
            forall|k: int|
                0 <= k < i ==> as_count((#[trigger] all[k]).1, usize::MAX as u64) is Some,
            crate::config::variables_view(out@) + last_of_each(
                all.subrange(i as int, all.len() as int),
            ) == last_of_each(all),
        decreases m@.len() - i,
    {
        let ghost rest = all.subrange(i as int, all.len() as int);
        let ghost before = crate::config::variables_view(out@);
        proof {
            assert(rest.skip(1) =~= all.subrange(i + 1, all.len() as int));
            assert(rest[0] == all[i as int]);
        }
        let seed: usize = match &m[i].1 {
            Json::Number(Some(n)) => {
                if *n > usize::MAX as u64 {
                    assert(as_count(all[i as int].1, usize::MAX as u64) is None);
                    return None;
                }
                *n as usize
            },
            _ => {
                assert(as_count(all[i as int].1, usize::MAX as u64) is None);
                return None;
            },
        };
        if !named_from(m, i + 1, m[i].0.as_str()) {
            out.push((m[i].0.clone(), seed));
            proof {
                assert(crate::config::variables_view(out@) =~= before.push(seed_of(all[i as int])));
                assert(before.push(seed_of(all[i as int])) + last_of_each(rest.skip(1)) =~= before
                    + (seq![seed_of(all[i as int])] + last_of_each(rest.skip(1))));
            }
        }
        i = i + 1;
    }
    proof {
        assert(all.subrange(all.len() as int, all.len() as int) =~= Seq::empty());
        assert(crate::config::variables_view(out@) =~= last_of_each(all));
        lemma_last_of_each_distinct(all);
    }
    Some(out)
}

/// Reads a whole descriptor.
pub fn read_config(j: &Json) -> (r: Option<FlashConfig>)
    ensures
        agrees(r, decode_config(j@)),
{
    let m = match j {
        Json::Object(m) => {
            proof {
                lemma_object_view(*m);
            }
            m
        },
        _ => {
            return None;
        },
    };
    let name = match get_text(m, "name") {
        Some(t) => t,
        None => {
            return None;
        },
    };
    let version = match get_text(m, "version") {
        Some(t) => t,
        None => {
            return None;
        },
    };
    let description = match get_text(m, "description") {
        Some(t) => t,
        None => {
            return None;
        },
    };
    let steps = match find_member(m, "steps") {
        Some(Json::Array(items)) => {
            proof {
                lemma_array_view(*items);
            }
            match read_steps(items) {
                Some(s) => s,
                None => {
                    return None;
                },
            }
        },
        _ => {
            return None;
        },
    };
    let variables = match find_member(m, "variables") {
        None => None,
        Some(Json::Null) => None,
        Some(Json::Object(vars)) => {
            proof {
                lemma_object_view(*vars);
            }
            match read_variables(vars) {
                Some(v) => Some(v),
                None => {
                    return None;
                },
            }
        },
        Some(_) => {
            return None;
        },
    };
    let metadata_version = match get_count(m, "metadataVersion", usize::MAX as u64) {
        Some(v) => v as usize,
        None => {
            return None;
        },
    };
    Some(FlashConfig { name, version, description, steps, variables, metadata_version })
}

} // verus!
