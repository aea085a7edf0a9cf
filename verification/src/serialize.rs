//! Writing a flash program as a JSON tree.

use crate::config::{
    BL2BootValue, DataOrFile, FlashConfig, FlashStep, MetaFile, ReadMemoryValue,
    RestorePartitionValue, RunValue, StringOrFile, WaitValue, WriteAMLCDataValue,
    WriteLargeMemoryValue, WriteSimpleMemoryValue,
};
use crate::encode::{
    count, encode_bl2_boot, encode_bytes, encode_config, encode_data_or_file, encode_meta_file,
    encode_read, encode_restore, encode_run, encode_step, encode_steps, encode_string_or_file,
    encode_variables, encode_wait, encode_write_amlc, encode_write_large, encode_write_simple,
    no_members, optional_flag, optional_text, with, with_optional,
};
use crate::json::{
    items_view, lemma_array_view, lemma_object_view, members_view, Json, JsonView,
};
use vstd::prelude::*;

verus! {

/// A whole number as a JSON number.
fn count_json(n: u64) -> (j: Json)
    ensures
        j@ == count(n as int),
{
    Json::Number(Some(n))
}

/// A text as a JSON string.
fn text_json(text: &String) -> (j: Json)
    ensures
        j@ == JsonView::Text(text@),
{
    Json::Text(text.clone())
}

/// Members as a JSON object.
fn object_json(members: Vec<(String, Json)>) -> (j: Json)
    ensures
        j@ == JsonView::Object(members_view(members@)),
{
    proof {
        lemma_object_view(members);
    }
    Json::Object(members)
}

/// Appends the member `key` to `members`.
fn put(members: &mut Vec<(String, Json)>, key: &str, value: Json)
    ensures
        members_view(final(members)@) == members_view(old(members)@).push((key@, value@)),
{
    members.push((key.to_owned(), value));
    assert(members_view(members@) =~= members_view(old(members)@).push((key@, value@)));
}

/// Appends the member `key` to `members` if it holds a text.
fn put_optional_text(members: &mut Vec<(String, Json)>, key: &str, text: &Option<String>)
    ensures
        members_view(final(members)@) == (match text {
            Some(t) => members_view(old(members)@).push((key@, JsonView::Text(t@))),
            None => members_view(old(members)@),
        }),
{
    match text {
        Some(t) => {
            put(members, key, text_json(t));
        },
        None => {},
    }
}

/// Appends the member `key` to `members` if it holds a boolean.
fn put_optional_flag(members: &mut Vec<(String, Json)>, key: &str, flag: Option<bool>)
    ensures
        members_view(final(members)@) == (match flag {
            Some(b) => members_view(old(members)@).push((key@, JsonView::Bool(b))),
            None => members_view(old(members)@),
        }),
{
    match flag {
        Some(b) => {
            put(members, key, Json::Bool(b));
        },
        None => {},
    }
}

impl MetaFile {
    /// This file reference as a JSON object.
    pub fn to_json(&self) -> (j: Json)
        ensures
            j@ == encode_meta_file(self@),
    {
        let mut m: Vec<(String, Json)> = Vec::new();
        assert(members_view(m@) =~= no_members());
        put(&mut m, "filePath", text_json(&self.file_path));
        put_optional_text(&mut m, "encoding", &self.encoding);
        assert(members_view(m@) =~= encode_meta_file(self@)->Object_0);
        object_json(m)
    }
}

impl DataOrFile {
    /// This payload as a JSON array of bytes, or as a file reference.
    pub fn to_json(&self) -> (j: Json)
        ensures
            j@ == encode_data_or_file(self@),
    {
        match self {
            DataOrFile::Data(bytes) => {
                let mut items: Vec<Json> = Vec::new();
                let mut i: usize = 0;
                while i < bytes.len()
                    invariant
                        i <= bytes@.len(),
                        items@.len() == i,
                        forall|k: int|
                            0 <= k < i ==> (#[trigger] items@[k])@ == count(bytes@[k] as int),
                    decreases bytes@.len() - i,
                {
                    items.push(count_json(bytes[i] as u64));
                    i = i + 1;
                }
                proof {
                    lemma_array_view(items);
                    assert(items_view(items@) =~= encode_bytes(bytes@));
                }
                Json::Array(items)
            },
            DataOrFile::File(file) => file.to_json(),
        }
    }
}

impl StringOrFile {
    /// This payload as a JSON string, or as a file reference.
    pub fn to_json(&self) -> (j: Json)
        ensures
            j@ == encode_string_or_file(self@),
    {
        match self {
            StringOrFile::String(text) => text_json(text),
            StringOrFile::File(file) => file.to_json(),
        }
    }
}

impl RunValue {
    /// The members that hold these parameters.
    pub fn to_members(&self) -> (m: Vec<(String, Json)>)
        ensures
            members_view(m@) == encode_run(self@),
    {
        let mut m: Vec<(String, Json)> = Vec::new();
        assert(members_view(m@) =~= no_members());
        put(&mut m, "address", count_json(self.address as u64));
        put_optional_flag(&mut m, "keepPower", self.keep_power);
        assert(members_view(m@) =~= encode_run(self@));
        m
    }
}

impl WriteSimpleMemoryValue {
    /// The members that hold these parameters.
    pub fn to_members(&self) -> (m: Vec<(String, Json)>)
        ensures
            members_view(m@) == encode_write_simple(self@),
    {
        let mut m: Vec<(String, Json)> = Vec::new();
        assert(members_view(m@) =~= no_members());
        put(&mut m, "address", count_json(self.address as u64));
        put(&mut m, "data", self.data.to_json());
        assert(members_view(m@) =~= encode_write_simple(self@));
        m
    }
}

impl WriteLargeMemoryValue {
    /// The members that hold these parameters.
    pub fn to_members(&self) -> (m: Vec<(String, Json)>)
        ensures
            members_view(m@) == encode_write_large(self@),
    {
        let mut m: Vec<(String, Json)> = Vec::new();
        assert(members_view(m@) =~= no_members());
        put(&mut m, "address", count_json(self.address as u64));
        put(&mut m, "data", self.data.to_json());
        put(&mut m, "blockLength", count_json(self.block_length as u64));
        put_optional_flag(&mut m, "appendZeros", self.append_zeros);
        assert(members_view(m@) =~= encode_write_large(self@));
        m
    }
}

impl ReadMemoryValue {
    /// The members that hold these parameters.
    pub fn to_members(&self) -> (m: Vec<(String, Json)>)
        ensures
            members_view(m@) == encode_read(self@),
    {
        let mut m: Vec<(String, Json)> = Vec::new();
        assert(members_view(m@) =~= no_members());
        put(&mut m, "address", count_json(self.address as u64));
        put(&mut m, "length", count_json(self.length as u64));
        assert(members_view(m@) =~= encode_read(self@));
        m
    }
}

impl WriteAMLCDataValue {
    /// The members that hold these parameters.
    pub fn to_members(&self) -> (m: Vec<(String, Json)>)
        ensures
            members_view(m@) == encode_write_amlc(self@),
    {
        let mut m: Vec<(String, Json)> = Vec::new();
        assert(members_view(m@) =~= no_members());
        put(&mut m, "seq", count_json(self.seq as u64));
        put(&mut m, "amlcOffset", count_json(self.amlc_offset as u64));
        put(&mut m, "data", self.data.to_json());
        assert(members_view(m@) =~= encode_write_amlc(self@));
        m
    }
}

impl BL2BootValue {
    /// The members that hold these parameters.
    pub fn to_members(&self) -> (m: Vec<(String, Json)>)
        ensures
            members_view(m@) == encode_bl2_boot(self@),
    {
        let mut m: Vec<(String, Json)> = Vec::new();
        assert(members_view(m@) =~= no_members());
        put(&mut m, "bl2", self.bl2.to_json());
        put(&mut m, "bootloader", self.bootloader.to_json());
        assert(members_view(m@) =~= encode_bl2_boot(self@));
        m
    }
}

impl RestorePartitionValue {
    /// The members that hold these parameters.
    pub fn to_members(&self) -> (m: Vec<(String, Json)>)
        ensures
            members_view(m@) == encode_restore(self@),
    {
        let mut m: Vec<(String, Json)> = Vec::new();
        assert(members_view(m@) =~= no_members());
        put(&mut m, "name", text_json(&self.name));
        put(&mut m, "data", self.data.to_json());
        assert(members_view(m@) =~= encode_restore(self@));
        m
    }
}

impl WaitValue {
    /// The members that hold what is waited for.
    pub fn to_members(&self) -> (m: Vec<(String, Json)>)
        ensures
            members_view(m@) == encode_wait(self@),
    {
        let mut m: Vec<(String, Json)> = Vec::new();
        assert(members_view(m@) =~= no_members());
        match self {
            WaitValue::UserInput { message } => {
                put(&mut m, "type", Json::Text("userInput".to_owned()));
                put(&mut m, "message", text_json(message));
            },
            WaitValue::Time { time } => {
                put(&mut m, "type", Json::Text("time".to_owned()));
                put(&mut m, "time", count_json(*time));
            },
        }
        assert(members_view(m@) =~= encode_wait(self@));
        m
    }
}

/// The members of a step that carries a value.
fn tagged(tag: &str, value: Json) -> (m: Vec<(String, Json)>)
    ensures
        members_view(m@) == with(
            "type"@,
            JsonView::Text(tag@),
            with("value"@, value@, no_members()),
        ),
{
    let mut m: Vec<(String, Json)> = Vec::new();
    assert(members_view(m@) =~= no_members());
    put(&mut m, "type", Json::Text(tag.to_owned()));
    put(&mut m, "value", value);
    assert(members_view(m@) =~= with(
        "type"@,
        JsonView::Text(tag@),
        with("value"@, value@, no_members()),
    ));
    m
}

/// The members of a step that carries a value and may name a variable.
fn tagged_with_variable(tag: &str, value: Json, variable: &Option<String>) -> (m: Vec<
    (String, Json),
>)
    ensures
        members_view(m@) == with(
            "type"@,
            JsonView::Text(tag@),
            with(
                "value"@,
                value@,
                with_optional(
                    "variable"@,
                    optional_text(crate::config::text_view(*variable)),
                    no_members(),
                ),
            ),
        ),
{
    let mut m = tagged(tag, value);
    put_optional_text(&mut m, "variable", variable);
    assert(members_view(m@) =~= with(
        "type"@,
        JsonView::Text(tag@),
        with(
            "value"@,
            value@,
            with_optional(
                "variable"@,
                optional_text(crate::config::text_view(*variable)),
                no_members(),
            ),
        ),
    ));
    m
}

/// The members of a step that carries no value and may name a variable.
fn tagged_variable_only(tag: &str, variable: &Option<String>) -> (m: Vec<(String, Json)>)
    ensures
        members_view(m@) == with(
            "type"@,
            JsonView::Text(tag@),
            with_optional(
                "variable"@,
                optional_text(crate::config::text_view(*variable)),
                no_members(),
            ),
        ),
{
    let mut m: Vec<(String, Json)> = Vec::new();
    assert(members_view(m@) =~= no_members());
    put(&mut m, "type", Json::Text(tag.to_owned()));
    put_optional_text(&mut m, "variable", variable);
    assert(members_view(m@) =~= with(
        "type"@,
        JsonView::Text(tag@),
        with_optional(
            "variable"@,
            optional_text(crate::config::text_view(*variable)),
            no_members(),
        ),
    ));
    m
}

impl FlashStep {
    /// This step as a JSON object.
    pub fn to_json(&self) -> (j: Json)
        ensures
            j@ == encode_step(self@),
    {
        let m = match self {
            FlashStep::Identify { variable } => tagged_variable_only("identify", variable),
            FlashStep::Bulkcmd { value } => tagged("bulkcmd", text_json(value)),
            FlashStep::BulkcmdStat { value, variable } => tagged_with_variable(
                "bulkcmdStat",
                text_json(value),
                variable,
            ),
            FlashStep::Run { value } => tagged("run", object_json(value.to_members())),
            FlashStep::WriteSimpleMemory { value } => tagged(
                "writeSimpleMemory",
                object_json(value.to_members()),
            ),
            FlashStep::WriteLargeMemory { value } => tagged(
                "writeLargeMemory",
                object_json(value.to_members()),
            ),
            FlashStep::ReadSimpleMemory { value, variable } => tagged_with_variable(
                "readSimpleMemory",
                object_json(value.to_members()),
                variable,
            ),
            FlashStep::ReadLargeMemory { value, variable } => tagged_with_variable(
                "readLargeMemory",
                object_json(value.to_members()),
                variable,
            ),
            FlashStep::GetBootAMLC { variable } => tagged_variable_only("getBootAMLC", variable),
            FlashStep::WriteAMLCData { value } => tagged(
                "writeAMLCData",
                object_json(value.to_members()),
            ),
            FlashStep::Bl2Boot { value } => tagged("bl2Boot", object_json(value.to_members())),
            FlashStep::ValidatePartitionSize { value, variable } => {
                let mut inner: Vec<(String, Json)> = Vec::new();
                assert(members_view(inner@) =~= no_members());
                put(&mut inner, "name", text_json(&value.name));
                assert(members_view(inner@) =~= with(
                    "name"@,
                    JsonView::Text(value.name@),
                    no_members(),
                ));
                tagged_with_variable("validatePartitionSize", object_json(inner), variable)
            },
            FlashStep::RestorePartition { value } => tagged(
                "restorePartition",
                object_json(value.to_members()),
            ),
            FlashStep::WriteEnv { value } => tagged("writeEnv", value.to_json()),
            FlashStep::Log { value } => tagged("log", text_json(value)),
            FlashStep::Wait { value } => tagged("wait", object_json(value.to_members())),
        };
        object_json(m)
    }
}

impl FlashConfig {
    /// This descriptor as a JSON document.
    pub fn to_document(&self) -> (j: Json)
        ensures
            j@ == encode_config(self@),
    {
        let mut steps: Vec<Json> = Vec::new();
        let mut i: usize = 0;
        while i < self.steps.len()
            invariant
                i <= self.steps@.len(),
                steps@.len() == i,
                forall|k: int|
                    0 <= k < i ==> (#[trigger] steps@[k])@ == encode_step(self.steps@[k]@),
            decreases self.steps@.len() - i,
        {
            steps.push(self.steps[i].to_json());
            i = i + 1;
        }
        proof {
            lemma_array_view(steps);
            assert(items_view(steps@) =~= encode_steps(self@.steps));
        }
        let mut m: Vec<(String, Json)> = Vec::new();
        assert(members_view(m@) =~= no_members());
        put(&mut m, "name", text_json(&self.name));
        put(&mut m, "version", text_json(&self.version));
        put(&mut m, "description", text_json(&self.description));
        put(&mut m, "steps", Json::Array(steps));
        match &self.variables {
            Some(seeds) => {
                let mut vars: Vec<(String, Json)> = Vec::new();
                let mut k: usize = 0;
                while k < seeds.len()
                    invariant
                        k <= seeds@.len(),
                        vars@.len() == k,
                        forall|n: int|
                            0 <= n < k ==> (#[trigger] vars@[n]).0@ == seeds@[n].0@ && vars@[n].1@
                                == count(seeds@[n].1 as int),
                    decreases seeds@.len() - k,
                {
                    vars.push((seeds[k].0.clone(), count_json(seeds[k].1 as u64)));
                    k = k + 1;
                }
                assert(members_view(vars@) =~= encode_variables(
                    crate::config::variables_view(seeds@),
                ));
                put(&mut m, "variables", object_json(vars));
            },
            None => {},
        }
        put(&mut m, "metadataVersion", count_json(self.metadata_version as u64));
        assert(members_view(m@) =~= encode_config(self@)->Object_0);
        object_json(m)
    }
}

} // verus!
