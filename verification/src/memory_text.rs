//! The texts in which the kernel reports memory: process status, single numbers, keyed numbers.
use vstd::prelude::*;
use vstd::string::*;

use crate::number::{parse_u64, parsed_u64, ParseIntegerError};
use crate::string_map::StringMap;
use crate::text::{
    halves, lines, same_text, split_once, split_whitespace, text_lines, texts, trim, trimmed, words,
};

verus! {

/// Why a text is not a number of KiB.
#[derive(Clone, Copy, Debug, PartialEq, Eq, Structural)]
pub enum KibError {
    Missing,
    Invalid(ParseIntegerError),
    NotKib,
    TrailingFields,
    Overflow,
}

impl KibError {
    pub open spec fn text(self) -> Seq<char> {
        match self {
            KibError::Missing => "missing KiB value"@,
            KibError::Invalid(error) => error.text(),
            KibError::NotKib => "memory value is not in KiB"@,
            KibError::TrailingFields => "memory value has trailing fields"@,
            KibError::Overflow => "memory byte count overflow"@,
        }
    }

    pub fn message(self) -> (message: &'static str)
        ensures
            message@ == self.text(),
    {
        match self {
            KibError::Missing => "missing KiB value",
            KibError::Invalid(error) => error.message(),
            KibError::NotKib => "memory value is not in KiB",
            KibError::TrailingFields => "memory value has trailing fields",
            KibError::Overflow => "memory byte count overflow",
        }
    }
}

/// The bytes that a number of KiB with its unit stands for.
pub open spec fn kib_bytes(value: Seq<char>) -> Result<u64, KibError> {
    let fields = words(value);
    if fields.len() == 0 {
        Err(KibError::Missing)
    } else {
        match parsed_u64(fields[0]) {
            Err(error) => Err(KibError::Invalid(error)),
            Ok(kib) => if fields.len() < 2 || fields[1] != "kB"@ {
                Err(KibError::NotKib)
            } else if fields.len() > 2 {
                Err(KibError::TrailingFields)
            } else if kib * 1024 > u64::MAX {
                Err(KibError::Overflow)
            } else {
                Ok((kib * 1024) as u64)
            },
        }
    }
}

/// Reads a number of KiB.
pub fn parse_kib(value: &str) -> (bytes: Result<u64, KibError>)
    ensures
        bytes == kib_bytes(value@),
{
    let fields = split_whitespace(value);
    if fields.len() == 0 {
        return Err(KibError::Missing);
    }
    assert(texts(fields@)[0] == fields@[0]@);
    let kib: u64 = match parse_u64(fields[0]) {
        Ok(kib) => kib,
        Err(error) => {
            return Err(KibError::Invalid(error));
        },
    };
    if fields.len() < 2 {
        return Err(KibError::NotKib);
    }
    assert(texts(fields@)[1] == fields@[1]@);
    if !same_text(fields[1], "kB") {
        return Err(KibError::NotKib);
    }
    if fields.len() > 2 {
        return Err(KibError::TrailingFields);
    }
    match kib.checked_mul(1024) {
        Some(bytes) => Ok(bytes),
        None => Err(KibError::Overflow),
    }
}

/// The fields of `/proc/self/status` that count memory.
#[derive(Clone, Copy, Debug, PartialEq, Eq, Structural)]
pub enum StatusField {
    VmSize,
    VmRss,
    RssAnon,
    RssFile,
    RssShmem,
    VmSwap,
}

impl StatusField {
    pub open spec fn text(self) -> Seq<char> {
        match self {
            StatusField::VmSize => "VmSize"@,
            StatusField::VmRss => "VmRSS"@,
            StatusField::RssAnon => "RssAnon"@,
            StatusField::RssFile => "RssFile"@,
            StatusField::RssShmem => "RssShmem"@,
            StatusField::VmSwap => "VmSwap"@,
        }
    }

    pub fn name(self) -> (name: &'static str)
        ensures
            name@ == self.text(),
    {
        match self {
            StatusField::VmSize => "VmSize",
            StatusField::VmRss => "VmRSS",
            StatusField::RssAnon => "RssAnon",
            StatusField::RssFile => "RssFile",
            StatusField::RssShmem => "RssShmem",
            StatusField::VmSwap => "VmSwap",
        }
    }
}

/// The field that a name stands for, if it counts memory.
pub open spec fn field_named(name: Seq<char>) -> Option<StatusField> {
    if name == "VmSize"@ {
        Some(StatusField::VmSize)
    } else if name == "VmRSS"@ {
        Some(StatusField::VmRss)
    } else if name == "RssAnon"@ {
        Some(StatusField::RssAnon)
    } else if name == "RssFile"@ {
        Some(StatusField::RssFile)
    } else if name == "RssShmem"@ {
        Some(StatusField::RssShmem)
    } else if name == "VmSwap"@ {
        Some(StatusField::VmSwap)
    } else {
        None
    }
}

fn status_field(name: &str) -> (field: Option<StatusField>)
    ensures
        field == field_named(name@),
{
    if same_text(name, "VmSize") {
        Some(StatusField::VmSize)
    } else if same_text(name, "VmRSS") {
        Some(StatusField::VmRss)
    } else if same_text(name, "RssAnon") {
        Some(StatusField::RssAnon)
    } else if same_text(name, "RssFile") {
        Some(StatusField::RssFile)
    } else if same_text(name, "RssShmem") {
        Some(StatusField::RssShmem)
    } else if same_text(name, "VmSwap") {
        Some(StatusField::VmSwap)
    } else {
        None
    }
}

/// The memory of a process, in bytes.
#[derive(Clone, Copy, Debug, PartialEq, Eq, Structural)]
pub struct ProcessMemory {
    pub virtual_bytes: u64,
    pub resident_bytes: u64,
    pub resident_anon_bytes: u64,
    pub resident_file_bytes: u64,
    pub resident_shmem_bytes: u64,
    pub swap_bytes: u64,
}

/// Why a process status is refused.
#[derive(Clone, Copy, Debug, PartialEq, Eq, Structural)]
pub enum ProcessStatusError {
    InvalidField(StatusField, KibError),
    DuplicateField(StatusField),
    MissingField(StatusField),
    ResidentOverflow,
    ResidentNotReconciled,
}

impl ProcessStatusError {
    pub open spec fn text(self) -> Seq<char> {
        match self {
            ProcessStatusError::InvalidField(field, error) => field.text() + ": "@ + error.text(),
            ProcessStatusError::DuplicateField(field) => "duplicate "@ + field.text()
                + " in /proc/self/status"@,
            ProcessStatusError::MissingField(field) => "/proc/self/status missing "@ + field.text(),
            ProcessStatusError::ResidentOverflow => "process resident-memory accounting overflow"@,
            ProcessStatusError::ResidentNotReconciled =>
                "process resident-memory accounting does not reconcile"@,
        }
    }

    /// The message of this error, with the error below it.
    pub fn message(self) -> (message: String)
        ensures
            message@ == self.text(),
    {
        match self {
            ProcessStatusError::InvalidField(field, error) => {
                let mut message = field.name().to_owned();
                message.append(": ");
                message.append(error.message());
                message
            },
            ProcessStatusError::DuplicateField(field) => {
                let mut message = "duplicate ".to_owned();
                message.append(field.name());
                message.append(" in /proc/self/status");
                message
            },
            ProcessStatusError::MissingField(field) => {
                let mut message = "/proc/self/status missing ".to_owned();
                message.append(field.name());
                message
            },
            ProcessStatusError::ResidentOverflow =>
                "process resident-memory accounting overflow".to_owned(),
            ProcessStatusError::ResidentNotReconciled =>
                "process resident-memory accounting does not reconcile".to_owned(),
        }
    }
}

/// The values of the fields that were found.
#[derive(Clone, Copy, Debug, PartialEq, Eq, Structural)]
pub struct StatusValues {
    pub virtual_bytes: Option<u64>,
    pub resident: Option<u64>,
    pub anon: Option<u64>,
    pub file: Option<u64>,
    pub shmem: Option<u64>,
    pub swap: Option<u64>,
}

impl StatusValues {
    pub open spec fn none() -> StatusValues {
        StatusValues {
            virtual_bytes: None,
            resident: None,
            anon: None,
            file: None,
            shmem: None,
            swap: None,
        }
    }

    pub open spec fn value(self, field: StatusField) -> Option<u64> {
        match field {
            StatusField::VmSize => self.virtual_bytes,
            StatusField::VmRss => self.resident,
            StatusField::RssAnon => self.anon,
            StatusField::RssFile => self.file,
            StatusField::RssShmem => self.shmem,
            StatusField::VmSwap => self.swap,
        }
    }

    pub open spec fn with(self, field: StatusField, bytes: u64) -> StatusValues {
        match field {
            StatusField::VmSize => StatusValues { virtual_bytes: Some(bytes), ..self },
            StatusField::VmRss => StatusValues { resident: Some(bytes), ..self },
            StatusField::RssAnon => StatusValues { anon: Some(bytes), ..self },
            StatusField::RssFile => StatusValues { file: Some(bytes), ..self },
            StatusField::RssShmem => StatusValues { shmem: Some(bytes), ..self },
            StatusField::VmSwap => StatusValues { swap: Some(bytes), ..self },
        }
    }

    fn get(&self, field: StatusField) -> (value: Option<u64>)
        ensures
            value == self.value(field),
    {
        match field {
            StatusField::VmSize => self.virtual_bytes,
            StatusField::VmRss => self.resident,
            StatusField::RssAnon => self.anon,
            StatusField::RssFile => self.file,
            StatusField::RssShmem => self.shmem,
            StatusField::VmSwap => self.swap,
        }
    }

    fn set(&mut self, field: StatusField, bytes: u64)
        ensures
            *final(self) == old(self).with(field, bytes),
    {
        match field {
            StatusField::VmSize => self.virtual_bytes = Some(bytes),
            StatusField::VmRss => self.resident = Some(bytes),
            StatusField::RssAnon => self.anon = Some(bytes),
            StatusField::RssFile => self.file = Some(bytes),
            StatusField::RssShmem => self.shmem = Some(bytes),
            StatusField::VmSwap => self.swap = Some(bytes),
        }
    }
}

/// The values in the lines from `i` on, after those in `found`.
pub open spec fn status_values(lines: Seq<Seq<char>>, i: int, found: StatusValues) -> Result<
    StatusValues,
    ProcessStatusError,
>
    decreases lines.len() - i,
    when 0 <= i
{
    if i >= lines.len() {
        Ok(found)
    } else {
        match halves(lines[i], ":"@) {
            None => status_values(lines, i + 1, found),
            Some((name, value)) => match field_named(name) {
                None => status_values(lines, i + 1, found),
                Some(field) => match kib_bytes(value) {
                    Err(error) => Err(ProcessStatusError::InvalidField(field, error)),
                    Ok(bytes) => if found.value(field) is Some {
                        Err(ProcessStatusError::DuplicateField(field))
                    } else {
                        status_values(lines, i + 1, found.with(field, bytes))
                    },
                },
            },
        }
    }
}

/// The memory that the values of all six fields make up: the resident parts add up to the whole.
pub open spec fn reconciled(values: StatusValues) -> Result<ProcessMemory, ProcessStatusError> {
    if values.virtual_bytes is None {
        Err(ProcessStatusError::MissingField(StatusField::VmSize))
    } else if values.resident is None {
        Err(ProcessStatusError::MissingField(StatusField::VmRss))
    } else if values.anon is None {
        Err(ProcessStatusError::MissingField(StatusField::RssAnon))
    } else if values.file is None {
        Err(ProcessStatusError::MissingField(StatusField::RssFile))
    } else if values.shmem is None {
        Err(ProcessStatusError::MissingField(StatusField::RssShmem))
    } else if values.swap is None {
        Err(ProcessStatusError::MissingField(StatusField::VmSwap))
    } else {
        let parts = values.anon->0 + values.file->0 + values.shmem->0;
        if parts > u64::MAX {
            Err(ProcessStatusError::ResidentOverflow)
        } else if parts != values.resident->0 {
            Err(ProcessStatusError::ResidentNotReconciled)
        } else {
            Ok(
                ProcessMemory {
                    virtual_bytes: values.virtual_bytes->0,
                    resident_bytes: values.resident->0,
                    resident_anon_bytes: values.anon->0,
                    resident_file_bytes: values.file->0,
                    resident_shmem_bytes: values.shmem->0,
                    swap_bytes: values.swap->0,
                },
            )
        }
    }
}

/// The memory that a process status reports.
pub open spec fn process_memory(status: Seq<char>) -> Result<ProcessMemory, ProcessStatusError> {
    match status_values(text_lines(status), 0, StatusValues::none()) {
        Ok(values) => reconciled(values),
        Err(error) => Err(error),
    }
}

/// Reads the text of `/proc/self/status`.
pub fn parse_process_status(status: &str) -> (memory: Result<ProcessMemory, ProcessStatusError>)
    ensures
        memory == process_memory(status@),
{
    let entries = lines(status);
    let mut values = StatusValues {
        virtual_bytes: None,
        resident: None,
        anon: None,
        file: None,
        shmem: None,
        swap: None,
    };
    let mut i: usize = 0;
    while i < entries.len()
        invariant
            i <= entries.len(),
            texts(entries@) == text_lines(status@),
            status_values(texts(entries@), i as int, values) == status_values(
                text_lines(status@),
                0,
                StatusValues::none(),
            ),
        decreases entries.len() - i,
    {
        assert(texts(entries@)[i as int] == entries@[i as int]@);
        if let Some((name, value)) = split_once(entries[i], ":") {
            if let Some(field) = status_field(name) {
                let bytes: u64 = match parse_kib(value) {
                    Ok(bytes) => bytes,
                    Err(error) => {
                        return Err(ProcessStatusError::InvalidField(field, error));
                    },
                };
                if values.get(field).is_some() {
                    return Err(ProcessStatusError::DuplicateField(field));
                }
                values.set(field, bytes);
            }
        }
        i = i + 1;
    }
    let virtual_bytes: u64 = match values.virtual_bytes {
        Some(bytes) => bytes,
        None => {
            return Err(ProcessStatusError::MissingField(StatusField::VmSize));
        },
    };
    let resident_bytes: u64 = match values.resident {
        Some(bytes) => bytes,
        None => {
            return Err(ProcessStatusError::MissingField(StatusField::VmRss));
        },
    };
    let resident_anon_bytes: u64 = match values.anon {
        Some(bytes) => bytes,
        None => {
            return Err(ProcessStatusError::MissingField(StatusField::RssAnon));
        },
    };
    let resident_file_bytes: u64 = match values.file {
        Some(bytes) => bytes,
        None => {
            return Err(ProcessStatusError::MissingField(StatusField::RssFile));
        },
    };
    let resident_shmem_bytes: u64 = match values.shmem {
        Some(bytes) => bytes,
        None => {
            return Err(ProcessStatusError::MissingField(StatusField::RssShmem));
        },
    };
    let swap_bytes: u64 = match values.swap {
        Some(bytes) => bytes,
        None => {
            return Err(ProcessStatusError::MissingField(StatusField::VmSwap));
        },
    };
    let pair: u64 = match resident_anon_bytes.checked_add(resident_file_bytes) {
        Some(pair) => pair,
        None => {
            return Err(ProcessStatusError::ResidentOverflow);
        },
    };
    let parts: u64 = match pair.checked_add(resident_shmem_bytes) {
        Some(parts) => parts,
        None => {
            return Err(ProcessStatusError::ResidentOverflow);
        },
    };
    if parts != resident_bytes {
        return Err(ProcessStatusError::ResidentNotReconciled);
    }
    Ok(
        ProcessMemory {
            virtual_bytes,
            resident_bytes,
            resident_anon_bytes,
            resident_file_bytes,
            resident_shmem_bytes,
            swap_bytes,
        },
    )
}

/// The resident memory of every accepted status is the sum of its parts.
pub proof fn resident_parts_add_up(status: Seq<char>)
    ensures
        process_memory(status) matches Ok(memory) ==> memory.resident_bytes
            == memory.resident_anon_bytes + memory.resident_file_bytes
            + memory.resident_shmem_bytes,
{
}

/// Why a text is not a single number.
#[derive(Clone, Copy, Debug, PartialEq, Eq, Structural)]
pub enum SingleIntegerError {
    Missing,
    Invalid(ParseIntegerError),
    TrailingFields,
}

impl SingleIntegerError {
    pub open spec fn text(self) -> Seq<char> {
        match self {
            SingleIntegerError::Missing => "missing integer"@,
            SingleIntegerError::Invalid(error) => error.text(),
            SingleIntegerError::TrailingFields => "integer has trailing fields"@,
        }
    }

    pub fn message(self) -> (message: &'static str)
        ensures
            message@ == self.text(),
    {
        match self {
            SingleIntegerError::Missing => "missing integer",
            SingleIntegerError::Invalid(error) => error.message(),
            SingleIntegerError::TrailingFields => "integer has trailing fields",
        }
    }
}

/// The one number that a text holds.
pub open spec fn single_u64(value: Seq<char>) -> Result<u64, SingleIntegerError> {
    let fields = words(value);
    if fields.len() == 0 {
        Err(SingleIntegerError::Missing)
    } else {
        match parsed_u64(fields[0]) {
            Err(error) => Err(SingleIntegerError::Invalid(error)),
            Ok(number) => if fields.len() > 1 {
                Err(SingleIntegerError::TrailingFields)
            } else {
                Ok(number)
            },
        }
    }
}

/// Reads a text that holds one number.
pub fn parse_single_u64(value: &str) -> (parsed: Result<u64, SingleIntegerError>)
    ensures
        parsed == single_u64(value@),
{
    let fields = split_whitespace(value);
    if fields.len() == 0 {
        return Err(SingleIntegerError::Missing);
    }
    assert(texts(fields@)[0] == fields@[0]@);
    match parse_u64(fields[0]) {
        Err(error) => Err(SingleIntegerError::Invalid(error)),
        Ok(number) => {
            if fields.len() > 1 {
                Err(SingleIntegerError::TrailingFields)
            } else {
                Ok(number)
            }
        },
    }
}

/// Why a text is not a list of keys with numbers.
#[derive(Debug)]
pub enum KeyedValuesError {
    MissingKey,
    MissingValue,
    InvalidValue(ParseIntegerError),
    TrailingFields(String),
    DuplicateKey(String),
}

/// What a `KeyedValuesError` says.
pub enum KeyedFault {
    MissingKey,
    MissingValue,
    InvalidValue(ParseIntegerError),
    TrailingFields(Seq<char>),
    DuplicateKey(Seq<char>),
}

impl View for KeyedValuesError {
    type V = KeyedFault;

    open spec fn view(&self) -> KeyedFault {
        match self {
            KeyedValuesError::MissingKey => KeyedFault::MissingKey,
            KeyedValuesError::MissingValue => KeyedFault::MissingValue,
            KeyedValuesError::InvalidValue(error) => KeyedFault::InvalidValue(*error),
            KeyedValuesError::TrailingFields(key) => KeyedFault::TrailingFields(key@),
            KeyedValuesError::DuplicateKey(key) => KeyedFault::DuplicateKey(key@),
        }
    }
}

impl KeyedValuesError {
    pub open spec fn text(self) -> Seq<char> {
        match self@ {
            KeyedFault::MissingKey => "missing key"@,
            KeyedFault::MissingValue => "missing value"@,
            KeyedFault::InvalidValue(error) => error.text(),
            KeyedFault::TrailingFields(key) => "value for "@ + key + " has trailing fields"@,
            KeyedFault::DuplicateKey(key) => "duplicate key "@ + key,
        }
    }

    pub fn message(&self) -> (message: String)
        ensures
            message@ == self.text(),
    {
        match self {
            KeyedValuesError::MissingKey => "missing key".to_owned(),
            KeyedValuesError::MissingValue => "missing value".to_owned(),
            KeyedValuesError::InvalidValue(error) => error.message().to_owned(),
            KeyedValuesError::TrailingFields(key) => {
                let mut message = "value for ".to_owned();
                message.append(key.as_str());
                message.append(" has trailing fields");
                message
            },
            KeyedValuesError::DuplicateKey(key) => {
                let mut message = "duplicate key ".to_owned();
                message.append(key.as_str());
                message
            },
        }
    }
}

/// The key and the number of a line.
pub open spec fn keyed_line(line: Seq<char>) -> Result<(Seq<char>, u64), KeyedFault> {
    let fields = words(line);
    if fields.len() == 0 {
        Err(KeyedFault::MissingKey)
    } else if fields.len() == 1 {
        Err(KeyedFault::MissingValue)
    } else {
        match parsed_u64(fields[1]) {
            Err(error) => Err(KeyedFault::InvalidValue(error)),
            Ok(number) => if fields.len() > 2 {
                Err(KeyedFault::TrailingFields(fields[0]))
            } else {
                Ok((fields[0], number))
            },
        }
    }
}

/// The keys and numbers in the lines from `i` on, added to those in `found`.
pub open spec fn keyed_from(lines: Seq<Seq<char>>, i: int, found: Map<Seq<char>, u64>) -> Result<
    Map<Seq<char>, u64>,
    KeyedFault,
>
    decreases lines.len() - i,
    when 0 <= i
{
    if i >= lines.len() {
        Ok(found)
    } else {
        match keyed_line(lines[i]) {
            Err(error) => Err(error),
            Ok((key, number)) => if found.dom().contains(key) {
                Err(KeyedFault::DuplicateKey(key))
            } else {
                keyed_from(lines, i + 1, found.insert(key, number))
            },
        }
    }
}

/// The keys and numbers of a text: one of each on every line.
pub open spec fn keyed_u64(input: Seq<char>) -> Result<Map<Seq<char>, u64>, KeyedFault> {
    keyed_from(text_lines(input), 0, Map::empty())
}

/// Reads a text of keys with numbers.
pub fn parse_keyed_u64(input: &str) -> (parsed: Result<StringMap<u64>, KeyedValuesError>)
    ensures
        match parsed {
            Ok(values) => keyed_u64(input@) == Ok::<Map<Seq<char>, u64>, KeyedFault>(values@),
            Err(error) => keyed_u64(input@) == Err::<Map<Seq<char>, u64>, KeyedFault>(error@),
        },
{
    let entries = lines(input);
    let mut values: StringMap<u64> = StringMap::new();
    let mut i: usize = 0;
    while i < entries.len()
        invariant
            i <= entries.len(),
            texts(entries@) == text_lines(input@),
            keyed_from(texts(entries@), i as int, values@) == keyed_u64(input@),
        decreases entries.len() - i,
    {
        assert(texts(entries@)[i as int] == entries@[i as int]@);
        let fields = split_whitespace(entries[i]);
        assert(texts(fields@).len() == fields.len());
        assert forall|k: int| 0 <= k < fields.len() implies #[trigger] texts(fields@)[k]
            == fields@[k]@ by {}
        if fields.len() == 0 {
            return Err(KeyedValuesError::MissingKey);
        }
        if fields.len() == 1 {
            return Err(KeyedValuesError::MissingValue);
        }
        let number: u64 = match parse_u64(fields[1]) {
            Ok(number) => number,
            Err(error) => {
                return Err(KeyedValuesError::InvalidValue(error));
            },
        };
        if fields.len() > 2 {
            return Err(KeyedValuesError::TrailingFields(fields[0].to_owned()));
        }
        if values.contains_key(fields[0]) {
            return Err(KeyedValuesError::DuplicateKey(fields[0].to_owned()));
        }
        let _ = values.insert(fields[0].to_owned(), number);
        i = i + 1;
    }
    Ok(values)
}

/// The memory of a control group: none as the limit stands for no limit.
#[derive(Clone, Copy, Debug, PartialEq, Eq, Structural)]
pub struct CgroupMemory {
    pub current_bytes: u64,
    pub max_bytes: Option<u64>,
}

/// Why the memory controller of a control group is refused.
#[derive(Clone, Copy, Debug, PartialEq, Eq, Structural)]
pub enum CgroupMemoryError {
    IncompleteController,
    InvalidCurrent(SingleIntegerError),
    InvalidMax(ParseIntegerError),
}

impl CgroupMemoryError {
    pub open spec fn text(self) -> Seq<char> {
        match self {
            CgroupMemoryError::IncompleteController =>
                "incomplete cgroup v2 memory controller: memory.current and memory.max must both exist"@,
            CgroupMemoryError::InvalidCurrent(error) => error.text(),
            CgroupMemoryError::InvalidMax(error) => "invalid cgroup memory.max: "@ + error.text(),
        }
    }

    /// The message of this error, with the error below it.
    pub fn message(self) -> (message: String)
        ensures
            message@ == self.text(),
    {
        match self {
            CgroupMemoryError::IncompleteController =>
                "incomplete cgroup v2 memory controller: memory.current and memory.max must both exist".to_owned(),
            CgroupMemoryError::InvalidCurrent(error) => error.message().to_owned(),
            CgroupMemoryError::InvalidMax(error) => {
                let mut message = "invalid cgroup memory.max: ".to_owned();
                message.append(error.message());
                message
            },
        }
    }
}

/// The memory that the files `memory.current` and `memory.max` report, where they exist.
pub open spec fn cgroup_memory(current: Option<Seq<char>>, max: Option<Seq<char>>) -> Result<
    Option<CgroupMemory>,
    CgroupMemoryError,
> {
    match (current, max) {
        (None, None) => Ok(None),
        (Some(current), Some(max)) => match single_u64(current) {
            Err(error) => Err(CgroupMemoryError::InvalidCurrent(error)),
            Ok(current_bytes) => if trimmed(max) == "max"@ {
                Ok(Some(CgroupMemory { current_bytes, max_bytes: None }))
            } else {
                match parsed_u64(trimmed(max)) {
                    Err(error) => Err(CgroupMemoryError::InvalidMax(error)),
                    Ok(bytes) => Ok(Some(CgroupMemory { current_bytes, max_bytes: Some(bytes) })),
                }
            },
        },
        _ => Err(CgroupMemoryError::IncompleteController),
    }
}

/// The text of a file that may be missing.
pub open spec fn file_text(file: Option<&str>) -> Option<Seq<char>> {
    match file {
        Some(file) => Some(file@),
        None => None,
    }
}

/// Reads the texts of `memory.current` and `memory.max`; a file that does not exist is none.
pub fn read_cgroup_memory(current: Option<&str>, max: Option<&str>) -> (memory: Result<
    Option<CgroupMemory>,
    CgroupMemoryError,
>)
    ensures
        memory == cgroup_memory(file_text(current), file_text(max)),
{
    match (current, max) {
        (None, None) => Ok(None),
        (Some(current), Some(max)) => {
            let current_bytes: u64 = match parse_single_u64(current) {
                Ok(bytes) => bytes,
                Err(error) => {
                    return Err(CgroupMemoryError::InvalidCurrent(error));
                },
            };
            let max = trim(max);
            if same_text(max, "max") {
                return Ok(Some(CgroupMemory { current_bytes, max_bytes: None }));
            }
            match parse_u64(max) {
                Err(error) => Err(CgroupMemoryError::InvalidMax(error)),
                Ok(bytes) => Ok(Some(CgroupMemory { current_bytes, max_bytes: Some(bytes) })),
            }
        },
        _ => Err(CgroupMemoryError::IncompleteController),
    }
}

/// A value in KiB is a number and its unit and nothing else, and stands for so many times 1024 bytes;
/// every such text is accepted whose bytes can be counted.
pub proof fn values_in_kib_are_numbers_with_their_unit(value: Seq<char>, bytes: u64)
    ensures
        kib_bytes(value) == Ok::<u64, KibError>(bytes) <==> {
            &&& words(value).len() == 2
            &&& words(value)[1] == "kB"@
            &&& parsed_u64(words(value)[0]) matches Ok(kib) && kib * 1024 == bytes
        },
{
}

/// A field is known by its name alone, and each field has a name of its own.
pub proof fn fields_are_known_by_their_names(field: StatusField, name: Seq<char>)
    ensures
        field_named(name) == Some(field) <==> name == field.text(),
{
    reveal_strlit("VmSize");
    reveal_strlit("VmRSS");
    reveal_strlit("RssAnon");
    reveal_strlit("RssFile");
    reveal_strlit("RssShmem");
    reveal_strlit("VmSwap");
    assert("VmSize"@[2] == 'S' && "VmSize"@.len() == 6);
    assert("VmSwap"@[3] == 'w' && "VmSwap"@.len() == 6);
    assert("VmSize"@[3] == 'i');
    assert("VmRSS"@.len() == 5);
    assert("RssAnon"@[3] == 'A' && "RssAnon"@.len() == 7);
    assert("RssFile"@[3] == 'F' && "RssFile"@.len() == 7);
    assert("RssShmem"@.len() == 8);
}

/// The field that a line is about, if it counts memory.
pub open spec fn field_of_line(line: Seq<char>) -> Option<StatusField> {
    match halves(line, ":"@) {
        Some((name, _)) => field_named(name),
        None => None,
    }
}

/// Whether a line holds a field with so many bytes.
pub open spec fn line_holds(line: Seq<char>, field: StatusField, bytes: u64) -> bool {
    halves(line, ":"@) matches Some((name, value)) && field_named(name) == Some(field) && kib_bytes(
        value,
    ) == Ok::<u64, KibError>(bytes)
}

/// The value that is read for a field is that of the line that holds it, and there is no other such
/// line.
pub proof fn fields_are_read_from_their_lines(
    lines: Seq<Seq<char>>,
    i: int,
    found: StatusValues,
    k: int,
    field: StatusField,
)
    requires
        0 <= i <= k < lines.len(),
        status_values(lines, i, found) is Ok,
        field_of_line(lines[k]) == Some(field),
    ensures
        found.value(field) is None,
        status_values(lines, i, found)->Ok_0.value(field) matches Some(bytes) && line_holds(
            lines[k],
            field,
            bytes,
        ),
        forall|j: int|
            i <= j < lines.len() && j != k ==> field_of_line(#[trigger] lines[j]) != Some(field),
    decreases lines.len() - i,
{
    let values = status_values(lines, i, found)->Ok_0;
    if i < k {
        match halves(lines[i], ":"@) {
            None => {
                fields_are_read_from_their_lines(lines, i + 1, found, k, field);
            },
            Some((name, value)) => match field_named(name) {
                None => {
                    fields_are_read_from_their_lines(lines, i + 1, found, k, field);
                },
                Some(other) => {
                    let more = found.with(other, kib_bytes(value)->Ok_0);
                    fields_are_read_from_their_lines(lines, i + 1, more, k, field);
                },
            },
        }
    } else {
        let (name, value) = halves(lines[i], ":"@)->0;
        let more = found.with(field, kib_bytes(value)->Ok_0);
        lemma_found_values_stay(lines, i + 1, more, field);
        assert forall|j: int| i <= j < lines.len() && j != k implies field_of_line(
            #[trigger] lines[j],
        ) != Some(field) by {
            if field_of_line(lines[j]) == Some(field) {
                fields_are_read_from_their_lines(lines, i + 1, more, j, field);
            }
        }
    }
}

proof fn lemma_found_values_stay(
    lines: Seq<Seq<char>>,
    i: int,
    found: StatusValues,
    field: StatusField,
)
    requires
        0 <= i,
        found.value(field) is Some,
        status_values(lines, i, found) is Ok,
    ensures
        status_values(lines, i, found)->Ok_0.value(field) == found.value(field),
    decreases lines.len() - i,
{
    if i < lines.len() {
        match halves(lines[i], ":"@) {
            None => {
                lemma_found_values_stay(lines, i + 1, found, field);
            },
            Some((name, value)) => match field_named(name) {
                None => {
                    lemma_found_values_stay(lines, i + 1, found, field);
                },
                Some(other) => {
                    lemma_found_values_stay(
                        lines,
                        i + 1,
                        found.with(other, kib_bytes(value)->Ok_0),
                        field,
                    );
                },
            },
        }
    }
}

/// A value that is read for a field stands in a line.
pub proof fn no_value_is_made_up(
    lines: Seq<Seq<char>>,
    i: int,
    found: StatusValues,
    field: StatusField,
)
    requires
        0 <= i,
        found.value(field) is None,
        status_values(lines, i, found) is Ok,
        status_values(lines, i, found)->Ok_0.value(field) is Some,
    ensures
        exists|k: int|
            i <= k < lines.len() && line_holds(
                #[trigger] lines[k],
                field,
                status_values(lines, i, found)->Ok_0.value(field)->0,
            ),
    decreases lines.len() - i,
{
    let values = status_values(lines, i, found)->Ok_0;
    if i < lines.len() {
        match halves(lines[i], ":"@) {
            None => {
                no_value_is_made_up(lines, i + 1, found, field);
            },
            Some((name, value)) => match field_named(name) {
                None => {
                    no_value_is_made_up(lines, i + 1, found, field);
                },
                Some(other) => {
                    let more = found.with(other, kib_bytes(value)->Ok_0);
                    if other == field {
                        lemma_found_values_stay(lines, i + 1, more, field);
                        assert(line_holds(lines[i], field, values.value(field)->0));
                    } else {
                        no_value_is_made_up(lines, i + 1, more, field);
                    }
                },
            },
        }
    }
}

/// The memory of a process is made up of the six fields, each in its place, and is accepted if and
/// only if all of them are there and the three resident parts add up to the whole.
pub proof fn six_fields_make_up_the_memory(values: StatusValues)
    ensures
        reconciled(values) is Ok <==> values.virtual_bytes is Some && values.resident is Some
            && values.anon is Some && values.file is Some && values.shmem is Some
            && values.swap is Some && values.anon->0 + values.file->0 + values.shmem->0
            == values.resident->0,
        reconciled(values) matches Ok(memory) ==> {
            &&& values.value(StatusField::VmSize) == Some(memory.virtual_bytes)
            &&& values.value(StatusField::VmRss) == Some(memory.resident_bytes)
            &&& values.value(StatusField::RssAnon) == Some(memory.resident_anon_bytes)
            &&& values.value(StatusField::RssFile) == Some(memory.resident_file_bytes)
            &&& values.value(StatusField::RssShmem) == Some(memory.resident_shmem_bytes)
            &&& values.value(StatusField::VmSwap) == Some(memory.swap_bytes)
        },
        reconciled(values) matches Err(ProcessStatusError::MissingField(field)) ==> values.value(
            field,
        ) is None,
{
}

/// A text holds a single number if and only if it is one word, and that word is the number.
pub proof fn single_numbers_are_one_word(value: Seq<char>, number: u64)
    ensures
        single_u64(value) == Ok::<u64, SingleIntegerError>(number) <==> words(value).len() == 1
            && parsed_u64(words(value)[0]) == Ok::<u64, ParseIntegerError>(number),
{
}

/// A line holds a key with its number if and only if it is two words, the key and the number.
pub proof fn keyed_lines_are_two_words(line: Seq<char>, key: Seq<char>, number: u64)
    ensures
        keyed_line(line) == Ok::<(Seq<char>, u64), KeyedFault>((key, number)) <==> words(line).len()
            == 2 && words(line)[0] == key && parsed_u64(words(line)[1]) == Ok::<
            u64,
            ParseIntegerError,
        >(number),
{
}

/// The keys that are read are those of the lines, each with the number of its own line, and no key
/// is there twice.
pub proof fn keys_are_read_from_their_lines(
    lines: Seq<Seq<char>>,
    i: int,
    found: Map<Seq<char>, u64>,
    key: Seq<char>,
)
    requires
        0 <= i,
        keyed_from(lines, i, found) is Ok,
    ensures
        ({
            let values = keyed_from(lines, i, found)->Ok_0;
            &&& found.dom().contains(key) ==> values.dom().contains(key) && values[key] == found[key]
            &&& forall|k: int|
                i <= k < lines.len() ==> keyed_line(#[trigger] lines[k]) is Ok
            &&& forall|k: int|
                i <= k < lines.len() && keyed_line(#[trigger] lines[k])->Ok_0.0 == key
                    ==> !found.dom().contains(key) && values.dom().contains(key) && values[key]
                    == keyed_line(lines[k])->Ok_0.1
            &&& values.dom().contains(key) && !found.dom().contains(key) ==> exists|k: int|
                i <= k < lines.len() && keyed_line(#[trigger] lines[k])->Ok_0.0 == key
        }),
    decreases lines.len() - i,
{
    if i < lines.len() {
        let (name, number) = keyed_line(lines[i])->Ok_0;
        keys_are_read_from_their_lines(lines, i + 1, found.insert(name, number), key);
        if name == key {
            assert(keyed_line(lines[i])->Ok_0.0 == key);
        }
    }
}

/// A control group has memory if and only if both files are there, and no limit if and only if the
/// one of the limit says so.
pub proof fn both_files_make_up_the_memory(current: Option<Seq<char>>, max: Option<Seq<char>>)
    ensures
        ({
            let memory = cgroup_memory(current, max);
            &&& memory matches Ok(None) ==> current is None && max is None
            &&& current is None && max is None ==> memory == Ok::<
                Option<CgroupMemory>,
                CgroupMemoryError,
            >(None)
            &&& memory matches Ok(Some(memory)) ==> {
                &&& current is Some && max is Some
                &&& single_u64(current->0) == Ok::<u64, SingleIntegerError>(memory.current_bytes)
                &&& memory.max_bytes is None <==> trimmed(max->0) == "max"@
                &&& memory.max_bytes matches Some(bytes) ==> parsed_u64(trimmed(max->0)) == Ok::<
                    u64,
                    ParseIntegerError,
                >(bytes)
            }
            &&& memory == Err::<Option<CgroupMemory>, CgroupMemoryError>(
                CgroupMemoryError::IncompleteController,
            ) <==> current is Some != max is Some
        }),
{
}

} // verus!
