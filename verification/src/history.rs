//! Reading one build's counters out of an Incredibuild Build History
//! document. The document is walked as a tree; every object in it is a
//! candidate record, and exactly one record must carry the build's caption.

use vstd::prelude::*;
use crate::messages::{push_quoted, quoted};
use crate::sampling::IbHistory;
use crate::text::{
    ascii_lower, ascii_lower_exec, chars_of, decimal, normalized, normalized_spec, parse_u64,
    parse_unsigned_spec, push_decimal, push_str, str_eq, string_from_chars,
};

verus! {

/// A Build History document as the reader sees it.
///
/// The entries of an object are listed in the order in which the document's
/// map walks them (by key). A number carries its value as an unsigned 64-bit
/// integer, where it is one, and its value as an IEEE-754 double, as bits; a
/// string carries its text and, where std reads a double from that text, the
/// double's bits.
#[derive(Debug)]
pub enum JsonValue {
    Null,
    Bool(bool),
    Number { unsigned: Option<u64>, double_bits: u64 },
    Text { text: String, double_bits: Option<u64> },
    Array(Vec<JsonValue>),
    Object(Vec<(String, JsonValue)>),
}

/// Every object of the document, the document itself first when it is one,
/// then the objects below each child in order (a pre-order walk).
pub open spec fn records_of(v: JsonValue) -> Seq<Seq<(String, JsonValue)>>
    decreases v,
{
    match v {
        JsonValue::Object(es) => seq![es@] + records_of_entries(es@),
        JsonValue::Array(xs) => records_of_values(xs@),
        _ => seq![],
    }
}

/// The records below the values of an object's entries, in entry order.
pub open spec fn records_of_entries(es: Seq<(String, JsonValue)>) -> Seq<Seq<(String, JsonValue)>>
    decreases es,
{
    if es.len() == 0 {
        seq![]
    } else {
        records_of_entries(es.drop_last()) + records_of(es.last().1)
    }
}

/// The records below the items of an array, in item order.
pub open spec fn records_of_values(xs: Seq<JsonValue>) -> Seq<Seq<(String, JsonValue)>>
    decreases xs,
{
    if xs.len() == 0 {
        seq![]
    } else {
        records_of_values(xs.drop_last()) + records_of(xs.last())
    }
}

/// The entries each collected record refers to.
pub open spec fn entries_of<'a>(rs: Seq<&'a Vec<(String, JsonValue)>>) -> Seq<Seq<(String, JsonValue)>> {
    rs.map_values(|r: &'a Vec<(String, JsonValue)>| r@)
}

/// Appends every record of `value` to `records`, in walk order.
fn walk_records<'a>(value: &'a JsonValue, records: &mut Vec<&'a Vec<(String, JsonValue)>>)
    ensures
        entries_of(final(records)@) == entries_of(old(records)@) + records_of(*value),
    decreases value,
{
    match value {
        JsonValue::Object(entries) => {
            records.push(entries);
            let ghost base = entries_of(old(records)@) + seq![entries@];
            assert(entries_of(records@) =~= base);
            let mut i: usize = 0;
            while i < entries.len()
                invariant
                    *value is Object,
                    (*value)->Object_0 == *entries,
                    i <= entries@.len(),
                    entries_of(records@) == base + records_of_entries(entries@.take(i as int)),
                decreases entries@.len() - i,
            {
                assert(entries@.take(i + 1).drop_last() =~= entries@.take(i as int));
                assert(entries@.take(i + 1).last() == entries@[i as int]);
                proof {
                    assert(decreases_to!(*value => (*value)->Object_0));
                    assert(decreases_to!(*entries => entries@));
                    assert(decreases_to!(entries@ => entries@[i as int]));
                    assert(decreases_to!(entries@[i as int] => entries@[i as int].1));
                }
                walk_records(&entries[i].1, records);
                i = i + 1;
                assert(entries_of(records@) =~= base + records_of_entries(entries@.take(i as int)));
            }
            assert(entries@.take(entries@.len() as int) =~= entries@);
            assert(entries_of(records@) =~= entries_of(old(records)@) + records_of(*value));
        }
        JsonValue::Array(items) => {
            let ghost base = entries_of(old(records)@);
            let mut i: usize = 0;
            while i < items.len()
                invariant
                    *value is Array,
                    (*value)->Array_0 == *items,
                    i <= items@.len(),
                    entries_of(records@) == base + records_of_values(items@.take(i as int)),
                decreases items@.len() - i,
            {
                assert(items@.take(i + 1).drop_last() =~= items@.take(i as int));
                assert(items@.take(i + 1).last() == items@[i as int]);
                proof {
                    assert(decreases_to!(*value => (*value)->Array_0));
                    assert(decreases_to!(*items => items@));
                    assert(decreases_to!(items@ => items@[i as int]));
                }
                walk_records(&items[i], records);
                i = i + 1;
                assert(entries_of(records@) =~= base + records_of_values(items@.take(i as int)));
            }
            assert(items@.take(items@.len() as int) =~= items@);
            assert(entries_of(records@) =~= base + records_of(*value));
        }
        _ => {
            assert(entries_of(records@) =~= entries_of(old(records)@) + records_of(*value));
        }
    }
}

// ---------------------------------------------------------------------
// Looking a field up by its aliases
// ---------------------------------------------------------------------

/// The text of each alias.
pub open spec fn views_of<'a>(xs: Seq<&'a str>) -> Seq<Seq<char>> {
    xs.map_values(|a: &'a str| a@)
}

/// A key names a field when it normalizes to what one of the field's
/// aliases normalizes to, so `buildCaption`, `build_caption` and
/// `Build Caption` are one key.
pub open spec fn key_matches(key: Seq<char>, aliases: Seq<Seq<char>>) -> bool {
    exists|j: int| 0 <= j < aliases.len() && normalized_spec(key) == normalized_spec(aliases[j])
}

/// The value of the first entry, in walk order, whose key names the field.
pub open spec fn value_for_spec(
    entries: Seq<(String, JsonValue)>,
    aliases: Seq<Seq<char>>,
) -> Option<JsonValue>
    decreases entries.len(),
{
    if entries.len() == 0 {
        None
    } else if key_matches(entries[0].0@, aliases) {
        Some(entries[0].1)
    } else {
        value_for_spec(entries.drop_first(), aliases)
    }
}

fn key_matches_exec(key: &str, aliases: &[&str]) -> (r: bool)
    ensures
        r == key_matches(key@, views_of(aliases@)),
{
    let k = normalized(key);
    let mut j: usize = 0;
    while j < aliases.len()
        invariant
            j <= aliases@.len(),
            k@ == normalized_spec(key@),
            forall|t: int|
                0 <= t < j ==> normalized_spec(key@) != normalized_spec(
                    #[trigger] views_of(aliases@)[t],
                ),
        decreases aliases@.len() - j,
    {
        let a = normalized(aliases[j]);
        if str_eq(k.as_str(), a.as_str()) {
            assert(views_of(aliases@)[j as int] == aliases@[j as int]@);
            return true;
        }
        assert(views_of(aliases@)[j as int] == aliases@[j as int]@);
        j = j + 1;
    }
    false
}

/// The value of the first entry of `record` whose key names the field.
fn value_for<'a>(record: &'a Vec<(String, JsonValue)>, aliases: &[&str]) -> (r: Option<
    &'a JsonValue,
>)
    ensures
        match r {
            Some(v) => value_for_spec(record@, views_of(aliases@)) == Some(*v),
            None => value_for_spec(record@, views_of(aliases@)) is None,
        },
{
    let ghost al = views_of(aliases@);
    assert(record@.skip(0) =~= record@);
    let mut i: usize = 0;
    while i < record.len()
        invariant
            i <= record@.len(),
            al == views_of(aliases@),
            value_for_spec(record@, al) == value_for_spec(record@.skip(i as int), al),
        decreases record@.len() - i,
    {
        let ghost rest = record@.skip(i as int);
        assert(rest[0] == record@[i as int]);
        assert(rest.drop_first() =~= record@.skip(i + 1));
        if key_matches_exec(record[i].0.as_str(), aliases) {
            return Some(&record[i].1);
        }
        i = i + 1;
    }
    None
}

// ---------------------------------------------------------------------
// Readings
// ---------------------------------------------------------------------

/// An unsigned counter: a number that is an unsigned 64-bit integer, or a
/// string that std reads as one.
pub open spec fn unsigned_reading(v: Option<JsonValue>) -> Option<u64> {
    match v {
        Some(JsonValue::Number { unsigned, .. }) => unsigned,
        Some(JsonValue::Text { text, .. }) => match parse_unsigned_spec(text@, u64::MAX as nat) {
            Some(n) => Some(n as u64),
            None => None,
        },
        _ => None,
    }
}

fn unsigned_reading_exec(v: Option<&JsonValue>) -> (r: Option<u64>)
    ensures
        r == unsigned_reading(
            match v {
                Some(x) => Some(*x),
                None => None,
            },
        ),
{
    match v {
        Some(JsonValue::Number { unsigned, .. }) => *unsigned,
        Some(JsonValue::Text { text, .. }) => parse_u64(text.as_str()),
        _ => None,
    }
}

/// A double, given by its bits, compares `>= 0.0`: it is `+0.0`, a positive
/// number, positive infinity or `-0.0` (never a NaN).
pub open spec fn double_at_least_zero(bits: u64) -> bool {
    bits <= 0x7ff0_0000_0000_0000u64 || bits == 0x8000_0000_0000_0000u64
}

/// The remote core time: the double a number holds, or the double std reads
/// from a string, provided it is not negative (and not a NaN).
pub open spec fn seconds_reading(v: Option<JsonValue>) -> Option<u64> {
    let d = match v {
        Some(JsonValue::Number { double_bits, .. }) => Some(double_bits),
        Some(JsonValue::Text { double_bits, .. }) => double_bits,
        _ => None,
    };
    match d {
        Some(b) => if double_at_least_zero(b) {
            Some(b)
        } else {
            None
        },
        None => None,
    }
}

fn seconds_reading_exec(v: Option<&JsonValue>) -> (r: Option<u64>)
    ensures
        r == seconds_reading(
            match v {
                Some(x) => Some(*x),
                None => None,
            },
        ),
{
    let d = match v {
        Some(JsonValue::Number { double_bits, .. }) => Some(*double_bits),
        Some(JsonValue::Text { double_bits, .. }) => *double_bits,
        _ => None,
    };
    match d {
        Some(b) => if b <= 0x7ff0_0000_0000_0000u64 || b == 0x8000_0000_0000_0000u64 {
            Some(b)
        } else {
            None
        },
        None => None,
    }
}

/// The text of a string value, if the value is a string.
pub open spec fn text_of(v: Option<JsonValue>) -> Option<Seq<char>> {
    match v {
        Some(JsonValue::Text { text, .. }) => Some(text@),
        _ => None,
    }
}

/// `to_ascii_lowercase`.
pub open spec fn lowered(s: Seq<char>) -> Seq<char> {
    s.map_values(|c: char| ascii_lower(c))
}

fn lowered_exec(t: &str) -> (r: String)
    ensures
        r@ == lowered(t@),
{
    let cs = chars_of(t);
    let mut out: Vec<char> = Vec::new();
    let mut i: usize = 0;
    while i < cs.len()
        invariant
            i <= cs@.len(),
            cs@ == t@,
            out@ == lowered(cs@.take(i as int)),
        decreases cs@.len() - i,
    {
        out.push(ascii_lower_exec(cs[i]));
        i = i + 1;
        assert(out@ =~= lowered(cs@.take(i as int)));
    }
    assert(cs@.take(cs@.len() as int) =~= cs@);
    string_from_chars(out.as_slice())
}

// ---------------------------------------------------------------------
// Selecting the build's record
// ---------------------------------------------------------------------

/// The counters a record must yield.
#[derive(Debug, Clone, Copy, PartialEq, Eq, Structural)]
pub enum CounterField {
    BuildNumber,
    RemoteTasks,
    LocalTasks,
}

/// Why a Build History document yields no counters for the build.
#[derive(Debug)]
pub enum HistoryError {
    /// Not exactly one record carries the caption; `found` do.
    CaptionCount { found: usize },
    /// The record has no status text.
    StatusMissing,
    /// The record's status, lower-cased, is not a successful one.
    NotSuccessful { status: String },
    /// A counter is missing or is not an unsigned integer.
    NotUnsigned { field: CounterField },
    /// The remote core time is missing, negative or not numeric.
    BadRemoteCoreTime,
}

/// A `HistoryError` as a mathematical value.
pub enum HistoryFault {
    CaptionCount { found: nat },
    StatusMissing,
    NotSuccessful { status: Seq<char> },
    NotUnsigned { field: CounterField },
    BadRemoteCoreTime,
}

impl View for HistoryError {
    type V = HistoryFault;

    open spec fn view(&self) -> HistoryFault {
        match self {
            HistoryError::CaptionCount { found } => HistoryFault::CaptionCount { found: *found as nat },
            HistoryError::StatusMissing => HistoryFault::StatusMissing,
            HistoryError::NotSuccessful { status } => HistoryFault::NotSuccessful { status: status@ },
            HistoryError::NotUnsigned { field } => HistoryFault::NotUnsigned { field: *field },
            HistoryError::BadRemoteCoreTime => HistoryFault::BadRemoteCoreTime,
        }
    }
}

pub open spec fn caption_aliases() -> Seq<Seq<char>> {
    seq!["buildCaption"@, "caption"@, "buildName"@, "name"@]
}

pub open spec fn status_aliases() -> Seq<Seq<char>> {
    seq!["buildStatus"@, "status"@]
}

pub open spec fn build_number_aliases() -> Seq<Seq<char>> {
    seq!["buildNumber"@, "buildId"@, "id"@]
}

pub open spec fn remote_tasks_aliases() -> Seq<Seq<char>> {
    seq!["numberOfRemoteTasks"@, "remoteTasks"@]
}

pub open spec fn local_tasks_aliases() -> Seq<Seq<char>> {
    seq!["numberOfLocalTasks"@, "localTasks"@]
}

pub open spec fn remote_core_time_aliases() -> Seq<Seq<char>> {
    seq!["remoteCoreTime"@, "remoteCoreTimeSeconds"@]
}

/// A record is the build's when its caption field is a string equal to the
/// build's caption.
pub open spec fn carries_caption(record: Seq<(String, JsonValue)>, caption: Seq<char>) -> bool {
    text_of(value_for_spec(record, caption_aliases())) == Some(caption)
}

pub open spec fn caption_filter(caption: Seq<char>) -> spec_fn(Seq<(String, JsonValue)>) -> bool {
    |r: Seq<(String, JsonValue)>| carries_caption(r, caption)
}

/// The records of the document that carry the caption, in walk order.
pub open spec fn captioned_records(document: JsonValue, caption: Seq<char>) -> Seq<
    Seq<(String, JsonValue)>,
> {
    records_of(document).filter(caption_filter(caption))
}

/// A successful status, once lower-cased.
pub open spec fn is_success_status(status: Seq<char>) -> bool {
    status == "success"@ || status == "successful"@ || status == "completed"@
}

/// The counters of a record that has passed the status check.
pub open spec fn record_counters(record: Seq<(String, JsonValue)>) -> Result<IbHistory, HistoryFault> {
    match unsigned_reading(value_for_spec(record, build_number_aliases())) {
        None => Err(HistoryFault::NotUnsigned { field: CounterField::BuildNumber }),
        Some(build_number) => match unsigned_reading(value_for_spec(record, remote_tasks_aliases())) {
            None => Err(HistoryFault::NotUnsigned { field: CounterField::RemoteTasks }),
            Some(remote_tasks) => match unsigned_reading(
                value_for_spec(record, local_tasks_aliases()),
            ) {
                None => Err(HistoryFault::NotUnsigned { field: CounterField::LocalTasks }),
                Some(local_tasks) => match seconds_reading(
                    value_for_spec(record, remote_core_time_aliases()),
                ) {
                    None => Err(HistoryFault::BadRemoteCoreTime),
                    Some(bits) => Ok(
                        IbHistory {
                            build_number,
                            remote_tasks,
                            local_tasks,
                            remote_core_time_bits: bits,
                        },
                    ),
                },
            },
        },
    }
}

/// What a Build History document says of the build with this caption:
/// exactly one record carries the caption; its status text, lower-cased,
/// is `success`, `successful` or `completed`; and its build number, task
/// counts and remote core time read as the counters.
pub open spec fn history_result(document: JsonValue, caption: Seq<char>) -> Result<
    IbHistory,
    HistoryFault,
> {
    let found = captioned_records(document, caption);
    if found.len() != 1 {
        Err(HistoryFault::CaptionCount { found: found.len() })
    } else {
        let record = found[0];
        match text_of(value_for_spec(record, status_aliases())) {
            None => Err(HistoryFault::StatusMissing),
            Some(status) => if !is_success_status(lowered(status)) {
                Err(HistoryFault::NotSuccessful { status: lowered(status) })
            } else {
                record_counters(record)
            },
        }
    }
}

fn text_of_exec<'a>(v: Option<&'a JsonValue>) -> (r: Option<&'a str>)
    ensures
        match r {
            Some(t) => text_of(
                match v {
                    Some(x) => Some(*x),
                    None => None,
                },
            ) == Some(t@),
            None => text_of(
                match v {
                    Some(x) => Some(*x),
                    None => None,
                },
            ) is None,
        },
{
    match v {
        Some(JsonValue::Text { text, .. }) => Some(text.as_str()),
        _ => None,
    }
}

fn carries_caption_exec(record: &Vec<(String, JsonValue)>, caption: &str) -> (r: bool)
    ensures
        r == carries_caption(record@, caption@),
{
    let aliases: [&str; 4] = ["buildCaption", "caption", "buildName", "name"];
    assert(views_of(aliases@) =~= caption_aliases());
    match text_of_exec(value_for(record, &aliases)) {
        Some(t) => str_eq(t, caption),
        None => false,
    }
}

fn record_counters_exec(record: &Vec<(String, JsonValue)>) -> (r: Result<IbHistory, HistoryError>)
    ensures
        match r {
            Ok(h) => record_counters(record@) == Ok::<IbHistory, HistoryFault>(h),
            Err(e) => record_counters(record@) == Err::<IbHistory, HistoryFault>(e@),
        },
{
    let number: [&str; 3] = ["buildNumber", "buildId", "id"];
    assert(views_of(number@) =~= build_number_aliases());
    let remote: [&str; 2] = ["numberOfRemoteTasks", "remoteTasks"];
    assert(views_of(remote@) =~= remote_tasks_aliases());
    let local: [&str; 2] = ["numberOfLocalTasks", "localTasks"];
    assert(views_of(local@) =~= local_tasks_aliases());
    let seconds: [&str; 2] = ["remoteCoreTime", "remoteCoreTimeSeconds"];
    assert(views_of(seconds@) =~= remote_core_time_aliases());
    let build_number = match unsigned_reading_exec(value_for(record, &number)) {
        Some(n) => n,
        None => {
            return Err(HistoryError::NotUnsigned { field: CounterField::BuildNumber });
        },
    };
    let remote_tasks = match unsigned_reading_exec(value_for(record, &remote)) {
        Some(n) => n,
        None => {
            return Err(HistoryError::NotUnsigned { field: CounterField::RemoteTasks });
        },
    };
    let local_tasks = match unsigned_reading_exec(value_for(record, &local)) {
        Some(n) => n,
        None => {
            return Err(HistoryError::NotUnsigned { field: CounterField::LocalTasks });
        },
    };
    let bits = match seconds_reading_exec(value_for(record, &seconds)) {
        Some(b) => b,
        None => {
            return Err(HistoryError::BadRemoteCoreTime);
        },
    };
    Ok(IbHistory { build_number, remote_tasks, local_tasks, remote_core_time_bits: bits })
}

/// Reads the counters of the build with this caption out of a Build History
/// document: the record must be the only one that carries the caption, its
/// status must be successful, and each counter must read as documented.
pub fn parse_ib_history(document: &JsonValue, caption: &str) -> (r: Result<IbHistory, HistoryError>)
    ensures
        match r {
            Ok(h) => history_result(*document, caption@) == Ok::<IbHistory, HistoryFault>(h),
            Err(e) => history_result(*document, caption@) == Err::<IbHistory, HistoryFault>(e@),
        },
{
    let mut records: Vec<&Vec<(String, JsonValue)>> = Vec::new();
    walk_records(document, &mut records);
    assert(entries_of(records@) =~= records_of(*document));
    let ghost all = entries_of(records@);
    let ghost keep = caption_filter(caption@);
    let mut found: Vec<&Vec<(String, JsonValue)>> = Vec::new();
    let mut i: usize = 0;
    proof {
        reveal(Seq::filter);
        assert(all.take(0).filter(keep) =~= seq![]);
        assert(entries_of(found@) =~= seq![]);
    }
    while i < records.len()
        invariant
            i <= records@.len(),
            all == entries_of(records@),
            keep == caption_filter(caption@),
            entries_of(found@) == all.take(i as int).filter(keep),
        decreases records@.len() - i,
    {
        let record = records[i];
        proof {
            reveal(Seq::filter);
            assert(all.take(i + 1).drop_last() =~= all.take(i as int));
            assert(all.take(i + 1).last() == record@);
        }
        if carries_caption_exec(record, caption) {
            found.push(record);
            assert(entries_of(found@) =~= all.take(i + 1).filter(keep));
        } else {
            assert(entries_of(found@) =~= all.take(i + 1).filter(keep));
        }
        i = i + 1;
    }
    assert(all.take(all.len() as int) =~= all);
    assert(entries_of(found@) == captioned_records(*document, caption@));
    if found.len() != 1 {
        return Err(HistoryError::CaptionCount { found: found.len() });
    }
    let record = found[0];
    assert(record@ == captioned_records(*document, caption@)[0]);
    let status_names: [&str; 2] = ["buildStatus", "status"];
    assert(views_of(status_names@) =~= status_aliases());
    let status = match text_of_exec(value_for(record, &status_names)) {
        Some(t) => lowered_exec(t),
        None => {
            return Err(HistoryError::StatusMissing);
        },
    };
    if !(str_eq(status.as_str(), "success") || str_eq(status.as_str(), "successful") || str_eq(
        status.as_str(),
        "completed",
    )) {
        return Err(HistoryError::NotSuccessful { status });
    }
    record_counters_exec(record)
}

// ---------------------------------------------------------------------
// Messages
// ---------------------------------------------------------------------

pub open spec fn counter_label(field: CounterField) -> Seq<char> {
    match field {
        CounterField::BuildNumber => "build number"@,
        CounterField::RemoteTasks => "remote tasks"@,
        CounterField::LocalTasks => "local tasks"@,
    }
}

/// The message of a history error about the build with this caption.
pub open spec fn history_error_text(e: HistoryFault, caption: Seq<char>) -> Seq<char> {
    match e {
        HistoryFault::CaptionCount { found } => "expected exactly one Build History record for "@
            + quoted(caption) + ", found "@ + decimal(found),
        HistoryFault::StatusMissing => "build status is missing"@,
        HistoryFault::NotSuccessful { status } => "build "@ + quoted(caption)
            + " is not successful: "@ + status,
        HistoryFault::NotUnsigned { field } => counter_label(field)
            + " is missing or not an unsigned integer"@,
        HistoryFault::BadRemoteCoreTime => "remote core time is missing, negative, or not numeric"@,
    }
}

impl HistoryError {
    /// The error's message, for the build with this caption.
    pub fn message(&self, caption: &str) -> (m: String)
        ensures
            m@ == history_error_text(self@, caption@),
    {
        let mut s = String::new();
        match self {
            HistoryError::CaptionCount { found } => {
                push_str(&mut s, "expected exactly one Build History record for ");
                push_quoted(&mut s, caption);
                push_str(&mut s, ", found ");
                push_decimal(&mut s, *found as u128);
            },
            HistoryError::StatusMissing => {
                push_str(&mut s, "build status is missing");
            },
            HistoryError::NotSuccessful { status } => {
                push_str(&mut s, "build ");
                push_quoted(&mut s, caption);
                push_str(&mut s, " is not successful: ");
                push_str(&mut s, status.as_str());
            },
            HistoryError::NotUnsigned { field } => {
                match field {
                    CounterField::BuildNumber => push_str(&mut s, "build number"),
                    CounterField::RemoteTasks => push_str(&mut s, "remote tasks"),
                    CounterField::LocalTasks => push_str(&mut s, "local tasks"),
                }
                push_str(&mut s, " is missing or not an unsigned integer");
            },
            HistoryError::BadRemoteCoreTime => {
                push_str(&mut s, "remote core time is missing, negative, or not numeric");
            },
        }
        assert(s@ =~= history_error_text(self@, caption@));
        s
    }
}

// ---------------------------------------------------------------------
// Laws of the counters
// ---------------------------------------------------------------------

/// A key names the build number when it normalizes as `buildNumber`,
/// `buildId` or `id` does.
pub open spec fn is_build_number_key(k: Seq<char>) -> bool {
    ||| normalized_spec(k) == normalized_spec("buildNumber"@)
    ||| normalized_spec(k) == normalized_spec("buildId"@)
    ||| normalized_spec(k) == normalized_spec("id"@)
}

proof fn lemma_value_for_first(
    entries: Seq<(String, JsonValue)>,
    aliases: Seq<Seq<char>>,
    i: int,
)
    requires
        0 <= i < entries.len(),
        key_matches(entries[i].0@, aliases),
        forall|j: int| 0 <= j < i ==> !key_matches(#[trigger] entries[j].0@, aliases),
    ensures
        value_for_spec(entries, aliases) == Some(entries[i].1),
    decreases i,
{
    if i > 0 {
        let rest = entries.drop_first();
        assert(!key_matches(entries[0].0@, aliases));
        assert forall|j: int| 0 <= j < i - 1 implies !key_matches(#[trigger] rest[j].0@, aliases) by {
            assert(rest[j] == entries[j + 1]);
        }
        lemma_value_for_first(rest, aliases, i - 1);
    }
}

proof fn lemma_build_number_keys(k: Seq<char>)
    ensures
        key_matches(k, build_number_aliases()) <==> is_build_number_key(k),
{
    let al = build_number_aliases();
    assert(al[0] == "buildNumber"@ && al[1] == "buildId"@ && al[2] == "id"@);
    if is_build_number_key(k) {
        if normalized_spec(k) == normalized_spec("buildNumber"@) {
            assert(normalized_spec(k) == normalized_spec(al[0]));
        } else if normalized_spec(k) == normalized_spec("buildId"@) {
            assert(normalized_spec(k) == normalized_spec(al[1]));
        } else {
            assert(normalized_spec(k) == normalized_spec(al[2]));
        }
    }
}

/// The build number of a record is the value of its first entry whose key
/// names the build number (`buildNumber`, `buildId` or `id`, in any case or
/// spelling that normalizes alike): when that value is an unsigned integer,
/// the record never fails for its build number, and counters read from it
/// carry exactly that number.
pub proof fn law_build_number_is_read_from_its_first_key(
    record: Seq<(String, JsonValue)>,
    i: int,
    n: u64,
)
    requires
        0 <= i < record.len(),
        is_build_number_key(record[i].0@),
        forall|j: int| 0 <= j < i ==> !is_build_number_key(#[trigger] record[j].0@),
        unsigned_reading(Some(record[i].1)) == Some(n),
    ensures
        !(record_counters(record) matches Err(
            HistoryFault::NotUnsigned { field: CounterField::BuildNumber },
        )),
        record_counters(record) matches Ok(h) ==> h.build_number == n,
{
    lemma_build_number_keys(record[i].0@);
    assert forall|j: int| 0 <= j < i implies !key_matches(
        #[trigger] record[j].0@,
        build_number_aliases(),
    ) by {
        lemma_build_number_keys(record[j].0@);
    }
    lemma_value_for_first(record, build_number_aliases(), i);
}

} // verus!
