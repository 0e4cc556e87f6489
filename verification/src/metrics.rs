//! Tags that describe a recorded metric.

use vstd::prelude::*;

verus! {

#[derive(Clone, Copy, Debug, PartialEq, Eq)]
pub struct MetricTag {
    pub name: &'static str,
    pub value: &'static str,
}

#[verifier::ext_equal]
pub struct TagModel {
    pub name: Seq<char>,
    pub value: Seq<char>,
}

impl DeepView for MetricTag {
    type V = TagModel;

    open spec fn deep_view(&self) -> TagModel {
        TagModel { name: self.name@, value: self.value@ }
    }
}

pub open spec fn tag_of(name: Seq<char>, value: Seq<char>) -> TagModel {
    TagModel { name, value }
}

pub fn tag(name: &'static str, value: &'static str) -> (result: MetricTag)
    ensures
        result.deep_view() == tag_of(name@, value@),
{
    MetricTag { name, value }
}

/// The text of a flag.
pub open spec fn flag_text(value: bool) -> Seq<char> {
    if value {
        "true"@
    } else {
        "false"@
    }
}

pub fn flag_tag(value: bool) -> (text: &'static str)
    ensures
        text@ == flag_text(value),
{
    if value {
        "true"
    } else {
        "false"
    }
}

/// What a metric records.
#[derive(Clone, Copy, Debug, PartialEq, Eq, Structural)]
pub enum MetricValue {
    /// The time since the request was received.
    Elapsed,
    /// A number.
    Count(i64),
    /// A time span in nanoseconds.
    Nanoseconds(u128),
}

/// A metric to be recorded.
#[derive(Debug, PartialEq, Eq)]
pub struct MetricRecord {
    pub name: &'static str,
    pub value: MetricValue,
    pub tags: Vec<MetricTag>,
}

#[verifier::ext_equal]
pub struct RecordModel {
    pub name: Seq<char>,
    pub value: MetricValue,
    pub tags: Seq<TagModel>,
}

impl DeepView for MetricRecord {
    type V = RecordModel;

    open spec fn deep_view(&self) -> RecordModel {
        RecordModel { name: self.name@, value: self.value, tags: self.tags.deep_view() }
    }
}

/// `value` as a signed number, or the greatest one where it is beyond.
pub open spec fn saturated(value: nat) -> i64 {
    if value <= i64::MAX {
        value as i64
    } else {
        i64::MAX
    }
}

/// `value` as a signed number, or the greatest one where it is beyond.
pub fn usize_to_i64(value: usize) -> (result: i64)
    ensures
        result == saturated(value as nat),
{
    if value as u64 <= i64::MAX as u64 {
        value as i64
    } else {
        i64::MAX
    }
}

}
