//! The classifier: whether a sample is idle, on what kind of device it was
//! taken, and what software was in focus.

use vstd::prelude::*;
use crate::tags::TagValue;

verus! {

/// A sample is idle when more than this many seconds have passed since the
/// last user input.
pub const IDLE_AFTER_SECONDS: u128 = 120;

/// Nanoseconds in a second.
pub const NANOS_PER_SECOND: u128 = 1_000_000_000;

/// Whether a sample taken `nanos_since_input` nanoseconds after the last user
/// input is idle: strictly more than the limit has passed.
pub open spec fn idle_after(nanos_since_input: u128) -> bool {
    nanos_since_input > IDLE_AFTER_SECONDS * NANOS_PER_SECOND
}

/// Whether a sample taken `nanos_since_input` nanoseconds after the last user
/// input is idle.
pub fn is_idle(nanos_since_input: u128) -> (idle: bool)
    ensures
        idle == idle_after(nanos_since_input),
{
    nanos_since_input > IDLE_AFTER_SECONDS * NANOS_PER_SECOND
}

/// Whole seconds count as idle from 121 on.
pub proof fn law_idle_after_two_minutes(seconds: u64)
    ensures
        idle_after((seconds * NANOS_PER_SECOND) as u128) <==> seconds > 120,
{
    assert(seconds * NANOS_PER_SECOND <= u128::MAX) by (nonlinear_arith)
        requires
            seconds <= u64::MAX,
            NANOS_PER_SECOND == 1_000_000_000,
    ;
}

/// The kind of device a sample was taken on.
#[derive(Clone, Copy, Debug, PartialEq, Eq, Structural)]
pub enum SoftwareDeviceType {
    Desktop,
    Laptop,
}

/// The kind of a device with `batteries` batteries: a laptop where a count
/// is reported and is more than zero.
pub open spec fn device_kind(batteries: Option<i32>) -> SoftwareDeviceType {
    match batteries {
        Some(count) => if count > 0 {
            SoftwareDeviceType::Laptop
        } else {
            SoftwareDeviceType::Desktop
        },
        None => SoftwareDeviceType::Desktop,
    }
}

/// The kind of a device with `batteries` batteries.
pub fn device_type(batteries: Option<i32>) -> (kind: SoftwareDeviceType)
    ensures
        kind == device_kind(batteries),
{
    match batteries {
        Some(count) => if count > 0 {
            SoftwareDeviceType::Laptop
        } else {
            SoftwareDeviceType::Desktop
        },
        None => SoftwareDeviceType::Desktop,
    }
}

/// What tells one program from another.
#[derive(Clone, Debug, PartialEq, Eq)]
pub struct Identifier(pub String);

/// What is known of the software whatever it is: where it runs.
#[derive(Clone, Debug, PartialEq, Eq)]
pub struct GeneralSoftware {
    pub hostname: String,
    pub device_type: SoftwareDeviceType,
    pub device_os: String,
    pub title: String,
    pub identifier: Identifier,
    pub unique_name: String,
}

/// What is known of the software in focus.
#[derive(Clone, Debug, PartialEq, Eq)]
pub enum SpecificSoftware {
    /// No window is in focus, or the one in focus has no title.
    Unknown,
    /// The tags that the title of the window in focus gives.
    Tagged { tags: Vec<TagValue> },
}

/// The classification of a sample.
#[derive(Clone, Debug, PartialEq, Eq)]
pub enum ExtractedInfo {
    UseDevice { general: GeneralSoftware, specific: SpecificSoftware },
}

} // verus!
