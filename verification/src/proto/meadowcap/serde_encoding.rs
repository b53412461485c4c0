//! Capabilities and invocations as they are put into messages.

use vstd::prelude::*;

use super::{AccessMode, McCapability, ReadAuthorisation, SubspaceCapability};
use crate::uwill::ucan::Invocation;
use crate::uwill::UWillInvocation;

verus! {

/// An authorisation to read, in a message.
#[derive(Debug)]
pub struct SerdeReadAuthorisation(pub ReadAuthorisation);

impl Clone for SerdeReadAuthorisation {
    fn clone(&self) -> (r: Self)
        ensures
            r.0@ == self.0@,
    {
        SerdeReadAuthorisation(self.0.clone())
    }
}

impl From<ReadAuthorisation> for SerdeReadAuthorisation {
    fn from(value: ReadAuthorisation) -> (r: Self) {
        SerdeReadAuthorisation(value)
    }
}

impl vstd::std_specs::convert::FromSpecImpl<ReadAuthorisation> for SerdeReadAuthorisation {
    open spec fn obeys_from_spec() -> bool {
        true
    }

    open spec fn from_spec(value: ReadAuthorisation) -> Self {
        SerdeReadAuthorisation(value)
    }
}

impl PartialEq for SerdeReadAuthorisation {
    fn eq(&self, other: &Self) -> (r: bool) {
        self.0 == other.0
    }
}

impl vstd::std_specs::cmp::PartialEqSpecImpl for SerdeReadAuthorisation {
    open spec fn obeys_eq_spec() -> bool {
        true
    }

    open spec fn eq_spec(&self, other: &Self) -> bool {
        self.0@.read.same_capability(other.0@.read)
    }
}

/// A capability, in a message.
#[derive(Debug)]
pub struct SerdeMcCapability(pub McCapability);

impl Clone for SerdeMcCapability {
    fn clone(&self) -> (r: Self)
        ensures
            r.0@ == self.0@,
    {
        SerdeMcCapability(self.0.clone())
    }
}

impl From<McCapability> for SerdeMcCapability {
    fn from(value: McCapability) -> (r: Self) {
        SerdeMcCapability(value)
    }
}

impl vstd::std_specs::convert::FromSpecImpl<McCapability> for SerdeMcCapability {
    open spec fn obeys_from_spec() -> bool {
        true
    }

    open spec fn from_spec(value: McCapability) -> Self {
        SerdeMcCapability(value)
    }
}

impl PartialEq for SerdeMcCapability {
    fn eq(&self, other: &Self) -> (r: bool) {
        self.0 == other.0
    }
}

impl vstd::std_specs::cmp::PartialEqSpecImpl for SerdeMcCapability {
    open spec fn obeys_eq_spec() -> bool {
        true
    }

    open spec fn eq_spec(&self, other: &Self) -> bool {
        self.0@.same_capability(other.0@)
    }
}

/// A proof of membership, in a message.
#[derive(Debug)]
pub struct SerdeMcSubspaceCapability(pub SubspaceCapability);

impl Clone for SerdeMcSubspaceCapability {
    fn clone(&self) -> (r: Self)
        ensures
            r.0@ == self.0@,
    {
        SerdeMcSubspaceCapability(self.0.clone())
    }
}

impl From<SubspaceCapability> for SerdeMcSubspaceCapability {
    fn from(value: SubspaceCapability) -> (r: Self) {
        SerdeMcSubspaceCapability(value)
    }
}

impl vstd::std_specs::convert::FromSpecImpl<SubspaceCapability> for SerdeMcSubspaceCapability {
    open spec fn obeys_from_spec() -> bool {
        true
    }

    open spec fn from_spec(value: SubspaceCapability) -> Self {
        SerdeMcSubspaceCapability(value)
    }
}

/// An invocation without its proofs, in a message.
#[derive(Debug)]
pub struct SerdeInvocation(pub Invocation);

impl Clone for SerdeInvocation {
    fn clone(&self) -> (r: Self)
        ensures
            r.0@ == self.0@,
    {
        SerdeInvocation(self.0.clone())
    }
}

impl From<Invocation> for SerdeInvocation {
    fn from(value: Invocation) -> (r: Self) {
        SerdeInvocation(value)
    }
}

impl vstd::std_specs::convert::FromSpecImpl<Invocation> for SerdeInvocation {
    open spec fn obeys_from_spec() -> bool {
        true
    }

    open spec fn from_spec(value: Invocation) -> Self {
        SerdeInvocation(value)
    }
}

/// An invocation with its proofs, in a message.
#[derive(Debug)]
pub struct SerdeUWillInvocation(pub UWillInvocation);

impl Clone for SerdeUWillInvocation {
    fn clone(&self) -> (r: Self)
        ensures
            r.0@ == self.0@,
    {
        SerdeUWillInvocation(self.0.clone())
    }
}

/// The byte that an access mode is encoded as.
pub open spec fn access_mode_byte(mode: AccessMode) -> u8 {
    match mode {
        AccessMode::Read => 0,
        AccessMode::Write => 1,
    }
}

/// No two access modes are encoded as the same byte.
pub proof fn law_access_modes_are_told_apart(a: AccessMode, b: AccessMode)
    requires
        access_mode_byte(a) == access_mode_byte(b),
    ensures
        a == b,
{
}

/// Encodes an access mode.
pub fn encode_access_mode(value: &AccessMode) -> (r: u8)
    ensures
        r == access_mode_byte(*value),
{
    match value {
        AccessMode::Read => 0,
        AccessMode::Write => 1,
    }
}

/// Decodes an access mode; a byte that none is encoded as is an error.
pub fn decode_access_mode(value: u8) -> (r: Result<AccessMode, String>)
    ensures
        match r {
            Ok(mode) => access_mode_byte(mode) == value,
            Err(text) => value > 1 && text@ == "Invalid access mode"@,
        },
{
    match value {
        0 => Ok(AccessMode::Read),
        1 => Ok(AccessMode::Write),
        _ => Err("Invalid access mode".to_owned()),
    }
}

/// Reading is encoded as zero, and writing as one.
pub proof fn law_bytes_of_access_modes()
    ensures
        access_mode_byte(AccessMode::Read) == 0,
        access_mode_byte(AccessMode::Write) == 1,
{
}

} // verus!
