//! Types that several modules share.

use vstd::prelude::*;
use vstd::string::*;

use crate::net::{IpAddr, SocketAddr};

verus! {

/// The id of a node, as the worker assigned it.
pub type PeerId = String;

/// The connection id that a node keeps while it runs.
pub type ConnId = String;

/// Milliseconds since the Unix epoch.
pub type TimestampMs = u64;

/// The punching window in milliseconds: how late a punch may start.
pub const PUNCH_WINDOW_MS: u64 = 600;

/// How many hole punching tasks the engine's channel buffers.
pub const HP_CHANNEL_SIZE: usize = 64;

/// How many reload commands the CDN channel buffers.
pub const RELOAD_CHANNEL_SIZE: usize = 16;

/// The platform that the node runs on.
#[derive(Debug, Clone, Copy, PartialEq, Eq, Structural)]
pub enum Platform {
    Android,
    Windows,
    /// Linux and whatever is like it.
    Other,
}

/// The kind of a candidate address.
#[derive(Debug, Clone, Copy, PartialEq, Eq, Structural)]
pub enum CandidateType {
    /// An address of a local interface.
    Host,
    /// The public address that a STUN server observed.
    Srflx,
}

/// An address at which a peer may be reached.
#[derive(Debug, Clone, Copy, PartialEq, Eq, Structural)]
pub struct Candidate {
    pub addr_type: CandidateType,
    pub address: SocketAddr,
}

/// The state of the connection with a peer.
#[derive(Debug, Clone, Copy, PartialEq, Eq, Structural)]
pub enum ConnState {
    /// A punch is under way.
    Punching,
    /// A direct connection stands; the number is the id under which the
    /// transport keeps it.
    Direct(u64),
    /// Punching failed: traffic falls back to the tunnel.
    Relay,
    /// Neither path can be used.
    Unavailable,
}

/// One hole punching task.
#[derive(Debug, Clone)]
pub struct HolePunchTask {
    /// The peer to reach.
    pub peer_id: PeerId,
    /// The peer's candidates, host addresses first.
    pub candidates: Vec<Candidate>,
    /// The peer's connection id, where this side asked for the connection.
    pub conn_id: Option<ConnId>,
    /// The peer's address in the virtual network.
    pub peer_virtual_ip: Option<IpAddr>,
    /// When to punch.
    pub punch_at: TimestampMs,
}

/// A command for the CDN module.
#[derive(Debug, Clone, Copy, PartialEq, Eq, Structural)]
pub enum ReloadCmd {
    /// Read the manifest again and replace the rules.
    Reload,
    /// Stop.
    Shutdown,
}

/// Where files under a path come from.
#[derive(Debug, Clone, Copy, PartialEq, Eq, Structural)]
pub enum RuleMode {
    /// Redirect to the CDN.
    Cdn,
    /// Serve from the local disk.
    Direct,
}

/// A rule of the CDN manifest.
#[derive(Debug, Clone)]
pub struct Rule {
    /// The path prefix, such as `/files/videos/` or `/files/assets/large/*.mp4`.
    pub path: String,
    pub mode: RuleMode,
    /// How long the CDN may keep a file, in seconds; only for [`RuleMode::Cdn`].
    pub max_age: u64,
    /// Where [`RuleMode::Cdn`] redirects to.
    pub cdn_url: Option<String>,
    /// The networks that count as local; where empty, the own subnets do.
    pub local_cidrs: Vec<String>,
}

impl RuleMode {
    /// The mode that a name in the manifest stands for.
    pub open spec fn named(name: Seq<char>) -> Option<RuleMode> {
        if name == "cdn"@ {
            Some(RuleMode::Cdn)
        } else if name == "direct"@ {
            Some(RuleMode::Direct)
        } else {
            None
        }
    }

    /// The mode that a name in the manifest stands for.
    pub fn from_name(name: &str) -> (r: Option<RuleMode>)
        ensures
            r == RuleMode::named(name@),
    {
        if crate::text::same_text(name, "cdn") {
            Some(RuleMode::Cdn)
        } else if crate::text::same_text(name, "direct") {
            Some(RuleMode::Direct)
        } else {
            None
        }
    }
}

/// Why a candidate could not be read.
#[derive(Debug, Clone, PartialEq, Eq)]
pub enum CandidateError {
    /// The field `type` stands there twice.
    DuplicateType,
    /// The field `addr` stands there twice.
    DuplicateAddress,
    /// The field `addr` holds no address; the text says why.
    InvalidAddress(String),
    /// The field `type` is missing.
    MissingType,
    /// The field `addr` is missing.
    MissingAddress,
}

impl CandidateError {
    /// The message for a reader.
    pub open spec fn text(self) -> Seq<char> {
        match self {
            CandidateError::DuplicateType => "duplicate field `type`"@,
            CandidateError::DuplicateAddress => "duplicate field `address`"@,
            CandidateError::InvalidAddress(why) => "invalid address: "@ + why@,
            CandidateError::MissingType => "missing field `type`"@,
            CandidateError::MissingAddress => "missing field `address`"@,
        }
    }

    /// The message for a reader.
    pub fn message(&self) -> (r: String)
        ensures
            r@ == self.text(),
    {
        match self {
            CandidateError::DuplicateType => "duplicate field `type`".to_owned(),
            CandidateError::DuplicateAddress => "duplicate field `address`".to_owned(),
            CandidateError::InvalidAddress(why) => crate::text::concat(
                "invalid address: ",
                why.as_str(),
            ),
            CandidateError::MissingType => "missing field `type`".to_owned(),
            CandidateError::MissingAddress => "missing field `address`".to_owned(),
        }
    }
}

/// The fields of a candidate, in the order in which they were written.
#[derive(Debug, Clone, PartialEq, Eq)]
pub enum CandidateField {
    /// The field `type`.
    Type(CandidateType),
    /// The field `addr`.
    Address(SocketAddr),
    /// The field `addr`, with a text that is no address, and why it is none.
    BadAddress(String),
}

/// A candidate that is being read, field by field.
#[derive(Debug, Clone, Copy, PartialEq, Eq, Structural)]
pub struct CandidateFields {
    pub addr_type: Option<CandidateType>,
    pub address: Option<SocketAddr>,
}

impl CandidateFields {
    /// No field has been read.
    pub open spec fn empty() -> CandidateFields {
        CandidateFields { addr_type: None, address: None }
    }

    /// The fields after one more, or why that one cannot be taken.
    pub open spec fn with(self, field: CandidateField) -> Result<CandidateFields, CandidateError> {
        match field {
            CandidateField::Type(t) => if self.addr_type is Some {
                Err(CandidateError::DuplicateType)
            } else {
                Ok(CandidateFields { addr_type: Some(t), address: self.address })
            },
            CandidateField::Address(a) => if self.address is Some {
                Err(CandidateError::DuplicateAddress)
            } else {
                Ok(CandidateFields { addr_type: self.addr_type, address: Some(a) })
            },
            CandidateField::BadAddress(why) => if self.address is Some {
                Err(CandidateError::DuplicateAddress)
            } else {
                Err(CandidateError::InvalidAddress(why))
            },
        }
    }

    /// The candidate that the fields make up, or which one is missing.
    pub open spec fn candidate(self) -> Result<Candidate, CandidateError> {
        match (self.addr_type, self.address) {
            (Some(t), Some(a)) => Ok(Candidate { addr_type: t, address: a }),
            (Some(_), None) => Err(CandidateError::MissingAddress),
            (None, _) => Err(CandidateError::MissingType),
        }
    }

    /// Begins to read a candidate.
    pub fn new() -> (r: CandidateFields)
        ensures
            r == CandidateFields::empty(),
    {
        CandidateFields { addr_type: None, address: None }
    }

    /// Takes one field.
    pub fn take(&mut self, field: &CandidateField) -> (r: Result<(), CandidateError>)
        ensures
            match old(self).with(*field) {
                Ok(next) => r is Ok && *final(self) == next,
                Err(e) => r == Err::<(), CandidateError>(e) && *final(self) == *old(self),
            },
    {
        match field {
            CandidateField::Type(t) => {
                if self.addr_type.is_some() {
                    return Err(CandidateError::DuplicateType);
                }
                self.addr_type = Some(*t);
            },
            CandidateField::Address(a) => {
                if self.address.is_some() {
                    return Err(CandidateError::DuplicateAddress);
                }
                self.address = Some(*a);
            },
            CandidateField::BadAddress(why) => {
                if self.address.is_some() {
                    return Err(CandidateError::DuplicateAddress);
                }
                return Err(CandidateError::InvalidAddress(why.clone()));
            },
        }
        Ok(())
    }

    /// Ends a candidate once every field has been read.
    pub fn finish(&self) -> (r: Result<Candidate, CandidateError>)
        ensures
            r == self.candidate(),
    {
        match self.addr_type {
            None => Err(CandidateError::MissingType),
            Some(t) => match self.address {
                None => Err(CandidateError::MissingAddress),
                Some(a) => Ok(Candidate { addr_type: t, address: a }),
            },
        }
    }
}

/// The candidate that a list of fields spells, read from the position `from` on.
pub open spec fn candidate_from(
    so_far: CandidateFields,
    fields: Seq<CandidateField>,
    from: int,
) -> Result<Candidate, CandidateError>
    decreases fields.len() - from,
{
    if from >= fields.len() {
        so_far.candidate()
    } else {
        match so_far.with(fields[from]) {
            Ok(next) => candidate_from(next, fields, from + 1),
            Err(e) => Err(e),
        }
    }
}

impl Candidate {
    /// Reads a candidate from its fields.
    pub fn from_fields(fields: &Vec<CandidateField>) -> (r: Result<Candidate, CandidateError>)
        ensures
            r == candidate_from(CandidateFields::empty(), fields@, 0),
    {
        let mut so_far = CandidateFields::new();
        let mut i: usize = 0;
        while i < fields.len()
            invariant
                i <= fields.len(),
                candidate_from(CandidateFields::empty(), fields@, 0) == candidate_from(
                    so_far,
                    fields@,
                    i as int,
                ),
            decreases fields.len() - i,
        {
            match so_far.take(&fields[i]) {
                Ok(()) => {},
                Err(e) => {
                    return Err(e);
                },
            }
            i = i + 1;
        }
        so_far.finish()
    }

    /// The fields under which a candidate is written.
    pub open spec fn fields(self) -> Seq<CandidateField> {
        seq![CandidateField::Type(self.addr_type), CandidateField::Address(self.address)]
    }

    /// The fields under which a candidate is written, in order.
    pub fn to_fields(&self) -> (r: Vec<CandidateField>)
        ensures
            r@ == self.fields(),
    {
        let mut r: Vec<CandidateField> = Vec::new();
        r.push(CandidateField::Type(self.addr_type));
        r.push(CandidateField::Address(self.address));
        r
    }
}

/// Reading the fields of a written candidate gives the candidate back.
pub proof fn candidate_round_trip(c: Candidate)
    ensures
        candidate_from(CandidateFields::empty(), c.fields(), 0) == Ok::<Candidate, CandidateError>(
            c,
        ),
{
    reveal_with_fuel(candidate_from, 3);
}

/// The order of the two fields does not matter to a reader.
pub proof fn candidate_field_order(c: Candidate)
    ensures
        candidate_from(CandidateFields::empty(), c.fields().reverse(), 0) == Ok::<
            Candidate,
            CandidateError,
        >(c),
{
    reveal_with_fuel(candidate_from, 3);
}

/// A manifest knows two modes, under these names.
pub proof fn modes_have_names(name: Seq<char>)
    ensures
        RuleMode::named("cdn"@) == Some(RuleMode::Cdn),
        RuleMode::named("direct"@) == Some(RuleMode::Direct),
        name != "cdn"@ && name != "direct"@ ==> RuleMode::named(name) is None,
{
    reveal_strlit("cdn");
    reveal_strlit("direct");
    assert("cdn"@.len() != "direct"@.len());
}

/// A field that stands twice is refused, as is a text that is no address, and
/// a candidate that lacks a field; each fault is told by its own error.
pub proof fn faulty_candidates_are_refused(
    t: CandidateType,
    u: CandidateType,
    a: SocketAddr,
    b: SocketAddr,
    why: String,
)
    ensures
        candidate_from(
            CandidateFields::empty(),
            seq![CandidateField::Type(t), CandidateField::Type(u)],
            0,
        ) == Err::<Candidate, CandidateError>(CandidateError::DuplicateType),
        candidate_from(
            CandidateFields::empty(),
            seq![CandidateField::Address(a), CandidateField::Address(b)],
            0,
        ) == Err::<Candidate, CandidateError>(CandidateError::DuplicateAddress),
        candidate_from(CandidateFields::empty(), seq![CandidateField::BadAddress(why)], 0) == Err::<
            Candidate,
            CandidateError,
        >(CandidateError::InvalidAddress(why)),
        candidate_from(CandidateFields::empty(), seq![CandidateField::Type(t)], 0) == Err::<
            Candidate,
            CandidateError,
        >(CandidateError::MissingAddress),
        candidate_from(CandidateFields::empty(), seq![CandidateField::Address(a)], 0) == Err::<
            Candidate,
            CandidateError,
        >(CandidateError::MissingType),
        candidate_from(
            CandidateFields::empty(),
            seq![CandidateField::Type(t), CandidateField::Address(a)],
            0,
        ) == Ok::<Candidate, CandidateError>((Candidate { addr_type: t, address: a })),
{
    reveal_with_fuel(candidate_from, 3);
}

/// A field is taken where it has not been read yet, and leaves the other field
/// as it is; a second one, and a text that is no address, are refused.
pub proof fn fields_are_taken_once(
    so_far: CandidateFields,
    t: CandidateType,
    a: SocketAddr,
    why: String,
)
    ensures
        so_far.addr_type is None ==> so_far.with(CandidateField::Type(t)) == Ok::<
            CandidateFields,
            CandidateError,
        >((CandidateFields { addr_type: Some(t), address: so_far.address })),
        so_far.addr_type is Some ==> so_far.with(CandidateField::Type(t)) == Err::<
            CandidateFields,
            CandidateError,
        >(CandidateError::DuplicateType),
        so_far.address is None ==> so_far.with(CandidateField::Address(a)) == Ok::<
            CandidateFields,
            CandidateError,
        >((CandidateFields { addr_type: so_far.addr_type, address: Some(a) })),
        so_far.address is Some ==> so_far.with(CandidateField::Address(a)) == Err::<
            CandidateFields,
            CandidateError,
        >(CandidateError::DuplicateAddress),
        so_far.address is None ==> so_far.with(CandidateField::BadAddress(why)) == Err::<
            CandidateFields,
            CandidateError,
        >(CandidateError::InvalidAddress(why)),
        so_far.address is Some ==> so_far.with(CandidateField::BadAddress(why)) == Err::<
            CandidateFields,
            CandidateError,
        >(CandidateError::DuplicateAddress),
        so_far.candidate() is Ok <==> so_far.addr_type is Some && so_far.address is Some,
{
}

/// The engine's channel holds 64 tasks, and that for reloads 16 commands.
pub proof fn channels_have_their_room()
    ensures
        HP_CHANNEL_SIZE == 64,
        RELOAD_CHANNEL_SIZE == 16,
{
}

} // verus!
