//! Project identities: the identifier under which a project's progress is
//! kept, and how its database is reached.

use vstd::prelude::*;
use rand::Rng;
use crate::error::MigrationError;
use crate::store::Stored;

verus! {

/// How a database is reached.
#[derive(Clone, Debug, PartialEq, Eq)]
pub struct ConnectionParams {
    pub host: String,
    pub database: String,
    pub user: String,
    pub password: String,
    pub port: u32,
}

/// Connection parameters as a mathematical value.
pub ghost struct ConnectionView {
    pub host: Seq<char>,
    pub database: Seq<char>,
    pub user: Seq<char>,
    pub password: Seq<char>,
    pub port: u32,
}

impl View for ConnectionParams {
    type V = ConnectionView;

    open spec fn view(&self) -> ConnectionView {
        ConnectionView {
            host: self.host@,
            database: self.database@,
            user: self.user@,
            password: self.password@,
            port: self.port,
        }
    }
}

/// One named configuration of a project.
#[derive(Clone, Debug, PartialEq, Eq)]
pub struct ProjectIdentity {
    /// Names the project's progress record. Made once, never changed.
    pub id: String,
    pub connection: ConnectionParams,
}

/// A project identity as a mathematical value.
pub ghost struct IdentityView {
    pub id: Seq<char>,
    pub connection: ConnectionView,
}

impl View for ProjectIdentity {
    type V = IdentityView;

    open spec fn view(&self) -> IdentityView {
        IdentityView { id: self.id@, connection: self.connection@ }
    }
}

/// The port that a new configuration names.
pub const STANDARD_PORT: u32 = 5432;

/// The seconds of the instant that every new identifier is stamped with.
pub const STAMP_SECONDS: u64 = 1497624119;

/// The nanoseconds of the instant that every new identifier is stamped with.
pub const STAMP_NANOS: u32 = 1234;

/// The node that every new identifier names.
pub open spec fn stamp_node() -> Seq<u8> {
    seq![1u8, 2u8, 3u8, 4u8, 5u8, 6u8]
}

/// The connection parameters of a new configuration: nothing filled in, and
/// the standard port.
pub open spec fn blank_connection() -> ConnectionView {
    ConnectionView {
        host: Seq::empty(),
        database: Seq::empty(),
        user: Seq::empty(),
        password: Seq::empty(),
        port: STANDARD_PORT,
    }
}

/// The text of the version 1 UUID that the `uuid` crate makes from a clock
/// sequence that starts at `seed`, a Unix time and a node.
pub uninterp spec fn uuid_v1_text(seed: u16, seconds: u64, nanos: u32, node: Seq<u8>) -> Seq<char>;

/// The identity that a new configuration gets when its identifier is drawn
/// with `seed`.
pub open spec fn blank_identity(seed: u16) -> IdentityView {
    IdentityView {
        id: uuid_v1_text(seed, STAMP_SECONDS, STAMP_NANOS, stamp_node()),
        connection: blank_connection(),
    }
}

/// `rand::thread_rng` and `Rng::gen` of the `rand` crate: a 16-bit number
/// from the thread's generator. Nothing is claimed of the number. The
/// generator is seeded by the operating system on first use, and panics
/// where the system gives it no seed; no argument decides that.
#[verifier::external_body]
fn random_seed() -> (seed: u16) {
    rand::thread_rng().gen()
}

/// `Uuid::new_v1` of the `uuid` crate, on the `Timestamp` that
/// `Timestamp::from_unix` makes with a `ContextV1` that starts at `seed`,
/// written out by `to_string`. The context is made anew for each call, so the
/// text depends on the four arguments alone.
#[verifier::external_body]
fn uuid_v1(seed: u16, seconds: u64, subsec_nanos: u32, node: &[u8; 6]) -> (text: String)
    ensures
        text@ == uuid_v1_text(seed, seconds, subsec_nanos, node@),
{
    let context = uuid::ContextV1::new(seed);
    let stamp = uuid::Timestamp::from_unix(&context, seconds, subsec_nanos);
    uuid::Uuid::new_v1(stamp, node).to_string()
}

/// The identity of a new configuration whose identifier is drawn with `seed`.
pub fn identity_from_seed(seed: u16) -> (identity: ProjectIdentity)
    ensures
        identity@ == blank_identity(seed),
{
    let node: [u8; 6] = [1, 2, 3, 4, 5, 6];
    ProjectIdentity {
        id: uuid_v1(seed, STAMP_SECONDS, STAMP_NANOS, &node),
        connection: ConnectionParams {
            host: String::new(),
            database: String::new(),
            user: String::new(),
            password: String::new(),
            port: STANDARD_PORT,
        },
    }
}

/// The identity of a new configuration, with an identifier drawn at random.
pub fn new_identity() -> (identity: ProjectIdentity)
    ensures
        exists|seed: u16| identity@ == #[trigger] blank_identity(seed),
{
    let seed = random_seed();
    let identity = identity_from_seed(seed);
    identity
}

/// Settles the identity of a configuration from what is stored under its
/// name: the stored identity as it is, or a new one where nothing is stored.
/// The new identity is not stored by this.
pub fn resolve(stored: Stored<ProjectIdentity>) -> (r: Result<ProjectIdentity, MigrationError>)
    ensures
        match stored {
            Stored::Found(identity) => r == Ok::<ProjectIdentity, MigrationError>(identity),
            Stored::Absent => r matches Ok(identity) && exists|seed: u16|
                identity@ == #[trigger] blank_identity(seed),
            Stored::Unreadable => r matches Err(MigrationError::ConfigUnreadable),
            Stored::Malformed => r matches Err(MigrationError::ConfigMalformed),
        },
{
    match stored {
        Stored::Found(identity) => Ok(identity),
        Stored::Absent => Ok(new_identity()),
        Stored::Unreadable => Err(MigrationError::ConfigUnreadable),
        Stored::Malformed => Err(MigrationError::ConfigMalformed),
    }
}

} // verus!
