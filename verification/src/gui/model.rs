//! The records the desktop front end exchanges with its UI.
use vstd::prelude::*;
use crate::parser::opt_view;

verus! {

/// What an alias's command does.
#[derive(Debug, Clone, Copy, PartialEq, Eq, Structural)]
pub enum AliasKind {
    SsoLogin,
    SsmSession,
    IamProfile,
    Other,
}

/// One alias of the alias file, with the flags read from its command.
#[derive(Debug, Clone)]
pub struct Alias {
    pub name: String,
    pub command: String,
    pub kind: AliasKind,
    pub profile: Option<String>,
    pub region: Option<String>,
    pub target: Option<String>,
    pub sso_session_name: Option<String>,
    pub ssm_document: Option<String>,
    pub ssm_local_port: Option<String>,
    pub ssm_remote_port: Option<String>,
    pub ssm_host: Option<String>,
    pub group: Option<String>,
    pub subgroup: Option<String>,
}

/// The value of an `Alias`.
pub struct AliasV {
    pub name: Seq<char>,
    pub command: Seq<char>,
    pub kind: AliasKind,
    pub profile: Option<Seq<char>>,
    pub region: Option<Seq<char>>,
    pub target: Option<Seq<char>>,
    pub sso_session_name: Option<Seq<char>>,
    pub ssm_document: Option<Seq<char>>,
    pub ssm_local_port: Option<Seq<char>>,
    pub ssm_remote_port: Option<Seq<char>>,
    pub ssm_host: Option<Seq<char>>,
    pub group: Option<Seq<char>>,
    pub subgroup: Option<Seq<char>>,
}

impl Alias {
    pub open spec fn view(&self) -> AliasV {
        AliasV {
            name: self.name@,
            command: self.command@,
            kind: self.kind,
            profile: opt_view(self.profile),
            region: opt_view(self.region),
            target: opt_view(self.target),
            sso_session_name: opt_view(self.sso_session_name),
            ssm_document: opt_view(self.ssm_document),
            ssm_local_port: opt_view(self.ssm_local_port),
            ssm_remote_port: opt_view(self.ssm_remote_port),
            ssm_host: opt_view(self.ssm_host),
            group: opt_view(self.group),
            subgroup: opt_view(self.subgroup),
        }
    }
}

/// The values of a list of aliases.
pub open spec fn aliases_view(v: Seq<Alias>) -> Seq<AliasV> {
    Seq::new(v.len(), |i: int| v[i].view())
}

/// The aliases loaded from a file, with the file's path.
#[derive(Debug, Clone)]
pub struct AliasesResponse {
    pub path: String,
    pub aliases: Vec<Alias>,
}

/// The state of a background session.
#[derive(Debug, Clone, Copy, PartialEq, Eq, Structural)]
pub enum SessionState {
    Idle,
    Starting,
    Active,
    Expired,
    Error,
}

/// The status of the session run for an alias.
#[derive(Debug, Clone)]
pub struct SessionStatus {
    pub alias: String,
    pub state: SessionState,
    pub pid: Option<u32>,
    pub started_at: Option<String>,
    pub expires_at: Option<String>,
}

/// An EC2 instance.
#[derive(Debug, Clone)]
pub struct Instance {
    pub id: String,
    pub name: Option<String>,
    pub state: String,
    pub instance_type: String,
    pub private_ip: Option<String>,
    pub public_ip: Option<String>,
    pub az: Option<String>,
    pub vpc_id: Option<String>,
    /// The instance's tags, each key once, in the order first seen.
    pub tags: Vec<(String, String)>,
}

/// An ECS cluster.
#[derive(Debug, Clone)]
pub struct Cluster {
    pub name: String,
    pub arn: String,
    pub status: String,
    pub running_tasks: u32,
    pub services_count: u32,
}

/// An ECS service.
#[derive(Debug, Clone)]
pub struct Service {
    pub name: String,
    pub arn: String,
    pub cluster: String,
    pub status: String,
    pub desired: u32,
    pub running: u32,
}

/// An ECS task.
#[derive(Debug, Clone)]
pub struct Task {
    pub arn: String,
    pub cluster: String,
    pub service: Option<String>,
    pub last_status: String,
    pub desired_status: String,
    pub launch_type: String,
}

/// A container of an ECS task.
#[derive(Debug, Clone)]
pub struct Container {
    pub name: String,
    pub task_arn: String,
    pub image: String,
    pub last_status: String,
    pub health: Option<String>,
}

/// Credentials exported for a profile.
#[derive(Debug, Clone)]
pub struct CredentialInfo {
    pub access_key_id: String,
    pub secret_access_key: String,
    pub session_token: String,
    pub expiration: String,
}

} // verus!
