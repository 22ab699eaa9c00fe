//! The shapes of the volume-driver protocol's requests and responses, and
//! the parts of the answers that do not depend on the store.
use vstd::prelude::*;

verus! {

/// Where the driver's volumes are visible.
#[derive(Debug, PartialEq, Eq, Structural)]
pub enum Scope {
    Local,
    Global,
}

/// The stage a volume has reached.
#[derive(Debug, PartialEq, Eq, Structural)]
pub enum Status {
    Created,
    Clonned,
    Cleared,
}

/// One volume in a list answer.
pub struct ItemVolume {
    pub name: String,
    pub mountpoint: Option<String>,
}

/// What the driver tells about one volume.
pub struct VolumeInfo<S> {
    pub mountpoint: Option<String>,
    pub status: S,
}

/// A failure, as the protocol carries it: in a normal answer.
pub struct DriverError {
    pub err: String,
}

/// A request that names a volume.
pub struct Named {
    pub name: String,
}

/// A request that names a volume and a container.
pub struct NamedWID {
    pub name: String,
    pub id: String,
}

/// An empty answer.
pub struct Empty {}

/// The answer to the activation handshake.
pub struct ImplementsDriver {
    pub implements: Vec<String>,
}

pub struct Capabilities {
    pub scope: Scope,
}

pub struct CapabilitiesResponse {
    pub capabilities: Capabilities,
}

pub struct OptionalMountpoint {
    pub mountpoint: Option<String>,
}

/// A volume with its name, where it is mounted, and its status.
pub struct FullVolume<S> {
    pub name: String,
    pub mountpoint: Option<String>,
    pub status: S,
}

pub struct GetResponse<S> {
    pub volume: FullVolume<S>,
}

pub struct ListResponse {
    pub volumes: Vec<ItemVolume>,
}

/// A request to create a volume, with its driver options.
pub struct CreateRequest<O> {
    pub name: String,
    pub opts: Option<O>,
}

pub struct Mountpoint {
    pub mountpoint: String,
}

/// The protocol name of a volume driver.
pub open spec fn volume_driver_name() -> Seq<char> {
    seq!['V', 'o', 'l', 'u', 'm', 'e', 'D', 'r', 'i', 'v', 'e', 'r']
}

/// The activation answer: this plugin implements the volume driver.
pub fn activate() -> (r: ImplementsDriver)
    ensures
        r.implements@.len() == 1,
        r.implements@[0]@ == volume_driver_name(),
{
    let mut implements: Vec<String> = Vec::new();
    implements.push("VolumeDriver".to_string());
    proof {
        reveal_strlit("VolumeDriver");
        assert("VolumeDriver"@ =~= volume_driver_name());
    }
    ImplementsDriver { implements }
}

/// The capabilities answer for a scope.
pub fn capabilities(scope: Scope) -> (r: CapabilitiesResponse)
    ensures
        r.capabilities.scope == scope,
{
    CapabilitiesResponse { capabilities: Capabilities { scope } }
}

/// The answer to a request for one volume.
pub fn get_response<S>(name: String, info: VolumeInfo<S>) -> (r: GetResponse<S>)
    ensures
        r.volume.name == name,
        r.volume.mountpoint == info.mountpoint,
        r.volume.status == info.status,
{
    let VolumeInfo { mountpoint, status } = info;
    GetResponse { volume: FullVolume { name, mountpoint, status } }
}

} // verus!
