//! The requests that the GUI sends to the Docker worker.
//!
//! Every value here is plain data; the worker turns the options into the calls
//! of the Docker client when it serves a request.
use vstd::prelude::*;

use crate::app::Tab;

verus! {

/// Options for listing containers.
#[derive(Debug, Clone, Copy)]
pub struct ContainerListOptions {
    /// List stopped containers too.
    pub all: bool,
}

/// Options for listing images.
#[derive(Debug, Clone, Copy)]
pub struct ImageListOptions {
    /// List intermediate images too.
    pub all: bool,
    /// Show the digests of the images.
    pub digests: bool,
}

/// Credentials for a registry.
#[derive(Debug)]
pub struct RegistryAuth {
    pub username: String,
    pub password: Option<String>,
}

/// How a container is to be created.
#[derive(Debug)]
pub struct ContainerCreateOptions {
    pub image: String,
    /// The command, split into words.
    pub cmd: Option<Vec<String>>,
    pub name: Option<String>,
    pub working_dir: Option<String>,
    pub user: Option<String>,
    pub tty: bool,
    pub attach_stdin: bool,
    pub attach_stderr: bool,
    pub attach_stdout: bool,
    /// Environment variables, each as `KEY=VALUE`.
    pub env: Option<Vec<String>>,
}

/// IP address management of a network.
#[derive(Debug)]
pub struct IpamOptions {
    pub driver: Option<String>,
    pub options: Option<Vec<(String, String)>>,
    pub config: Option<Vec<Vec<(String, String)>>>,
}

/// How a network is to be created.
#[derive(Debug)]
pub struct NetworkCreateOptions {
    pub name: String,
    pub driver: Option<String>,
    pub labels: Option<Vec<(String, String)>>,
    pub options: Option<Vec<(String, String)>>,
    pub ipam: Option<IpamOptions>,
    pub attachable: bool,
    pub internal: bool,
    pub ingress: bool,
    pub enable_ipv6: bool,
}

/// How a volume is to be created.
#[derive(Debug)]
pub struct VolumeCreateOptions {
    pub name: Option<String>,
    pub driver: Option<String>,
    pub labels: Option<Vec<(String, String)>>,
    pub driver_opts: Option<Vec<(String, String)>>,
}

/// A tag to give to an image.
#[derive(Debug)]
pub struct TagOptions {
    pub repo: String,
    pub tag: Option<String>,
}

#[derive(Debug)]
pub enum ContainerEvent {
    List(Option<ContainerListOptions>),
    Delete { id: String },
    Stats,
    Logs,
    Details,
    Stop { id: String },
    Unpause { id: String },
    Pause { id: String },
    Start { id: String },
    TraceStart { id: String },
    Create(ContainerCreateOptions),
    Rename { id: String, name: String },
    ForceDelete { id: String },
    Prune,
    Restart { id: String },
    ProcessList,
}

#[derive(Debug)]
pub enum ImageEvent {
    List(Option<ImageListOptions>),
    Inspect { id: String },
    Delete { id: String },
    Save { id: String, output_path: String },
    Pull { image: String, auth: Option<RegistryAuth> },
    Search { image: String },
    ForceDelete { id: String },
    Import { path: String },
    PullChunks,
    Prune,
    ClearCache,
    Tag { id: String, opts: TagOptions },
}

#[derive(Debug)]
pub enum NetworkEvent {
    List,
    Delete { id: String },
    Create(NetworkCreateOptions),
    Prune,
}

#[derive(Debug)]
pub enum VolumeEvent {
    List,
    Delete { id: String },
    Create(VolumeCreateOptions),
    Prune,
}

/// A request that the worker hands straight back to the GUI.
#[derive(Debug)]
pub enum GuiEvent {
    SetTab(Tab),
}

#[derive(Debug)]
pub enum EventRequest {
    Container(ContainerEvent),
    Image(ImageEvent),
    Network(NetworkEvent),
    Volume(VolumeEvent),
    DockerUriChange { uri: String },
    SystemInspect,
    SystemDataUsage,
    SystemEvents,
    NotifyGui(GuiEvent),
}

} // verus!
