//! Requests to create a sandbox, and what is read from them.

use vstd::prelude::*;

use crate::api::{ApiError, ErrorView};
use crate::json::Json;
use crate::models::{SandboxResources, SandboxTimeoutAction};
use crate::network::SandboxNetworkConfig;
use crate::text_map::TextMap;

verus! {

/// A request to create a sandbox from a snapshot.
#[derive(Debug)]
pub struct NewSandbox {
    pub template_id: String,
    pub timeout: Option<u32>,
    pub auto_pause: Option<bool>,
    pub auto_resume: Option<bool>,
    pub secure: Option<bool>,
    pub allow_internet_access: Option<bool>,
    pub network: Option<SandboxNetworkConfig>,
    pub metadata: Option<TextMap>,
    pub env_vars: Option<TextMap>,
    pub volume_mounts: Option<TextMap>,
    pub custom_extension_params: Option<Vec<(String, Json)>>,
}

/// A request to create a sandbox from an image.
#[derive(Debug)]
pub struct NewColdSandbox {
    pub image: String,
    pub cpu_count: Option<u32>,
    pub memory_mb: Option<u32>,
    pub disk_size_mb: Option<u32>,
    pub extra_boot_args: Option<String>,
    pub timeout: Option<u32>,
    pub auto_pause: Option<bool>,
    pub auto_resume: Option<bool>,
    pub secure: Option<bool>,
    pub allow_internet_access: Option<bool>,
    pub network: Option<SandboxNetworkConfig>,
    pub metadata: Option<TextMap>,
    pub env_vars: Option<TextMap>,
    pub volume_mounts: Option<TextMap>,
    pub custom_extension_params: Option<Vec<(String, Json)>>,
}

impl NewColdSandbox {
    /// A request that names an image and leaves everything else open.
    pub fn new(image: String) -> (body: NewColdSandbox)
        ensures
            body == (NewColdSandbox {
                image,
                cpu_count: None,
                memory_mb: None,
                disk_size_mb: None,
                extra_boot_args: None,
                timeout: None,
                auto_pause: None,
                auto_resume: None,
                secure: None,
                allow_internet_access: None,
                network: None,
                metadata: None,
                env_vars: None,
                volume_mounts: None,
                custom_extension_params: None,
            }),
    {
        NewColdSandbox {
            image,
            cpu_count: None,
            memory_mb: None,
            disk_size_mb: None,
            extra_boot_args: None,
            timeout: None,
            auto_pause: None,
            auto_resume: None,
            secure: None,
            allow_internet_access: None,
            network: None,
            metadata: None,
            env_vars: None,
            volume_mounts: None,
            custom_extension_params: None,
        }
    }
}

/// The timeout of a request in seconds, in the width that the orchestrator takes.
pub fn duration_from_secs(secs: Option<u32>) -> (duration: Option<u64>)
    ensures
        duration == widened(secs),
{
    match secs {
        Some(secs) => Some(secs as u64),
        None => None,
    }
}

/// An optional number of seconds in 64 bits.
pub open spec fn widened(secs: Option<u32>) -> Option<u64> {
    match secs {
        Some(secs) => Some(secs as u64),
        None => None,
    }
}

/// What happens when the time is up: a pause, unless the request forbids it.
pub fn timeout_action(auto_pause: Option<bool>) -> (action: SandboxTimeoutAction)
    ensures
        action == asked_timeout_action(auto_pause),
{
    match auto_pause {
        Some(false) => SandboxTimeoutAction::Delete,
        _ => SandboxTimeoutAction::Pause,
    }
}

/// What a request asks to happen when the time is up.
pub open spec fn asked_timeout_action(auto_pause: Option<bool>) -> SandboxTimeoutAction {
    if auto_pause == Some(false) {
        SandboxTimeoutAction::Delete
    } else {
        SandboxTimeoutAction::Pause
    }
}

/// The environment variables of a request, where it has any.
pub fn env_vars_of(env_vars: Option<TextMap>) -> (kept: Option<TextMap>)
    ensures
        kept == nonempty_map(env_vars),
{
    match env_vars {
        Some(map) => if map.is_empty() {
            None
        } else {
            Some(map)
        },
        None => None,
    }
}

/// A map that is there and has a key.
pub open spec fn nonempty_map(map: Option<TextMap>) -> Option<TextMap> {
    match map {
        Some(map) => if map.list().len() == 0 {
            None
        } else {
            Some(map)
        },
        None => None,
    }
}

/// What is wrong with the resources that a request asks for, or nothing.
pub open spec fn resources_fault(
    body: NewColdSandbox,
    default_cpu: u32,
    default_mem: u32,
) -> Option<ErrorView> {
    let cpu = if body.cpu_count is Some {
        body.cpu_count->0
    } else {
        default_cpu
    };
    let mem = if body.memory_mb is Some {
        body.memory_mb->0
    } else {
        default_mem
    };
    if cpu == 0 {
        Some(ErrorView { code: 400, message: "cpuCount must be greater than 0"@ })
    } else if mem < 128 {
        Some(ErrorView { code: 400, message: "memoryMB must be at least 128"@ })
    } else if body.disk_size_mb is Some && (body.disk_size_mb->0 < 1024 || body.disk_size_mb->0
        % 1024 != 0) {
        Some(
            ErrorView {
                code: 400,
                message: "diskSizeMB must be at least 1024 and divisible by 1024"@,
            },
        )
    } else {
        None
    }
}

/// The resources of a cold start. What the request leaves out comes from the
/// configuration; a disk size of zero means that the image decides.
pub fn cold_start_resources(body: &NewColdSandbox, default_cpu: u32, default_mem: u32) -> (result:
    Result<SandboxResources, ApiError>)
    ensures
        match resources_fault(*body, default_cpu, default_mem) {
            Some(fault) => result matches Err(error) && error@ == fault,
            None => result == Ok::<SandboxResources, ApiError>(
                SandboxResources {
                    cpu_count: if body.cpu_count is Some {
                        body.cpu_count->0
                    } else {
                        default_cpu
                    },
                    memory_mib: if body.memory_mb is Some {
                        body.memory_mb->0
                    } else {
                        default_mem
                    },
                    disk_size_mib: if body.disk_size_mb is Some {
                        body.disk_size_mb->0
                    } else {
                        0
                    },
                },
            ),
        },
{
    let cpu_count: u32 = match body.cpu_count {
        Some(count) => count,
        None => default_cpu,
    };
    if cpu_count == 0 {
        return Err(ApiError::new(400, "cpuCount must be greater than 0"));
    }
    let memory_mib: u32 = match body.memory_mb {
        Some(size) => size,
        None => default_mem,
    };
    if memory_mib < 128 {
        return Err(ApiError::new(400, "memoryMB must be at least 128"));
    }
    let disk_size_mib: u32 = match body.disk_size_mb {
        Some(size) => {
            if size < 1024 || size % 1024 != 0 {
                return Err(
                    ApiError::new(400, "diskSizeMB must be at least 1024 and divisible by 1024"),
                );
            }
            size
        },
        None => 0,
    };
    Ok(SandboxResources { cpu_count, memory_mib, disk_size_mib })
}

/// The configuration of an image that a drive was made from. The root file
/// system has no drive identity.
#[derive(Debug)]
pub struct ImageConfigEntry {
    pub drive_id: Option<String>,
    pub mount_path: String,
    pub config: Json,
}

/// What is known of an attached drive: its identity, where it is mounted and the
/// configuration of its image.
#[derive(Debug)]
pub struct AttachedImage {
    pub drive_id: String,
    pub mount_path: String,
    pub raw_config: Option<Json>,
}

/// Whether entries are the configurations of the attached drives that have one,
/// in order.
pub open spec fn attached_entries(entries: Seq<ImageConfigEntry>, attached: Seq<AttachedImage>) -> bool
    decreases attached.len(),
{
    if attached.len() == 0 {
        entries.len() == 0
    } else {
        match attached.last().raw_config {
            None => attached_entries(entries, attached.drop_last()),
            Some(config) => {
                &&& entries.len() > 0
                &&& entries.last() == (ImageConfigEntry {
                    drive_id: Some(attached.last().drive_id),
                    mount_path: attached.last().mount_path,
                    config,
                })
                &&& attached_entries(entries.drop_last(), attached.drop_last())
            },
        }
    }
}

/// The configurations of the root file system and of the attached drives, as far
/// as they are known.
pub fn build_image_configs(rootfs: Option<Json>, attached: Vec<AttachedImage>) -> (entries: Vec<
    ImageConfigEntry,
>)
    ensures
        match rootfs {
            Some(config) => {
                &&& entries@.len() > 0
                &&& entries@[0].drive_id is None
                &&& entries@[0].mount_path@ == "/"@
                &&& entries@[0].config == config
                &&& attached_entries(entries@.skip(1), attached@)
            },
            None => attached_entries(entries@, attached@),
        },
{
    let mut entries: Vec<ImageConfigEntry> = Vec::new();
    let ghost offset: int = if rootfs is Some {
        1
    } else {
        0
    };
    if let Some(config) = rootfs {
        entries.push(ImageConfigEntry { drive_id: None, mount_path: "/".to_owned(), config });
    }
    let mut rest = attached;
    let ghost head = entries@;
    let ghost mut done: int = 0;
    assert(entries@.skip(offset) =~= Seq::<ImageConfigEntry>::empty());
    assert(attached@.take(0) =~= Seq::<AttachedImage>::empty());
    while rest.len() > 0
        invariant
            0 <= done <= attached@.len(),
            rest@ == attached@.skip(done),
            head.len() == offset,
            0 <= offset <= 1,
            entries@.len() >= offset,
            entries@.take(offset) == head,
            attached_entries(entries@.skip(offset), attached@.take(done)),
        decreases rest.len(),
    {
        let first = rest.remove(0);
        let ghost before = entries@;
        proof {
            assert(first == attached@[done]);
            assert(attached@.take(done + 1).drop_last() =~= attached@.take(done));
            assert(attached@.take(done + 1).last() == first);
        }
        if let Some(config) = first.raw_config {
            entries.push(
                ImageConfigEntry {
                    drive_id: Some(first.drive_id),
                    mount_path: first.mount_path,
                    config,
                },
            );
            proof {
                assert(entries@.skip(offset).drop_last() =~= before.skip(offset));
                assert(entries@.take(offset) =~= before.take(offset));
            }
        }
        proof {
            done = done + 1;
            assert(rest@ =~= attached@.skip(done));
        }
    }
    proof {
        assert(attached@.take(done) =~= attached@);
        if offset == 0 {
            assert(entries@.skip(0) =~= entries@);
        } else {
            assert(entries@[0] == entries@.take(1)[0]);
        }
    }
    entries
}

/// How a reply shows parameters of the custom extension: absent ones are empty.
pub fn params_map_to_model(params: Option<Vec<(String, Json)>>) -> (model: Vec<(String, Json)>)
    ensures
        match params {
            Some(map) => model == map,
            None => model@.len() == 0,
        },
{
    match params {
        Some(map) => map,
        None => Vec::new(),
    }
}

/// Whether there are no parameters: absent and empty ones are the same.
pub open spec fn no_params(params: Option<Vec<(String, Json)>>) -> bool {
    match params {
        Some(map) => map@.len() == 0,
        None => true,
    }
}

/// What is said of parameters for an extension that is not configured.
pub open spec fn params_refusal() -> Seq<char> {
    "customExtensionParams requires the custom extension to be configured ([custom_extension].url)"@
}

/// Refuses parameters of the custom extension where none is configured. Empty
/// parameters are always allowed.
pub fn validate_custom_extension_params(
    params: &Option<Vec<(String, Json)>>,
    configured: bool,
) -> (result: Result<(), String>)
    ensures
        match result {
            Ok(()) => no_params(*params) || configured,
            Err(message) => !no_params(*params) && !configured && message@ == params_refusal(),
        },
{
    let empty = match params {
        Some(map) => map.len() == 0,
        None => true,
    };
    if !empty && !configured {
        Err(
            "customExtensionParams requires the custom extension to be configured ([custom_extension].url)".to_owned(),
        )
    } else {
        Ok(())
    }
}

} // verus!
