//! The concrete commands and the container plan for one run.

use crate::config::CheckConfig;
use vstd::prelude::*;
use vstd::string::StringExecFns;

verus! {

/// The archive-extraction command: a bounded unzip of the mounted archive,
/// flattening directory structure.
pub open spec fn unzip_command_spec(zip_name: Seq<char>) -> Seq<char> {
    "timeout 30 unzip -j "@ + zip_name
}

/// Builds the archive-extraction command for the mounted archive name.
pub fn unzip_command(zip_name: &str) -> (r: String)
    ensures
        r@ == unzip_command_spec(zip_name@),
{
    "timeout 30 unzip -j ".to_owned().concat(zip_name)
}

/// The build command, bounded by a wall-clock timeout.
pub fn build_command() -> (r: String)
    ensures
        r@ == "timeout 30 make"@,
{
    "timeout 30 make".to_owned()
}

/// The executable scan: regular files under the working directory with any
/// executable permission bit set, one per line.
pub fn find_command() -> (r: String)
    ensures
        r@ == "timeout 10 find . -type f -perm /111"@,
{
    "timeout 10 find . -type f -perm /111".to_owned()
}

/// The directory listing used for debug diagnostics between stages.
pub fn list_command() -> (r: String)
    ensures
        r@ == "ls -la"@,
{
    "ls -la".to_owned()
}

/// The export command: serializes the directory into a single tar stream on
/// standard output, with member paths relative to the directory itself.
pub open spec fn export_command_spec(dir: Seq<char>) -> Seq<char> {
    "tar -C "@ + dir + " -cf - ."@
}

/// Builds the export command for a directory.
pub fn export_command(dir: &str) -> (r: String)
    ensures
        r@ == export_command_spec(dir@),
{
    "tar -C ".to_owned().concat(dir).concat(" -cf - .")
}

/// The unique container name for one run, derived from a freshly generated
/// run identifier so that concurrent runs on one host never collide.
pub open spec fn container_name_spec(run_id: Seq<char>) -> Seq<char> {
    "canary-checker-"@ + run_id
}

/// Builds the container name carrying the run identifier.
pub fn container_name(run_id: &str) -> (r: String)
    ensures
        r@ == container_name_spec(run_id@),
{
    "canary-checker-".to_owned().concat(run_id)
}

/// Everything the container runtime needs to create the sandbox: the image,
/// an idle keep-alive command, no network, a read-only root filesystem, a
/// size-bounded no-exec no-setuid writable mount at the working directory, a
/// CPU quota as a fraction of the scheduling period, a hard memory ceiling
/// with swap pinned to it, and a bind of the archive into the working
/// directory.
pub struct ContainerPlan {
    pub name: String,
    pub image: String,
    pub keep_alive: String,
    pub hostname: String,
    pub working_dir: String,
    pub stop_timeout: i64,
    pub network_disabled: bool,
    pub readonly_rootfs: bool,
    pub tty: bool,
    pub cpu_period: i64,
    pub cpu_quota: i64,
    pub memory: i64,
    pub memory_swap: i64,
    pub bind: String,
    pub tmpfs_path: String,
    pub tmpfs_options: String,
}

/// Derives the full container plan from the configuration, the resolved
/// absolute host path of the archive, and a fresh run identifier.
pub fn container_plan(config: &CheckConfig, zip_path: &str, run_id: &str) -> (r: ContainerPlan)
    requires
        config.wf(),
    ensures
        r.name@ == container_name_spec(run_id@),
        r.image@ == config.image@,
        r.keep_alive@ == "while true; do sleep 10; done"@,
        r.hostname@ == config.hostname@,
        r.working_dir@ == config.working_dir@,
        r.stop_timeout == config.timeout,
        r.network_disabled == true,
        r.readonly_rootfs == true,
        r.tty == true,
        r.cpu_period == 100000,
        r.cpu_quota == config.cpu_limit * 100000,
        r.memory == config.memory_limit,
        r.memory_swap == config.memory_limit,
        r.bind@ == zip_path@ + ":"@ + config.working_dir@ + "/"@ + config.zip_name@,
        r.tmpfs_path@ == config.working_dir@,
        r.tmpfs_options@ == "rw,noexec,nosuid,size="@ + config.disk_limit@,
{
    let bind = zip_path.to_owned().concat(":").concat(config.working_dir.as_str()).concat(
        "/",
    ).concat(config.zip_name.as_str());
    let tmpfs_options = "rw,noexec,nosuid,size=".to_owned().concat(config.disk_limit.as_str());
    ContainerPlan {
        name: container_name(run_id),
        image: config.image.clone(),
        keep_alive: "while true; do sleep 10; done".to_owned(),
        hostname: config.hostname.clone(),
        working_dir: config.working_dir.clone(),
        stop_timeout: config.timeout,
        network_disabled: true,
        readonly_rootfs: true,
        tty: true,
        cpu_period: 100000,
        cpu_quota: config.cpu_limit * 100000,
        memory: config.memory_limit,
        memory_swap: config.memory_limit,
        bind,
        tmpfs_path: config.working_dir.clone(),
        tmpfs_options,
    }
}

} // verus!
