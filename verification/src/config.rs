//! Configuration for one probe run.

use vstd::prelude::*;
use vstd::string::StrSliceExecFns;

verus! {

/// A string is safe to splice into a shell command line or a bind-mount
/// specification: it is non-empty and holds none of the characters those
/// contexts reserve (whitespace, quoting, the mount separators, and the
/// shell's control operators).
pub open spec fn path_safe(s: Seq<char>) -> bool {
    &&& s.len() > 0
    &&& forall|i: int| 0 <= i < s.len() ==> !reserved_char(#[trigger] s[i])
}

/// Characters that would split or re-interpret a spliced path: whitespace,
/// the bind-mount and tmpfs-option separators, quoting, and the shell's
/// control operators.
pub open spec fn reserved_char(c: char) -> bool {
    ||| c == ' '
    ||| c == '\t'
    ||| c == '\n'
    ||| c == '\r'
    ||| c == '\0'
    ||| c == ':'
    ||| c == ','
    ||| c == '\''
    ||| c == '"'
    ||| c == '\\'
    ||| c == '`'
    ||| c == '$'
    ||| c == ';'
    ||| c == '&'
    ||| c == '|'
    ||| c == '<'
    ||| c == '>'
    ||| c == '('
    ||| c == ')'
}

/// Immutable configuration for one run: the base image, the sandbox's
/// hostname, the working directory and archive name inside the sandbox, the
/// per-run timeout, the resource ceilings, an optional export destination,
/// and a debug flag that enables directory-listing diagnostics between
/// stages.
#[derive(Debug, Clone)]
pub struct CheckConfig {
    pub image: String,
    pub hostname: String,
    pub working_dir: String,
    pub zip_name: String,
    pub timeout: i64,
    pub memory_limit: i64,
    pub cpu_limit: i64,
    pub disk_limit: String,
    pub extract: Option<String>,
    pub debug: bool,
}

impl CheckConfig {
    /// The configuration invariant: the paths spliced into commands and
    /// mount specifications are path-safe, and every limit is strictly
    /// positive (with the CPU share small enough that the quota, a multiple
    /// of the scheduling period, still fits the runtime's integer type).
    pub open spec fn wf(self) -> bool {
        &&& self.image@.len() > 0
        &&& self.hostname@.len() > 0
        &&& path_safe(self.working_dir@)
        &&& path_safe(self.zip_name@)
        &&& path_safe(self.disk_limit@)
        &&& 0 < self.timeout
        &&& 0 < self.memory_limit
        &&& 0 < self.cpu_limit
        &&& self.cpu_limit * 100000 <= i64::MAX
    }
}

/// Checks path safety of one string at run time.
fn is_path_safe(s: &str) -> (b: bool)
    ensures
        b == path_safe(s@),
{
    let len = s.unicode_len();
    if len == 0 {
        return false;
    }
    let mut i: usize = 0;
    while i < len
        invariant
            len == s@.len(),
            0 <= i <= len,
            forall|k: int| 0 <= k < i ==> !reserved_char(#[trigger] s@[k]),
        decreases len - i,
    {
        let c = s.get_char(i);
        if c == ' ' || c == '\t' || c == '\n' || c == '\r' || c == '\0' || c == ':' || c == ','
            || c == '\'' || c == '"' || c == '\\' || c == '`' || c == '$' || c == ';' || c == '&'
            || c == '|' || c == '<' || c == '>' || c == '(' || c == ')' {
            return false;
        }
        i += 1;
    }
    true
}

/// Checks the configuration invariant at run time, for callers outside the
/// verified world that must establish it before provisioning.
pub fn check_wf(config: &CheckConfig) -> (b: bool)
    ensures
        b == config.wf(),
{
    !config.image.as_str().is_empty() && !config.hostname.as_str().is_empty() && is_path_safe(
        config.working_dir.as_str(),
    ) && is_path_safe(config.zip_name.as_str()) && is_path_safe(config.disk_limit.as_str())
        && config.timeout > 0 && config.memory_limit > 0 && config.cpu_limit > 0
        && config.cpu_limit <= 92233720368547i64
}

impl Default for CheckConfig {
    /// The stock configuration: a stable build-tools image, a `/homework`
    /// working directory holding `homework.zip`, a 90-unit timeout, 1 GiB of
    /// memory, one CPU core, 1G of ephemeral disk, no export, no debug
    /// output.
    fn default() -> (r: Self)
        ensures
            r.wf(),
            r.image@ == "buildpack-deps:stable"@,
            r.hostname@ == "canary"@,
            r.working_dir@ == "/homework"@,
            r.zip_name@ == "homework.zip"@,
            r.timeout == 90,
            r.memory_limit == 1073741824i64,
            r.cpu_limit == 1,
            r.disk_limit@ == "1G"@,
            r.extract is None,
            r.debug == false,
    {
        let r = CheckConfig {
            image: "buildpack-deps:stable".to_owned(),
            hostname: "canary".to_owned(),
            working_dir: "/homework".to_owned(),
            zip_name: "homework.zip".to_owned(),
            timeout: 90,
            memory_limit: 1073741824,
            cpu_limit: 1,
            disk_limit: "1G".to_owned(),
            extract: None,
            debug: false,
        };
        proof {
            reveal_strlit("buildpack-deps:stable");
            reveal_strlit("canary");
            reveal_strlit("/homework");
            reveal_strlit("homework.zip");
            reveal_strlit("1G");
        }
        r
    }
}

} // verus!
