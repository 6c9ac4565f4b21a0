//! The pressure source chain: cgroup v2 limits first, then system-wide
//! meminfo, then the process's resident set. Each source is computed from
//! file contents that the caller read; a missing or malformed file makes
//! its source unavailable and the chain falls through.

use vstd::prelude::*;
use vstd::string::StringSliceAdditionalSpecFns;
use vstd::utf8::valid_utf8;
use crate::pressure::{
    reading_for, reading_spec, MemoryPressureReading, MemoryPressureSourceKind,
    MemoryPressureThresholds,
};
use crate::procfs::{
    cgroup_value, find_line_bytes, kib_field, line_with_prefix, mem_available_key, mem_total_key,
    parse_cgroup_value, read_meminfo, read_meminfo_total, read_vm_rss, vm_rss_key,
};

verus! {

/// `a - b`, or zero.
pub open spec fn saturating_sub_spec(a: u64, b: u64) -> u64 {
    if a >= b {
        (a - b) as u64
    } else {
        0
    }
}

fn saturating_sub(a: u64, b: u64) -> (r: u64)
    ensures
        r == saturating_sub_spec(a, b),
{
    if a >= b {
        a - b
    } else {
        0
    }
}

/// Mount point of the unified cgroup hierarchy.
pub open spec fn cgroup_root() -> Seq<u8> {
    "/sys/fs/cgroup".spec_bytes()
}

/// Directory of the cgroup whose path, relative to the hierarchy's root, is
/// `path`. An empty path or `/` is the root itself.
pub open spec fn cgroup_dir(path: Seq<u8>) -> Seq<u8> {
    if path.len() == 0 || (path.len() == 1 && path[0] == 47) {
        cgroup_root()
    } else if path[0] == 47 {
        cgroup_root() + path
    } else {
        cgroup_root() + "/".spec_bytes() + path
    }
}

pub open spec fn unified_entry_key() -> Seq<u8> {
    "0::".spec_bytes()
}

/// The process's cgroup directory, from the first unified-hierarchy entry
/// (`0::<path>`) of its cgroup membership file; none when that path is not
/// valid UTF-8.
pub open spec fn cgroup_v2_dir(membership: Seq<u8>) -> Option<Seq<u8>> {
    match line_with_prefix(membership, unified_entry_key()) {
        Some(line) => {
            let path = line.subrange(3, line.len() as int);
            if valid_utf8(path) {
                Some(cgroup_dir(path))
            } else {
                None
            }
        },
        None => None,
    }
}

/// Relies on `std::str::from_utf8`: it accepts exactly the well-formed UTF-8 byte strings.
#[verifier::external_body]
fn is_utf8(bytes: &[u8]) -> (r: bool)
    ensures
        r == valid_utf8(bytes@),
{
    std::str::from_utf8(bytes).is_ok()
}

/// Resolves the process's cgroup directory from the contents of `/proc/self/cgroup`.
pub fn cgroup_v2_path(membership: &[u8]) -> (dir: Option<Vec<u8>>)
    ensures
        match cgroup_v2_dir(membership@) {
            Some(d) => dir matches Some(v) && v@ == d,
            None => dir is None,
        },
{
    let key = "0::".as_bytes();
    proof {
        reveal_strlit("0::");
        assert(vstd::string::is_ascii("0::"));
        vstd::string::is_ascii_spec_bytes("0::");
        assert(key@.len() == 3);
    }
    let (a, b) = match find_line_bytes(membership, key) {
        Some(bounds) => bounds,
        None => {
            return None;
        },
    };
    let mut dir: Vec<u8> = Vec::new();
    dir.extend_from_slice("/sys/fs/cgroup".as_bytes());
    let start = a + 3;
    let path = &membership[start..b];
    proof {
        let line = membership@.subrange(a as int, b as int);
        assert(line.subrange(3, line.len() as int) =~= path@);
    }
    if !is_utf8(path) {
        return None;
    }
    if path.len() == 0 || (path.len() == 1 && path[0] == 47) {
    } else if path[0] == 47 {
        dir.extend_from_slice(path);
    } else {
        dir.extend_from_slice("/".as_bytes());
        dir.extend_from_slice(path);
    }
    proof {
        let line = membership@.subrange(a as int, b as int);
        assert(line.subrange(3, line.len() as int) =~= path@);
    }
    Some(dir)
}

/// A byte string followed by another.
fn joined(a: &Vec<u8>, b: &[u8]) -> (r: Vec<u8>)
    ensures
        r@ == a@ + b@,
{
    let mut r: Vec<u8> = Vec::new();
    r.extend_from_slice(a.as_slice());
    r.extend_from_slice(b);
    r
}

/// Cgroup v2 source: the memory ceiling and current usage of the process's cgroup.
#[derive(Debug)]
pub struct CgroupV2Source {
    /// Path of the ceiling file, `memory.max`.
    pub memory_max: Vec<u8>,
    /// Path of the usage file, `memory.current`.
    pub memory_current: Vec<u8>,
}

impl CgroupV2Source {
    /// The source of the cgroup named in the contents of `/proc/self/cgroup`;
    /// `None` if the process is in no unified-hierarchy cgroup.
    pub fn new(membership: &[u8]) -> (s: Option<CgroupV2Source>)
        ensures
            match cgroup_v2_dir(membership@) {
                Some(d) => s matches Some(c) && c.memory_max@ == d + "/memory.max".spec_bytes()
                    && c.memory_current@ == d + "/memory.current".spec_bytes(),
                None => s is None,
            },
    {
        match cgroup_v2_path(membership) {
            Some(dir) => Some(
                CgroupV2Source {
                    memory_max: joined(&dir, "/memory.max".as_bytes()),
                    memory_current: joined(&dir, "/memory.current".as_bytes()),
                },
            ),
            None => None,
        }
    }
}

/// The cgroup reading from the contents of `memory.max` and `memory.current`:
/// unavailable when there is no limit (`max`), the limit is zero, or a file
/// holds no number. Headroom is the limit less the usage, or zero.
pub open spec fn cgroup_reading_spec(
    max: Seq<u8>,
    current: Seq<u8>,
    thresholds: MemoryPressureThresholds,
) -> Option<MemoryPressureReading> {
    match cgroup_value(max) {
        Some(limit) => if limit == 0 {
            None
        } else {
            match cgroup_value(current) {
                Some(used) => reading_spec(
                    saturating_sub_spec(limit, used),
                    limit,
                    thresholds,
                    MemoryPressureSourceKind::CgroupV2,
                ),
                None => None,
            }
        },
        None => None,
    }
}

/// The cgroup reading from the contents of `memory.max` and `memory.current`.
pub fn cgroup_reading(max: &[u8], current: &[u8], thresholds: &MemoryPressureThresholds) -> (r:
    Option<MemoryPressureReading>)
    ensures
        r == cgroup_reading_spec(max@, current@, *thresholds),
{
    let limit = match parse_cgroup_value(max) {
        Some(v) => v,
        None => {
            return None;
        },
    };
    if limit == 0 {
        return None;
    }
    let used = match parse_cgroup_value(current) {
        Some(v) => v,
        None => {
            return None;
        },
    };
    reading_for(saturating_sub(limit, used), limit, thresholds, MemoryPressureSourceKind::CgroupV2)
}

/// The system-wide reading from the contents of `/proc/meminfo`: available
/// memory out of total memory.
pub open spec fn meminfo_reading_spec(meminfo: Seq<u8>, thresholds: MemoryPressureThresholds) -> Option<
    MemoryPressureReading,
> {
    match (kib_field(meminfo, mem_total_key()), kib_field(meminfo, mem_available_key())) {
        (Some(total), Some(available)) => reading_spec(
            available,
            total,
            thresholds,
            MemoryPressureSourceKind::SystemMemInfo,
        ),
        _ => None,
    }
}

/// The system-wide reading from the contents of `/proc/meminfo`.
pub fn meminfo_reading(meminfo: &[u8], thresholds: &MemoryPressureThresholds) -> (r: Option<
    MemoryPressureReading,
>)
    ensures
        r == meminfo_reading_spec(meminfo@, *thresholds),
{
    match read_meminfo(meminfo) {
        Some((total, available)) => reading_for(
            available,
            total,
            thresholds,
            MemoryPressureSourceKind::SystemMemInfo,
        ),
        None => None,
    }
}

/// The process reading from `/proc/meminfo` and `/proc/self/status`: total
/// memory less the resident set, out of total memory.
pub open spec fn rss_reading_spec(
    meminfo: Seq<u8>,
    status: Seq<u8>,
    thresholds: MemoryPressureThresholds,
) -> Option<MemoryPressureReading> {
    match (kib_field(meminfo, mem_total_key()), kib_field(status, vm_rss_key())) {
        (Some(total), Some(rss)) => reading_spec(
            saturating_sub_spec(total, rss),
            total,
            thresholds,
            MemoryPressureSourceKind::ProcessRss,
        ),
        _ => None,
    }
}

/// The process reading from `/proc/meminfo` and `/proc/self/status`.
pub fn rss_reading(meminfo: &[u8], status: &[u8], thresholds: &MemoryPressureThresholds) -> (r:
    Option<MemoryPressureReading>)
    ensures
        r == rss_reading_spec(meminfo@, status@, *thresholds),
{
    let total = match read_meminfo_total(meminfo) {
        Some(v) => v,
        None => {
            return None;
        },
    };
    let rss = match read_vm_rss(status) {
        Some(v) => v,
        None => {
            return None;
        },
    };
    reading_for(saturating_sub(total, rss), total, thresholds, MemoryPressureSourceKind::ProcessRss)
}

/// Contents of the files the sources read, `None` where a file could not be read.
pub struct SourceFiles {
    pub memory_max: Option<Vec<u8>>,
    pub memory_current: Option<Vec<u8>>,
    pub meminfo: Option<Vec<u8>>,
    pub status: Option<Vec<u8>>,
}

pub open spec fn contents(f: Option<Vec<u8>>) -> Option<Seq<u8>> {
    match f {
        Some(v) => Some(v@),
        None => None,
    }
}

pub open spec fn cgroup_part(has_cgroup: bool, files: SourceFiles, thresholds: MemoryPressureThresholds) -> Option<MemoryPressureReading> {
    if has_cgroup {
        match (contents(files.memory_max), contents(files.memory_current)) {
            (Some(max), Some(current)) => cgroup_reading_spec(max, current, thresholds),
            _ => None,
        }
    } else {
        None
    }
}

pub open spec fn meminfo_part(files: SourceFiles, thresholds: MemoryPressureThresholds) -> Option<MemoryPressureReading> {
    match contents(files.meminfo) {
        Some(m) => meminfo_reading_spec(m, thresholds),
        None => None,
    }
}

pub open spec fn rss_part(files: SourceFiles, thresholds: MemoryPressureThresholds) -> Option<MemoryPressureReading> {
    match (contents(files.meminfo), contents(files.status)) {
        (Some(m), Some(st)) => rss_reading_spec(m, st, thresholds),
        _ => None,
    }
}

/// The first available reading of the chain.
pub open spec fn chain_spec(has_cgroup: bool, files: SourceFiles, thresholds: MemoryPressureThresholds) -> Option<MemoryPressureReading> {
    if cgroup_part(has_cgroup, files, thresholds) is Some {
        cgroup_part(has_cgroup, files, thresholds)
    } else if meminfo_part(files, thresholds) is Some {
        meminfo_part(files, thresholds)
    } else {
        rss_part(files, thresholds)
    }
}

/// Composite source that prefers the cgroup, then system meminfo, then the resident set.
#[derive(Debug)]
pub struct DefaultMemoryPressureSource {
    pub cgroup: Option<CgroupV2Source>,
}

impl DefaultMemoryPressureSource {
    /// The chain for a process whose `/proc/self/cgroup` holds `membership`
    /// (empty if it could not be read).
    pub fn new(membership: &[u8]) -> (s: DefaultMemoryPressureSource)
        ensures
            s.cgroup is Some <==> cgroup_v2_dir(membership@) is Some,
            match cgroup_v2_dir(membership@) {
                Some(d) => s.cgroup matches Some(c) && c.memory_max@ == d + "/memory.max".spec_bytes()
                    && c.memory_current@ == d + "/memory.current".spec_bytes(),
                None => true,
            },
    {
        DefaultMemoryPressureSource { cgroup: CgroupV2Source::new(membership) }
    }

    /// One sample of the chain from the files' contents: the first source
    /// that is available gives the reading.
    pub fn sample_files(&self, files: &SourceFiles, thresholds: &MemoryPressureThresholds) -> (r:
        Option<MemoryPressureReading>)
        ensures
            r == chain_spec(self.cgroup is Some, *files, *thresholds),
    {
        if self.cgroup.is_some() {
            match (&files.memory_max, &files.memory_current) {
                (Some(max), Some(current)) => {
                    let r = cgroup_reading(max.as_slice(), current.as_slice(), thresholds);
                    if r.is_some() {
                        return r;
                    }
                },
                _ => {},
            }
        }
        match &files.meminfo {
            Some(m) => {
                let r = meminfo_reading(m.as_slice(), thresholds);
                if r.is_some() {
                    return r;
                }
            },
            None => {},
        }
        match (&files.meminfo, &files.status) {
            (Some(m), Some(st)) => rss_reading(m.as_slice(), st.as_slice(), thresholds),
            _ => None,
        }
    }
}

} // verus!
