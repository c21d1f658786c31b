//! Where a basis and a system live on disk.
//!
//! Every path is derived from a root data directory and a name, as plain
//! bytes and without touching the filesystem.

use vstd::prelude::*;
use crate::text::{push_all, text_of};

verus! {

/// The byte that separates the components of a path.
pub const SEPARATOR: u8 = 0x2f;

/// `part` adjoined to `base`: an absolute `part` stands alone, and a
/// separator is put between the two unless `base` is empty or ends in one.
pub open spec fn joined(base: Seq<u8>, part: Seq<u8>) -> Seq<u8> {
    if part.len() > 0 && part[0] == SEPARATOR {
        part
    } else if base.len() == 0 || base.last() == SEPARATOR {
        base + part
    } else {
        base + seq![SEPARATOR] + part
    }
}

/// `base` ends in a component, so that what is adjoined to it is set off by
/// a separator.
pub open spec fn is_open_base(base: Seq<u8>) -> bool {
    base.len() > 0 && base.last() != SEPARATOR
}

/// `part` names something below the directory it is adjoined to.
pub open spec fn is_relative(part: Seq<u8>) -> bool {
    part.len() > 0 && part[0] != SEPARATOR
}

pub open spec fn basis_dir() -> Seq<u8> {
    text_of("basis")
}

pub open spec fn system_dir() -> Seq<u8> {
    text_of("system")
}

pub open spec fn config_file() -> Seq<u8> {
    text_of("config.json")
}

pub open spec fn prefix_dir() -> Seq<u8> {
    text_of("prefix")
}

pub open spec fn overlay_work_dir() -> Seq<u8> {
    text_of("overlay_work")
}

pub open spec fn mount_dir() -> Seq<u8> {
    text_of("mount")
}

/// Adjoins `part` to `base`.
pub fn join(base: &[u8], part: &[u8]) -> (res: Vec<u8>)
    ensures
        res@ == joined(base@, part@),
{
    let mut out: Vec<u8> = Vec::new();
    if part.len() > 0 && part[0] == SEPARATOR {
        push_all(&mut out, part);
        assert(out@ =~= part@);
        return out;
    }
    push_all(&mut out, base);
    if base.len() > 0 && base[base.len() - 1] != SEPARATOR {
        out.push(SEPARATOR);
    }
    push_all(&mut out, part);
    assert(out@ =~= joined(base@, part@));
    out
}

/// The directory of the basis `name` under the data directory `root`.
pub fn basis_path(root: &[u8], name: &[u8]) -> (res: Vec<u8>)
    ensures
        res@ == joined(joined(root@, basis_dir()), name@),
{
    let bases = join(root, "basis".as_bytes());
    join(bases.as_slice(), name)
}

/// The configuration file of the basis at `basis_path`.
pub fn basis_config_path(basis_path: &[u8]) -> (res: Vec<u8>)
    ensures
        res@ == joined(basis_path@, config_file()),
{
    join(basis_path, "config.json".as_bytes())
}

/// The prefix directory of the basis at `basis_path`: the read-only lower
/// layer of every system built on it.
pub fn basis_prefix_path(basis_path: &[u8]) -> (res: Vec<u8>)
    ensures
        res@ == joined(basis_path@, prefix_dir()),
{
    join(basis_path, "prefix".as_bytes())
}

/// The directory of the system `name` under the data directory `root`.
pub fn system_path(root: &[u8], name: &[u8]) -> (res: Vec<u8>)
    ensures
        res@ == joined(joined(root@, system_dir()), name@),
{
    let systems = join(root, "system".as_bytes());
    join(systems.as_slice(), name)
}

/// The configuration file of the system at `system_path`.
pub fn system_config_path(system_path: &[u8]) -> (res: Vec<u8>)
    ensures
        res@ == joined(system_path@, config_file()),
{
    join(system_path, "config.json".as_bytes())
}

/// The prefix directory of the system at `system_path`: the writable upper
/// layer of its overlay.
pub fn system_prefix_path(system_path: &[u8]) -> (res: Vec<u8>)
    ensures
        res@ == joined(system_path@, prefix_dir()),
{
    join(system_path, "prefix".as_bytes())
}

/// The scratch directory that the overlay of the system at `system_path`
/// works in.
pub fn system_overlay_work_path(system_path: &[u8]) -> (res: Vec<u8>)
    ensures
        res@ == joined(system_path@, overlay_work_dir()),
{
    join(system_path, "overlay_work".as_bytes())
}

/// The directory at which the merged view of the system at `system_path`
/// appears.
pub fn system_mount_path(system_path: &[u8]) -> (res: Vec<u8>)
    ensures
        res@ == joined(system_path@, mount_dir()),
{
    join(system_path, "mount".as_bytes())
}

/// The directories and files of one basis.
#[derive(Debug, Clone)]
pub struct BasisLayout {
    /// The directory of the basis.
    pub dir: Vec<u8>,
    /// Its prefix directory.
    pub prefix: Vec<u8>,
    /// Its configuration file.
    pub config: Vec<u8>,
}

/// The directories and files of one system.
#[derive(Debug, Clone)]
pub struct SystemLayout {
    /// The directory of the system.
    pub dir: Vec<u8>,
    /// Its prefix directory, the upper layer of the overlay.
    pub prefix: Vec<u8>,
    /// The scratch directory of the overlay.
    pub overlay_work: Vec<u8>,
    /// The directory at which the merged view is mounted.
    pub mount: Vec<u8>,
    /// Its configuration file.
    pub config: Vec<u8>,
}

impl BasisLayout {
    /// The layout is the one that belongs to the basis directory `dir`.
    pub open spec fn is_layout_of(&self, dir: Seq<u8>) -> bool {
        &&& self.dir@ == dir
        &&& self.prefix@ == joined(dir, prefix_dir())
        &&& self.config@ == joined(dir, config_file())
    }
}

impl SystemLayout {
    /// The layout is the one that belongs to the system directory `dir`.
    pub open spec fn is_layout_of(&self, dir: Seq<u8>) -> bool {
        &&& self.dir@ == dir
        &&& self.prefix@ == joined(dir, prefix_dir())
        &&& self.overlay_work@ == joined(dir, overlay_work_dir())
        &&& self.mount@ == joined(dir, mount_dir())
        &&& self.config@ == joined(dir, config_file())
    }
}

/// The layout of the basis `name` under the data directory `root`.
pub fn resolve_basis_layout(root: &[u8], name: &[u8]) -> (res: BasisLayout)
    ensures
        res.is_layout_of(joined(joined(root@, basis_dir()), name@)),
{
    let dir = basis_path(root, name);
    let prefix = basis_prefix_path(dir.as_slice());
    let config = basis_config_path(dir.as_slice());
    BasisLayout { dir, prefix, config }
}

/// The layout of the system `name` under the data directory `root`.
pub fn resolve_system_layout(root: &[u8], name: &[u8]) -> (res: SystemLayout)
    ensures
        res.is_layout_of(joined(joined(root@, system_dir()), name@)),
{
    let dir = system_path(root, name);
    let prefix = system_prefix_path(dir.as_slice());
    let overlay_work = system_overlay_work_path(dir.as_slice());
    let mount = system_mount_path(dir.as_slice());
    let config = system_config_path(dir.as_slice());
    SystemLayout { dir, prefix, overlay_work, mount, config }
}

/// The fixed names of the layout are plain components: none is empty and
/// none begins or ends with a separator.
pub proof fn lemma_fixed_names()
    ensures
        is_relative(basis_dir()) && is_open_base(basis_dir()),
        is_relative(system_dir()) && is_open_base(system_dir()),
        is_relative(config_file()) && is_open_base(config_file()),
        is_relative(prefix_dir()) && is_open_base(prefix_dir()),
        is_relative(overlay_work_dir()) && is_open_base(overlay_work_dir()),
        is_relative(mount_dir()) && is_open_base(mount_dir()),
{
    broadcast use vstd::string::is_ascii_spec_bytes;

    reveal_strlit("basis");
    reveal_strlit("system");
    reveal_strlit("config.json");
    reveal_strlit("prefix");
    reveal_strlit("overlay_work");
    reveal_strlit("mount");
    assert(vstd::string::is_ascii("basis"));
    assert(vstd::string::is_ascii("system"));
    assert(vstd::string::is_ascii("config.json"));
    assert(vstd::string::is_ascii("prefix"));
    assert(vstd::string::is_ascii("overlay_work"));
    assert(vstd::string::is_ascii("mount"));
}

/// A relative part adjoined to a base that ends in a component is the base,
/// a separator and the part; it ends in a component where the part does.
pub proof fn lemma_joined_below(base: Seq<u8>, part: Seq<u8>)
    requires
        is_open_base(base),
        is_relative(part),
    ensures
        joined(base, part) == base + seq![SEPARATOR] + part,
        is_open_base(part) ==> is_open_base(joined(base, part)),
{
}

/// Under a root that ends in a component, a basis with a relative name
/// lies at `{root}/basis/{name}`, and its prefix and configuration file
/// directly below that.
pub proof fn lemma_basis_layout(root: Seq<u8>, name: Seq<u8>)
    requires
        is_open_base(root),
        is_relative(name),
        is_open_base(name),
    ensures
        ({
            let dir = joined(joined(root, basis_dir()), name);
            &&& dir == root + seq![SEPARATOR] + basis_dir() + seq![SEPARATOR] + name
            &&& joined(dir, prefix_dir()) == dir + seq![SEPARATOR] + prefix_dir()
            &&& joined(dir, config_file()) == dir + seq![SEPARATOR] + config_file()
        }),
{
    lemma_fixed_names();
    lemma_joined_below(root, basis_dir());
    lemma_joined_below(joined(root, basis_dir()), name);
}

/// Under a root that ends in a component, a system with a relative name
/// lies at `{root}/system/{name}`, and its prefix, overlay work directory,
/// mount directory and configuration file directly below that.
pub proof fn lemma_system_layout(root: Seq<u8>, name: Seq<u8>)
    requires
        is_open_base(root),
        is_relative(name),
        is_open_base(name),
    ensures
        ({
            let dir = joined(joined(root, system_dir()), name);
            &&& dir == root + seq![SEPARATOR] + system_dir() + seq![SEPARATOR] + name
            &&& joined(dir, prefix_dir()) == dir + seq![SEPARATOR] + prefix_dir()
            &&& joined(dir, overlay_work_dir()) == dir + seq![SEPARATOR] + overlay_work_dir()
            &&& joined(dir, mount_dir()) == dir + seq![SEPARATOR] + mount_dir()
            &&& joined(dir, config_file()) == dir + seq![SEPARATOR] + config_file()
        }),
{
    lemma_fixed_names();
    lemma_joined_below(root, system_dir());
    lemma_joined_below(joined(root, system_dir()), name);
}

} // verus!
