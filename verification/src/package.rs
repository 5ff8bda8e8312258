//! Package layout rules: which paths a daemon package may hold, the checks made
//! while walking its tree, its content hash, and its summary.
use vstd::prelude::*;
use vstd::string::StringSliceAdditionalSpecFns;
use vstd::utf8::encode_utf8;
use crate::foreign::{lower_hex, sha256};
use crate::order::{rearrange, stable_ascending, stable_ascending_order, lemma_stable_ascending_permutation};
use crate::runs::sha256_hex;
use crate::text::{cat, cat3, chars_of, copy_str, text_eq};
use crate::types::{DaemonPackageSummary, DaemonPolicy, LoadedDaemonPackage};
use crate::validation::MAX_DAEMON_MD_BYTES;

verus! {

broadcast use vstd::string::group_string_axioms;

/// Deepest directory level inside a package.
pub const MAX_PACKAGE_DEPTH: usize = 8;

/// Most files in a package.
pub const MAX_PACKAGE_FILES: usize = 256;

/// Largest support file (1 MiB).
pub const MAX_PACKAGE_FILE_BYTES: u64 = 1048576;

/// Largest package, all files together (8 MiB).
pub const MAX_PACKAGE_BYTES: u64 = 8388608;

// ------------------------------------------------------------------ paths

/// One component of a relative path, as `std::path::Component` reports it.
#[derive(Debug, Clone, PartialEq, Eq)]
pub enum PathPart {
    Normal(String),
    CurDir,
    ParentDir,
    RootDir,
    Prefix(String),
}

pub open spec fn root_entry_name(n: Seq<char>) -> bool {
    n == "DAEMON.md"@ || n == "scripts"@ || n == "references"@
}

/// A package holds only `DAEMON.md`, `scripts/` and `references/` at its root.
pub open spec fn valid_root_entry(parts: Seq<PathPart>) -> bool {
    &&& parts.len() > 0
    &&& parts[0] matches PathPart::Normal(n)
    &&& root_entry_name(n@)
}

fn is_root_entry_name(name: &str) -> (r: bool)
    ensures
        r == root_entry_name(name@),
{
    text_eq(name, "DAEMON.md") || text_eq(name, "scripts") || text_eq(name, "references")
}

pub fn validate_root_entry(parts: &Vec<PathPart>, display: &str) -> (r: Result<(), String>)
    ensures
        r is Ok <==> valid_root_entry(parts@),
        r matches Err(e) ==> e@ == "unexpected daemon package entry: "@ + display@,
{
    if parts.len() > 0 {
        if let PathPart::Normal(name) = &parts[0] {
            if is_root_entry_name(name.as_str()) {
                return Ok(());
            }
        }
    }
    Err(cat("unexpected daemon package entry: ", display))
}

pub open spec fn is_named(p: PathPart, name: Seq<char>) -> bool {
    p matches PathPart::Normal(n) && n@ == name
}

pub open spec fn is_daemon_md_path(parts: Seq<PathPart>) -> bool {
    &&& parts.len() == 1
    &&& parts[0] matches PathPart::Normal(n)
    &&& n@ == "DAEMON.md"@
}

pub open spec fn all_normal(parts: Seq<PathPart>) -> bool {
    forall|i: int| 0 <= i < parts.len() ==> (#[trigger] parts[i]) is Normal
}

/// The complaint about a support file's relative path, if any.
pub open spec fn support_path_error(parts: Seq<PathPart>, text: Seq<char>) -> Option<Seq<char>> {
    if parts.len() > MAX_PACKAGE_DEPTH + 1 {
        Some("daemon package exceeds maximum depth 8"@)
    } else if is_daemon_md_path(parts) {
        Some("support files cannot replace DAEMON.md"@)
    } else if text.len() == 0 || !all_normal(parts) {
        Some("support file path must be a safe relative path"@)
    } else if text.contains('\\') {
        Some("support file paths must use portable slash separators"@)
    } else if !valid_root_entry(parts) {
        Some("unexpected daemon package entry: "@ + text)
    } else {
        None
    }
}

fn has_backslash(text: &str) -> (r: bool)
    ensures
        r == text@.contains('\\'),
{
    let v = chars_of(text);
    let mut i: usize = 0;
    while i < v.len()
        invariant
            0 <= i <= v.len(),
            v@ == text@,
            forall|k: int| 0 <= k < i ==> v@[k] != '\\',
        decreases v.len() - i,
    {
        if v[i] == '\\' {
            return true;
        }
        i = i + 1;
    }
    false
}

/// Checks the relative path of a support file: at most nine components, not
/// `DAEMON.md`, plain names only, slash separators, under `scripts/` or `references/`
/// (or the root names).
pub fn validate_relative_support_path(parts: &Vec<PathPart>, text: &str) -> (r: Result<(), String>)
    ensures
        r is Ok <==> support_path_error(parts@, text@) is None,
        r matches Err(e) ==> support_path_error(parts@, text@) == Some(e@),
{
    if parts.len() > MAX_PACKAGE_DEPTH + 1 {
        return Err("daemon package exceeds maximum depth 8".to_string());
    }
    if parts.len() == 1 {
        if let PathPart::Normal(name) = &parts[0] {
            if text_eq(name.as_str(), "DAEMON.md") {
                return Err("support files cannot replace DAEMON.md".to_string());
            }
        }
    }
    let mut normal = true;
    let mut i: usize = 0;
    while i < parts.len()
        invariant
            0 <= i <= parts.len(),
            normal <==> forall|k: int| 0 <= k < i ==> (#[trigger] parts@[k]) is Normal,
        decreases parts.len() - i,
    {
        if !matches!(parts[i], PathPart::Normal(_)) {
            normal = false;
        }
        i = i + 1;
    }
    if text.is_empty() || !normal {
        return Err("support file path must be a safe relative path".to_string());
    }
    if has_backslash(text) {
        return Err("support file paths must use portable slash separators".to_string());
    }
    validate_root_entry(parts, text)
}

/// Checks one support file of a package being staged; answers whether it is
/// stored executable (only scripts are).
pub fn check_support_file(parts: &Vec<PathPart>, text: &str, len: u64, executable: bool) -> (r:
    Result<bool, String>)
    ensures
        support_path_error(parts@, text@) matches Some(e) ==> (r matches Err(m) && m@ == e),
        support_path_error(parts@, text@) is None && len > MAX_PACKAGE_FILE_BYTES ==> (r matches Err(
            m,
        ) && m@ == "package file "@ + text@ + " exceeds 1 MiB"@),
        support_path_error(parts@, text@) is None && len <= MAX_PACKAGE_FILE_BYTES ==> r == Ok::<
            bool,
            String,
        >(executable && is_named(parts@[0], "scripts"@)),
{
    validate_relative_support_path(parts, text)?;
    if len > MAX_PACKAGE_FILE_BYTES {
        return Err(cat3("package file ", text, " exceeds 1 MiB"));
    }
    let scripts = match &parts[0] {
        PathPart::Normal(n) => text_eq(n.as_str(), "scripts"),
        _ => false,
    };
    Ok(executable && scripts)
}

/// A DAEMON.md being staged must fit in 256 KiB.
pub fn check_daemon_md_size(len: usize) -> (r: Result<(), String>)
    ensures
        r is Ok <==> len <= MAX_DAEMON_MD_BYTES,
        r matches Err(e) ==> e@ == "DAEMON.md exceeds 256 KiB"@,
{
    if len > MAX_DAEMON_MD_BYTES {
        return Err("DAEMON.md exceeds 256 KiB".to_string());
    }
    Ok(())
}

/// A single-file import must be a file named `DAEMON.md`.
pub fn check_single_file_source(file_name: Option<&str>) -> (r: Result<(), String>)
    ensures
        r is Ok <==> (file_name matches Some(n) && n@ == "DAEMON.md"@),
        r matches Err(e) ==> e@ == "single-file import source must be named DAEMON.md"@,
{
    match file_name {
        Some(n) => if text_eq(n, "DAEMON.md") {
            Ok(())
        } else {
            Err("single-file import source must be named DAEMON.md".to_string())
        },
        None => Err("single-file import source must be named DAEMON.md".to_string()),
    }
}

/// Whether a Unix permission mode has any execute bit.
pub fn is_executable(mode: u32) -> (r: bool)
    ensures
        r == (mode & 0o111 != 0),
{
    mode & 0o111 != 0
}

// ------------------------------------------------------------------ walking a package tree

/// `parts` joined with `/`.
pub open spec fn join_slash(parts: Seq<Seq<char>>) -> Seq<char>
    decreases parts.len(),
{
    if parts.len() == 0 {
        Seq::empty()
    } else if parts.len() == 1 {
        parts[0]
    } else {
        join_slash(parts.drop_last()) + "/"@ + parts.last()
    }
}

pub fn join_with_slash(parts: &Vec<String>) -> (r: String)
    ensures
        r@ == join_slash(parts.deep_view()),
{
    let mut out = String::new();
    let mut i: usize = 0;
    while i < parts.len()
        invariant
            0 <= i <= parts.len(),
            out@ == join_slash(parts.deep_view().take(i as int)),
        decreases parts.len() - i,
    {
        let ghost before = out@;
        if i > 0 {
            out.append("/");
        }
        out.append(parts[i].as_str());
        proof {
            let t = parts.deep_view().take(i + 1);
            assert(t.drop_last() =~= parts.deep_view().take(i as int));
            assert(t.last() == parts[i as int]@);
            if i == 0 {
                assert(before =~= Seq::<char>::empty());
                assert(out@ =~= t[0]);
            }
        }
        i = i + 1;
    }
    assert(parts.deep_view().take(parts.len() as int) =~= parts.deep_view());
    out
}

/// What the walk found at one path.
#[derive(Debug, Clone, Copy, PartialEq, Eq)]
pub enum ScanKind {
    Directory,
    File(u64),
    Symlink,
    Other,
}

/// One directory entry met while walking a package, depth first in the order the
/// directory lists it: the relative path of its directory, its name (`None`
/// when not UTF-8), its kind, and its full path for messages.
#[derive(Debug, Clone, PartialEq, Eq)]
pub struct ScanEntry {
    pub parent: Vec<String>,
    pub name: Option<String>,
    pub kind: ScanKind,
    pub path_display: String,
}

/// A file of a package: its path components and their slash-joined text.
#[derive(Debug, Clone, PartialEq, Eq)]
pub struct PackagePath {
    pub parts: Vec<String>,
    pub slash: String,
}

/// The files found so far and their total size.
#[derive(Debug, Clone, PartialEq, Eq)]
pub struct PackageScan {
    pub files: Vec<PackagePath>,
    pub aggregate: u64,
}

pub open spec fn safe_name(n: Seq<char>) -> bool {
    n.len() > 0 && n != "."@ && n != ".."@ && !n.contains('/') && !n.contains('\\')
}

pub open spec fn normal_parts(names: Seq<Seq<char>>) -> bool {
    names.len() > 0 && root_entry_name(names[0])
}

pub open spec fn file_size_error(rel: Seq<Seq<char>>, len: int) -> Option<Seq<char>> {
    let is_md = rel.len() == 1 && rel[0] == "DAEMON.md"@;
    if len > MAX_PACKAGE_FILE_BYTES && !is_md {
        Some("package file "@ + join_slash(rel) + " exceeds 1 MiB"@)
    } else if is_md && len > MAX_DAEMON_MD_BYTES {
        Some("DAEMON.md exceeds 256 KiB"@)
    } else {
        None
    }
}

/// The complaint about one entry, given the scan so far.
pub open spec fn entry_error(aggregate: int, count: int, e: ScanEntry) -> Option<Seq<char>> {
    match e.name {
        None => Some("daemon package paths must be unambiguous UTF-8"@),
        Some(name) => {
            let rel = e.parent.deep_view().push(name@);
            if !safe_name(name@) {
                Some("daemon package contains an unsafe path component"@)
            } else if e.kind is Symlink {
                Some("symlinks are not allowed: "@ + e.path_display@)
            } else if !root_entry_name(rel[0]) {
                Some("unexpected daemon package entry: "@ + join_slash(rel))
            } else {
                match e.kind {
                    ScanKind::Directory => if rel.len() > MAX_PACKAGE_DEPTH {
                        Some("daemon package exceeds maximum depth 8"@)
                    } else {
                        None
                    },
                    ScanKind::File(len) => if file_size_error(rel, len as int) is Some {
                        file_size_error(rel, len as int)
                    } else if aggregate + len > MAX_PACKAGE_BYTES {
                        Some("daemon package exceeds 8 MiB aggregate size"@)
                    } else if count + 1 > MAX_PACKAGE_FILES {
                        Some("daemon package exceeds 256 files"@)
                    } else {
                        None
                    },
                    _ => Some("special filesystem entries are not allowed: "@ + e.path_display@),
                }
            }
        },
    }
}

pub open spec fn path_of(p: PackagePath) -> Seq<Seq<char>> {
    p.parts.deep_view()
}

/// Invariant of a scan: few enough files, under 8 MiB, all inside the root entries.
pub open spec fn scan_wf(scan: PackageScan) -> bool {
    &&& scan.files@.len() <= MAX_PACKAGE_FILES
    &&& scan.aggregate <= MAX_PACKAGE_BYTES
    &&& forall|i: int|
        0 <= i < scan.files@.len() ==> {
            &&& normal_parts(path_of(#[trigger] scan.files@[i]))
            &&& scan.files@[i].slash@ == join_slash(path_of(scan.files@[i]))
        }
}

fn entry_relative(parent: &Vec<String>, name: &String) -> (r: Vec<String>)
    ensures
        r.deep_view() == parent.deep_view().push(name@),
{
    let mut r: Vec<String> = Vec::new();
    let mut i: usize = 0;
    while i < parent.len()
        invariant
            0 <= i <= parent.len(),
            r@.len() == i,
            forall|k: int| 0 <= k < i ==> (#[trigger] r@[k])@ == parent@[k]@,
        decreases parent.len() - i,
    {
        r.push(parent[i].clone());
        i = i + 1;
    }
    r.push(name.clone());
    assert(r.deep_view() =~= parent.deep_view().push(name@)) by {
        assert forall|k: int| 0 <= k < r@.len() implies r.deep_view()[k] == parent.deep_view().push(name@)[k] by {
            if k < parent@.len() {
                assert(r@[k]@ == parent@[k]@);
            }
        }
    }
    r
}

fn is_safe_name(name: &str) -> (r: bool)
    ensures
        r == safe_name(name@),
{
    let v = chars_of(name);
    let mut bad = false;
    let mut i: usize = 0;
    while i < v.len()
        invariant
            0 <= i <= v.len(),
            v@ == name@,
            bad <==> exists|k: int| 0 <= k < i && (v@[k] == '/' || v@[k] == '\\'),
        decreases v.len() - i,
    {
        if v[i] == '/' || v[i] == '\\' {
            bad = true;
        }
        i = i + 1;
    }
    proof {
        if !bad {
            assert(!name@.contains('/'));
            assert(!name@.contains('\\'));
        } else {
            let k = choose|k: int| 0 <= k < v.len() && (v@[k] == '/' || v@[k] == '\\');
            assert(name@[k] == '/' || name@[k] == '\\');
        }
    }
    v.len() > 0 && !text_eq(name, ".") && !text_eq(name, "..") && !bad
}

/// Takes one entry of the walk: answers whether to walk into it (a directory),
/// records it (a file), or refuses the package.
pub fn scan_entry(scan: &mut PackageScan, entry: &ScanEntry) -> (r: Result<bool, String>)
    requires
        scan_wf(*old(scan)),
    ensures
        scan_wf(*final(scan)),
        r is Err <==> entry_error(
            old(scan).aggregate as int,
            old(scan).files@.len() as int,
            *entry,
        ) is Some,
        r matches Err(e) ==> entry_error(
            old(scan).aggregate as int,
            old(scan).files@.len() as int,
            *entry,
        ) == Some(e@) && *final(scan) == *old(scan),
        r matches Ok(descend) ==> {
            &&& descend == (entry.kind is Directory)
            &&& descend ==> *final(scan) == *old(scan)
            &&& !descend ==> {
                &&& final(scan).aggregate == old(scan).aggregate + entry.kind->File_0
                &&& final(scan).files@.len() == old(scan).files@.len() + 1
                &&& final(scan).files@.drop_last() == old(scan).files@
                &&& path_of(final(scan).files@.last()) == entry.parent.deep_view().push(
                    entry.name->0@,
                )
            }
        },
{
    let name = match &entry.name {
        None => return Err("daemon package paths must be unambiguous UTF-8".to_string()),
        Some(n) => n,
    };
    if !is_safe_name(name.as_str()) {
        return Err("daemon package contains an unsafe path component".to_string());
    }
    if matches!(entry.kind, ScanKind::Symlink) {
        return Err(cat("symlinks are not allowed: ", entry.path_display.as_str()));
    }
    let rel = entry_relative(&entry.parent, name);
    let slash = join_with_slash(&rel);
    if !is_root_entry_name(rel[0].as_str()) {
        return Err(cat("unexpected daemon package entry: ", slash.as_str()));
    }
    match entry.kind {
        ScanKind::Directory => {
            if rel.len() > MAX_PACKAGE_DEPTH {
                return Err("daemon package exceeds maximum depth 8".to_string());
            }
            Ok(true)
        },
        ScanKind::File(len) => {
            let is_md = rel.len() == 1 && text_eq(rel[0].as_str(), "DAEMON.md");
            if len > MAX_PACKAGE_FILE_BYTES && !is_md {
                return Err(cat3("package file ", slash.as_str(), " exceeds 1 MiB"));
            }
            if is_md && len > MAX_DAEMON_MD_BYTES as u64 {
                return Err("DAEMON.md exceeds 256 KiB".to_string());
            }
            if len > MAX_PACKAGE_BYTES - scan.aggregate {
                return Err("daemon package exceeds 8 MiB aggregate size".to_string());
            }
            if scan.files.len() + 1 > MAX_PACKAGE_FILES {
                return Err("daemon package exceeds 256 files".to_string());
            }
            scan.aggregate = scan.aggregate + len;
            let ghost before = scan.files@;
            scan.files.push(PackagePath { parts: rel, slash });
            proof {
                assert(scan.files@.drop_last() =~= before);
                assert forall|i: int| 0 <= i < scan.files@.len() implies {
                    &&& normal_parts(path_of(#[trigger] scan.files@[i]))
                    &&& scan.files@[i].slash@ == join_slash(path_of(scan.files@[i]))
                } by {
                    if i < before.len() {
                        assert(scan.files@[i] == before[i]);
                    }
                }
            }
            Ok(false)
        },
        _ => Err(cat("special filesystem entries are not allowed: ", entry.path_display.as_str())),
    }
}

/// The files of a finished scan, sorted by their slash paths.
pub fn finish_scan(scan: PackageScan) -> (r: Vec<PackagePath>)
    ensures
        r@.len() == scan.files@.len(),
        exists|order: Seq<usize>|
            #[trigger] stable_ascending(slash_keys(scan.files@), order) && forall|p: int|
                0 <= p < order.len() ==> #[trigger] r@[p] == scan.files@[order[p] as int],
{
    let mut keys: Vec<String> = Vec::new();
    let mut i: usize = 0;
    while i < scan.files.len()
        invariant
            0 <= i <= scan.files@.len(),
            keys@ == slash_keys(scan.files@).take(i as int),
        decreases scan.files@.len() - i,
    {
        keys.push(scan.files[i].slash.clone());
        i = i + 1;
        assert(keys@ =~= slash_keys(scan.files@).take(i as int));
    }
    assert(keys@ =~= slash_keys(scan.files@));
    let order = stable_ascending_order(&keys);
    proof {
        lemma_stable_ascending_permutation(keys@, order@);
    }
    let ghost files = scan.files@;
    let r = rearrange(scan.files, &order);
    assert(stable_ascending(slash_keys(files), order@));
    r
}

pub open spec fn slash_keys(files: Seq<PackagePath>) -> Seq<String> {
    files.map_values(|p: PackagePath| p.slash)
}

pub open spec fn entry_path(e: ScanEntry) -> Seq<Seq<char>> {
    e.parent.deep_view().push(e.name->0@)
}

/// The files a walk over `entries` (from position `i`, with `aggregate` bytes and
/// `files` so far) records, or its first complaint.
pub open spec fn walk(
    entries: Seq<ScanEntry>,
    i: int,
    aggregate: int,
    files: Seq<Seq<Seq<char>>>,
) -> Result<Seq<Seq<Seq<char>>>, Seq<char>>
    decreases entries.len() - i,
{
    if i < 0 || i >= entries.len() {
        Ok(files)
    } else {
        match entry_error(aggregate, files.len() as int, entries[i]) {
            Some(m) => Err(m),
            None => match entries[i].kind {
                ScanKind::File(len) => walk(
                    entries,
                    i + 1,
                    aggregate + len,
                    files.push(entry_path(entries[i])),
                ),
                _ => walk(entries, i + 1, aggregate, files),
            },
        }
    }
}

pub open spec fn scan_paths(files: Seq<PackagePath>) -> Seq<Seq<Seq<char>>> {
    files.map_values(|p: PackagePath| path_of(p))
}

/// Walks the entries of a package tree (depth first, each directory's entries in
/// listing order, a directory's contents right after it) and answers the package's
/// files sorted by slash path, or the first complaint.
pub fn inspect_package_tree(entries: &Vec<ScanEntry>) -> (r: Result<Vec<PackagePath>, String>)
    ensures
        r is Err <==> walk(entries@, 0, 0, Seq::empty()) is Err,
        r matches Err(e) ==> walk(entries@, 0, 0, Seq::empty()) == Err::<Seq<Seq<Seq<char>>>, Seq<char>>(e@),
        r matches Ok(files) ==> exists|found: Seq<PackagePath>, order: Seq<usize>| {
            &&& walk(entries@, 0, 0, Seq::empty()) == Ok::<Seq<Seq<Seq<char>>>, Seq<char>>(
                scan_paths(found),
            )
            &&& #[trigger] stable_ascending(slash_keys(found), order)
            &&& files@.len() == found.len()
            &&& forall|p: int| 0 <= p < order.len() ==> #[trigger] files@[p] == found[order[p] as int]
        },
        r matches Ok(files) ==> files@.len() <= MAX_PACKAGE_FILES && forall|p: int|
            0 <= p < files@.len() ==> {
                &&& normal_parts(path_of(#[trigger] files@[p]))
                &&& files@[p].slash@ == join_slash(path_of(files@[p]))
            },
{
    let mut scan = PackageScan { files: Vec::new(), aggregate: 0 };
    let mut i: usize = 0;
    assert(scan_paths(scan.files@) =~= Seq::<Seq<Seq<char>>>::empty());
    while i < entries.len()
        invariant
            0 <= i <= entries.len(),
            scan_wf(scan),
            walk(entries@, i as int, scan.aggregate as int, scan_paths(scan.files@)) == walk(
                entries@,
                0,
                0,
                Seq::empty(),
            ),
        decreases entries.len() - i,
    {
        let ghost before = scan;
        match scan_entry(&mut scan, &entries[i]) {
            Err(e) => {
                return Err(e);
            },
            Ok(descend) => {
                proof {
                    if !descend {
                        assert(scan_paths(scan.files@) =~= scan_paths(before.files@).push(
                            entry_path(entries@[i as int]),
                        )) by {
                            assert(scan.files@.drop_last() == before.files@);
                            assert forall|k: int| 0 <= k < before.files@.len() implies scan.files@[k] == before.files@[k] by {
                                assert(scan.files@.drop_last()[k] == scan.files@[k]);
                            }
                        }
                    }
                }
            },
        }
        i = i + 1;
    }
    let ghost found = scan.files@;
    let files = finish_scan(scan);
    proof {
        let order = choose|order: Seq<usize>|
            #[trigger] stable_ascending(slash_keys(found), order) && forall|p: int|
                0 <= p < order.len() ==> #[trigger] files@[p] == found[order[p] as int];
        assert forall|p: int| 0 <= p < files@.len() implies {
            &&& normal_parts(path_of(#[trigger] files@[p]))
            &&& files@[p].slash@ == join_slash(path_of(files@[p]))
        } by {
            assert(files@[p] == found[order[p] as int]);
            assert(order[p] < slash_keys(found).len());
        }
    }
    Ok(files)
}

// ------------------------------------------------------------------ content hash

/// Big-endian eight-byte encoding of a length.
pub open spec fn be64(n: nat) -> Seq<u8> {
    seq![
        ((n / 0x100000000000000) % 256) as u8,
        ((n / 0x1000000000000) % 256) as u8,
        ((n / 0x10000000000) % 256) as u8,
        ((n / 0x100000000) % 256) as u8,
        ((n / 0x1000000) % 256) as u8,
        ((n / 0x10000) % 256) as u8,
        ((n / 0x100) % 256) as u8,
        (n % 256) as u8,
    ]
}

fn push_be64(out: &mut Vec<u8>, n: u64)
    ensures
        final(out)@ == old(out)@ + be64(n as nat),
{
    out.push(((n / 0x100000000000000) % 256) as u8);
    out.push(((n / 0x1000000000000) % 256) as u8);
    out.push(((n / 0x10000000000) % 256) as u8);
    out.push(((n / 0x100000000) % 256) as u8);
    out.push(((n / 0x1000000) % 256) as u8);
    out.push(((n / 0x10000) % 256) as u8);
    out.push(((n / 0x100) % 256) as u8);
    out.push((n % 256) as u8);
    assert(final(out)@ =~= old(out)@ + be64(n as nat));
}

fn push_bytes(out: &mut Vec<u8>, bytes: &[u8])
    ensures
        final(out)@ == old(out)@ + bytes@,
{
    let ghost start = out@;
    let mut i: usize = 0;
    while i < bytes.len()
        invariant
            0 <= i <= bytes@.len(),
            out@ == start + bytes@.take(i as int),
        decreases bytes@.len() - i,
    {
        out.push(bytes[i]);
        i = i + 1;
        assert(out@ =~= start + bytes@.take(i as int));
    }
    assert(bytes@.take(bytes@.len() as int) =~= bytes@);
}

/// One file's share of the package hash input: the length and bytes of its slash
/// path, then the length and bytes of its content.
pub open spec fn file_frame(slash: Seq<char>, content: Seq<u8>) -> Seq<u8> {
    be64(encode_utf8(slash).len()) + encode_utf8(slash) + be64(content.len()) + content
}

/// A file of a package with its content, in hash order.
#[derive(Debug, Clone, PartialEq, Eq)]
pub struct PackageContent {
    pub slash: String,
    pub bytes: Vec<u8>,
}

pub open spec fn hash_input(files: Seq<PackageContent>) -> Seq<u8>
    decreases files.len(),
{
    if files.len() == 0 {
        Seq::empty()
    } else {
        hash_input(files.drop_last()) + file_frame(files.last().slash@, files.last().bytes@)
    }
}

/// The package hash: hex SHA-256 over the frames of its files, in sorted path order.
pub fn hash_package_files(files: &Vec<PackageContent>) -> (r: String)
    ensures
        r@ == lower_hex(sha256(hash_input(files@))),
{
    let mut input: Vec<u8> = Vec::new();
    let mut i: usize = 0;
    while i < files.len()
        invariant
            0 <= i <= files@.len(),
            input@ == hash_input(files@.take(i as int)),
        decreases files@.len() - i,
    {
        let slash = files[i].slash.as_str().as_bytes();
        push_be64(&mut input, slash.len() as u64);
        push_bytes(&mut input, slash);
        push_be64(&mut input, files[i].bytes.len() as u64);
        push_bytes(&mut input, files[i].bytes.as_slice());
        proof {
            let t = files@.take(i + 1);
            assert(t.drop_last() =~= files@.take(i as int));
            assert(t.last() == files@[i as int]);
        }
        i = i + 1;
    }
    assert(files@.take(files@.len() as int) =~= files@);
    sha256_hex(input.as_slice())
}

// ------------------------------------------------------------------ loaded packages

pub open spec fn under(p: PackagePath, top: Seq<char>) -> bool {
    p.parts@.len() > 0 && p.parts@[0]@ == top
}

/// Whether some file lies under the top-level name `top` (`Path::starts_with`).
pub fn has_top_level(files: &Vec<PackagePath>, top: &str) -> (r: bool)
    ensures
        r == exists|i: int| 0 <= i < files@.len() && under(#[trigger] files@[i], top@),
{
    let mut i: usize = 0;
    while i < files.len()
        invariant
            0 <= i <= files@.len(),
            forall|k: int| 0 <= k < i ==> !under(#[trigger] files@[k], top@),
        decreases files@.len() - i,
    {
        if files[i].parts.len() > 0 && text_eq(files[i].parts[0].as_str(), top) {
            return true;
        }
        i = i + 1;
    }
    false
}

pub open spec fn is_root_daemon_md(p: PackagePath) -> bool {
    p.parts@.len() == 1 && p.parts@[0]@ == "DAEMON.md"@
}

/// A package must hold `DAEMON.md` at its root.
pub fn require_root_daemon_md(files: &Vec<PackagePath>) -> (r: Result<(), String>)
    ensures
        r is Ok <==> exists|i: int| 0 <= i < files@.len() && is_root_daemon_md(#[trigger] files@[i]),
        r matches Err(e) ==> e@ == "daemon package requires a root DAEMON.md"@,
{
    let mut i: usize = 0;
    while i < files.len()
        invariant
            0 <= i <= files@.len(),
            forall|k: int| 0 <= k < i ==> !is_root_daemon_md(#[trigger] files@[k]),
        decreases files@.len() - i,
    {
        if files[i].parts.len() == 1 && text_eq(files[i].parts[0].as_str(), "DAEMON.md") {
            return Ok(());
        }
        i = i + 1;
    }
    Err("daemon package requires a root DAEMON.md".to_string())
}

/// A loaded package, recording whether it has scripts and references.
pub fn loaded_package(
    directory: String,
    daemon_md: String,
    policy: DaemonPolicy,
    package_hash: String,
    files: &Vec<PackagePath>,
) -> (r: LoadedDaemonPackage)
    ensures
        r.directory == directory,
        r.daemon_md == daemon_md,
        r.policy == policy,
        r.package_hash == package_hash,
        r.has_scripts == exists|i: int| 0 <= i < files@.len() && under(#[trigger] files@[i], "scripts"@),
        r.has_references == exists|i: int|
            0 <= i < files@.len() && under(#[trigger] files@[i], "references"@),
{
    LoadedDaemonPackage {
        directory,
        daemon_md,
        policy,
        package_hash,
        has_scripts: has_top_level(files, "scripts"),
        has_references: has_top_level(files, "references"),
    }
}

/// The summary of a loaded package.
pub fn package_summary(package: &LoadedDaemonPackage) -> (r: DaemonPackageSummary)
    ensures
        r.id == package.policy.id,
        r.purpose == package.policy.purpose,
        r.activation_mode == package.policy.activation_mode,
        r.package_hash == package.package_hash,
        r.watch_count == package.policy.watch@.len(),
        r.routine_count == package.policy.routines@.len(),
        r.has_scripts == package.has_scripts,
        r.has_references == package.has_references,
{
    DaemonPackageSummary {
        id: package.policy.id.clone(),
        purpose: package.policy.purpose.clone(),
        activation_mode: package.policy.activation_mode,
        package_hash: package.package_hash.clone(),
        watch_count: package.policy.watch.len(),
        routine_count: package.policy.routines.len(),
        has_scripts: package.has_scripts,
        has_references: package.has_references,
    }
}

/// Before promoting a staged package: where nothing is installed it is moved in
/// (`false`); an installed package is replaced only when asked (`true`).
pub fn promote_precheck(target_exists: bool, replace: bool, daemon_id: &str) -> (r: Result<bool, String>)
    ensures
        !target_exists ==> r == Ok::<bool, String>(false),
        target_exists && replace ==> r == Ok::<bool, String>(true),
        target_exists && !replace ==> (r matches Err(e) && e@ == "daemon package "@ + daemon_id@
            + " already exists"@),
{
    if !target_exists {
        return Ok(false);
    }
    if !replace {
        return Err(cat3("daemon package ", daemon_id, " already exists"));
    }
    Ok(true)
}

} // verus!
