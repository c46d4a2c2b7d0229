//! Where the memory controller of this process's control group is mounted, and what it says.
use vstd::prelude::*;
use vstd::string::*;
use vstd::utf8::*;

use crate::text::{halves, lines, same_text, split_once, split_whitespace, text_lines, texts, words};

verus! {

/// Why the control group of this process cannot be found.
#[derive(Clone, Copy, Debug, PartialEq, Eq, Structural)]
pub enum CgroupRootError {
    MissingControllers,
    MissingPath,
    MultipleUnifiedEntries,
    UnifiedPathNotAbsolute,
    MissingFilesystemSeparator,
    IncompleteMount,
    MissingMountRoot,
    MissingMountPoint,
    MissingMountOptions,
    MountPathsNotAbsolute,
    IncompleteEscape,
    InvalidEscape,
    EscapeOverflow,
    NotExposed,
}

impl CgroupRootError {
    /// The message of this error.
    pub open spec fn text(self) -> Seq<char> {
        match self {
            CgroupRootError::MissingControllers => "cgroup entry is missing its controller list"@,
            CgroupRootError::MissingPath => "cgroup entry is missing its path"@,
            CgroupRootError::MultipleUnifiedEntries =>
                "process has multiple unified cgroup entries"@,
            CgroupRootError::UnifiedPathNotAbsolute => "unified cgroup path is not absolute"@,
            CgroupRootError::MissingFilesystemSeparator =>
                "mountinfo entry is missing its filesystem separator"@,
            CgroupRootError::IncompleteMount => "cgroup2 mountinfo entry is incomplete"@,
            CgroupRootError::MissingMountRoot => "cgroup2 mountinfo entry is missing its root"@,
            CgroupRootError::MissingMountPoint =>
                "cgroup2 mountinfo entry is missing its mount point"@,
            CgroupRootError::MissingMountOptions =>
                "cgroup2 mountinfo entry is missing its mount options"@,
            CgroupRootError::MountPathsNotAbsolute => "cgroup2 mount paths are not absolute"@,
            CgroupRootError::IncompleteEscape => "mountinfo path has an incomplete escape"@,
            CgroupRootError::InvalidEscape => "mountinfo path has an invalid escape"@,
            CgroupRootError::EscapeOverflow => "mountinfo path escape overflow"@,
            CgroupRootError::NotExposed =>
                "unified process cgroup is not exposed by a cgroup2 mount"@,
        }
    }

    pub fn message(self) -> (message: &'static str)
        ensures
            message@ == self.text(),
    {
        match self {
            CgroupRootError::MissingControllers => "cgroup entry is missing its controller list",
            CgroupRootError::MissingPath => "cgroup entry is missing its path",
            CgroupRootError::MultipleUnifiedEntries =>
                "process has multiple unified cgroup entries",
            CgroupRootError::UnifiedPathNotAbsolute => "unified cgroup path is not absolute",
            CgroupRootError::MissingFilesystemSeparator =>
                "mountinfo entry is missing its filesystem separator",
            CgroupRootError::IncompleteMount => "cgroup2 mountinfo entry is incomplete",
            CgroupRootError::MissingMountRoot => "cgroup2 mountinfo entry is missing its root",
            CgroupRootError::MissingMountPoint =>
                "cgroup2 mountinfo entry is missing its mount point",
            CgroupRootError::MissingMountOptions =>
                "cgroup2 mountinfo entry is missing its mount options",
            CgroupRootError::MountPathsNotAbsolute => "cgroup2 mount paths are not absolute",
            CgroupRootError::IncompleteEscape => "mountinfo path has an incomplete escape",
            CgroupRootError::InvalidEscape => "mountinfo path has an invalid escape",
            CgroupRootError::EscapeOverflow => "mountinfo path escape overflow",
            CgroupRootError::NotExposed =>
                "unified process cgroup is not exposed by a cgroup2 mount",
        }
    }
}

/// The bytes that stand for a slash, a backslash, a dot and the digits `0` and `7`.
pub const SLASH: u8 = 47;

pub const BACKSLASH: u8 = 92;

pub const DOT: u8 = 46;

pub const ZERO: u8 = 48;

pub const SEVEN: u8 = 55;

/// An absolute path: the names on the way down from the root, as bytes. Two texts that differ in
/// doubled or trailing slashes or in `.` components are the same path.
#[derive(Debug)]
pub struct AbsolutePath {
    pub names: Vec<Vec<u8>>,
}

/// The names that a list of byte vectors holds.
pub open spec fn byte_names(names: Seq<Vec<u8>>) -> Seq<Seq<u8>> {
    names.map_values(|name: Vec<u8>| name@)
}

impl View for AbsolutePath {
    type V = Seq<Seq<u8>>;

    open spec fn view(&self) -> Seq<Seq<u8>> {
        byte_names(self.names@)
    }
}

/// How many bytes precede the first slash.
pub open spec fn name_len(s: Seq<u8>) -> nat
    decreases s.len(),
{
    if s.len() == 0 || s[0] == SLASH {
        0
    } else {
        1 + name_len(s.skip(1))
    }
}

/// The names of an absolute path: what stands between slashes, without empty names and `.`.
pub open spec fn path_names(s: Seq<u8>) -> Seq<Seq<u8>>
    decreases s.len(),
{
    if s.len() == 0 {
        Seq::empty()
    } else if s[0] == SLASH {
        path_names(s.skip(1))
    } else {
        proof {
            lemma_name_len(s);
        }
        let name = s.take(name_len(s) as int);
        let rest = path_names(s.skip(name_len(s) as int));
        if name == seq![DOT] {
            rest
        } else {
            seq![name] + rest
        }
    }
}

pub proof fn lemma_name_len(s: Seq<u8>)
    ensures
        name_len(s) <= s.len(),
    decreases s.len(),
{
    if s.len() != 0 && s[0] != SLASH {
        lemma_name_len(s.skip(1));
    }
}

proof fn lemma_name_len_is(s: Seq<u8>, n: int)
    requires
        0 <= n <= s.len(),
        forall|i: int| 0 <= i < n ==> #[trigger] s[i] != SLASH,
        n < s.len() ==> s[n] == SLASH,
    ensures
        name_len(s) == n,
    decreases s.len(),
{
    if n > 0 {
        assert forall|i: int| 0 <= i < n - 1 implies #[trigger] s.skip(1)[i] != SLASH by {
            assert(s.skip(1)[i] == s[i + 1]);
        }
        lemma_name_len_is(s.skip(1), n - 1);
    }
}

pub open spec fn is_absolute(s: Seq<u8>) -> bool {
    s.len() > 0 && s[0] == SLASH
}

/// Reads an absolute path.
pub fn absolute_path(bytes: &[u8]) -> (path: Option<AbsolutePath>)
    ensures
        match path {
            Some(path) => is_absolute(bytes@) && path@ == path_names(bytes@),
            None => !is_absolute(bytes@),
        },
{
    if bytes.len() == 0 || bytes[0] != SLASH {
        return None;
    }
    let mut names: Vec<Vec<u8>> = Vec::new();
    let mut i: usize = 0;
    assert(bytes@.skip(0) =~= bytes@);
    assert(byte_names(names@) + path_names(bytes@.skip(0)) =~= path_names(bytes@));
    while i < bytes.len()
        invariant
            i <= bytes.len(),
            byte_names(names@) + path_names(bytes@.skip(i as int)) == path_names(bytes@),
        decreases bytes.len() - i,
    {
        let ghost rest = bytes@.skip(i as int);
        if bytes[i] == SLASH {
            assert(rest.skip(1) =~= bytes@.skip(i + 1));
            i = i + 1;
        } else {
            let mut name: Vec<u8> = Vec::new();
            let mut j: usize = i;
            while j < bytes.len() && bytes[j] != SLASH
                invariant
                    i <= j <= bytes.len(),
                    name@ == bytes@.subrange(i as int, j as int),
                    forall|k: int| i <= k < j ==> #[trigger] bytes@[k] != SLASH,
                decreases bytes.len() - j,
            {
                name.push(bytes[j]);
                assert(bytes@.subrange(i as int, j + 1) =~= bytes@.subrange(i as int, j as int).push(
                    bytes@[j as int],
                ));
                j = j + 1;
            }
            proof {
                assert forall|k: int| 0 <= k < j - i implies #[trigger] rest[k] != SLASH by {
                    assert(rest[k] == bytes@[i + k]);
                }
                if j < bytes.len() {
                    assert(rest[j - i] == bytes@[j as int]);
                }
                lemma_name_len_is(rest, j - i);
                assert(rest.take(j - i) =~= name@);
                assert(rest.skip(j - i) =~= bytes@.skip(j as int));
                assert(rest[0] == bytes@[i as int]);
            }
            if name.len() == 1 && name[0] == DOT {
                assert(name@ =~= seq![DOT]);
            } else {
                proof {
                    assert(name@ != seq![DOT]) by {
                        if name@ == seq![DOT] {
                            assert(name@.len() == 1 && name@[0] == DOT);
                        }
                    }
                    let tail = path_names(bytes@.skip(j as int));
                    assert(byte_names(names@.push(name)) =~= byte_names(names@).push(name@));
                    assert(byte_names(names@).push(name@) + tail =~= byte_names(names@) + (
                    seq![name@] + tail));
                }
                names.push(name);
            }
            i = j;
        }
    }
    assert(byte_names(names@) + path_names(bytes@.skip(i as int)) =~= byte_names(names@));
    Some(AbsolutePath { names })
}

/// The names on the way down from the root, each after a slash.
pub open spec fn below_root(names: Seq<Seq<u8>>) -> Seq<u8>
    decreases names.len(),
{
    if names.len() == 0 {
        Seq::empty()
    } else {
        seq![SLASH] + names[0] + below_root(names.skip(1))
    }
}

/// How a path is written.
pub open spec fn path_bytes(names: Seq<Seq<u8>>) -> Seq<u8> {
    if names.len() == 0 {
        seq![SLASH]
    } else {
        below_root(names)
    }
}

/// Whether this can be a name on a path.
pub open spec fn is_name(name: Seq<u8>) -> bool {
    &&& name.len() > 0
    &&& name != seq![DOT]
    &&& forall|i: int| 0 <= i < name.len() ==> #[trigger] name[i] != SLASH
}

impl AbsolutePath {
    /// Writes the path.
    pub fn to_bytes(&self) -> (bytes: Vec<u8>)
        ensures
            bytes@ == path_bytes(self@),
    {
        let mut bytes: Vec<u8> = Vec::new();
        if self.names.len() == 0 {
            bytes.push(SLASH);
            assert(bytes@ =~= path_bytes(self@));
            return bytes;
        }
        let mut i: usize = 0;
        assert(self@.skip(0) =~= self@);
        assert(bytes@ + below_root(self@.skip(0)) =~= below_root(self@));
        while i < self.names.len()
            invariant
                i <= self.names.len(),
                bytes@ + below_root(self@.skip(i as int)) == below_root(self@),
            decreases self.names.len() - i,
        {
            let ghost before = bytes@;
            let ghost rest = self@.skip(i as int);
            let name = &self.names[i];
            bytes.push(SLASH);
            let mut j: usize = 0;
            while j < name.len()
                invariant
                    j <= name.len(),
                    bytes@ == before + seq![SLASH] + name@.take(j as int),
                decreases name.len() - j,
            {
                assert(name@.take(j + 1) =~= name@.take(j as int).push(name@[j as int]));
                bytes.push(name[j]);
                assert(bytes@ =~= before + seq![SLASH] + name@.take(j + 1));
                j = j + 1;
            }
            proof {
                assert(name@.take(j as int) =~= name@);
                assert(rest[0] == name@);
                assert(rest.skip(1) =~= self@.skip(i + 1));
                assert(before + (seq![SLASH] + name@ + below_root(self@.skip(i + 1))) =~= bytes@
                    + below_root(self@.skip(i + 1)));
            }
            i = i + 1;
        }
        assert(bytes@ + below_root(self@.skip(i as int)) =~= bytes@);
        bytes
    }
}

/// A path that is written and read again is the same path.
pub proof fn written_paths_read_back(names: Seq<Seq<u8>>)
    requires
        forall|i: int| 0 <= i < names.len() ==> is_name(#[trigger] names[i]),
    ensures
        is_absolute(path_bytes(names)),
        path_names(path_bytes(names)) == names,
{
    lemma_below_root_reads_back(names);
    if names.len() == 0 {
        assert(path_bytes(names).skip(1) =~= Seq::<u8>::empty());
    }
    assert(path_names(path_bytes(names)) =~= names);
}

proof fn lemma_below_root_reads_back(names: Seq<Seq<u8>>)
    requires
        forall|i: int| 0 <= i < names.len() ==> is_name(#[trigger] names[i]),
    ensures
        path_names(below_root(names)) == names,
    decreases names.len(),
{
    if names.len() > 0 {
        let name = names[0];
        let rest = below_root(names.skip(1));
        let written = below_root(names);
        assert forall|i: int| 0 <= i < names.skip(1).len() implies is_name(
            #[trigger] names.skip(1)[i],
        ) by {
            assert(names.skip(1)[i] == names[i + 1]);
        }
        lemma_below_root_reads_back(names.skip(1));
        assert(written.skip(1) =~= name + rest);
        let tail = written.skip(1);
        assert forall|i: int| 0 <= i < name.len() implies #[trigger] tail[i] != SLASH by {
            assert(tail[i] == name[i]);
        }
        if name.len() < tail.len() {
            assert(tail[name.len() as int] == rest[0]);
        }
        lemma_name_len_is(tail, name.len() as int);
        assert(tail.take(name.len() as int) =~= name);
        assert(tail.skip(name.len() as int) =~= rest);
        assert(tail[0] == name[0]);
        assert(path_names(tail) == seq![name] + names.skip(1));
        assert(seq![name] + names.skip(1) =~= names);
    } else {
        assert(names =~= Seq::<Seq<u8>>::empty());
    }
}

pub open spec fn is_octal(b: u8) -> bool {
    ZERO <= b <= SEVEN
}

/// A mount path with its escapes undone: a backslash and three octal digits stand for a byte.
pub open spec fn decoded(s: Seq<u8>) -> Result<Seq<u8>, CgroupRootError>
    decreases s.len(),
{
    if s.len() == 0 {
        Ok(Seq::empty())
    } else if s[0] != BACKSLASH {
        match decoded(s.skip(1)) {
            Ok(rest) => Ok(seq![s[0]] + rest),
            Err(error) => Err(error),
        }
    } else if s.len() < 4 {
        Err(CgroupRootError::IncompleteEscape)
    } else if !is_octal(s[1]) || !is_octal(s[2]) || !is_octal(s[3]) {
        Err(CgroupRootError::InvalidEscape)
    } else {
        let byte = (s[1] - ZERO) * 64 + (s[2] - ZERO) * 8 + (s[3] - ZERO);
        if byte > 255 {
            Err(CgroupRootError::EscapeOverflow)
        } else {
            match decoded(s.skip(4)) {
                Ok(rest) => Ok(seq![byte as u8] + rest),
                Err(error) => Err(error),
            }
        }
    }
}

/// `decoded`, after what was decoded before.
spec fn decoded_after(done: Seq<u8>, rest: Result<Seq<u8>, CgroupRootError>) -> Result<
    Seq<u8>,
    CgroupRootError,
> {
    match rest {
        Ok(rest) => Ok(done + rest),
        Err(error) => Err(error),
    }
}

/// Undoes the escapes of a path in `mountinfo`.
pub fn decode_mountinfo_path(value: &str) -> (path: Result<Vec<u8>, CgroupRootError>)
    ensures
        match path {
            Ok(path) => decoded(value.spec_bytes()) == Ok::<Seq<u8>, CgroupRootError>(path@),
            Err(error) => decoded(value.spec_bytes()) == Err::<Seq<u8>, CgroupRootError>(error),
        },
{
    let bytes = value.as_bytes();
    let mut done: Vec<u8> = Vec::new();
    let mut i: usize = 0;
    proof {
        assert(bytes@.skip(0) =~= bytes@);
        match decoded(bytes@) {
            Ok(all) => {
                assert(done@ + all =~= all);
            },
            Err(_) => {},
        }
    }
    while i < bytes.len()
        invariant
            bytes@ == value.spec_bytes(),
            i <= bytes.len(),
            decoded_after(done@, decoded(bytes@.skip(i as int))) == decoded(bytes@),
        decreases bytes.len() - i,
    {
        let ghost rest = bytes@.skip(i as int);
        assert(rest[0] == bytes@[i as int]);
        if bytes[i] != BACKSLASH {
            proof {
                assert(rest.skip(1) =~= bytes@.skip(i + 1));
                if let Ok(tail) = decoded(rest.skip(1)) {
                    assert(done@ + (seq![rest[0]] + tail) =~= done@.push(rest[0]) + tail);
                }
            }
            done.push(bytes[i]);
            i = i + 1;
        } else {
            if bytes.len() - i < 4 {
                return Err(CgroupRootError::IncompleteEscape);
            }
            let b1 = bytes[i + 1];
            let b2 = bytes[i + 2];
            let b3 = bytes[i + 3];
            assert(rest[1] == b1 && rest[2] == b2 && rest[3] == b3);
            if b1 < ZERO || b1 > SEVEN || b2 < ZERO || b2 > SEVEN || b3 < ZERO || b3 > SEVEN {
                return Err(CgroupRootError::InvalidEscape);
            }
            let byte: u32 = (b1 - ZERO) as u32 * 64 + (b2 - ZERO) as u32 * 8 + (b3 - ZERO) as u32;
            if byte > 255 {
                return Err(CgroupRootError::EscapeOverflow);
            }
            proof {
                assert(rest.skip(4) =~= bytes@.skip(i + 4));
                if let Ok(tail) = decoded(rest.skip(4)) {
                    assert(done@ + (seq![byte as u8] + tail) =~= done@.push(byte as u8) + tail);
                }
            }
            done.push(byte as u8);
            i = i + 4;
        }
    }
    assert(done@ + Seq::empty() =~= done@);
    Ok(done)
}

/// The hierarchy, the controllers and the path of a line of `/proc/self/cgroup`.
pub open spec fn cgroup_fields(line: Seq<char>) -> Result<
    (Seq<char>, Seq<char>, Seq<char>),
    CgroupRootError,
> {
    match halves(line, ":"@) {
        None => Err(CgroupRootError::MissingControllers),
        Some((hierarchy, rest)) => match halves(rest, ":"@) {
            None => Err(CgroupRootError::MissingPath),
            Some((controllers, path)) => Ok((hierarchy, controllers, path)),
        },
    }
}

/// The path of the one unified entry among the lines from `i` on, after finding `found` before.
pub open spec fn unified_path(
    lines: Seq<Seq<char>>,
    i: int,
    found: Option<Seq<Seq<u8>>>,
) -> Result<Option<Seq<Seq<u8>>>, CgroupRootError>
    decreases lines.len() - i,
    when 0 <= i
{
    if i >= lines.len() {
        Ok(found)
    } else {
        match cgroup_fields(lines[i]) {
            Err(error) => Err(error),
            Ok((hierarchy, controllers, path)) => if hierarchy != "0"@ || controllers.len() != 0 {
                unified_path(lines, i + 1, found)
            } else if found is Some {
                Err(CgroupRootError::MultipleUnifiedEntries)
            } else if !is_absolute(encode_utf8(path)) {
                Err(CgroupRootError::UnifiedPathNotAbsolute)
            } else {
                unified_path(lines, i + 1, Some(path_names(encode_utf8(path))))
            },
        }
    }
}

/// The root and the mount point of a mount, from the fields before the separator.
pub open spec fn mount_paths(fields: Seq<Seq<char>>) -> Result<
    (Seq<Seq<u8>>, Seq<Seq<u8>>),
    CgroupRootError,
> {
    if fields.len() < 3 {
        Err(CgroupRootError::IncompleteMount)
    } else if fields.len() < 4 {
        Err(CgroupRootError::MissingMountRoot)
    } else {
        match decoded(encode_utf8(fields[3])) {
            Err(error) => Err(error),
            Ok(root) => if fields.len() < 5 {
                Err(CgroupRootError::MissingMountPoint)
            } else {
                match decoded(encode_utf8(fields[4])) {
                    Err(error) => Err(error),
                    Ok(point) => if fields.len() < 6 {
                        Err(CgroupRootError::MissingMountOptions)
                    } else if !is_absolute(root) || !is_absolute(point) {
                        Err(CgroupRootError::MountPathsNotAbsolute)
                    } else {
                        Ok((path_names(root), path_names(point)))
                    },
                }
            },
        }
    }
}

/// The root and the mount point of a line of `/proc/self/mountinfo`, if it mounts `cgroup2`.
pub open spec fn cgroup2_mount(line: Seq<char>) -> Result<
    Option<(Seq<Seq<u8>>, Seq<Seq<u8>>)>,
    CgroupRootError,
> {
    match halves(line, " - "@) {
        None => Err(CgroupRootError::MissingFilesystemSeparator),
        Some((mount, filesystem)) => {
            let types = words(filesystem);
            if types.len() == 0 || types[0] != "cgroup2"@ {
                Ok(None)
            } else {
                match mount_paths(words(mount)) {
                    Ok(paths) => Ok(Some(paths)),
                    Err(error) => Err(error),
                }
            }
        },
    }
}

/// A mount shows a control group whose path starts with the mount's root.
pub open spec fn starts_with(path: Seq<Seq<u8>>, root: Seq<Seq<u8>>) -> bool {
    root.len() <= path.len() && path.take(root.len() as int) == root
}

/// Whether a root is longer than the one of the best mount so far.
pub open spec fn longer_root(len: nat, best: Option<(nat, Seq<Seq<u8>>)>) -> bool {
    match best {
        Some((best_len, _)) => len > best_len,
        None => true,
    }
}

/// The path at which the lines from `i` on show the control group: through the mount with the
/// longest root, the first of those; `best` is the length of the root and the path found before.
pub open spec fn exposed_path(
    lines: Seq<Seq<char>>,
    i: int,
    process: Seq<Seq<u8>>,
    best: Option<(nat, Seq<Seq<u8>>)>,
) -> Result<Option<Seq<Seq<u8>>>, CgroupRootError>
    decreases lines.len() - i,
    when 0 <= i
{
    if i >= lines.len() {
        match best {
            Some((_, path)) => Ok(Some(path)),
            None => Err(CgroupRootError::NotExposed),
        }
    } else {
        match cgroup2_mount(lines[i]) {
            Err(error) => Err(error),
            Ok(None) => exposed_path(lines, i + 1, process, best),
            Ok(Some((root, point))) => if !starts_with(process, root) || !longer_root(
                root.len(),
                best,
            ) {
                exposed_path(lines, i + 1, process, best)
            } else {
                exposed_path(
                    lines,
                    i + 1,
                    process,
                    Some((root.len(), point + process.skip(root.len() as int))),
                )
            },
        }
    }
}

/// The directory of this process's control group: none if the process has no unified entry.
pub open spec fn cgroup_root(cgroup: Seq<char>, mountinfo: Seq<char>) -> Result<
    Option<Seq<Seq<u8>>>,
    CgroupRootError,
> {
    match unified_path(text_lines(cgroup), 0, None) {
        Err(error) => Err(error),
        Ok(None) => Ok(None),
        Ok(Some(process)) => exposed_path(text_lines(mountinfo), 0, process, None),
    }
}

fn same_bytes(a: &Vec<u8>, b: &Vec<u8>) -> (same: bool)
    ensures
        same == (a@ == b@),
{
    if a.len() != b.len() {
        return false;
    }
    let mut i: usize = 0;
    while i < a.len()
        invariant
            i <= a.len() == b.len(),
            forall|j: int| 0 <= j < i ==> a@[j] == b@[j],
        decreases a.len() - i,
    {
        if a[i] != b[i] {
            assert(a@[i as int] != b@[i as int]);
            return false;
        }
        i = i + 1;
    }
    assert(a@ =~= b@);
    true
}

/// Whether a path starts with the names of another.
fn path_starts_with(path: &AbsolutePath, root: &AbsolutePath) -> (starts: bool)
    ensures
        starts == starts_with(path@, root@),
{
    if root.names.len() > path.names.len() {
        return false;
    }
    let mut i: usize = 0;
    while i < root.names.len()
        invariant
            i <= root.names.len() <= path.names.len(),
            forall|j: int| 0 <= j < i ==> path@[j] == root@[j],
        decreases root.names.len() - i,
    {
        if !same_bytes(&path.names[i], &root.names[i]) {
            assert(path@.take(root@.len() as int)[i as int] != root@[i as int]);
            return false;
        }
        assert(path@[i as int] == root@[i as int]);
        i = i + 1;
    }
    assert(path@.take(root@.len() as int) =~= root@);
    true
}

fn copy_bytes(bytes: &Vec<u8>) -> (copy: Vec<u8>)
    ensures
        copy@ == bytes@,
{
    let mut copy: Vec<u8> = Vec::new();
    let mut i: usize = 0;
    while i < bytes.len()
        invariant
            i <= bytes.len(),
            copy@ == bytes@.take(i as int),
        decreases bytes.len() - i,
    {
        copy.push(bytes[i]);
        assert(bytes@.take(i + 1) =~= bytes@.take(i as int).push(bytes@[i as int]));
        i = i + 1;
    }
    assert(bytes@.take(i as int) =~= bytes@);
    copy
}

/// A path followed by the names of another from position `from` on.
fn join_from(base: AbsolutePath, path: &AbsolutePath, from: usize) -> (joined: AbsolutePath)
    requires
        from <= path@.len(),
    ensures
        joined@ == base@ + path@.skip(from as int),
{
    let mut names = base.names;
    let mut i: usize = from;
    assert(byte_names(names@) =~= base@ + path@.subrange(from as int, from as int));
    while i < path.names.len()
        invariant
            from <= i <= path.names.len(),
            byte_names(names@) == base@ + path@.subrange(from as int, i as int),
        decreases path.names.len() - i,
    {
        let name = copy_bytes(&path.names[i]);
        proof {
            assert(byte_names(names@.push(name)) =~= byte_names(names@).push(name@));
            assert(path@.subrange(from as int, i + 1) =~= path@.subrange(from as int, i as int).push(
                path@[i as int],
            ));
            assert(base@ + path@.subrange(from as int, i + 1) =~= (base@ + path@.subrange(
                from as int,
                i as int,
            )).push(path@[i as int]));
        }
        names.push(name);
        i = i + 1;
    }
    assert(path@.subrange(from as int, i as int) =~= path@.skip(from as int));
    AbsolutePath { names }
}

/// The path of the unified entry of `/proc/self/cgroup`, if there is one.
fn unified_cgroup_path(cgroup: &str) -> (found: Result<Option<AbsolutePath>, CgroupRootError>)
    ensures
        match found {
            Ok(found) => unified_path(text_lines(cgroup@), 0, None) == Ok::<
                Option<Seq<Seq<u8>>>,
                CgroupRootError,
            >(path_view(found)),
            Err(error) => unified_path(text_lines(cgroup@), 0, None) == Err::<
                Option<Seq<Seq<u8>>>,
                CgroupRootError,
            >(error),
        },
{
    let entries = lines(cgroup);
    let mut found: Option<AbsolutePath> = None;
    let mut i: usize = 0;
    while i < entries.len()
        invariant
            i <= entries.len(),
            texts(entries@) == text_lines(cgroup@),
            unified_path(texts(entries@), i as int, path_view(found)) == unified_path(
                text_lines(cgroup@),
                0,
                None,
            ),
        decreases entries.len() - i,
    {
        let line = entries[i];
        assert(texts(entries@)[i as int] == line@);
        let (hierarchy, rest) = match split_once(line, ":") {
            Some(parts) => parts,
            None => {
                return Err(CgroupRootError::MissingControllers);
            },
        };
        let (controllers, path) = match split_once(rest, ":") {
            Some(parts) => parts,
            None => {
                return Err(CgroupRootError::MissingPath);
            },
        };
        if same_text(hierarchy, "0") && controllers.is_empty() {
            if found.is_some() {
                return Err(CgroupRootError::MultipleUnifiedEntries);
            }
            match absolute_path(path.as_bytes()) {
                Some(path) => {
                    found = Some(path);
                },
                None => {
                    return Err(CgroupRootError::UnifiedPathNotAbsolute);
                },
            }
        }
        i = i + 1;
    }
    Ok(found)
}

/// The names of a path, where there is one.
pub open spec fn path_view(path: Option<AbsolutePath>) -> Option<Seq<Seq<u8>>> {
    match path {
        Some(path) => Some(path@),
        None => None,
    }
}

/// Reads a line of `/proc/self/mountinfo`: the root and the mount point of a `cgroup2` mount.
fn parse_cgroup2_mount(line: &str) -> (mount: Result<
    Option<(AbsolutePath, AbsolutePath)>,
    CgroupRootError,
>)
    ensures
        match mount {
            Ok(Some((root, point))) => cgroup2_mount(line@) == Ok::<
                Option<(Seq<Seq<u8>>, Seq<Seq<u8>>)>,
                CgroupRootError,
            >(Some((root@, point@))),
            Ok(None) => cgroup2_mount(line@) == Ok::<
                Option<(Seq<Seq<u8>>, Seq<Seq<u8>>)>,
                CgroupRootError,
            >(None),
            Err(error) => cgroup2_mount(line@) == Err::<
                Option<(Seq<Seq<u8>>, Seq<Seq<u8>>)>,
                CgroupRootError,
            >(error),
        },
{
    let (mount, filesystem) = match split_once(line, " - ") {
        Some(parts) => parts,
        None => {
            return Err(CgroupRootError::MissingFilesystemSeparator);
        },
    };
    let types = split_whitespace(filesystem);
    if types.len() == 0 {
        return Ok(None);
    }
    assert(texts(types@)[0] == types@[0]@);
    if !same_text(types[0], "cgroup2") {
        return Ok(None);
    }
    let fields = split_whitespace(mount);
    assert(texts(fields@).len() == fields.len());
    assert forall|k: int| 0 <= k < fields.len() implies #[trigger] texts(fields@)[k]
        == fields@[k]@ by {}
    if fields.len() < 3 {
        return Err(CgroupRootError::IncompleteMount);
    }
    if fields.len() < 4 {
        return Err(CgroupRootError::MissingMountRoot);
    }
    let root: Vec<u8> = match decode_mountinfo_path(fields[3]) {
        Ok(root) => root,
        Err(error) => {
            return Err(error);
        },
    };
    if fields.len() < 5 {
        return Err(CgroupRootError::MissingMountPoint);
    }
    let point: Vec<u8> = match decode_mountinfo_path(fields[4]) {
        Ok(point) => point,
        Err(error) => {
            return Err(error);
        },
    };
    if fields.len() < 6 {
        return Err(CgroupRootError::MissingMountOptions);
    }
    match (absolute_path(root.as_slice()), absolute_path(point.as_slice())) {
        (Some(root), Some(point)) => Ok(Some((root, point))),
        _ => Err(CgroupRootError::MountPathsNotAbsolute),
    }
}

/// Finds the directory of this process's control group in the mounted `cgroup2` hierarchy, from
/// the texts of `/proc/self/cgroup` and `/proc/self/mountinfo`.
pub fn effective_cgroup_root_from(cgroup: &str, mountinfo: &str) -> (root: Result<
    Option<AbsolutePath>,
    CgroupRootError,
>)
    ensures
        match root {
            Ok(root) => cgroup_root(cgroup@, mountinfo@) == Ok::<
                Option<Seq<Seq<u8>>>,
                CgroupRootError,
            >(path_view(root)),
            Err(error) => cgroup_root(cgroup@, mountinfo@) == Err::<
                Option<Seq<Seq<u8>>>,
                CgroupRootError,
            >(error),
        },
{
    let process: AbsolutePath = match unified_cgroup_path(cgroup) {
        Ok(Some(path)) => path,
        Ok(None) => {
            return Ok(None);
        },
        Err(error) => {
            return Err(error);
        },
    };
    let entries = lines(mountinfo);
    let mut best: Option<(usize, AbsolutePath)> = None;
    let mut i: usize = 0;
    while i < entries.len()
        invariant
            i <= entries.len(),
            texts(entries@) == text_lines(mountinfo@),
            cgroup_root(cgroup@, mountinfo@) == exposed_path(
                text_lines(mountinfo@),
                i as int,
                process@,
                best_view(best),
            ),
        decreases entries.len() - i,
    {
        assert(texts(entries@)[i as int] == entries@[i as int]@);
        match parse_cgroup2_mount(entries[i]) {
            Err(error) => {
                return Err(error);
            },
            Ok(None) => {},
            Ok(Some((root, point))) => {
                let better = match &best {
                    Some((best_len, _)) => root.names.len() > *best_len,
                    None => true,
                };
                if path_starts_with(&process, &root) && better {
                    let len = root.names.len();
                    best = Some((len, join_from(point, &process, len)));
                }
            },
        }
        i = i + 1;
    }
    match best {
        Some((_, root)) => Ok(Some(root)),
        None => Err(CgroupRootError::NotExposed),
    }
}

spec fn best_view(best: Option<(usize, AbsolutePath)>) -> Option<(nat, Seq<Seq<u8>>)> {
    match best {
        Some((len, path)) => Some((len as nat, path@)),
        None => None,
    }
}

/// A byte as it is written in `mountinfo` when it has to be escaped: a backslash and its three octal
/// digits.
pub open spec fn escaped(byte: u8) -> Seq<u8> {
    seq![92u8, (48 + byte / 64) as u8, (48 + (byte / 8) % 8) as u8, (48 + byte % 8) as u8]
}

/// A byte that was escaped is read back, and one that is no backslash stands for itself; what
/// follows is read on its own.
pub proof fn escaped_bytes_read_back(byte: u8, rest: Seq<u8>)
    requires
        decoded(rest) is Ok,
    ensures
        decoded(escaped(byte) + rest) == Ok::<Seq<u8>, CgroupRootError>(
            seq![byte] + decoded(rest)->Ok_0,
        ),
        byte != 92 ==> decoded(seq![byte] + rest) == Ok::<Seq<u8>, CgroupRootError>(
            seq![byte] + decoded(rest)->Ok_0,
        ),
        decoded(Seq::empty()) == Ok::<Seq<u8>, CgroupRootError>(Seq::empty()),
{
    let written = escaped(byte) + rest;
    assert(written.skip(4) =~= rest);
    assert((seq![byte] + rest).skip(1) =~= rest);
    assert(byte == (byte / 64) * 64 + ((byte / 8) % 8) * 8 + byte % 8) by (bit_vector);
    assert(byte / 64 < 4 && (byte / 8) % 8 < 8 && byte % 8 < 8) by (bit_vector);
    assert(written[0] == BACKSLASH);
    assert(written[1] == 48 + byte / 64);
    assert(written[2] == 48 + (byte / 8) % 8);
    assert(written[3] == 48 + byte % 8);
}

/// A slash parts the names of a path: those before it and then those after it are all.
pub proof fn slashes_part_names(a: Seq<u8>, b: Seq<u8>)
    ensures
        path_names(a + seq![47u8] + b) == path_names(a) + path_names(b),
    decreases a.len(),
{
    let s = a + seq![47u8] + b;
    if a.len() == 0 {
        assert(s.skip(1) =~= b);
        assert(path_names(a) + path_names(b) =~= path_names(b));
    } else if a[0] == SLASH {
        slashes_part_names(a.skip(1), b);
        assert(s.skip(1) =~= a.skip(1) + seq![47u8] + b);
    } else {
        let n = name_len(a) as int;
        lemma_name_len_stops(a);
        assert forall|i: int| 0 <= i < n implies #[trigger] s[i] != SLASH by {
            assert(s[i] == a[i]);
        }
        if n < a.len() {
            assert(s[n] == a[n]);
        } else {
            assert(s[n] == SLASH);
        }
        lemma_name_len_is(s, n);
        assert(s.take(n) =~= a.take(n));
        assert(s.skip(n) =~= a.skip(n) + seq![47u8] + b);
        slashes_part_names(a.skip(n), b);
        let rest = path_names(a.skip(n));
        assert(seq![a.take(n)] + (rest + path_names(b)) =~= seq![a.take(n)] + rest + path_names(b));
    }
}

proof fn lemma_name_len_stops(s: Seq<u8>)
    ensures
        name_len(s) <= s.len(),
        forall|i: int| 0 <= i < name_len(s) ==> #[trigger] s[i] != SLASH,
        name_len(s) < s.len() ==> s[name_len(s) as int] == SLASH,
        s.len() > 0 && s[0] != SLASH ==> name_len(s) > 0,
    decreases s.len(),
{
    if s.len() > 0 && s[0] != SLASH {
        lemma_name_len_stops(s.skip(1));
        assert forall|i: int| 0 <= i < name_len(s) implies #[trigger] s[i] != SLASH by {
            if i > 0 {
                assert(s.skip(1)[i - 1] == s[i]);
            }
        }
        if name_len(s) < s.len() {
            assert(s.skip(1)[name_len(s.skip(1)) as int] == s[name_len(s) as int]);
        }
    }
}

/// What holds no slash is one name, unless it is empty or a single dot, which are none.
pub proof fn names_hold_no_slash(s: Seq<u8>)
    requires
        forall|i: int| 0 <= i < s.len() ==> #[trigger] s[i] != 47,
    ensures
        path_names(s) == (if s.len() > 0 && s != seq![46u8] {
            seq![s]
        } else {
            Seq::empty()
        }),
{
    if s.len() > 0 {
        lemma_name_len_is(s, s.len() as int);
        assert(s.take(s.len() as int) =~= s);
        assert(s.skip(s.len() as int) =~= Seq::empty());
        assert(seq![s] + path_names(s.skip(s.len() as int)) =~= seq![s]);
    }
}

/// Whether a line is the unified entry of `/proc/self/cgroup`, of hierarchy 0 and without
/// controllers.
pub open spec fn is_unified(line: Seq<char>) -> bool {
    cgroup_fields(line) matches Ok((hierarchy, controllers, _)) && hierarchy == "0"@
        && controllers.len() == 0
}

/// The path of a line of `/proc/self/cgroup`.
pub open spec fn path_of_entry(line: Seq<char>) -> Seq<char> {
    let (hierarchy, controllers, path) = cgroup_fields(line)->Ok_0;
    path
}

/// The control group of a process is the one of its unified entry, of which there is no more than
/// one; without such an entry there is none.
pub proof fn the_unified_entry_counts(
    lines: Seq<Seq<char>>,
    i: int,
    found: Option<Seq<Seq<u8>>>,
)
    requires
        0 <= i,
        unified_path(lines, i, found) is Ok,
    ensures
        ({
            let result = unified_path(lines, i, found)->Ok_0;
            &&& forall|k: int| i <= k < lines.len() ==> cgroup_fields(#[trigger] lines[k]) is Ok
            &&& forall|k: int|
                i <= k < lines.len() && is_unified(#[trigger] lines[k]) ==> found is None
                    && result == Some(path_names(encode_utf8(path_of_entry(lines[k]))))
                    && is_absolute(encode_utf8(path_of_entry(lines[k])))
            &&& forall|j: int, k: int|
                i <= j < k < lines.len() && is_unified(#[trigger] lines[j]) ==> !is_unified(
                    #[trigger] lines[k],
                )
            &&& (forall|k: int| i <= k < lines.len() ==> !is_unified(#[trigger] lines[k]))
                ==> result == found
        }),
    decreases lines.len() - i,
{
    if i < lines.len() {
        if is_unified(lines[i]) {
            let next = Some(path_names(encode_utf8(path_of_entry(lines[i]))));
            the_unified_entry_counts(lines, i + 1, next);
            assert forall|k: int| i < k < lines.len() implies !is_unified(#[trigger] lines[k]) by {}
        } else {
            the_unified_entry_counts(lines, i + 1, found);
        }
    }
}

/// Whether a line mounts a part of the hierarchy that shows a control group, at a path, through a
/// root with so many names.
pub open spec fn shows(line: Seq<char>, process: Seq<Seq<u8>>, len: nat, path: Seq<Seq<u8>>) -> bool {
    cgroup2_mount(line) matches Ok(Some((root, point))) && starts_with(process, root) && root.len()
        == len && path == point + process.skip(root.len() as int)
}

/// The control group of a process is shown by the mount whose root is closest to it, the first of
/// those that are as close; it is found there below the mount point, where its own path goes on from
/// that root. It is not exposed if and only if no mount shows it.
pub proof fn the_closest_mount_shows_the_group(
    lines: Seq<Seq<char>>,
    i: int,
    process: Seq<Seq<u8>>,
    best: Option<(nat, Seq<Seq<u8>>)>,
)
    requires
        0 <= i,
    ensures
        match exposed_path(lines, i, process, best) {
            Ok(Some(path)) => {
                ||| best matches Some((len, known)) && path == known && forall|k: int, n: nat, p: Seq<
                    Seq<u8>,
                >|
                    i <= k < lines.len() && #[trigger] shows(lines[k], process, n, p) ==> n <= len
                ||| exists|k: int, len: nat|
                    i <= k < lines.len() && #[trigger] shows(lines[k], process, len, path)
                        && longer_root(len, best) && (forall|j: int, n: nat, p: Seq<Seq<u8>>|
                        i <= j < lines.len() && #[trigger] shows(lines[j], process, n, p) ==> n
                            <= len && (j < k ==> n < len))
            },
            Ok(None) => false,
            Err(CgroupRootError::NotExposed) => (exists|k: int|
                i <= k < lines.len() && (#[trigger] cgroup2_mount(lines[k])) == Err::<
                    Option<(Seq<Seq<u8>>, Seq<Seq<u8>>)>,
                    CgroupRootError,
                >(CgroupRootError::NotExposed)) || (best is None && forall|k: int,
                n: nat,
                p: Seq<Seq<u8>>|
                i <= k < lines.len() ==> !#[trigger] shows(lines[k], process, n, p)),
            Err(error) => exists|k: int|
                i <= k < lines.len() && (#[trigger] cgroup2_mount(lines[k])) == Err::<
                    Option<(Seq<Seq<u8>>, Seq<Seq<u8>>)>,
                    CgroupRootError,
                >(error),
        },
    decreases lines.len() - i,
{
    if i < lines.len() {
        match cgroup2_mount(lines[i]) {
            Err(error) => {},
            Ok(None) => {
                the_closest_mount_shows_the_group(lines, i + 1, process, best);
            },
            Ok(Some((root, point))) => {
                let path = point + process.skip(root.len() as int);
                if starts_with(process, root) && longer_root(root.len(), best) {
                    assert(shows(lines[i], process, root.len(), path));
                    the_closest_mount_shows_the_group(
                        lines,
                        i + 1,
                        process,
                        Some((root.len(), path)),
                    );
                } else {
                    the_closest_mount_shows_the_group(lines, i + 1, process, best);
                }
            },
        }
    }
}

/// A line mounts a part of the hierarchy if and only if its file system is `cgroup2`; the root is
/// then its fourth field and the mount point its fifth, both unescaped and absolute, and options
/// follow.
pub proof fn mounts_are_read_from_their_fields(line: Seq<char>)
    ensures
        cgroup2_mount(line) matches Ok(Some((root, point))) ==> (halves(line, " - "@) matches Some(
            (mount, filesystem),
        ) && {
            let fields = words(mount);
            &&& words(filesystem).len() > 0 && words(filesystem)[0] == "cgroup2"@
            &&& fields.len() >= 6
            &&& decoded(encode_utf8(fields[3])) matches Ok(bytes) && is_absolute(bytes) && root
                == path_names(bytes)
            &&& decoded(encode_utf8(fields[4])) matches Ok(bytes) && is_absolute(bytes) && point
                == path_names(bytes)
        }),
        cgroup2_mount(line) matches Ok(None) ==> (halves(line, " - "@) matches Some((_, filesystem))
            && (words(filesystem).len() == 0 || words(filesystem)[0] != "cgroup2"@)),
        halves(line, " - "@) is None ==> cgroup2_mount(line) is Err,
{
}

} // verus!
