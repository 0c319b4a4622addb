//! Which PawnIO is installed, and the floor Yamato holds it to.
//!
//! PawnIO before 2.2.0 can bring down Windows 10 on port access, so anything
//! older is refused. The version measured is a file version: what the driver
//! reports of itself tracks its interface and not its release.

use vstd::prelude::*;

use crate::paths::join;
use crate::pawnio::Error;
use crate::text::{begins_with, chars_of, lower_chars, part, push_u64, string_of};

verus! {

/// A four-part Windows file version, ordered the way versions order.
#[derive(Clone, Copy, Debug)]
pub struct DriverVersion {
    pub major: u16,
    pub minor: u16,
    pub build: u16,
    pub revision: u16,
}

impl DriverVersion {
    /// Whether this version is older than another: the first part that
    /// differs decides.
    pub open spec fn older(self, other: DriverVersion) -> bool {
        ||| self.major < other.major
        ||| self.major == other.major && self.minor < other.minor
        ||| self.major == other.major && self.minor == other.minor && self.build < other.build
        ||| self.major == other.major && self.minor == other.minor && self.build == other.build
            && self.revision < other.revision
    }

    /// The version as its releases are numbered: three parts, and the fourth
    /// only when it carries anything.
    pub open spec fn words(self) -> Seq<char> {
        let three = crate::text::decimal_nat(self.major as nat) + "."@ + crate::text::decimal_nat(
            self.minor as nat,
        ) + "."@ + crate::text::decimal_nat(self.build as nat);
        if self.revision != 0 {
            three + "."@ + crate::text::decimal_nat(self.revision as nat)
        } else {
            three
        }
    }

    /// The four parts, most significant first.
    pub fn new(major: u16, minor: u16, build: u16, revision: u16) -> (r: Self)
        ensures
            r == (DriverVersion { major, minor, build, revision }),
    {
        DriverVersion { major, minor, build, revision }
    }

    /// The version a fixed version resource carries in its two words.
    pub fn from_words(most: u32, least: u32) -> (r: Self)
        ensures
            r.major == most / 65536,
            r.minor == most % 65536,
            r.build == least / 65536,
            r.revision == least % 65536,
    {
        DriverVersion {
            major: (most / 65536) as u16,
            minor: (most % 65536) as u16,
            build: (least / 65536) as u16,
            revision: (least % 65536) as u16,
        }
    }

    /// Whether this version is older than another.
    pub fn is_older(&self, other: &DriverVersion) -> (r: bool)
        ensures
            r == self.older(*other),
    {
        if self.major != other.major {
            self.major < other.major
        } else if self.minor != other.minor {
            self.minor < other.minor
        } else if self.build != other.build {
            self.build < other.build
        } else {
            self.revision < other.revision
        }
    }

    /// The version as its releases are numbered.
    pub fn to_string(&self) -> (r: String)
        ensures
            r@ == self.words(),
    {
        let mut s = String::new();
        push_u64(&mut s, self.major as u64);
        s.append(".");
        push_u64(&mut s, self.minor as u64);
        s.append(".");
        push_u64(&mut s, self.build as u64);
        proof {
            assert(Seq::<char>::empty() + crate::text::decimal_nat(self.major as nat)
                == crate::text::decimal_nat(self.major as nat));
        }
        if self.revision != 0 {
            s.append(".");
            push_u64(&mut s, self.revision as u64);
        }
        s
    }
}

impl PartialEq for DriverVersion {
    fn eq(&self, other: &Self) -> (r: bool) {
        self.major == other.major && self.minor == other.minor && self.build == other.build
            && self.revision == other.revision
    }
}

impl vstd::std_specs::cmp::PartialEqSpecImpl for DriverVersion {
    open spec fn obeys_eq_spec() -> bool {
        true
    }

    open spec fn eq_spec(&self, other: &Self) -> bool {
        *self == *other
    }
}

impl PartialOrd for DriverVersion {
    fn partial_cmp(&self, other: &Self) -> (r: Option<std::cmp::Ordering>) {
        if self.is_older(other) {
            Some(std::cmp::Ordering::Less)
        } else if other.is_older(self) {
            Some(std::cmp::Ordering::Greater)
        } else {
            Some(std::cmp::Ordering::Equal)
        }
    }
}

impl vstd::std_specs::cmp::PartialOrdSpecImpl for DriverVersion {
    open spec fn obeys_partial_cmp_spec() -> bool {
        true
    }

    open spec fn partial_cmp_spec(&self, other: &Self) -> Option<std::cmp::Ordering> {
        if self.older(*other) {
            Some(std::cmp::Ordering::Less)
        } else if other.older(*self) {
            Some(std::cmp::Ordering::Greater)
        } else {
            Some(std::cmp::Ordering::Equal)
        }
    }
}

/// Of two versions exactly one holds: one is older, or they are the same.
pub proof fn versions_are_totally_ordered(a: DriverVersion, b: DriverVersion, c: DriverVersion)
    ensures
        a.older(b) || b.older(a) || a == b,
        !(a.older(b) && b.older(a)),
        !a.older(a),
        a.older(b) && b.older(c) ==> a.older(c),
{
}

/// The oldest PawnIO Yamato will drive.
pub open spec fn minimum() -> DriverVersion {
    DriverVersion { major: 2, minor: 2, build: 0, revision: 0 }
}

/// The oldest PawnIO Yamato will drive.
pub fn min_driver_version() -> (r: DriverVersion)
    ensures
        r == minimum(),
{
    DriverVersion { major: 2, minor: 2, build: 0, revision: 0 }
}

/// Refuses a PawnIO whose version was read and is below the floor.
///
/// No version is not evidence of an old one: a failed registry read is no
/// reason to give up fan control.
pub fn verdict(read: Option<DriverVersion>) -> (r: Result<(), Error>)
    ensures
        match r {
            Ok(_) => read matches Some(found) ==> !found.older(minimum()),
            Err(e) => read matches Some(found) && found.older(minimum()) && e == (
            Error::DriverTooOld { found }),
        },
{
    match read {
        Some(found) => if found.is_older(&min_driver_version()) {
            Err(Error::DriverTooOld { found })
        } else {
            Ok(())
        },
        None => Ok(()),
    }
}

/// The place in a list of files where a version was first readable.
pub open spec fn first_readable(files: Seq<(String, Option<DriverVersion>)>, i: int) -> Option<int>
    decreases files.len() - i,
{
    if i >= files.len() {
        None
    } else if files[i].1 is Some {
        Some(i)
    } else {
        first_readable(files, i + 1)
    }
}

/// The installed PawnIO's file version and the file it was read from: the
/// first of the files asked that had one.
pub fn installed_driver_version(files: &Vec<(String, Option<DriverVersion>)>) -> (r: Option<
    (DriverVersion, String),
>)
    ensures
        match first_readable(files@, 0) {
            Some(i) => r matches Some(found) && Some(found.0) == files@[i].1 && found.1@
                == files@[i].0@,
            None => r is None,
        },
{
    let mut i: usize = 0;
    while i < files.len()
        invariant
            i <= files@.len(),
            first_readable(files@, 0) == first_readable(files@, i as int),
        decreases files@.len() - i,
    {
        match files[i].1 {
            Some(version) => {
                return Some((version, files[i].0.clone()));
            },
            None => {},
        }
        i += 1;
    }
    None
}

/// Refuses an installed PawnIO that is readable and below the floor.
pub fn enforce_minimum(files: &Vec<(String, Option<DriverVersion>)>) -> (r: Result<(), Error>)
    ensures
        match first_readable(files@, 0) {
            Some(i) => match r {
                Ok(_) => !files@[i].1->0.older(minimum()),
                Err(e) => files@[i].1->0.older(minimum()) && e == (Error::DriverTooOld {
                    found: files@[i].1->0,
                }),
            },
            None => r is Ok,
        },
{
    match installed_driver_version(files) {
        Some(found) => verdict(Some(found.0)),
        None => verdict(None),
    }
}

/// One clause for the startup log: what is installed and where that was read,
/// or the fact that the floor went unchecked.
pub open spec fn version_report(found: Option<(DriverVersion, Seq<char>)>) -> Seq<char> {
    match found {
        Some((version, path)) => "PawnIO "@ + version.words() + " (from "@ + path + ")"@,
        None => "PawnIO's file version could not be read, so the "@ + minimum().words()
            + " floor was not checked"@,
    }
}

/// One clause for the startup log.
pub fn driver_version_report(files: &Vec<(String, Option<DriverVersion>)>) -> (r: String)
    ensures
        r@ == version_report(
            match first_readable(files@, 0) {
                Some(i) => Some((files@[i].1->0, files@[i].0@)),
                None => None,
            },
        ),
{
    match installed_driver_version(files) {
        Some(found) => {
            let mut s = "PawnIO ".to_owned();
            s.append(found.0.to_string().as_str());
            s.append(" (from ");
            s.append(found.1.as_str());
            s.append(")");
            s
        },
        None => {
            let mut s = "PawnIO's file version could not be read, so the ".to_owned();
            s.append(min_driver_version().to_string().as_str());
            s.append(" floor was not checked");
            s
        },
    }
}

/// A service's image path as the file system can open it.
///
/// The kernel spells the Windows directory `\SystemRoot\`, marks a full path
/// with `\??\`, and takes `System32\` relative to the Windows directory, in
/// any case.
pub open spec fn expanded(raw: Seq<char>, windows_dir: Seq<char>) -> Seq<char> {
    let lower = crate::text::lowered(raw);
    if crate::text::begins(lower, "\\systemroot\\"@) {
        crate::paths::under(windows_dir, raw.subrange(12, raw.len() as int))
    } else if crate::text::begins(lower, "\\??\\"@) {
        raw.subrange(4, raw.len() as int)
    } else if crate::text::begins(lower, "system32\\"@) {
        crate::paths::under(windows_dir, raw)
    } else {
        raw
    }
}

/// A service's image path as the file system can open it.
pub fn expand_image_path(raw: &str, windows_dir: &str) -> (r: String)
    ensures
        r@ == expanded(raw@, windows_dir@),
{
    let chars = chars_of(raw);
    let lower = lower_chars(&chars);
    proof {
        reveal_strlit("\\systemroot\\");
        reveal_strlit("\\??\\");
    }
    if begins_with(&lower, "\\systemroot\\") {
        let rest = string_of(&part(&chars, 12, chars.len()));
        return join(windows_dir, rest.as_str());
    }
    if begins_with(&lower, "\\??\\") {
        return string_of(&part(&chars, 4, chars.len()));
    }
    if begins_with(&lower, "system32\\") {
        return join(windows_dir, raw);
    }
    raw.to_owned()
}

/// The files worth asking for a version, most authoritative first: the driver
/// binary where its service registration says it is, then the library in
/// PawnIO's own directory.
pub fn candidates(
    image_path: Option<&str>,
    windows_dir: &str,
    install_location: Option<&str>,
    default_install_dir: &str,
) -> (r: Vec<String>)
    ensures
        r@.len() == (if image_path is Some {
            2int
        } else {
            1int
        }),
        image_path matches Some(raw) ==> r@[0]@ == expanded(raw@, windows_dir@),
        r@.last()@ == crate::paths::under(
            match install_location {
                Some(dir) => dir@,
                None => default_install_dir@,
            },
            "PawnIOLib.dll"@,
        ),
{
    let mut found: Vec<String> = Vec::new();
    match image_path {
        Some(raw) => {
            found.push(expand_image_path(raw, windows_dir));
        },
        None => {},
    }
    let dir = match install_location {
        Some(dir) => dir,
        None => default_install_dir,
    };
    found.push(join(dir, "PawnIOLib.dll"));
    found
}

/// A version is older exactly when its four parts, read as one number, the
/// first of them counting most, are less.
pub proof fn a_version_is_one_number(a: DriverVersion, b: DriverVersion)
    ensures
        a.older(b) <==> 0x1_0000_0000_0000 * a.major + 0x1_0000_0000 * a.minor + 0x1_0000 * a.build
            + a.revision < 0x1_0000_0000_0000 * b.major + 0x1_0000_0000 * b.minor + 0x1_0000
            * b.build + b.revision,
        minimum().major == 2 && minimum().minor == 2 && minimum().build == 0
            && minimum().revision == 0,
{
}

/// A version is written as its first three parts with dots between them, and
/// the fourth only where it is not zero.
pub proof fn a_version_is_written_in_parts(v: DriverVersion)
    ensures
        ({
            let three = crate::text::decimal_nat(v.major as nat) + "."@ + crate::text::decimal_nat(
                v.minor as nat,
            ) + "."@ + crate::text::decimal_nat(v.build as nat);
            &&& v.revision == 0 ==> v.words() == three
            &&& v.revision != 0 ==> v.words() == three + "."@ + crate::text::decimal_nat(
                v.revision as nat,
            )
        }),
{
}

/// The version that counts is that of the first file that had one.
pub proof fn the_first_version_counts(files: Seq<(String, Option<DriverVersion>)>, i: int)
    requires
        0 <= i <= files.len(),
    ensures
        match first_readable(files, i) {
            Some(k) => {
                &&& i <= k < files.len()
                &&& files[k].1 is Some
                &&& forall|j: int| i <= j < k ==> (#[trigger] files[j]).1 is None
            },
            None => forall|j: int| i <= j < files.len() ==> (#[trigger] files[j]).1 is None,
        },
    decreases files.len() - i,
{
    if i < files.len() && files[i].1 is None {
        the_first_version_counts(files, i + 1);
    }
}

/// What is reported of the driver names its version and the file it was read
/// from, or says that the floor was not checked.
pub proof fn a_version_is_reported_with_its_source(version: DriverVersion, path: Seq<char>)
    ensures
        crate::text::holds(version_report(Some((version, path))), version.words()),
        crate::text::holds(version_report(Some((version, path))), path),
        crate::text::holds(version_report(None), minimum().words()),
        crate::text::holds(version_report(None), " floor was not checked"@),
{
    let head = "PawnIO "@;
    crate::text::it_stands_at_the_end(head, version.words());
    crate::text::it_still_stands(head + version.words(), " (from "@, version.words());
    crate::text::it_still_stands(head + version.words() + " (from "@, path, version.words());
    crate::text::it_still_stands(
        head + version.words() + " (from "@ + path,
        ")"@,
        version.words(),
    );
    crate::text::it_stands_at_the_end(head + version.words() + " (from "@, path);
    crate::text::it_still_stands(head + version.words() + " (from "@ + path, ")"@, path);
    let none = "PawnIO's file version could not be read, so the "@;
    crate::text::it_stands_at_the_end(none, minimum().words());
    crate::text::it_still_stands(
        none + minimum().words(),
        " floor was not checked"@,
        minimum().words(),
    );
    crate::text::it_stands_at_the_end(none + minimum().words(), " floor was not checked"@);
}

/// An image path is opened where the kernel means it: what follows
/// `\SystemRoot\` lies in the Windows directory, as does what begins with
/// `System32\`, and what follows `\??\` is a path already. Any case will do.
/// Every other path is taken as it is.
pub proof fn an_image_path_is_opened_where_it_is(
    root: Seq<char>,
    rest: Seq<char>,
    windows_dir: Seq<char>,
)
    requires
        crate::text::lowered(root) == "\\systemroot\\"@,
    ensures
        expanded(root + rest, windows_dir) == crate::paths::under(windows_dir, rest),
        expanded("\\??\\"@ + rest, windows_dir) == rest,
        crate::text::begins(crate::text::lowered(rest), "system32\\"@) ==> expanded(
            rest,
            windows_dir,
        ) == crate::paths::under(windows_dir, rest),
        rest.len() > 0 && rest[0] != '\\' && !crate::text::begins(
            crate::text::lowered(rest),
            "system32\\"@,
        ) ==> expanded(rest, windows_dir) == rest,
{
    reveal_strlit("\\systemroot\\");
    reveal_strlit("\\??\\");
    reveal_strlit("system32\\");
    assert(crate::text::lowered(root).len() == root.len());
    let raw = root + rest;
    let lower = crate::text::lowered(raw);
    assert(lower.take(12) =~= crate::text::lowered(root));
    assert(raw.subrange(12, raw.len() as int) =~= rest);
    let marked = "\\??\\"@ + rest;
    let low = crate::text::lowered(marked);
    assert(low.len() == marked.len());
    assert(low[1] == '?') by {
        assert(marked[1] == '?');
    }
    if crate::text::begins(low, "\\systemroot\\"@) {
        assert(low.take(12)[1] == "\\systemroot\\"@[1]);
    }
    assert(low.take(4) =~= "\\??\\"@) by {
        assert(marked[0] == '\\' && marked[2] == '?' && marked[3] == '\\');
    }
    assert(marked.subrange(4, marked.len() as int) =~= rest);
    let plain = crate::text::lowered(rest);
    if crate::text::begins(plain, "\\systemroot\\"@) {
        assert(plain.take(12)[0] == '\\');
        assert(plain[0] == '\\');
    }
    if crate::text::begins(plain, "\\??\\"@) {
        assert(plain.take(4)[0] == '\\');
        assert(plain[0] == '\\');
    }
    if crate::text::begins(plain, "system32\\"@) {
        assert(plain.take(9)[0] == 's');
        assert(plain[0] == 's');
    }
}

} // verus!
