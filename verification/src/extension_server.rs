//! Fetching extension archives for a compute: which Postgres the compute
//! runs, where archives are unpacked, which control files are written, and
//! what a response of the extension store means.

use vstd::prelude::*;
use crate::text::{concat, owned, str_eq, strip_suffix, strip_suffix_exec};

verus! {

/// The Postgres major versions that extensions are built for.
#[derive(Clone, Copy, PartialEq, Eq, Structural, Debug)]
pub enum PgMajorVersion {
    PG14,
    PG15,
    PG16,
    PG17,
}

impl PgMajorVersion {
    pub open spec fn v_str_spec(self) -> Seq<char> {
        match self {
            PgMajorVersion::PG14 => "v14"@,
            PgMajorVersion::PG15 => "v15"@,
            PgMajorVersion::PG16 => "v16"@,
            PgMajorVersion::PG17 => "v17"@,
        }
    }

    /// The version as it is spelled in archive paths.
    pub fn v_str(&self) -> (r: String)
        ensures
            r@ == self.v_str_spec(),
    {
        match self {
            PgMajorVersion::PG14 => owned("v14"),
            PgMajorVersion::PG15 => owned("v15"),
            PgMajorVersion::PG16 => owned("v16"),
            PgMajorVersion::PG17 => owned("v17"),
        }
    }
}

/// What the `regex` crate finds when `pattern` is searched for in
/// `haystack`: `None` where the pattern does not compile or does not match;
/// otherwise the number of capture groups of the pattern, the whole match
/// counted, and the text of the group named `group`, if that group took
/// part in the match.
pub uninterp spec fn regex_captures(pattern: Seq<char>, group: Seq<char>, haystack: Seq<char>) -> Option<
    (nat, Option<Seq<char>>),
>;

pub open spec fn captures_view(caps: Option<(usize, Option<String>)>) -> Option<
    (nat, Option<Seq<char>>),
> {
    match caps {
        Some((n, Some(text))) => Some((n as nat, Some(text@))),
        Some((n, None)) => Some((n as nat, None)),
        None => None,
    }
}

/// Compiles `pattern` with `regex::Regex::new`, searches `haystack` with
/// `Regex::captures`, and reads the group count with `Captures::len` and
/// the named group with `Captures::name`.
#[verifier::external_body]
fn captures_named(pattern: &str, group: &str, haystack: &str) -> (r: Option<(usize, Option<String>)>)
    ensures
        captures_view(r) == regex_captures(pattern@, group@, haystack@),
{
    let re = regex::Regex::new(pattern).ok()?;
    let caps = re.captures(haystack)?;
    Some((caps.len(), caps.name(group).map(|m| m.as_str().to_string())))
}

/// The pattern that a version report of `pg_config` is read with: the word
/// `PostgreSQL`, a space, the digits of the major version, and at least
/// one character more.
pub open spec fn version_pattern() -> Seq<char> {
    "^PostgreSQL (?<major>\\d+).+"@
}

/// The versions by the digits that name them.
pub open spec fn version_named(major: Seq<char>) -> Option<PgMajorVersion> {
    if major == "14"@ {
        Some(PgMajorVersion::PG14)
    } else if major == "15"@ {
        Some(PgMajorVersion::PG15)
    } else if major == "16"@ {
        Some(PgMajorVersion::PG16)
    } else if major == "17"@ {
        Some(PgMajorVersion::PG17)
    } else {
        None
    }
}

/// The version that the captures of a version report stand for, if they
/// stand for a supported one.
pub open spec fn version_of(caps: Option<(nat, Option<Seq<char>>)>) -> Option<PgMajorVersion> {
    match caps {
        Some((n, Some(major))) => if n == 2 {
            version_named(major)
        } else {
            None
        },
        _ => None,
    }
}

/// Executable form of [`version_of`].
pub fn version_from_captures(caps: &Option<(usize, Option<String>)>) -> (r: Option<PgMajorVersion>)
    ensures
        r == version_of(captures_view(*caps)),
{
    match caps {
        Some((n, Some(major))) => {
            if *n != 2 {
                None
            } else if str_eq(major.as_str(), "14") {
                Some(PgMajorVersion::PG14)
            } else if str_eq(major.as_str(), "15") {
                Some(PgMajorVersion::PG15)
            } else if str_eq(major.as_str(), "16") {
                Some(PgMajorVersion::PG16)
            } else if str_eq(major.as_str(), "17") {
                Some(PgMajorVersion::PG17)
            } else {
                None
            }
        },
        _ => None,
    }
}

/// The version that `human_version`, a version report of `pg_config`,
/// speaks of.
pub open spec fn reported_version(human_version: Seq<char>) -> Option<PgMajorVersion> {
    version_of(regex_captures(version_pattern(), "major"@, human_version))
}

/// Reads the major version out of a version report such as
/// `PostgreSQL 15.4`, `PostgreSQL 17devel` or `PostgreSQL 15.4foobar`. The
/// report has to speak of a supported version.
pub fn parse_pg_version(human_version: &str) -> (r: PgMajorVersion)
    requires
        reported_version(human_version@) is Some,
    ensures
        Some(r) == reported_version(human_version@),
{
    let caps = captures_named("^PostgreSQL (?<major>\\d+).+", "major", human_version);
    version_from_captures(&caps).unwrap()
}

/// Reads the major version out of a version report, or tells that the
/// report speaks of no supported version.
pub fn try_parse_pg_version(human_version: &str) -> (r: Option<PgMajorVersion>)
    ensures
        r == reported_version(human_version@),
{
    let caps = captures_named("^PostgreSQL (?<major>\\d+).+", "major", human_version);
    match version_from_captures(&caps) {
        Some(_) => Some(parse_pg_version(human_version)),
        None => None,
    }
}

/// The URL that `url::Url::join` gives for `input` against the base that
/// `url::Url::parse` reads from `base`; `None` where either fails.
pub uninterp spec fn url_join(base: Seq<char>, input: Seq<char>) -> Option<Seq<char>>;

/// Reads `base` with `url::Url::parse` and resolves `input` against it
/// with `url::Url::join`.
#[verifier::external_body]
fn join_url(base: &str, input: &str) -> (r: Option<String>)
    ensures
        (match r {
            Some(u) => Some(u@),
            None => None,
        }) == url_join(base@, input@),
{
    url::Url::parse(base).ok()?.join(input).ok().map(String::from)
}

/// Where an archive is fetched from, or why that cannot be said.
pub open spec fn extension_uri_spec(base: Seq<char>, ext_path: Seq<char>) -> Result<
    Seq<char>,
    Seq<char>,
> {
    match url_join(base, ext_path) {
        Some(uri) => Ok(uri),
        None => Err(
            "failed to create the remote extension URI for "@ + ext_path + " using "@ + base,
        ),
    }
}

/// Where an archive is fetched from, given what joining `ext_path` to the
/// base URL came to.
pub fn extension_uri_from(joined: Option<String>, remote_ext_base_url: &str, ext_path: &str) -> (r:
    Result<String, String>)
    ensures
        match joined {
            Some(uri) => r == Ok::<String, String>(uri),
            None => r matches Err(why) && why@ == "failed to create the remote extension URI for "@
                + ext_path@ + " using "@ + remote_ext_base_url@,
        },
{
    match joined {
        Some(uri) => Ok(uri),
        None => {
            let head = concat("failed to create the remote extension URI for ", ext_path);
            let mid = concat(head.as_str(), " using ");
            Err(concat(mid.as_str(), remote_ext_base_url))
        },
    }
}

/// Executable form of [`extension_uri_spec`].
pub fn extension_uri(remote_ext_base_url: &str, ext_path: &str) -> (r: Result<String, String>)
    ensures
        (match r {
            Ok(uri) => Ok(uri@),
            Err(why) => Err(why@),
        }) == extension_uri_spec(remote_ext_base_url@, ext_path@),
{
    extension_uri_from(join_url(remote_ext_base_url, ext_path), remote_ext_base_url, ext_path)
}

/// The path of `pg_config` next to the `postgres` binary at `pgbin`.
pub open spec fn pg_config_path_spec(pgbin: Seq<char>) -> Option<Seq<char>> {
    match strip_suffix(pgbin, "postgres"@) {
        Some(dir) => Some(dir + "/pg_config"@),
        None => None,
    }
}

/// Executable form of [`pg_config_path_spec`]. `None` where `pgbin` does
/// not name a `postgres` binary.
pub fn pg_config_path(pgbin: &str) -> (r: Option<String>)
    ensures
        match r {
            Some(p) => Some(p@),
            None => None,
        } == pg_config_path_spec(pgbin@),
{
    match strip_suffix_exec(pgbin, "postgres") {
        Some(dir) => Some(concat(dir.as_str(), "/pg_config")),
        None => None,
    }
}

/// The directory that archives are unpacked into, for the installation
/// whose `postgres` binary is at `pgbin`.
pub open spec fn unzip_dest_spec(pgbin: Seq<char>) -> Option<Seq<char>> {
    match strip_suffix(pgbin, "/bin/postgres"@) {
        Some(root) => Some(root + "/download_extensions"@),
        None => None,
    }
}

/// Executable form of [`unzip_dest_spec`]. `None` where `pgbin` does not
/// end in `/bin/postgres`.
pub fn unzip_dest(pgbin: &str) -> (r: Option<String>)
    ensures
        match r {
            Some(p) => Some(p@),
            None => None,
        } == unzip_dest_spec(pgbin@),
{
    match strip_suffix_exec(pgbin, "/bin/postgres") {
        Some(root) => Some(concat(root.as_str(), "/download_extensions")),
        None => None,
    }
}

/// Where an unpacked archive keeps what goes to the share directory.
pub fn unpacked_sharedir(unzip_dest: &str) -> (r: String)
    ensures
        r@ == unzip_dest@ + "/share/extension"@,
{
    concat(unzip_dest, "/share/extension")
}

/// Where an unpacked archive keeps what goes to the library directory.
pub fn unpacked_libdir(unzip_dest: &str) -> (r: String)
    ensures
        r@ == unzip_dest@ + "/lib"@,
{
    concat(unzip_dest, "/lib")
}

/// What a response of the extension store that is not a success means:
/// the message for the log, and the status under which the request is
/// counted. `None` for status 200.
pub open spec fn response_failure(status: u16, status_text: Seq<char>) -> Option<
    (Seq<char>, Seq<char>),
> {
    if status == 200 {
        None
    } else if status == 503 {
        Some(("remote extensions server is temporarily unavailable"@, status_text))
    } else {
        Some(
            (
                "unexpected remote extensions server response status code: "@ + status_text,
                status_text,
            ),
        )
    }
}

/// Executable form of [`response_failure`].
pub fn classify_response(status: u16, status_text: &str) -> (r: Option<(String, String)>)
    ensures
        match r {
            Some(f) => Some((f.0@, f.1@)),
            None => None,
        } == response_failure(status, status_text@),
{
    if status == 200 {
        None
    } else if status == 503 {
        Some((owned("remote extensions server is temporarily unavailable"), owned(status_text)))
    } else {
        Some(
            (
                concat("unexpected remote extensions server response status code: ", status_text),
                owned(status_text),
            ),
        )
    }
}

/// The control files of one extension.
pub struct ExtensionData {
    /// File name and content of each control file.
    pub control_data: Vec<(String, String)>,
    pub archive_path: String,
}

/// The extensions a compute may use, as its spec lists them.
pub struct RemoteExtSpec {
    pub public_extensions: Option<Vec<String>>,
    pub custom_extensions: Option<Vec<String>>,
    /// Each extension by name.
    pub extension_data: Vec<(String, ExtensionData)>,
}

pub open spec fn names_view(names: Seq<String>) -> Seq<Seq<char>> {
    Seq::new(names.len(), |i: int| names[i]@)
}

pub open spec fn listed(names: Option<Vec<String>>, name: Seq<char>) -> bool {
    names matches Some(list) && names_view(list@).contains(name)
}

/// Whether the compute may use extension `name`: it may not only where a
/// public list and a custom list are both given and neither names it.
pub open spec fn extension_allowed(
    public: Option<Vec<String>>,
    custom: Option<Vec<String>>,
    name: Seq<char>,
) -> bool {
    !(public is Some && !listed(public, name) && custom is Some && !listed(custom, name))
}

fn contains_name(names: &Vec<String>, name: &str) -> (r: bool)
    ensures
        r == names_view(names@).contains(name@),
{
    let mut i: usize = 0;
    while i < names.len()
        invariant
            i <= names.len(),
            forall|j: int| 0 <= j < i ==> names_view(names@)[j] != name@,
        decreases names.len() - i,
    {
        if str_eq(names[i].as_str(), name) {
            assert(names_view(names@)[i as int] == name@);
            return true;
        }
        i = i + 1;
    }
    false
}

/// Executable form of [`extension_allowed`].
pub fn is_extension_allowed(spec: &RemoteExtSpec, name: &str) -> (r: bool)
    ensures
        r == extension_allowed(spec.public_extensions, spec.custom_extensions, name@),
{
    match &spec.public_extensions {
        Some(public) => {
            if !contains_name(public, name) {
                match &spec.custom_extensions {
                    Some(custom) => contains_name(custom, name),
                    None => true,
                }
            } else {
                true
            }
        },
        None => true,
    }
}

/// Name and content of one control file.
pub struct ControlFile {
    pub name: String,
    pub content: String,
}

pub open spec fn files_view(files: Seq<ControlFile>) -> Seq<(Seq<char>, Seq<char>)> {
    Seq::new(files.len(), |i: int| (files[i].name@, files[i].content@))
}

pub open spec fn data_view(data: Seq<(String, String)>) -> Seq<(Seq<char>, Seq<char>)> {
    Seq::new(data.len(), |i: int| (data[i].0@, data[i].1@))
}

/// The control files of the first `n` extensions of the spec that the
/// compute may use, extension by extension, each extension's files in
/// their order.
pub open spec fn control_files_upto(spec: RemoteExtSpec, n: nat) -> Seq<(Seq<char>, Seq<char>)>
    decreases n,
{
    if n == 0 {
        Seq::empty()
    } else {
        let ext = spec.extension_data[n - 1];
        let before = control_files_upto(spec, (n - 1) as nat);
        if extension_allowed(spec.public_extensions, spec.custom_extensions, ext.0@) {
            before + data_view(ext.1.control_data@)
        } else {
            before
        }
    }
}

/// The control files to create for a compute: those of every extension
/// that the compute may use. A file that exists already is left alone by
/// whoever writes them.
pub fn create_control_files(remote_extensions: &RemoteExtSpec) -> (r: Vec<ControlFile>)
    ensures
        files_view(r@) == control_files_upto(
            *remote_extensions,
            remote_extensions.extension_data.len() as nat,
        ),
{
    let mut out: Vec<ControlFile> = Vec::new();
    let mut i: usize = 0;
    assert(files_view(out@) =~= control_files_upto(*remote_extensions, 0));
    while i < remote_extensions.extension_data.len()
        invariant
            i <= remote_extensions.extension_data.len(),
            files_view(out@) == control_files_upto(*remote_extensions, i as nat),
        decreases remote_extensions.extension_data.len() - i,
    {
        let ext = &remote_extensions.extension_data[i];
        if is_extension_allowed(remote_extensions, ext.0.as_str()) {
            let ghost base = files_view(out@);
            let mut j: usize = 0;
            while j < ext.1.control_data.len()
                invariant
                    j <= ext.1.control_data.len(),
                    files_view(out@) == base + data_view(ext.1.control_data@).subrange(0, j as int),
                decreases ext.1.control_data.len() - j,
            {
                let entry = &ext.1.control_data[j];
                let ghost prev = out@;
                let ghost data = data_view(ext.1.control_data@);
                out.push(ControlFile { name: entry.0.clone(), content: entry.1.clone() });
                j = j + 1;
                let ghost want = base + data.subrange(0, j as int);
                let ghost had = base + data.subrange(0, j - 1);
                assert(files_view(prev) == had);
                assert(prev.len() == files_view(prev).len());
                assert(had.len() == base.len() + (j - 1));
                assert(files_view(out@).len() == want.len());
                assert forall|k: int| 0 <= k < want.len() implies files_view(out@)[k] == want[k] by {
                    if k < prev.len() {
                        assert(out@[k] == prev[k]);
                        assert(files_view(prev)[k] == had[k]);
                        if k < base.len() {
                            assert(had[k] == base[k]);
                            assert(want[k] == base[k]);
                        } else {
                            assert(had[k] == data[k - base.len()]);
                            assert(want[k] == data[k - base.len()]);
                        }
                    } else {
                        assert(k == base.len() + j - 1);
                        assert(want[k] == data[j - 1]);
                        assert(data[j - 1] == (entry.0@, entry.1@));
                    }
                }
                assert(files_view(out@) =~= want);
            }
            assert(data_view(ext.1.control_data@).subrange(0, j as int) =~= data_view(
                ext.1.control_data@,
            ));
        }
        i = i + 1;
    }
    out
}

} // verus!
