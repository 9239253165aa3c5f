//! The version line the server reports about itself.

use vstd::prelude::*;

use crate::text::occurs_at;

verus! {

/// What the build recorded about itself: the package version and the
/// optional details that a deployment sets when it compiles.
pub struct BuildInfo {
    pub version: String,
    pub git_hash: Option<String>,
    pub compile_date: Option<String>,
    pub linux_user: Option<String>,
    pub win_user: Option<String>,
    pub linux_host: Option<String>,
    pub win_host: Option<String>,
}

/// The first of two optional texts that is present, else `default`.
pub open spec fn first_present(a: Option<String>, b: Option<String>, default: Seq<char>) -> Seq<
    char,
> {
    match a {
        Some(x) => x@,
        None => match b {
            Some(y) => y@,
            None => default,
        },
    }
}

/// The version line of a build: `Version <v> hash <hash>, compiled by
/// <user> on <host> at <date>`, where the user and host come from the Linux
/// variables, else the Windows ones, else `USERNAME` / `HOSTNAME`, and a
/// missing hash reads `NONE` and a missing date `UNK`.
pub open spec fn version_text(info: BuildInfo) -> Seq<char> {
    "Version "@ + info.version@ + " hash "@ + first_present(info.git_hash, None, "NONE"@)
        + ", compiled by "@ + first_present(info.linux_user, info.win_user, "USERNAME"@) + " on "@
        + first_present(info.linux_host, info.win_host, "HOSTNAME"@) + " at "@ + first_present(
        info.compile_date,
        None,
        "UNK"@,
    )
}

/// Who compiled the build, as the build's variables say: the Linux user,
/// else the Windows user, else `USERNAME`. The hosts play no part.
pub open spec fn compiling_user(info: BuildInfo) -> Seq<char> {
    match info.linux_user {
        Some(u) => u@,
        None => match info.win_user {
            Some(w) => w@,
            None => "USERNAME"@,
        },
    }
}

/// Where the build was compiled: the Linux host, else the Windows host,
/// else `HOSTNAME`. The users play no part.
pub open spec fn compiling_host(info: BuildInfo) -> Seq<char> {
    match info.linux_host {
        Some(h) => h@,
        None => match info.win_host {
            Some(w) => w@,
            None => "HOSTNAME"@,
        },
    }
}

/// When the build was compiled: its date, else `UNK`.
pub open spec fn compile_date_or_unknown(info: BuildInfo) -> Seq<char> {
    match info.compile_date {
        Some(d) => d@,
        None => "UNK"@,
    }
}

/// The line's start up to `, compiled by`: the version and the hash
/// (`NONE` where it is missing).
pub open spec fn version_and_hash(info: BuildInfo) -> Seq<char> {
    "Version "@ + info.version@ + " hash "@ + match info.git_hash {
        Some(g) => g@,
        None => "NONE"@,
    }
}

/// The version line names the compiling user right after its version and
/// hash (`, compiled by <user> on `), the compiling host right after that
/// (` on <host> at `), and ends with ` at <date>`: each taken from its own
/// variables only.
pub proof fn law_version_names_user_and_host(info: BuildInfo)
    ensures
        occurs_at(
            version_text(info),
            ", compiled by "@ + compiling_user(info) + " on "@,
            version_and_hash(info).len() as int,
        ),
        occurs_at(
            version_text(info),
            " on "@ + compiling_host(info) + " at "@,
            (version_and_hash(info) + ", compiled by "@ + compiling_user(info)).len() as int,
        ),
        version_text(info).subrange(0, version_and_hash(info).len() as int) == version_and_hash(info),
        version_text(info).len() >= (" at "@ + compile_date_or_unknown(info)).len(),
        version_text(info).subrange(
            version_text(info).len() - (" at "@ + compile_date_or_unknown(info)).len(),
            version_text(info).len() as int,
        ) == " at "@ + compile_date_or_unknown(info),
{
    let v = version_text(info);
    let a = version_and_hash(info);
    let user = ", compiled by "@ + compiling_user(info) + " on "@;
    let b = a + ", compiled by "@ + compiling_user(info);
    let host = " on "@ + compiling_host(info) + " at "@;
    let date = match info.compile_date {
        Some(d) => d@,
        None => "UNK"@,
    };
    assert(v =~= a + user + compiling_host(info) + " at "@ + date);
    assert(v.subrange(a.len() as int, (a.len() + user.len()) as int) =~= user);
    assert(v =~= b + host + date);
    assert(v.subrange(b.len() as int, (b.len() + host.len()) as int) =~= host);
    assert(v.subrange(0, a.len() as int) =~= a);
    let tail = " at "@ + date;
    let c = b + " on "@ + compiling_host(info);
    assert(v =~= c + tail);
    assert(v.subrange(v.len() - tail.len(), v.len() as int) =~= tail);
}

fn first_present_text<'a>(a: &'a Option<String>, b: &'a Option<String>, default: &'a str) -> (s:
    &'a str)
    ensures
        s@ == first_present(*a, *b, default@),
{
    match a {
        Some(x) => x.as_str(),
        None => match b {
            Some(y) => y.as_str(),
            None => default,
        },
    }
}

/// The version line of a build (see `version_text`).
pub fn get_version_string(info: &BuildInfo) -> (s: String)
    ensures
        s@ == version_text(*info),
{
    let none: Option<String> = None;
    let mut s = String::from_str("Version ");
    s.append(info.version.as_str());
    s.append(" hash ");
    s.append(first_present_text(&info.git_hash, &none, "NONE"));
    s.append(", compiled by ");
    s.append(first_present_text(&info.linux_user, &info.win_user, "USERNAME"));
    s.append(" on ");
    s.append(first_present_text(&info.linux_host, &info.win_host, "HOSTNAME"));
    s.append(" at ");
    s.append(first_present_text(&info.compile_date, &none, "UNK"));
    s
}

} // verus!
