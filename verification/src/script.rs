//! The shell scripts that set a machine up to install from the gateway.

use crate::error::Error;
use crate::text::{from_chars, push_str, str_eq};
use crate::utils::{channel_name, AppVersion, ReleaseChannel};
use vstd::prelude::*;

verus! {

/// What the script for `apt` is written from: the address of the gateway,
/// the distribution tag, the upstream project and the channel.
#[derive(Debug)]
pub struct AptScript {
    pub host: String,
    pub distro: String,
    pub owner: String,
    pub repo: String,
    pub channel: ReleaseChannel,
}

/// The mathematical content of an [`AptScript`].
pub struct AptScriptModel {
    pub host: Seq<char>,
    pub distro: Seq<char>,
    pub owner: Seq<char>,
    pub repo: Seq<char>,
    pub channel: ReleaseChannel,
}

impl View for AptScript {
    type V = AptScriptModel;

    open spec fn view(&self) -> AptScriptModel {
        AptScriptModel {
            host: self.host@,
            distro: self.distro@,
            owner: self.owner@,
            repo: self.repo@,
            channel: self.channel,
        }
    }
}

/// The script that adds the gateway's key and its repository of the
/// project to the sources of `apt`.
pub open spec fn apt_script_text(s: AptScriptModel) -> Seq<char> {
    "#!/bin/sh\nset -e\n\ncurl -fsSL "@ + s.host + "/v1/keys/packhub.asc | gpg --dearmor -o /usr/share/keyrings/packhub.gpg\necho \"deb [signed-by=/usr/share/keyrings/packhub.gpg] "@ + s.host + "/v2/apt/"@ + s.distro + "/github/"@ + s.owner + "/"@ + s.repo + " "@ + channel_name(s.channel) + " main\" > /etc/apt/sources.list.d/"@ + s.repo + "-"@ + channel_name(s.channel) + ".list\napt-get update\n"@
}

impl AptScript {
    /// The text of the script.
    pub fn render(&self) -> (r: String)
        ensures
            r@ == apt_script_text(self@),
    {
        let mut buffer: Vec<char> = Vec::new();
        let out = &mut buffer;
        push_str(out, "#!/bin/sh\nset -e\n\ncurl -fsSL ");
        push_str(out, self.host.as_str());
        push_str(out, "/v1/keys/packhub.asc | gpg --dearmor -o /usr/share/keyrings/packhub.gpg\necho \"deb [signed-by=/usr/share/keyrings/packhub.gpg] ");
        push_str(out, self.host.as_str());
        push_str(out, "/v2/apt/");
        push_str(out, self.distro.as_str());
        push_str(out, "/github/");
        push_str(out, self.owner.as_str());
        push_str(out, "/");
        push_str(out, self.repo.as_str());
        push_str(out, " ");
        push_str(out, self.channel.name());
        push_str(out, " main\" > /etc/apt/sources.list.d/");
        push_str(out, self.repo.as_str());
        push_str(out, "-");
        push_str(out, self.channel.name());
        push_str(out, ".list\napt-get update\n");
        assert(out@ == apt_script_text(self@));
        from_chars(&buffer)
    }
}

/// What the script for `dnf` or `zypper` is written from: the address of
/// the gateway, the upstream project, the directory of the package
/// manager's repositories under `/etc`, the version of the gateway's URL
/// scheme and the channel.
#[derive(Debug)]
pub struct RPMScript {
    pub host: String,
    pub owner: String,
    pub repo: String,
    pub mgr: String,
    pub ver: AppVersion,
    pub channel: ReleaseChannel,
}

/// The mathematical content of an [`RPMScript`].
pub struct RPMScriptModel {
    pub host: Seq<char>,
    pub owner: Seq<char>,
    pub repo: Seq<char>,
    pub mgr: Seq<char>,
    pub ver: AppVersion,
    pub channel: ReleaseChannel,
}

impl View for RPMScript {
    type V = RPMScriptModel;

    open spec fn view(&self) -> RPMScriptModel {
        RPMScriptModel {
            host: self.host@,
            owner: self.owner@,
            repo: self.repo@,
            mgr: self.mgr@,
            ver: self.ver,
            channel: self.channel,
        }
    }
}

/// The address of the repository: the first URL scheme knows no channels,
/// the second names the channel.
pub open spec fn rpm_base_url(s: RPMScriptModel) -> Seq<char> {
    match s.ver {
        AppVersion::V1 => s.host + "/v1/rpm/github/"@ + s.owner + "/"@ + s.repo,
        AppVersion::V2 => s.host + "/v2/rpm/github/"@ + s.owner + "/"@ + s.repo + "/"@ + channel_name(s.channel),
    }
}

/// The identifier of the repository: the project's name, marked for the
/// unstable channel.
pub open spec fn rpm_repo_name(s: RPMScriptModel) -> Seq<char> {
    match s.channel {
        ReleaseChannel::Stable => s.repo,
        ReleaseChannel::Unstable => s.repo + "-unstable"@,
    }
}

/// The name of the repository as it is shown: the project's name, marked
/// for the unstable channel.
pub open spec fn rpm_display_name(s: RPMScriptModel) -> Seq<char> {
    match s.channel {
        ReleaseChannel::Stable => s.repo,
        ReleaseChannel::Unstable => s.repo + " (unstable)"@,
    }
}

/// The script that imports the gateway's key and writes the repository
/// file of the project.
pub open spec fn rpm_script_text(s: RPMScriptModel) -> Seq<char> {
    "#!/bin/sh\nset -e\n\nrpm --import "@ + s.host + "/v1/keys/packhub.asc\ncat > /etc/"@ + s.mgr + "/"@ + rpm_repo_name(s) + ".repo <<EOF\n["@ + rpm_repo_name(s) + "]\nname="@ + rpm_display_name(s) + "\nbaseurl="@ + rpm_base_url(s) + "\nenabled=1\ngpgcheck=0\nrepo_gpgcheck=1\ngpgkey="@ + s.host + "/v1/keys/packhub.asc\nEOF\n"@
}

impl RPMScript {
    /// The address of the repository.
    pub fn base_url(&self) -> (r: String)
        ensures
            r@ == rpm_base_url(self@),
    {
        let mut buffer: Vec<char> = Vec::new();
        let out = &mut buffer;
        match self.ver {
            AppVersion::V1 => {
                push_str(out, self.host.as_str());
                push_str(out, "/v1/rpm/github/");
                push_str(out, self.owner.as_str());
                push_str(out, "/");
                push_str(out, self.repo.as_str());
            },
            AppVersion::V2 => {
                push_str(out, self.host.as_str());
                push_str(out, "/v2/rpm/github/");
                push_str(out, self.owner.as_str());
                push_str(out, "/");
                push_str(out, self.repo.as_str());
                push_str(out, "/");
                push_str(out, self.channel.name());
            },
        }
        assert(out@ == rpm_base_url(self@));
        from_chars(&buffer)
    }

    /// The identifier of the repository.
    pub fn repo_name(&self) -> (r: String)
        ensures
            r@ == rpm_repo_name(self@),
    {
        let mut buffer: Vec<char> = Vec::new();
        push_str(&mut buffer, self.repo.as_str());
        match self.channel {
            ReleaseChannel::Stable => {},
            ReleaseChannel::Unstable => push_str(&mut buffer, "-unstable"),
        }
        assert(buffer@ == rpm_repo_name(self@));
        from_chars(&buffer)
    }

    /// The name of the repository as it is shown.
    pub fn name(&self) -> (r: String)
        ensures
            r@ == rpm_display_name(self@),
    {
        let mut buffer: Vec<char> = Vec::new();
        push_str(&mut buffer, self.repo.as_str());
        match self.channel {
            ReleaseChannel::Stable => {},
            ReleaseChannel::Unstable => push_str(&mut buffer, " (unstable)"),
        }
        assert(buffer@ == rpm_display_name(self@));
        from_chars(&buffer)
    }

    /// The text of the script.
    pub fn render(&self) -> (r: String)
        ensures
            r@ == rpm_script_text(self@),
    {
        let mut buffer: Vec<char> = Vec::new();
        let out = &mut buffer;
        push_str(out, "#!/bin/sh\nset -e\n\nrpm --import ");
        push_str(out, self.host.as_str());
        push_str(out, "/v1/keys/packhub.asc\ncat > /etc/");
        push_str(out, self.mgr.as_str());
        push_str(out, "/");
        push_str(out, self.repo_name().as_str());
        push_str(out, ".repo <<EOF\n[");
        push_str(out, self.repo_name().as_str());
        push_str(out, "]\nname=");
        push_str(out, self.name().as_str());
        push_str(out, "\nbaseurl=");
        push_str(out, self.base_url().as_str());
        push_str(out, "\nenabled=1\ngpgcheck=0\nrepo_gpgcheck=1\ngpgkey=");
        push_str(out, self.host.as_str());
        push_str(out, "/v1/keys/packhub.asc\nEOF\n");
        assert(out@ == rpm_script_text(self@));
        from_chars(&buffer)
    }
}

/// Writes the script that sets up `apt`.
pub fn generate_apt_script(host: &str, distro: &str, owner: &str, repo: &str, channel: &ReleaseChannel) -> (r:
    String)
    ensures
        r@ == apt_script_text(
            AptScriptModel {
                host: host@,
                distro: distro@,
                owner: owner@,
                repo: repo@,
                channel: *channel,
            },
        ),
{
    let script = AptScript {
        host: host.to_owned(),
        distro: distro.to_owned(),
        owner: owner.to_owned(),
        repo: repo.to_owned(),
        channel: *channel,
    };
    script.render()
}

/// Writes the script that sets up `dnf` or `zypper`. With the first URL
/// scheme the channel does not show in the address.
pub fn generate_rpm_script(
    host: &str,
    owner: &str,
    repo: &str,
    mgr: &str,
    ver: &AppVersion,
    channel: &ReleaseChannel,
) -> (r: String)
    ensures
        r@ == rpm_script_text(
            RPMScriptModel {
                host: host@,
                owner: owner@,
                repo: repo@,
                mgr: mgr@,
                ver: *ver,
                channel: *channel,
            },
        ),
{
    let script = RPMScript {
        host: host.to_owned(),
        owner: owner.to_owned(),
        repo: repo.to_owned(),
        mgr: mgr.to_owned(),
        ver: *ver,
        channel: *channel,
    };
    script.render()
}

/// The channel that a request for a script asks for: the unstable one
/// exactly when pre-releases are asked for.
pub open spec fn channel_of(prerelease: Option<bool>) -> ReleaseChannel {
    if prerelease == Some(true) {
        ReleaseChannel::Unstable
    } else {
        ReleaseChannel::Stable
    }
}

/// The URL scheme that a request for a script asks for: the second where
/// it names none.
pub open spec fn scheme_of(ver: Option<AppVersion>) -> AppVersion {
    match ver {
        Some(v) => v,
        None => AppVersion::V2,
    }
}

/// The script for a package manager tag: `ubuntu` and `debian` get the
/// script for `apt`, `yum` and `zypp` the script for their repository
/// files; any other tag gets none.
pub open spec fn script_of(
    host: Seq<char>,
    distro: Seq<char>,
    owner: Seq<char>,
    repo: Seq<char>,
    prerelease: Option<bool>,
    ver: Option<AppVersion>,
) -> Option<Seq<char>> {
    if distro == "ubuntu"@ || distro == "debian"@ {
        Some(
            apt_script_text(
                AptScriptModel { host, distro, owner, repo, channel: channel_of(prerelease) },
            ),
        )
    } else if distro == "yum"@ {
        Some(
            rpm_script_text(
                RPMScriptModel {
                    host,
                    owner,
                    repo,
                    mgr: "yum.repos.d"@,
                    ver: scheme_of(ver),
                    channel: channel_of(prerelease),
                },
            ),
        )
    } else if distro == "zypp"@ {
        Some(
            rpm_script_text(
                RPMScriptModel {
                    host,
                    owner,
                    repo,
                    mgr: "zypp/repos.d"@,
                    ver: scheme_of(ver),
                    channel: channel_of(prerelease),
                },
            ),
        )
    } else {
        None
    }
}

/// Answers a request for an install script. Fails with
/// [`Error::RouteInput`] exactly when the tag names no package manager
/// that the gateway serves.
pub fn script_handler(
    host: &str,
    distro: &str,
    owner: &str,
    repo: &str,
    prerelease: Option<bool>,
    ver: Option<AppVersion>,
) -> (r: Result<String, Error>)
    ensures
        match r {
            Ok(text) => script_of(host@, distro@, owner@, repo@, prerelease, ver) == Some(text@),
            Err(e) => script_of(host@, distro@, owner@, repo@, prerelease, ver) is None && e
                == Error::RouteInput,
        },
{
    let scheme = match ver {
        Some(v) => v,
        None => AppVersion::V2,
    };
    let channel = match prerelease {
        Some(true) => ReleaseChannel::Unstable,
        _ => ReleaseChannel::Stable,
    };
    if str_eq(distro, "ubuntu") || str_eq(distro, "debian") {
        Ok(generate_apt_script(host, distro, owner, repo, &channel))
    } else if str_eq(distro, "yum") {
        Ok(generate_rpm_script(host, owner, repo, "yum.repos.d", &scheme, &channel))
    } else if str_eq(distro, "zypp") {
        Ok(generate_rpm_script(host, owner, repo, "zypp/repos.d", &scheme, &channel))
    } else {
        Err(Error::RouteInput)
    }
}

} // verus!
