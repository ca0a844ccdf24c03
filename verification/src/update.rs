//! Checking GitHub for a newer release of the launcher.
use vstd::prelude::*;
use crate::text::{
    chars_of, concat, lit, opt_view, string_from, strip_start, strip_start_exec, CharClass,
};
use crate::json::{field_view, json_string_field, string_field};
use crate::version::{spec_version_greater, version_greater};

verus! {

/// A newer release.
#[derive(Debug, Clone)]
pub struct ReleaseInfo {
    /// The release tag, such as `v1.2.0`.
    pub version: String,
    pub html_url: String,
    pub published_at: Option<String>,
}

/// What the front end is told after every check.
#[derive(Debug, Clone)]
pub struct UpdateCheckResult {
    /// The latest tag, or `unknown` after an error.
    pub latest: String,
    /// This launcher's version with a `v` in front.
    pub current: String,
    /// Whether the latest release is newer.
    pub update_available: bool,
    /// Why the check failed.
    pub error: Option<String>,
}

/// The release as plain values.
pub struct ReleaseModel {
    pub version: Seq<char>,
    pub html_url: Seq<char>,
    pub published_at: Option<Seq<char>>,
}

pub open spec fn release_view(r: ReleaseInfo) -> ReleaseModel {
    ReleaseModel { version: r.version@, html_url: r.html_url@, published_at: opt_view(r.published_at) }
}

/// The displayed form of a version: `v` in front.
pub open spec fn display_version(v: Seq<char>) -> Seq<char> {
    "v"@ + v
}

/// The outcome of a check from the `tag_name`, `html_url` and
/// `published_at` fields as read from the latest release's JSON, for this
/// launcher at version `current`: the release when its tag (without leading
/// `v`s) is newer, none when it is not, or the error for a body that does
/// not parse or lacks the tag or the page URL.
pub open spec fn release_of(
    tag: Result<Option<Seq<char>>, Seq<char>>,
    url: Result<Option<Seq<char>>, Seq<char>>,
    published: Result<Option<Seq<char>>, Seq<char>>,
    current: Seq<char>,
) -> Result<Option<ReleaseModel>, Seq<char>> {
    match tag {
        Err(e) => Err("解析 GitHub 响应失败: "@ + e),
        Ok(None) => Err("无法获取版本号"@),
        Ok(Some(tag)) => match url {
            Err(e) => Err("解析 GitHub 响应失败: "@ + e),
            Ok(None) => Err("无法获取下载链接"@),
            Ok(Some(url)) => if spec_version_greater(
                strip_start(tag, CharClass::Exactly('v')),
                current,
            ) {
                Ok(
                    Some(
                        ReleaseModel {
                            version: tag,
                            html_url: url,
                            published_at: match published {
                                Ok(p) => p,
                                Err(_) => None,
                            },
                        },
                    ),
                )
            } else {
                Ok(None)
            },
        },
    }
}

/// The outcome of a check against the latest release's JSON `body`.
pub open spec fn spec_check_release(body: Seq<char>, current: Seq<char>) -> Result<
    Option<ReleaseModel>,
    Seq<char>,
> {
    release_of(
        json_string_field(body, "tag_name"@),
        json_string_field(body, "html_url"@),
        json_string_field(body, "published_at"@),
        current,
    )
}

/// The tag that a successful check reports.
pub open spec fn reported_tag(tag: Result<Option<Seq<char>>, Seq<char>>) -> Seq<char> {
    match tag {
        Ok(Some(t)) => t,
        _ => Seq::empty(),
    }
}

/// What a check returns and reports, from the three fields as read from the
/// release JSON: every check is reported; a successful one reports the latest
/// tag and whether it is newer, a failed one `unknown` and the error.
pub fn release_check_of(
    tag: Result<Option<String>, String>,
    url: Result<Option<String>, String>,
    published: Result<Option<String>, String>,
    current: &str,
) -> (r: (Result<Option<ReleaseInfo>, String>, UpdateCheckResult))
    ensures
        match (r.0, release_of(field_view(tag), field_view(url), field_view(published), current@)) {
            (Ok(Some(i)), Ok(Some(m))) => release_view(i) == m,
            (Ok(None), Ok(None)) => true,
            (Err(e), Err(m)) => e@ == m,
            _ => false,
        },
        r.1.current@ == display_version(current@),
        match r.0 {
            Ok(found) => r.1.latest@ == reported_tag(field_view(tag)) && r.1.update_available
                == (found is Some) && r.1.error is None,
            Err(e) => r.1.latest@ == "unknown"@ && !r.1.update_available && opt_view(r.1.error)
                == Some(e@),
        },
{
    let prefix = chars_of("解析 GitHub 响应失败: ");
    let tag = match tag {
        Err(e) => {
            return failed(current, string_from(&concat(&prefix, &chars_of(e.as_str()))));
        },
        Ok(None) => {
            return failed(current, lit("无法获取版本号"));
        },
        Ok(Some(t)) => t,
    };
    let html_url = match url {
        Err(e) => {
            return failed(current, string_from(&concat(&prefix, &chars_of(e.as_str()))));
        },
        Ok(None) => {
            return failed(current, lit("无法获取下载链接"));
        },
        Ok(Some(u)) => u,
    };
    let published_at = match published {
        Ok(p) => p,
        Err(_) => None,
    };
    let release_version = string_from(&strip_start_exec(&chars_of(tag.as_str()), &CharClass::Exactly('v')));
    let current_display = string_from(&concat(&chars_of("v"), &chars_of(current)));
    if version_greater(release_version.as_str(), current) {
        let report = UpdateCheckResult {
            latest: tag.clone(),
            current: current_display,
            update_available: true,
            error: None,
        };
        (Ok(Some(ReleaseInfo { version: tag, html_url, published_at })), report)
    } else {
        let report = UpdateCheckResult {
            latest: tag,
            current: current_display,
            update_available: false,
            error: None,
        };
        (Ok(None), report)
    }
}

/// A check that failed with `message`: the error, and its report.
fn failed(current: &str, message: String) -> (r: (Result<Option<ReleaseInfo>, String>, UpdateCheckResult))
    ensures
        r.0 matches Err(e) && e@ == message@,
        r.1.latest@ == "unknown"@,
        r.1.current@ == display_version(current@),
        !r.1.update_available,
        opt_view(r.1.error) == Some(message@),
{
    let report = failure_report(current, message.clone());
    (Err(message), report)
}

/// What a check reports and returns for the release JSON `body`.
pub fn check_release(body: &str, current: &str) -> (r: (Result<Option<ReleaseInfo>, String>, UpdateCheckResult))
    ensures
        match (r.0, spec_check_release(body@, current@)) {
            (Ok(Some(i)), Ok(Some(m))) => release_view(i) == m,
            (Ok(None), Ok(None)) => true,
            (Err(e), Err(m)) => e@ == m,
            _ => false,
        },
        r.1.current@ == display_version(current@),
        match r.0 {
            Ok(found) => r.1.latest@ == reported_tag(json_string_field(body@, "tag_name"@))
                && r.1.update_available == (found is Some) && r.1.error is None,
            Err(e) => r.1.latest@ == "unknown"@ && !r.1.update_available && opt_view(r.1.error)
                == Some(e@),
        },
{
    let tag = string_field(body, "tag_name");
    let url = string_field(body, "html_url");
    let published = string_field(body, "published_at");
    release_check_of(tag, url, published, current)
}

/// What a failed check reports: latest `unknown`, no update, the message.
pub fn failure_report(current: &str, message: String) -> (r: UpdateCheckResult)
    ensures
        r.latest@ == "unknown"@,
        r.current@ == display_version(current@),
        !r.update_available,
        opt_view(r.error) == Some(message@),
{
    UpdateCheckResult {
        latest: lit("unknown"),
        current: string_from(&concat(&chars_of("v"), &chars_of(current))),
        update_available: false,
        error: Some(message),
    }
}

/// A check never offers the running version as an update: a release whose
/// tag names this very version is not newer.
pub proof fn law_same_version_not_offered(body: Seq<char>, current: Seq<char>)
    requires
        json_string_field(body, "tag_name"@) == Ok::<Option<Seq<char>>, Seq<char>>(Some(current)),
        strip_start(current, CharClass::Exactly('v')) == current,
        json_string_field(body, "html_url"@) is Ok,
        json_string_field(body, "html_url"@)->Ok_0 is Some,
    ensures
        spec_check_release(body, current) == Ok::<Option<ReleaseModel>, Seq<char>>(None),
{
    crate::version::law_version_greater_strict_order(current, current, current);
}

/// What a check gives for each reading of the release: a newer tag (leading
/// `v`s set aside) is offered with its page and publication time; a tag not
/// newer offers nothing; a tag or page URL that cannot be read fails with
/// the parse error, and a missing one with its own message.
pub proof fn law_release_outcomes(
    tag: Seq<char>,
    url: Seq<char>,
    published: Result<Option<Seq<char>>, Seq<char>>,
    e: Seq<char>,
    current: Seq<char>,
)
    ensures
        spec_version_greater(strip_start(tag, CharClass::Exactly('v')), current) ==> release_of(
            Ok(Some(tag)),
            Ok(Some(url)),
            published,
            current,
        ) == Ok::<Option<ReleaseModel>, Seq<char>>(
            Some(
                ReleaseModel {
                    version: tag,
                    html_url: url,
                    published_at: match published {
                        Ok(Some(p)) => Some(p),
                        _ => None,
                    },
                },
            ),
        ),
        !spec_version_greater(strip_start(tag, CharClass::Exactly('v')), current) ==> release_of(
            Ok(Some(tag)),
            Ok(Some(url)),
            published,
            current,
        ) == Ok::<Option<ReleaseModel>, Seq<char>>(None),
        release_of(Err(e), Ok(Some(url)), published, current) == Err::<Option<ReleaseModel>, Seq<char>>(
            "解析 GitHub 响应失败: "@ + e,
        ),
        release_of(Ok(None), Ok(Some(url)), published, current) == Err::<
            Option<ReleaseModel>,
            Seq<char>,
        >("无法获取版本号"@),
        release_of(Ok(Some(tag)), Err(e), published, current) == Err::<Option<ReleaseModel>, Seq<char>>(
            "解析 GitHub 响应失败: "@ + e,
        ),
        release_of(Ok(Some(tag)), Ok(None), published, current) == Err::<
            Option<ReleaseModel>,
            Seq<char>,
        >("无法获取下载链接"@),
{
}

} // verus!
