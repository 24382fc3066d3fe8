//! The `upgrade` subcommand: whether there is a newer release, and putting it in place.
use semver::Version;
use vstd::prelude::*;
use vstd::string::*;

use crate::failure::{Failure, FailureView};
use crate::i18n::{tr1, tr2, tr3, Language};
use crate::numbers::decimal;
use crate::text::{
    ends_with, join, last_word, push_line, str_eq, strip_prefix, to_ascii_lowercase, trim,
};

verus! {

/// Where the latest release is asked for.
pub const RELEASE_API_URL: &'static str =
    "https://api.github.com/repos/koyoter/unity_pipeline_cli/releases/latest";

/// A release.
#[derive(Debug, PartialEq, Eq)]
pub struct Release {
    pub tag_name: String,
    pub body: Option<String>,
    pub assets: Vec<Asset>,
}

/// A file of a release.
#[derive(Debug, PartialEq, Eq)]
pub struct Asset {
    pub name: String,
    pub browser_download_url: String,
}

/// What an [`Asset`] holds.
pub struct AssetView {
    pub name: Seq<char>,
    pub browser_download_url: Seq<char>,
}

/// What a [`Release`] holds.
pub struct ReleaseView {
    pub tag_name: Seq<char>,
    pub body: Option<Seq<char>>,
    pub assets: Seq<AssetView>,
}

impl View for Asset {
    type V = AssetView;

    open spec fn view(&self) -> AssetView {
        AssetView { name: self.name@, browser_download_url: self.browser_download_url@ }
    }
}

/// The views of a list of assets.
pub open spec fn asset_views(v: Seq<Asset>) -> Seq<AssetView> {
    Seq::new(v.len(), |i: int| v[i]@)
}

impl View for Release {
    type V = ReleaseView;

    open spec fn view(&self) -> ReleaseView {
        ReleaseView {
            tag_name: self.tag_name@,
            body: crate::text::opt_view(self.body),
            assets: asset_views(self.assets@),
        }
    }
}

impl Clone for Asset {
    fn clone(&self) -> (r: Self)
        ensures
            r@ == self@,
    {
        Asset {
            name: self.name.clone(),
            browser_download_url: self.browser_download_url.clone(),
        }
    }
}

// ---------------------------------------------------------------------------
// Versions
// ---------------------------------------------------------------------------
/// Major, minor and patch of a version.
pub type Triple = (u64, u64, u64);

/// The text of a version without pre-release and build metadata.
pub open spec fn plain_version(v: Triple) -> Seq<char> {
    crate::numbers::decimal_of(v.0 as nat) + "."@ + crate::numbers::decimal_of(v.1 as nat) + "."@
        + crate::numbers::decimal_of(v.2 as nat)
}

/// Whether the version `a` comes behind the version `b`.
pub open spec fn triple_later(a: Triple, b: Triple) -> bool {
    a.0 > b.0 || (a.0 == b.0 && (a.1 > b.1 || (a.1 == b.1 && a.2 > b.2)))
}

/// What `semver::Version::parse` says is wrong with a text; `None` for a version.
pub uninterp spec fn version_problem(text: Seq<char>) -> Option<Seq<char>>;

/// Whether `semver::Version` puts the version that the first text names behind the one that the
/// second names.
pub uninterp spec fn version_later(a: Seq<char>, b: Seq<char>) -> bool;

/// Whether a character may stand in an identifier of a pre-release or of build metadata.
pub open spec fn identifier_char(c: char) -> bool {
    '0' <= c <= '9' || 'A' <= c <= 'Z' || 'a' <= c <= 'z' || c == '-'
}

/// Whether a text is a number with a zero in front of it.
pub open spec fn zero_padded(id: Seq<char>) -> bool {
    id.len() > 1 && id[0] == '0' && forall|i: int|
        0 <= i < id.len() ==> '0' <= #[trigger] id[i] <= '9'
}

/// Whether a text is an identifier.
pub open spec fn is_identifier(id: Seq<char>) -> bool {
    id.len() > 0 && forall|i: int| 0 <= i < id.len() ==> identifier_char(#[trigger] id[i])
}

/// The parts of a version: its numbers, and the identifiers of its pre-release and its build
/// metadata, where it has them.
pub struct VersionParts {
    pub core: Triple,
    pub pre: Option<Seq<Seq<char>>>,
    pub build: Option<Seq<Seq<char>>>,
}

/// Whether parts make up a version. A number in a pre-release has no zero in front of it.
pub open spec fn parts_fit(p: VersionParts) -> bool {
    &&& p.pre matches Some(ids) ==> ids.len() > 0 && forall|i: int|
        0 <= i < ids.len() ==> is_identifier(#[trigger] ids[i]) && !zero_padded(ids[i])
    &&& p.build matches Some(ids) ==> ids.len() > 0 && forall|i: int|
        0 <= i < ids.len() ==> is_identifier(#[trigger] ids[i])
}

/// Identifiers behind their mark.
pub open spec fn marked(mark: char, ids: Option<Seq<Seq<char>>>) -> Seq<char> {
    match ids {
        Some(ids) => seq![mark] + crate::text::join_of(ids, seq!['.']),
        None => seq![],
    }
}

/// The text of a version such as `1.2.3-beta.1+build`.
pub open spec fn version_text(p: VersionParts) -> Seq<char> {
    plain_version(p.core) + marked('-', p.pre) + marked('+', p.build)
}

/// Whether a text is that of a version.
pub open spec fn is_version(text: Seq<char>) -> bool {
    exists|p: VersionParts| parts_fit(p) && text == #[trigger] version_text(p)
}

/// `semver::Version::parse`: the message of its error, or `None` exactly where the text is a
/// version: three decimal numbers of up to 64 bits with points between them, then a pre-release
/// and build metadata, where there are any.
#[verifier::external_body]
fn check_version(text: &str) -> (r: Option<String>)
    ensures
        crate::text::opt_view(r) == version_problem(text@),
        r is None == is_version(text@),
{
    Version::parse(text).err().map(|e| e.to_string())
}

/// A plain version is a version, and so is one with a pre-release behind it.
pub proof fn versions_are_recognised(core: Triple, pre: Seq<Seq<char>>)
    ensures
        is_version(plain_version(core)),
        pre.len() > 0 && (forall|i: int|
            0 <= i < pre.len() ==> is_identifier(#[trigger] pre[i]) && !zero_padded(pre[i]))
            ==> is_version(plain_version(core) + "-"@ + crate::text::join_of(pre, "."@)),
{
    reveal_strlit("-");
    reveal_strlit(".");
    assert("-"@ =~= seq!['-'] && "."@ =~= seq!['.']);
    let plain = VersionParts { core, pre: None, build: None };
    assert(parts_fit(plain));
    assert(version_text(plain) =~= plain_version(core));
    let with_pre = VersionParts { core, pre: Some(pre), build: None };
    assert(version_text(with_pre) =~= plain_version(core) + "-"@ + crate::text::join_of(
        pre,
        "."@,
    ));
    if pre.len() > 0 && (forall|i: int|
        0 <= i < pre.len() ==> is_identifier(#[trigger] pre[i]) && !zero_padded(pre[i])) {
        assert(parts_fit(with_pre));
    }
}

/// Whether a text starts with the three numbers of a version, and goes on with nothing, a
/// pre-release or build metadata.
pub open spec fn has_core(text: Seq<char>, v: Triple) -> bool {
    let n = plain_version(v).len() as int;
    plain_version(v).is_prefix_of(text) && (text.len() == n || text[n] == '-' || text[n] == '+')
}

/// Whether a text is that of a pre-release of a version.
pub open spec fn is_pre_release(text: Seq<char>, v: Triple) -> bool {
    let n = plain_version(v).len() as int;
    plain_version(v).is_prefix_of(text) && text.len() > n && text[n] == '-'
}

/// What is known of comparing two versions: `later` says whether the first comes behind the second.
pub open spec fn ordered(a: Seq<char>, b: Seq<char>, later: bool) -> bool {
    &&& a == b ==> !later
    &&& forall|x: Triple, y: Triple|
        #[trigger] has_core(a, x) && #[trigger] has_core(b, y) && x != y ==> later
            == triple_later(x, y)
    &&& forall|x: Triple|
        a == #[trigger] plain_version(x) && is_pre_release(b, x) ==> later
    &&& forall|x: Triple|
        b == #[trigger] plain_version(x) && is_pre_release(a, x) ==> !later
}

/// `>` of `semver::Version`, on what the texts parse as. A version does not come behind itself,
/// versions are compared by their three numbers first, and a release comes behind its
/// pre-releases.
#[verifier::external_body]
fn is_later(a: &str, b: &str) -> (r: bool)
    requires
        version_problem(a@) is None,
        version_problem(b@) is None,
    ensures
        r == version_later(a@, b@),
        ordered(a@, b@, r),
{
    Version::parse(a).unwrap() > Version::parse(b).unwrap()
}

/// The version that a tag such as `v0.1.2` names.
pub open spec fn tag_version(tag: Seq<char>) -> Seq<char> {
    match crate::text::strip_prefix_of(tag, "v"@) {
        Some(rest) => rest,
        None => tag,
    }
}

/// Whether a tag is newer than the current version, given what is wrong with the two as versions
/// and whether the first comes behind the second.
pub open spec fn newer_from(
    lang: Language,
    tag: Seq<char>,
    current: Seq<char>,
    tag_problem: Option<Seq<char>>,
    current_problem: Option<Seq<char>>,
    later: bool,
) -> Result<bool, FailureView> {
    match tag_problem {
        Some(e) => Err(
            FailureView::Message(
                crate::i18n::message_with(lang, "upgrade.parse_tag_failed"@, seq![tag]) + ": "@ + e,
            ),
        ),
        None => match current_problem {
            Some(e) => Err(
                FailureView::Message(
                    crate::i18n::message_with(
                        lang,
                        "upgrade.parse_current_version_failed"@,
                        seq![current],
                    ) + ": "@ + e,
                ),
            ),
            None => Ok(later),
        },
    }
}

/// Whether a tag is newer than the current version.
pub open spec fn newer(lang: Language, tag: Seq<char>, current: Seq<char>) -> Result<
    bool,
    FailureView,
> {
    newer_from(
        lang,
        tag,
        current,
        version_problem(tag_version(tag)),
        version_problem(current),
        version_later(tag_version(tag), current),
    )
}

/// The view of an outcome.
pub open spec fn newer_outcome(r: Result<bool, Failure>) -> Result<bool, FailureView> {
    match r {
        Ok(b) => Ok(b),
        Err(e) => Err(e@),
    }
}

/// Whether a tag is newer than the current version, given what is wrong with the two as versions
/// and whether the first comes behind the second.
pub fn decide_newer(
    lang: Language,
    tag: &str,
    current: &str,
    tag_problem: Option<String>,
    current_problem: Option<String>,
    later: bool,
) -> (r: Result<bool, Failure>)
    ensures
        newer_outcome(r) == newer_from(
            lang,
            tag@,
            current@,
            crate::text::opt_view(tag_problem),
            crate::text::opt_view(current_problem),
            later,
        ),
{
    match tag_problem {
        Some(e) => {
            let mut message = tr1(lang, "upgrade.parse_tag_failed", tag);
            message.append(": ");
            message.append(e.as_str());
            Err(Failure::Message(message))
        },
        None => match current_problem {
            Some(e) => {
                let mut message = tr1(lang, "upgrade.parse_current_version_failed", current);
                message.append(": ");
                message.append(e.as_str());
                Err(Failure::Message(message))
            },
            None => Ok(later),
        },
    }
}

/// The version that a tag such as `v0.1.2` names.
fn version_of_tag(tag: &str) -> (r: String)
    ensures
        r@ == tag_version(tag@),
{
    match strip_prefix(tag, "v") {
        Some(rest) => rest,
        None => tag.to_owned(),
    }
}

/// The tag looks like `v0.1.2`; it is compared with the current version as semver compares, and
/// counts as new only where it is newer.
pub fn is_newer(lang: Language, tag: &str, current: &str) -> (r: Result<bool, Failure>)
    ensures
        newer_outcome(r) == newer(lang, tag@, current@),
        r matches Ok(is_new) ==> ordered(tag_version(tag@), current@, is_new),
        r is Ok == (is_version(tag_version(tag@)) && is_version(current@)),
{
    let latest = version_of_tag(tag);
    let tag_problem = check_version(latest.as_str());
    let current_problem = check_version(current);
    let later = if tag_problem.is_none() && current_problem.is_none() {
        is_later(latest.as_str(), current)
    } else {
        false
    };
    decide_newer(lang, tag, current, tag_problem, current_problem, later)
}

/// Releases are compared by their numbers: of two texts of three numbers each, the first is the
/// later one exactly where its numbers are.
pub proof fn releases_compare_by_numbers(x: Triple, y: Triple, later: bool)
    requires
        ordered(plain_version(x), plain_version(y), later),
    ensures
        later == triple_later(x, y),
{
    assert(plain_version(x).is_prefix_of(plain_version(x)));
    assert(plain_version(y).is_prefix_of(plain_version(y)));
    assert(has_core(plain_version(x), x));
    assert(has_core(plain_version(y), y));
}

// ---------------------------------------------------------------------------
// The asset
// ---------------------------------------------------------------------------
/// What the name of an asset for a platform ends in.
pub open spec fn asset_suffix(platform: Seq<char>) -> Seq<char> {
    "-"@ + platform + ".tar.gz"@
}

/// The first asset from position `from` on for a platform.
pub open spec fn asset_from(assets: Seq<AssetView>, platform: Seq<char>, from: int) -> Option<
    AssetView,
>
    decreases assets.len() - from,
{
    if 0 <= from < assets.len() {
        if asset_suffix(platform).is_suffix_of(assets[from].name) {
            Some(assets[from])
        } else {
            asset_from(assets, platform, from + 1)
        }
    } else {
        None
    }
}

/// The view of an optional reference to an asset.
pub open spec fn opt_asset(a: Option<&Asset>) -> Option<AssetView> {
    match a {
        Some(x) => Some(x@),
        None => None,
    }
}

/// Matches an asset by the platform: the suffix `-windows-x86_64.tar.gz` of
/// `unity_pipeline_cli-0.1.2-windows-x86_64.tar.gz` agrees with the platform that `--version`
/// shows.
pub fn pick_asset<'a>(assets: &'a Vec<Asset>, platform: &str) -> (r: Option<&'a Asset>)
    ensures
        opt_asset(r) == asset_from(asset_views(assets@), platform@, 0),
{
    let mut suffix = "-".to_owned();
    suffix.append(platform);
    suffix.append(".tar.gz");
    let ghost all = asset_views(assets@);
    let mut i: usize = 0;
    while i < assets.len()
        invariant
            i <= assets@.len(),
            all == asset_views(assets@),
            suffix@ == asset_suffix(platform@),
            asset_from(all, platform@, 0) == asset_from(all, platform@, i as int),
        decreases assets@.len() - i,
    {
        assert(all[i as int] == assets@[i as int]@);
        if ends_with(assets[i].name.as_str(), suffix.as_str()) {
            return Some(&assets[i]);
        }
        i = i + 1;
    }
    None
}

// ---------------------------------------------------------------------------
// The offer
// ---------------------------------------------------------------------------
/// What is done about the latest release.
#[derive(Debug, PartialEq, Eq)]
pub enum UpgradePlan {
    /// Nothing: what is said.
    UpToDate { line: String },
    /// There is a newer one, without a file for this platform: what is said, and the failure.
    NoAsset { lines: Vec<String>, failure: Failure },
    /// A newer one is offered: what is said, the question, its version and its file.
    Offer { lines: Vec<String>, prompt: String, latest: String, asset: Asset },
}

/// What an [`UpgradePlan`] holds.
pub enum UpgradeView {
    UpToDate { line: Seq<char> },
    NoAsset { lines: Seq<Seq<char>>, failure: FailureView },
    Offer { lines: Seq<Seq<char>>, prompt: Seq<char>, latest: Seq<char>, asset: AssetView },
}

impl View for UpgradePlan {
    type V = UpgradeView;

    open spec fn view(&self) -> UpgradeView {
        match self {
            UpgradePlan::UpToDate { line } => UpgradeView::UpToDate { line: line@ },
            UpgradePlan::NoAsset { lines, failure } => UpgradeView::NoAsset {
                lines: crate::text::views(lines@),
                failure: failure@,
            },
            UpgradePlan::Offer { lines, prompt, latest, asset } => UpgradeView::Offer {
                lines: crate::text::views(lines@),
                prompt: prompt@,
                latest: latest@,
                asset: asset@,
            },
        }
    }
}

/// What is said of a newer release.
pub open spec fn release_lines(lang: Language, current: Seq<char>, release: ReleaseView) -> Seq<
    Seq<char>,
> {
    let body = crate::text::trim_of(crate::pipeline::or_empty(release.body));
    let found = crate::i18n::message_with(
        lang,
        "upgrade.found_new_version"@,
        seq![current, tag_version(release.tag_name)],
    );
    if body.len() == 0 {
        seq![found]
    } else {
        seq![found, "\n"@ + body + "\n"@]
    }
}

/// The names of assets.
pub open spec fn asset_names(assets: Seq<AssetView>) -> Seq<Seq<char>> {
    Seq::new(assets.len(), |i: int| assets[i].name)
}

/// What is done about a release that is newer, or not, than the current version.
pub open spec fn plan_from(
    lang: Language,
    release: ReleaseView,
    current: Seq<char>,
    platform: Seq<char>,
    is_new: bool,
) -> UpgradeView {
    let latest = tag_version(release.tag_name);
    let lines = release_lines(lang, current, release);
    if !is_new {
        UpgradeView::UpToDate {
            line: crate::i18n::message_with(lang, "upgrade.already_latest"@, seq![current]),
        }
    } else {
        match asset_from(release.assets, platform, 0) {
            Some(asset) => UpgradeView::Offer {
                lines,
                prompt: crate::i18n::message_with(lang, "upgrade.confirm_update"@, seq![latest]),
                latest,
                asset,
            },
            None => UpgradeView::NoAsset {
                lines,
                failure: FailureView::Message(
                    crate::i18n::message_with(
                        lang,
                        "upgrade.no_platform_asset"@,
                        seq![
                            latest,
                            platform,
                            crate::text::join_of(asset_names(release.assets), ", "@),
                        ],
                    ),
                ),
            },
        }
    }
}

/// What is done about the latest release. The platform is the last word of what `--version`
/// shows.
pub open spec fn upgrade_of(
    lang: Language,
    release: ReleaseView,
    current: Seq<char>,
    version_str: Seq<char>,
) -> Result<UpgradeView, FailureView> {
    match newer(lang, release.tag_name, current) {
        Ok(is_new) => Ok(
            plan_from(lang, release, current, crate::text::last_word_of(version_str), is_new),
        ),
        Err(e) => Err(e),
    }
}

/// The view of an outcome.
pub open spec fn upgrade_outcome(r: Result<UpgradePlan, Failure>) -> Result<
    UpgradeView,
    FailureView,
> {
    match r {
        Ok(p) => Ok(p@),
        Err(e) => Err(e@),
    }
}

/// The names of assets.
fn names_of(assets: &Vec<Asset>) -> (r: Vec<String>)
    ensures
        crate::text::views(r@) == asset_names(asset_views(assets@)),
{
    let ghost all = asset_names(asset_views(assets@));
    let mut out: Vec<String> = Vec::new();
    let mut i: usize = 0;
    assert(crate::text::views(out@) =~= all.take(0));
    while i < assets.len()
        invariant
            i <= assets@.len(),
            all == asset_names(asset_views(assets@)),
            crate::text::views(out@) == all.take(i as int),
        decreases assets@.len() - i,
    {
        push_line(&mut out, assets[i].name.clone());
        assert(crate::text::views(out@) =~= all.take(i + 1));
        i = i + 1;
    }
    assert(all.take(i as int) =~= all);
    out
}

/// What is done about a release that is newer, or not, than the current version.
pub fn plan_release(
    lang: Language,
    release: &Release,
    current: &str,
    platform: &str,
    is_new: bool,
) -> (r: UpgradePlan)
    ensures
        r@ == plan_from(lang, release@, current@, platform@, is_new),
{
    if !is_new {
        return UpgradePlan::UpToDate { line: tr1(lang, "upgrade.already_latest", current) };
    }
    let latest = version_of_tag(release.tag_name.as_str());
    let mut lines: Vec<String> = Vec::new();
    assert(crate::text::views(lines@) =~= Seq::empty());
    push_line(&mut lines, tr2(lang, "upgrade.found_new_version", current, latest.as_str()));
    let notes = match &release.body {
        Some(b) => b.clone(),
        None => String::new(),
    };
    assert(notes@ =~= crate::pipeline::or_empty(release@.body));
    let body = trim(notes.as_str());
    if !body.as_str().is_empty() {
        let mut text = "\n".to_owned();
        text.append(body.as_str());
        text.append("\n");
        push_line(&mut lines, text);
    }
    assert(crate::text::views(lines@) =~= release_lines(lang, current@, release@));
    match pick_asset(&release.assets, platform) {
        Some(asset) => UpgradePlan::Offer {
            lines,
            prompt: tr1(lang, "upgrade.confirm_update", latest.as_str()),
            asset: asset.clone(),
            latest,
        },
        None => {
            let available = join(&names_of(&release.assets), ", ");
            UpgradePlan::NoAsset {
                lines,
                failure: Failure::Message(
                    tr3(
                        lang,
                        "upgrade.no_platform_asset",
                        latest.as_str(),
                        platform,
                        available.as_str(),
                    ),
                ),
            }
        },
    }
}

/// What is done about the latest release. `version_str` is what `--version` shows: its last word
/// is the platform, which agrees with the one in the names of the assets.
pub fn run(lang: Language, release: &Release, current: &str, version_str: &str) -> (r: Result<
    UpgradePlan,
    Failure,
>)
    ensures
        upgrade_outcome(r) == upgrade_of(lang, release@, current@, version_str@),
{
    match is_newer(lang, release.tag_name.as_str(), current) {
        Ok(is_new) => {
            let platform = last_word(version_str);
            Ok(plan_release(lang, release, current, platform.as_str(), is_new))
        },
        Err(e) => Err(e),
    }
}

/// Whether an answer is a yes.
pub open spec fn affirms(line: Seq<char>) -> bool {
    let answer = crate::text::ascii_lower(crate::text::trim_of(line));
    answer == "y"@ || answer == "yes"@
}

/// Whether the answer to the question is a yes.
pub fn is_confirmed(line: &str) -> (r: bool)
    ensures
        r == affirms(line@),
{
    let answer = to_ascii_lowercase(trim(line).as_str());
    str_eq(answer.as_str(), "y") || str_eq(answer.as_str(), "yes")
}

/// The one file of an archive, or the failure where there is not exactly one.
pub open spec fn only_file(lang: Language, files: Seq<Seq<char>>, exe: Seq<char>) -> Result<
    Seq<char>,
    FailureView,
> {
    if files.len() == 1 {
        Ok(files[0])
    } else {
        Err(
            FailureView::Message(
                crate::i18n::message_with(
                    lang,
                    "upgrade.ambiguous_extracted_file"@,
                    seq![crate::numbers::decimal_of(files.len()), exe],
                ),
            ),
        )
    }
}

/// The archive holds a single file at its root (releases are packed with one executable): take
/// it.
pub fn extracted_file(lang: Language, files: &Vec<String>, exe: &str) -> (r: Result<String, Failure>)
    ensures
        crate::http::text_outcome(r) == only_file(lang, crate::text::views(files@), exe@),
{
    assert(crate::text::views(files@).len() == files@.len());
    let n: usize = files.len();
    if n == 1 {
        assert(crate::text::views(files@)[0] == files@[0]@);
        return Ok(files[0].clone());
    }
    Err(
        Failure::Message(
            tr2(lang, "upgrade.ambiguous_extracted_file", decimal(n as u64).as_str(), exe),
        ),
    )
}

// ---------------------------------------------------------------------------
// Putting the new executable in place
// ---------------------------------------------------------------------------
/// What is to be done next. A running executable cannot be overwritten on Windows, but it can be
/// renamed to make room: the executable goes aside, and the new one takes its place.
#[derive(Debug, Clone, Copy, PartialEq, Eq, Structural)]
pub enum SwapStep {
    /// Rename the executable to its name with `.old`.
    SetAside,
    /// Rename the new executable to the name of the executable.
    PutInPlace,
    /// Rename the one set aside back.
    RollBack,
    /// Nothing: the new executable is in place.
    Replaced,
    /// Nothing: the executable could not be set aside.
    NotSetAside,
    /// Nothing: the new executable could not be put in place, and the one set aside was put back
    /// as far as possible.
    NotPlaced,
}

/// The step that follows one that succeeded or failed.
pub open spec fn following(step: SwapStep, ok: bool) -> SwapStep {
    match step {
        SwapStep::SetAside => if ok {
            SwapStep::PutInPlace
        } else {
            SwapStep::NotSetAside
        },
        SwapStep::PutInPlace => if ok {
            SwapStep::Replaced
        } else {
            SwapStep::RollBack
        },
        SwapStep::RollBack => SwapStep::NotPlaced,
        done => done,
    }
}

/// The step that follows one that succeeded or failed.
pub fn next_step(step: SwapStep, ok: bool) -> (r: SwapStep)
    ensures
        r == following(step, ok),
{
    match step {
        SwapStep::SetAside => if ok {
            SwapStep::PutInPlace
        } else {
            SwapStep::NotSetAside
        },
        SwapStep::PutInPlace => if ok {
            SwapStep::Replaced
        } else {
            SwapStep::RollBack
        },
        SwapStep::RollBack => SwapStep::NotPlaced,
        done => done,
    }
}

/// Which of the two executables stands under which name: under the executable's own name, under
/// the name with `.old`, and where the new one was unpacked.
pub struct Places {
    pub own: Option<bool>,
    pub old: Option<bool>,
    pub unpacked: Option<bool>,
}

/// The places after a step that succeeded or failed; a failed renaming changes nothing.
pub open spec fn places_after(p: Places, step: SwapStep, ok: bool) -> Places {
    if !ok {
        p
    } else {
        match step {
            SwapStep::SetAside => Places { own: None, old: p.own, ..p },
            SwapStep::PutInPlace => Places { own: p.unpacked, unpacked: None, ..p },
            SwapStep::RollBack => Places { own: p.old, old: None, ..p },
            _ => p,
        }
    }
}

/// A replacement that fails leaves the executable where it was: from a place where the old one
/// stands under its own name, whatever the renamings come to, the steps end with the new
/// executable there or the old one, but for the case in which putting it back fails too.
pub proof fn failed_swap_keeps_the_executable(
    before: Places,
    aside: bool,
    placed: bool,
    back: bool,
)
    requires
        before.own == Some(false),
        before.unpacked == Some(true),
    ensures
        ({
            let s1 = following(SwapStep::SetAside, aside);
            let p1 = places_after(before, SwapStep::SetAside, aside);
            let s2 = following(s1, placed);
            let p2 = places_after(p1, s1, placed);
            let s3 = following(s2, back);
            let p3 = places_after(p2, s2, back);
            &&& s3 == SwapStep::Replaced ==> p3.own == Some(true)
            &&& s3 == SwapStep::NotSetAside ==> p3.own == Some(false)
            &&& s3 == SwapStep::NotPlaced && back ==> p3.own == Some(false)
            &&& s3 == SwapStep::Replaced || s3 == SwapStep::NotSetAside || s3
                == SwapStep::NotPlaced
        }),
{
}

/// The name that the executable has while it is set aside.
pub fn old_exe_name(exe_name: &str) -> (r: String)
    ensures
        r@ == exe_name@ + ".old"@,
{
    let mut name = exe_name.to_owned();
    name.append(".old");
    name
}

/// The name of the directory that an upgrade works in. It lies beside the executable: on one
/// volume, renaming does not fail for crossing from one to another.
pub fn tmp_dir_name(pid: u32) -> (r: String)
    ensures
        r@ == ".upgrade_"@ + crate::numbers::decimal_of(pid as nat),
{
    let mut name = ".upgrade_".to_owned();
    name.append(decimal(pid as u64).as_str());
    name
}

// ---------------------------------------------------------------------------
// What the last upgrade left
// ---------------------------------------------------------------------------
/// How often the removal of the executable that was set aside is tried.
pub const CLEAN_TRIES: u32 = 12;

/// The wait behind a try that failed, in milliseconds.
pub const CLEAN_WAIT_MILLIS: u64 = 250;

/// Whether the removal of what the last upgrade left is tried once more, after so many tries that
/// failed. The process of the last upgrade may just be ending and still hold its executable, hence
/// the tries: with a wait behind each that failed, for three seconds at most. What is still there
/// is left for the next run.
pub fn clean_stale_old_exe(failed: u32) -> (r: bool)
    ensures
        r == (failed < CLEAN_TRIES),
{
    failed < CLEAN_TRIES
}

// ---------------------------------------------------------------------------
// Laws
// ---------------------------------------------------------------------------
/// The version of a tag is the tag without the letter that may precede it.
pub proof fn tags_name_versions(version: Seq<char>)
    ensures
        tag_version("v"@ + version) == version,
        !"v"@.is_prefix_of(version) ==> tag_version(version) == version,
{
    crate::text::affixes_are_stripped(version, "v"@);
}

/// A release is newer as the versions compare, where both can be read; a tag that cannot be read is
/// an error that names it, and so is a current version, after the tag.
pub proof fn versions_decide_newness(
    lang: Language,
    tag: Seq<char>,
    current: Seq<char>,
    e: Seq<char>,
    f: Option<Seq<char>>,
    later: bool,
)
    ensures
        newer_from(lang, tag, current, None, None, later) == Ok::<bool, FailureView>(later),
        newer_from(lang, tag, current, Some(e), f, later) == Err::<bool, FailureView>(
            FailureView::Message(
                crate::i18n::message_with(lang, "upgrade.parse_tag_failed"@, seq![tag]) + ": "@ + e,
            ),
        ),
        newer_from(lang, tag, current, None, Some(e), later) == Err::<bool, FailureView>(
            FailureView::Message(
                crate::i18n::message_with(
                    lang,
                    "upgrade.parse_current_version_failed"@,
                    seq![current],
                ) + ": "@ + e,
            ),
        ),
{
}

/// The tag's version and the current one are the two that are read and compared, in this order.
pub proof fn tags_are_compared_with_the_current(lang: Language, version: Seq<char>, current: Seq<char>)
    requires
        version_problem(version) is None,
        version_problem(current) is None,
    ensures
        newer(lang, "v"@ + version, current) == Ok::<bool, FailureView>(
            version_later(version, current),
        ),
        !"v"@.is_prefix_of(version) ==> newer(lang, version, current) == Ok::<bool, FailureView>(
            version_later(version, current),
        ),
{
    crate::text::affixes_are_stripped(version, "v"@);
}

/// Versions compare by their major number, then by their minor one, then by their patch.
pub proof fn numbers_compare_in_order(a: Triple, b: Triple)
    ensures
        a.0 > b.0 ==> triple_later(a, b),
        a.0 == b.0 && a.1 > b.1 ==> triple_later(a, b),
        a.0 == b.0 && a.1 == b.1 && a.2 > b.2 ==> triple_later(a, b),
        triple_later(a, b) ==> !triple_later(b, a),
        a == b ==> !triple_later(a, b),
{
}

/// The file for a platform is the first one whose name ends in the platform's archive.
pub proof fn first_platform_file_is_taken(
    assets: Seq<AssetView>,
    platform: Seq<char>,
    from: int,
    i: int,
)
    requires
        0 <= from <= i <= assets.len(),
        i < assets.len() ==> ("-"@ + platform + ".tar.gz"@).is_suffix_of(assets[i].name),
        forall|j: int|
            from <= j < i ==> !("-"@ + platform + ".tar.gz"@).is_suffix_of(
                (#[trigger] assets[j]).name,
            ),
    ensures
        i < assets.len() ==> asset_from(assets, platform, from) == Some(assets[i]),
        i == assets.len() ==> asset_from(assets, platform, from) is None,
    decreases i - from,
{
    if from < i {
        assert(!("-"@ + platform + ".tar.gz"@).is_suffix_of(assets[from].name));
        first_platform_file_is_taken(assets, platform, from + 1, i);
    }
}

/// A release that is not newer is said to be current. A newer one is offered with its file, or
/// refused where it has none for the platform: the failure names the files that it has.
pub proof fn newer_releases_are_offered(
    lang: Language,
    release: ReleaseView,
    current: Seq<char>,
    platform: Seq<char>,
    asset: AssetView,
)
    ensures
        plan_from(lang, release, current, platform, false) == (UpgradeView::UpToDate {
            line: crate::i18n::message_with(lang, "upgrade.already_latest"@, seq![current]),
        }),
        asset_from(release.assets, platform, 0) == Some(asset) ==> plan_from(
            lang,
            release,
            current,
            platform,
            true,
        ) == (UpgradeView::Offer {
            lines: release_lines(lang, current, release),
            prompt: crate::i18n::message_with(
                lang,
                "upgrade.confirm_update"@,
                seq![tag_version(release.tag_name)],
            ),
            latest: tag_version(release.tag_name),
            asset,
        }),
        asset_from(release.assets, platform, 0) is None ==> plan_from(
            lang,
            release,
            current,
            platform,
            true,
        ) == (UpgradeView::NoAsset {
            lines: release_lines(lang, current, release),
            failure: FailureView::Message(
                crate::i18n::message_with(
                    lang,
                    "upgrade.no_platform_asset"@,
                    seq![
                        tag_version(release.tag_name),
                        platform,
                        crate::text::join_of(
                            Seq::new(release.assets.len(), |i: int| release.assets[i].name),
                            ", "@,
                        ),
                    ],
                ),
            ),
        }),
{
    assert(asset_names(release.assets) =~= Seq::new(
        release.assets.len(),
        |i: int| release.assets[i].name,
    ));
}

/// The plan follows from whether the release is newer, for the platform that the program's version
/// ends in.
pub proof fn plans_follow_the_versions(
    lang: Language,
    release: ReleaseView,
    current: Seq<char>,
    version: Seq<char>,
    is_new: bool,
    e: FailureView,
)
    ensures
        newer(lang, release.tag_name, current) == Ok::<bool, FailureView>(is_new) ==> upgrade_of(
            lang,
            release,
            current,
            version,
        ) == Ok::<UpgradeView, FailureView>(
            plan_from(lang, release, current, crate::text::last_word_of(version), is_new),
        ),
        newer(lang, release.tag_name, current) == Err::<bool, FailureView>(e) ==> upgrade_of(
            lang,
            release,
            current,
            version,
        ) == Err::<UpgradeView, FailureView>(e),
{
}

/// A new release is announced with both versions, and with its notes where it has any.
pub proof fn releases_are_announced(lang: Language, current: Seq<char>, r: ReleaseView, notes: Seq<char>)
    ensures
        ({
            let found = crate::i18n::message_with(
                lang,
                "upgrade.found_new_version"@,
                seq![current, tag_version(r.tag_name)],
            );
            let said = crate::text::trim_of(notes);
            &&& r.body is None ==> release_lines(lang, current, r) == seq![found]
            &&& r.body == Some(notes) && said.len() == 0 ==> release_lines(lang, current, r)
                == seq![found]
            &&& r.body == Some(notes) && said.len() > 0 ==> release_lines(lang, current, r) == seq![
                found,
                "\n"@ + said + "\n"@,
            ]
        }),
{
    crate::text::trimming_keeps_the_text(seq![], seq![], seq![]);
    assert(Seq::<char>::empty() + Seq::<char>::empty() + Seq::<char>::empty()
        =~= Seq::<char>::empty());
}

/// Only a yes affirms, in whatever case and with white space around it.
pub proof fn only_yes_affirms(line: Seq<char>)
    ensures
        ({
            let answer = crate::text::ascii_lower(crate::text::trim_of(line));
            &&& answer == "y"@ ==> affirms(line)
            &&& answer == "yes"@ ==> affirms(line)
            &&& answer != "y"@ && answer != "yes"@ ==> !affirms(line)
        }),
        !affirms(Seq::<char>::empty()),
{
    reveal_strlit("y");
    reveal_strlit("yes");
    assert("y"@.len() == 1 && "yes"@.len() == 3);
    crate::text::trimming_keeps_the_text(seq![], seq![], seq![]);
    assert(Seq::<char>::empty() + Seq::<char>::empty() + Seq::<char>::empty()
        =~= Seq::<char>::empty());
}

/// The file in an archive is its only one; an archive with none, or with several, is refused.
pub proof fn archives_hold_one_file(lang: Language, files: Seq<Seq<char>>, file: Seq<char>, exe: Seq<char>)
    ensures
        only_file(lang, seq![file], exe) == Ok::<Seq<char>, FailureView>(file),
        files.len() != 1 ==> only_file(lang, files, exe) == Err::<Seq<char>, FailureView>(
            FailureView::Message(
                crate::i18n::message_with(
                    lang,
                    "upgrade.ambiguous_extracted_file"@,
                    seq![crate::numbers::decimal_of(files.len()), exe],
                ),
            ),
        ),
{
}

/// The executable is set aside, the new one is put in its place, and where that fails the old one
/// is put back. Each step that fails leads to its own end.
pub proof fn swaps_go_step_by_step()
    ensures
        following(SwapStep::SetAside, true) == SwapStep::PutInPlace,
        following(SwapStep::SetAside, false) == SwapStep::NotSetAside,
        following(SwapStep::PutInPlace, true) == SwapStep::Replaced,
        following(SwapStep::PutInPlace, false) == SwapStep::RollBack,
        following(SwapStep::RollBack, true) == SwapStep::NotPlaced,
        following(SwapStep::RollBack, false) == SwapStep::NotPlaced,
        following(SwapStep::Replaced, true) == SwapStep::Replaced,
        following(SwapStep::NotSetAside, true) == SwapStep::NotSetAside,
        following(SwapStep::NotPlaced, true) == SwapStep::NotPlaced,
{
}

/// A release comes behind its own pre-releases, and no version behind itself.
pub proof fn pre_releases_come_before(v: Triple, pre: Seq<char>, later: bool)
    ensures
        ordered(plain_version(v), plain_version(v) + "-"@ + pre, later) ==> later,
        ordered(plain_version(v) + "-"@ + pre, plain_version(v), later) ==> !later,
        ordered(pre, pre, later) ==> !later,
{
    reveal_strlit("-");
    let plain = plain_version(v);
    let text = plain + "-"@ + pre;
    assert(text.subrange(0, plain.len() as int) =~= plain);
    assert(text[plain.len() as int] == '-');
    assert(is_pre_release(text, v));
}

/// The view of a release has its tag, its notes and every file that it has.
pub proof fn releases_are_viewed_whole(r: Release, a: Asset, i: int)
    ensures
        r@.tag_name == r.tag_name@,
        r@.body == crate::text::opt_view(r.body),
        r@.assets.len() == r.assets@.len(),
        0 <= i < r.assets@.len() ==> r@.assets[i] == r.assets@[i]@,
        a@.name == a.name@,
        a@.browser_download_url == a.browser_download_url@,
{
}

/// What is left of an old executable is cleaned up in a dozen tries, a quarter of a second apart.
pub proof fn upgrades_have_their_limits()
    ensures
        CLEAN_TRIES == 12,
        CLEAN_WAIT_MILLIS == 250,
{
}

} // verus!
