//! Checking out one repository at a pinned commit.
//!
//! Fetching a commit alternates between running git and deciding what to do
//! with its answer; the decisions are the step function `fetch_step`, the
//! caller runs the commands and feeds back what they reported.
use vstd::prelude::*;
use crate::config::ParsedRepoItem;
use crate::path::{file_name, join, join_spec, opt_view, path_file_name};
use crate::text::{
    before_char, chars_of, concat, contains, contains_spec, find_chars, find_spec, matches_at,
    split_char, split_char_spec, str_eq, string_of_range, to_owned, trim, trim_spec,
};
use crate::utils::CapturedCommand;

verus! {

// ---------------------------------------------------------------------------
// Credentials and URLs
// ---------------------------------------------------------------------------

/// `user:password@domain`: the user and password, when the text has exactly
/// one `@` and its first part exactly one `:`.
pub open spec fn domain_credentials_spec(d: Seq<char>) -> Option<(Seq<char>, Seq<char>)> {
    let parts = split_char_spec(d, '@');
    if parts.len() == 2 {
        let creds = split_char_spec(parts[0], ':');
        if creds.len() == 2 {
            Some((creds[0], creds[1]))
        } else {
            None
        }
    } else {
        None
    }
}

/// The credentials used for cloning: `GIT_USER` and `GIT_PASSWORD` when both
/// are set, otherwise those found in `DomainName`, otherwise none.
pub open spec fn credentials_spec(
    user: Option<Seq<char>>,
    password: Option<Seq<char>>,
    domain: Option<Seq<char>>,
) -> (Option<Seq<char>>, Option<Seq<char>>) {
    if user is None || password is None {
        match domain {
            Some(d) => match domain_credentials_spec(d) {
                Some((u, p)) => (Some(u), Some(p)),
                None => (None, None),
            },
            None => (None, None),
        }
    } else {
        (user, password)
    }
}

/// The clone URL with the credentials put after the scheme, unless the URL
/// already names a user (holds an `@`), a credential is missing, or it has no
/// `://`.
pub open spec fn login_url_spec(
    url: Seq<char>,
    user: Option<Seq<char>>,
    password: Option<Seq<char>>,
) -> Seq<char> {
    if contains_spec(url, seq!['@']) {
        url
    } else {
        match (user, password) {
            (Some(u), Some(p)) => match find_spec(url, seq![':', '/', '/']) {
                Some(i) => url.take(i + 3) + u + seq![':'] + p + seq!['@'] + url.skip(i + 3),
                None => url,
            },
            _ => url,
        }
    }
}

/// Synchronises one repository.
pub struct RepoTask {
    pub item: ParsedRepoItem,
    pub username: Option<String>,
    pub password: Option<String>,
}

fn domain_credentials(d: &str) -> (r: Option<(String, String)>)
    ensures
        r matches Some(c) ==> domain_credentials_spec(d@) == Some((c.0@, c.1@)),
        r is None ==> domain_credentials_spec(d@) is None,
{
    let parts = split_char(d, '@');
    if parts.len() == 2 {
        let creds = split_char(parts[0].as_str(), ':');
        assert(parts@[0]@ == split_char_spec(d@, '@')[0]);
        if creds.len() == 2 {
            assert(creds@[0]@ == split_char_spec(parts@[0]@, ':')[0]);
            assert(creds@[1]@ == split_char_spec(parts@[0]@, ':')[1]);
            return Some((creds[0].clone(), creds[1].clone()));
        }
    }
    None
}

impl RepoTask {
    /// A task for `item`, with the credentials taken from the values of the
    /// `GIT_USER`, `GIT_PASSWORD` and `DomainName` environment variables.
    pub fn new(
        item: ParsedRepoItem,
        git_user: Option<String>,
        git_password: Option<String>,
        domain_name: Option<String>,
    ) -> (r: RepoTask)
        ensures
            r.item == item,
            (opt_view(r.username), opt_view(r.password)) == credentials_spec(
                opt_view(git_user),
                opt_view(git_password),
                opt_view(domain_name),
            ),
    {
        if git_user.is_none() || git_password.is_none() {
            match domain_name {
                Some(d) => match domain_credentials(d.as_str()) {
                    Some((u, p)) => RepoTask { item, username: Some(u), password: Some(p) },
                    None => RepoTask { item, username: None, password: None },
                },
                None => RepoTask { item, username: None, password: None },
            }
        } else {
            RepoTask { item, username: git_user, password: git_password }
        }
    }

    /// The clone URL carrying the user and password after its scheme.
    pub fn add_login_info(&self, url: &str) -> (r: String)
        ensures
            r@ == login_url_spec(url@, opt_view(self.username), opt_view(self.password)),
    {
        let at = vec!['@'];
        assert(at@ == seq!['@']);
        let chars = chars_of(url);
        let found_at = find_chars(&chars, &at);
        if found_at.is_some() {
            return to_owned(url);
        }
        assert(!contains_spec(url@, seq!['@']));
        match (&self.username, &self.password) {
            (Some(user), Some(pass)) => {
                let sep = vec![':', '/', '/'];
                assert(sep@ == seq![':', '/', '/']);
                match find_chars(&chars, &sep) {
                    Some(index) => {
                        assert(find_spec(url@, seq![':', '/', '/']) == Some(index as int));
                        assert(matches_at(chars@, sep@, index as int));
                        assert(index + 3 <= chars.len());
                        let scheme = string_of_range(&chars, 0, index + 3);
                        let rest = string_of_range(&chars, index + 3, chars.len());
                        assert(scheme@ == url@.take(index + 3));
                        assert(rest@ == url@.skip(index + 3));
                        credential_url(scheme, user, pass, rest)
                    },
                    None => to_owned(url),
                }
            },
            _ => to_owned(url),
        }
    }
}

fn credential_url(scheme: String, user: &String, pass: &String, rest: String) -> (r: String)
    ensures
        r@ == scheme@ + user@ + seq![':'] + pass@ + seq!['@'] + rest@,
{
    let mut r = scheme;
    r.append(user.as_str());
    crate::text::push_char(&mut r, ':');
    r.append(pass.as_str());
    crate::text::push_char(&mut r, '@');
    r.append(rest.as_str());
    r
}

// ---------------------------------------------------------------------------
// Fetching a commit
// ---------------------------------------------------------------------------

/// The first attempt: a shallow fetch of the commit itself.
pub open spec fn shallow_fetch_command_spec(commit: Seq<char>) -> Seq<char> {
    "git fetch --progress --depth 1 origin \""@ + commit + "\""@
}

/// The second attempt: a fetch of the commit without its blobs.
pub open spec fn partial_fetch_command_spec(commit: Seq<char>) -> Seq<char> {
    "git fetch --progress --filter=blob:none origin \""@ + commit + "\""@
}

/// The command that succeeds when the commit is present.
pub open spec fn cat_file_command_spec(commit: Seq<char>) -> Seq<char> {
    "git cat-file -e \""@ + commit + "\""@
}

/// The last resort: the tips of all branches and tags.
pub open spec fn branches_fetch_command_spec() -> Seq<char> {
    "git fetch --progress --depth 1 origin \"+refs/heads/*:refs/remotes/origin/*\" \"+refs/tags/*:refs/tags/*\""@
}

/// Asks whether the repository is shallow.
pub open spec fn is_shallow_command_spec() -> Seq<char> {
    "git rev-parse --is-shallow-repository"@
}

/// Deepens the history by one hundred commits.
pub open spec fn deepen_command_spec() -> Seq<char> {
    "git fetch --progress --deepen=100 origin"@
}

/// The notice shown when the shallow fetch of a commit is refused.
pub open spec fn notice_retry_without_depth() -> Seq<char> {
    "【depctl】server rejected shallow fetch of commit, retrying without depth"@
}

/// The notice shown when fetching the commit itself is refused.
pub open spec fn notice_fetch_branches() -> Seq<char> {
    "【depctl】server rejected fetch by commit, fetching branches and tags"@
}

/// The notice shown before deepening the history.
pub open spec fn notice_deepen() -> Seq<char> {
    "【depctl】deepening history by 100 commits"@
}

/// The server refused to hand out a commit it does not advertise.
pub open spec fn is_unadvertised_spec(c: CapturedCommand) -> bool {
    contains_spec(c.stderr@, "unadvertised object"@) || contains_spec(
        c.stdout@,
        "unadvertised object"@,
    )
}

/// The check ran and succeeded (the commit is present).
pub open spec fn commit_exists_spec(r: Option<CapturedCommand>) -> bool {
    r matches Some(c) && c.success
}

/// The check ran, succeeded and answered `true` (the repository is shallow).
pub open spec fn is_shallow_spec(r: Option<CapturedCommand>) -> bool {
    r matches Some(c) && c.success && trim_spec(c.stdout@) == "true"@
}

/// Whether a command's output says the server refused an unadvertised commit.
pub fn is_unadvertised(captured: &CapturedCommand) -> (r: bool)
    ensures
        r == is_unadvertised_spec(*captured),
{
    contains(captured.stderr.as_str(), "unadvertised object") || contains(
        captured.stdout.as_str(),
        "unadvertised object",
    )
}

/// Whether the presence check found the commit (`None`: it did not run).
pub fn commit_exists(captured: &Option<CapturedCommand>) -> (r: bool)
    ensures
        r == commit_exists_spec(*captured),
{
    match captured {
        Some(c) => c.success,
        None => false,
    }
}

/// Whether the shallowness check answered that the repository is shallow
/// (`None`: it did not run).
pub fn is_shallow_repository(captured: &Option<CapturedCommand>) -> (r: bool)
    ensures
        r == is_shallow_spec(*captured),
{
    match captured {
        Some(c) => c.success && str_eq(trim(c.stdout.as_str()).as_str(), "true"),
        None => false,
    }
}

fn quoted_command(prefix: &str, commit: &str) -> (r: String)
    ensures
        r@ == prefix@ + commit@ + "\""@,
{
    let mut r = concat(prefix, commit);
    r.append("\"");
    r
}

/// The command of the first attempt.
pub fn shallow_fetch_command(commit: &str) -> (r: String)
    ensures
        r@ == shallow_fetch_command_spec(commit@),
{
    quoted_command("git fetch --progress --depth 1 origin \"", commit)
}

/// The command of the second attempt.
pub fn partial_fetch_command(commit: &str) -> (r: String)
    ensures
        r@ == partial_fetch_command_spec(commit@),
{
    quoted_command("git fetch --progress --filter=blob:none origin \"", commit)
}

/// The command that checks for the commit.
pub fn cat_file_command(commit: &str) -> (r: String)
    ensures
        r@ == cat_file_command_spec(commit@),
{
    quoted_command("git cat-file -e \"", commit)
}

/// How the caller runs a command.
pub enum CommandMode {
    /// Show its output while it runs and report what it printed.
    Echo,
    /// Keep its output and report it; a command that cannot start counts as
    /// failed.
    Capture,
    /// Show its output; a failure ends the fetch with that failure.
    Exec,
}

/// Why a fetch gave up.
pub enum FetchError {
    /// This command failed for a reason other than an unadvertised commit.
    CommandFailed(String),
    /// The commit is on no branch or tag the server offers.
    NotReachable(String),
}

/// Where a fetch stands.
pub enum FetchState {
    Start,
    ShallowFetch,
    PartialFetch,
    BranchFetch,
    CheckCommit,
    CheckShallow,
    ReadBefore,
    Deepen { before: String },
    RecheckCommit { before: String },
    CompareShallow { before: String },
    Finished,
}

/// What the caller reports back.
pub enum FetchEvent {
    /// The fetch begins.
    Begin,
    /// An `Echo` command finished.
    Echoed(CapturedCommand),
    /// An `Exec` command succeeded.
    Ran,
    /// A `Capture` command finished (`None`: it could not start).
    Checked(Option<CapturedCommand>),
    /// The content of `.git/shallow` (empty when it cannot be read).
    ShallowRead(String),
}

/// What the caller does next.
pub enum FetchAction {
    /// Print the notice, if any, then run the command in the repository.
    Run { notice: Option<String>, mode: CommandMode, command: String },
    /// Read `.git/shallow` and report it.
    ReadShallowFile,
    /// The commit is present.
    Succeed,
    /// The fetch gave up.
    Fail(FetchError),
}

/// The events each state waits for.
pub open spec fn fetch_event_fits(state: FetchState, event: FetchEvent) -> bool {
    match (state, event) {
        (FetchState::Start, FetchEvent::Begin) => true,
        (FetchState::ShallowFetch, FetchEvent::Echoed(_)) => true,
        (FetchState::PartialFetch, FetchEvent::Echoed(_)) => true,
        (FetchState::BranchFetch, FetchEvent::Ran) => true,
        (FetchState::CheckCommit, FetchEvent::Checked(_)) => true,
        (FetchState::CheckShallow, FetchEvent::Checked(_)) => true,
        (FetchState::ReadBefore, FetchEvent::ShallowRead(_)) => true,
        (FetchState::Deepen { .. }, FetchEvent::Ran) => true,
        (FetchState::RecheckCommit { .. }, FetchEvent::Checked(_)) => true,
        (FetchState::CompareShallow { .. }, FetchEvent::ShallowRead(_)) => true,
        _ => false,
    }
}

/// Whether `event` is an answer the fetch is waiting for in `state`.
pub fn event_fits(state: &FetchState, event: &FetchEvent) -> (r: bool)
    ensures
        r == fetch_event_fits(*state, *event),
{
    match (state, event) {
        (FetchState::Start, FetchEvent::Begin) => true,
        (FetchState::ShallowFetch, FetchEvent::Echoed(_)) => true,
        (FetchState::PartialFetch, FetchEvent::Echoed(_)) => true,
        (FetchState::BranchFetch, FetchEvent::Ran) => true,
        (FetchState::CheckCommit, FetchEvent::Checked(_)) => true,
        (FetchState::CheckShallow, FetchEvent::Checked(_)) => true,
        (FetchState::ReadBefore, FetchEvent::ShallowRead(_)) => true,
        (FetchState::Deepen { .. }, FetchEvent::Ran) => true,
        (FetchState::RecheckCommit { .. }, FetchEvent::Checked(_)) => true,
        (FetchState::CompareShallow { .. }, FetchEvent::ShallowRead(_)) => true,
        _ => false,
    }
}

/// `a` runs `command` in `mode` after the given notice.
pub open spec fn runs(
    a: FetchAction,
    notice: Option<Seq<char>>,
    mode: CommandMode,
    command: Seq<char>,
) -> bool {
    a matches FetchAction::Run { notice: n, mode: m, command: c } && opt_view(n) == notice && m
        == mode && c@ == command
}

/// `a` gives up because `command` failed.
pub open spec fn fails_command(a: FetchAction, command: Seq<char>) -> bool {
    a matches FetchAction::Fail(FetchError::CommandFailed(c)) && c@ == command
}

/// `a` gives up because `commit` cannot be reached.
pub open spec fn fails_unreachable(a: FetchAction, commit: Seq<char>) -> bool {
    a matches FetchAction::Fail(FetchError::NotReachable(c)) && c@ == commit
}

/// One step of fetching `commit`: the next state and action for the event
/// that answered the previous action.
pub open spec fn fetch_transition(
    commit: Seq<char>,
    state: FetchState,
    event: FetchEvent,
    next: FetchState,
    action: FetchAction,
) -> bool {
    match (state, event) {
        (FetchState::Start, FetchEvent::Begin) => next is ShallowFetch && runs(
            action,
            None,
            CommandMode::Echo,
            shallow_fetch_command_spec(commit),
        ),
        (FetchState::ShallowFetch, FetchEvent::Echoed(c)) => if c.success {
            next is Finished && action is Succeed
        } else if !is_unadvertised_spec(c) {
            next is Finished && fails_command(action, shallow_fetch_command_spec(commit))
        } else {
            next is PartialFetch && runs(
                action,
                Some(notice_retry_without_depth()),
                CommandMode::Echo,
                partial_fetch_command_spec(commit),
            )
        },
        (FetchState::PartialFetch, FetchEvent::Echoed(c)) => if c.success {
            next is Finished && action is Succeed
        } else if !is_unadvertised_spec(c) {
            next is Finished && fails_command(action, partial_fetch_command_spec(commit))
        } else {
            next is BranchFetch && runs(
                action,
                Some(notice_fetch_branches()),
                CommandMode::Exec,
                branches_fetch_command_spec(),
            )
        },
        (FetchState::BranchFetch, FetchEvent::Ran) => next is CheckCommit && runs(
            action,
            None,
            CommandMode::Capture,
            cat_file_command_spec(commit),
        ),
        (FetchState::CheckCommit, FetchEvent::Checked(r)) => if commit_exists_spec(r) {
            next is Finished && action is Succeed
        } else {
            next is CheckShallow && runs(
                action,
                None,
                CommandMode::Capture,
                is_shallow_command_spec(),
            )
        },
        (FetchState::CheckShallow, FetchEvent::Checked(r)) => if !is_shallow_spec(r) {
            next is Finished && fails_unreachable(action, commit)
        } else {
            next is ReadBefore && action is ReadShallowFile
        },
        (FetchState::ReadBefore, FetchEvent::ShallowRead(s)) => next == (FetchState::Deepen {
            before: s,
        }) && runs(action, Some(notice_deepen()), CommandMode::Exec, deepen_command_spec()),
        (FetchState::Deepen { before }, FetchEvent::Ran) => next == (FetchState::RecheckCommit {
            before,
        }) && runs(action, None, CommandMode::Capture, cat_file_command_spec(commit)),
        (FetchState::RecheckCommit { before }, FetchEvent::Checked(r)) => if commit_exists_spec(
            r,
        ) {
            next is Finished && action is Succeed
        } else {
            next == (FetchState::CompareShallow { before }) && action is ReadShallowFile
        },
        (FetchState::CompareShallow { before }, FetchEvent::ShallowRead(s)) => if s@
            == before@ {
            next is Finished && fails_unreachable(action, commit)
        } else {
            next is CheckCommit && runs(
                action,
                None,
                CommandMode::Capture,
                cat_file_command_spec(commit),
            )
        },
        _ => false,
    }
}

fn run_action(notice: Option<&str>, mode: CommandMode, command: String) -> (a: FetchAction)
    ensures
        a matches FetchAction::Run { notice: n, mode: m, command: c } && m == mode && c == command
            && opt_view(n) == match notice {
            Some(t) => Some(t@),
            None => None,
        },
{
    let n = match notice {
        Some(t) => Some(to_owned(t)),
        None => None,
    };
    FetchAction::Run { notice: n, mode, command }
}

/// Decides the next step of fetching `commit` from the answer to the
/// previous one.
pub fn fetch_step(commit: &str, state: FetchState, event: FetchEvent) -> (r: (FetchState, FetchAction))
    requires
        fetch_event_fits(state, event),
    ensures
        fetch_transition(commit@, state, event, r.0, r.1),
        event matches FetchEvent::Echoed(c) && c.success ==> r.0 is Finished && r.1 is Succeed,
        event matches FetchEvent::Echoed(c) && !c.success && !is_unadvertised_spec(c) ==> {
            &&& r.0 is Finished
            &&& r.1 matches FetchAction::Fail(FetchError::CommandFailed(cmd))
            &&& cmd@ == if state is ShallowFetch {
                shallow_fetch_command_spec(commit@)
            } else {
                partial_fetch_command_spec(commit@)
            }
        },
        event matches FetchEvent::Checked(c) && commit_exists_spec(c) && (state is CheckCommit
            || state is RecheckCommit) ==> r.0 is Finished && r.1 is Succeed,
{
    match (state, event) {
        (FetchState::Start, FetchEvent::Begin) => (
            FetchState::ShallowFetch,
            run_action(None, CommandMode::Echo, shallow_fetch_command(commit)),
        ),
        (FetchState::ShallowFetch, FetchEvent::Echoed(c)) => {
            if c.success {
                (FetchState::Finished, FetchAction::Succeed)
            } else if !is_unadvertised(&c) {
                (
                    FetchState::Finished,
                    FetchAction::Fail(FetchError::CommandFailed(shallow_fetch_command(commit))),
                )
            } else {
                (
                    FetchState::PartialFetch,
                    run_action(
                        Some(
                            "【depctl】server rejected shallow fetch of commit, retrying without depth",
                        ),
                        CommandMode::Echo,
                        partial_fetch_command(commit),
                    ),
                )
            }
        },
        (FetchState::PartialFetch, FetchEvent::Echoed(c)) => {
            if c.success {
                (FetchState::Finished, FetchAction::Succeed)
            } else if !is_unadvertised(&c) {
                (
                    FetchState::Finished,
                    FetchAction::Fail(FetchError::CommandFailed(partial_fetch_command(commit))),
                )
            } else {
                (
                    FetchState::BranchFetch,
                    run_action(
                        Some("【depctl】server rejected fetch by commit, fetching branches and tags"),
                        CommandMode::Exec,
                        to_owned(
                            "git fetch --progress --depth 1 origin \"+refs/heads/*:refs/remotes/origin/*\" \"+refs/tags/*:refs/tags/*\"",
                        ),
                    ),
                )
            }
        },
        (FetchState::BranchFetch, FetchEvent::Ran) => (
            FetchState::CheckCommit,
            run_action(None, CommandMode::Capture, cat_file_command(commit)),
        ),
        (FetchState::CheckCommit, FetchEvent::Checked(r)) => {
            if commit_exists(&r) {
                (FetchState::Finished, FetchAction::Succeed)
            } else {
                (
                    FetchState::CheckShallow,
                    run_action(
                        None,
                        CommandMode::Capture,
                        to_owned("git rev-parse --is-shallow-repository"),
                    ),
                )
            }
        },
        (FetchState::CheckShallow, FetchEvent::Checked(r)) => {
            if !is_shallow_repository(&r) {
                (FetchState::Finished, FetchAction::Fail(FetchError::NotReachable(to_owned(commit))))
            } else {
                (FetchState::ReadBefore, FetchAction::ReadShallowFile)
            }
        },
        (FetchState::ReadBefore, FetchEvent::ShallowRead(s)) => (
            FetchState::Deepen { before: s },
            run_action(
                Some("【depctl】deepening history by 100 commits"),
                CommandMode::Exec,
                to_owned("git fetch --progress --deepen=100 origin"),
            ),
        ),
        (FetchState::Deepen { before }, FetchEvent::Ran) => (
            FetchState::RecheckCommit { before },
            run_action(None, CommandMode::Capture, cat_file_command(commit)),
        ),
        (FetchState::RecheckCommit { before }, FetchEvent::Checked(r)) => {
            if commit_exists(&r) {
                (FetchState::Finished, FetchAction::Succeed)
            } else {
                (FetchState::CompareShallow { before }, FetchAction::ReadShallowFile)
            }
        },
        (FetchState::CompareShallow { before }, FetchEvent::ShallowRead(s)) => {
            if s == before {
                (FetchState::Finished, FetchAction::Fail(FetchError::NotReachable(to_owned(commit))))
            } else {
                (
                    FetchState::CheckCommit,
                    run_action(None, CommandMode::Capture, cat_file_command(commit)),
                )
            }
        },
        (state, _) => (state, FetchAction::ReadShallowFile),
    }
}

/// A fetch ends exactly when it succeeds or gives up: every step reaches the
/// finished state with a final action, or another state with a command or a
/// read for the caller to carry out.
pub proof fn law_fetch_ends_with_verdict(
    commit: Seq<char>,
    state: FetchState,
    event: FetchEvent,
    next: FetchState,
    action: FetchAction,
)
    requires
        fetch_transition(commit, state, event, next, action),
    ensures
        next is Finished <==> (action is Succeed || action is Fail),
        fetch_event_fits(state, event),
{
}

/// A fetch command that reports success ends the fetch successfully, and a
/// check that finds the commit does too: whatever the state that ran them.
pub proof fn law_fetch_success_ends_fetch(
    commit: Seq<char>,
    state: FetchState,
    event: FetchEvent,
    next: FetchState,
    action: FetchAction,
)
    requires
        fetch_transition(commit, state, event, next, action),
        (event matches FetchEvent::Echoed(c) && c.success) || (event matches FetchEvent::Checked(r)
            && commit_exists_spec(r) && (state is CheckCommit || state is RecheckCommit)),
    ensures
        next is Finished,
        action is Succeed,
{
}

/// A fetch only succeeds on the word of git: a fetch that reported success,
/// or a check that found the commit; and it only reports the commit
/// unreachable after the history stopped growing or turned out not shallow.
pub proof fn law_fetch_success_needs_evidence(
    commit: Seq<char>,
    state: FetchState,
    event: FetchEvent,
    next: FetchState,
    action: FetchAction,
)
    requires
        fetch_transition(commit, state, event, next, action),
    ensures
        action is Succeed ==> match event {
            FetchEvent::Echoed(c) => c.success,
            FetchEvent::Checked(r) => commit_exists_spec(r),
            _ => false,
        },
        action matches FetchAction::Fail(FetchError::NotReachable(_)) ==> match (state, event) {
            (FetchState::CheckShallow, FetchEvent::Checked(r)) => !is_shallow_spec(r),
            (FetchState::CompareShallow { before }, FetchEvent::ShallowRead(s)) => s@ == before@,
            _ => false,
        },
{
}

// ---------------------------------------------------------------------------
// Checking out
// ---------------------------------------------------------------------------

/// One thing the checkout does; commands run in the repository directory.
pub enum RepoStep {
    /// Print a line.
    Log(String),
    /// Move `from` to `to` if `from` exists.
    MoveIfExists { from: String, to: String },
    /// Delete the path if it exists.
    DeleteIfExists(String),
    /// Create the directory and its parents.
    CreateDir(String),
    /// Run a shell command; a failure ends the checkout.
    Exec(String),
    /// Fetch the commit (see `fetch_step`).
    FetchCommit,
    /// Set `GIT_LFS_SKIP_SMUDGE=1` for the commands that follow.
    SkipLfsSmudge,
}

/// The directory name shown for a repository (`unknown` when it has none).
pub open spec fn repo_display_name(dir: Seq<char>) -> Seq<char> {
    match path_file_name(dir) {
        Some(n) => n,
        None => "unknown"@,
    }
}

/// `path/a/b`.
pub open spec fn join2(path: Seq<char>, a: Seq<char>, b: Seq<char>) -> Seq<char> {
    join_spec(join_spec(path, a), b)
}

/// The steps of checking out `task.item`.
pub open spec fn checkout_steps_spec(task: RepoTask, steps: Seq<RepoStep>) -> bool {
    let dir = task.item.dir@;
    let commit = task.item.commit@;
    &&& steps.len() == 10
    &&& steps[0] matches RepoStep::Log(m) && m@ == "【depctl】checking out repository: "@
        + repo_display_name(dir) + seq!['@'] + commit
    &&& steps[1] matches RepoStep::MoveIfExists { from, to } && from@ == join2(
        dir,
        ".git"@,
        "lfs"@,
    ) && to@ == join_spec(dir, ".lfs.bak"@)
    &&& steps[2] matches RepoStep::DeleteIfExists(p) && p@ == join_spec(dir, ".git"@)
    &&& steps[3] matches RepoStep::CreateDir(p) && p@ == dir
    &&& steps[4] matches RepoStep::Exec(c) && c@ == "git init -q"@
    &&& steps[5] matches RepoStep::Exec(c) && c@ == "git remote add origin "@ + login_url_spec(
        task.item.url@,
        opt_view(task.username),
        opt_view(task.password),
    )
    &&& steps[6] is FetchCommit
    &&& steps[7] matches RepoStep::MoveIfExists { from, to } && from@ == join_spec(
        dir,
        ".lfs.bak"@,
    ) && to@ == join2(dir, ".git"@, "lfs.bak"@)
    &&& steps[8] is SkipLfsSmudge
    &&& steps[9] matches RepoStep::Exec(c) && c@ == "git reset --hard \""@ + commit
        + "\" && git clean -df -q"@
}

/// `path/a/b`.
pub fn join2_exec(path: &str, a: &str, b: &str) -> (r: String)
    ensures
        r@ == join2(path@, a@, b@),
{
    let first = join(path, a);
    join(first.as_str(), b)
}

impl RepoTask {
    /// What checking out the repository does, in order: keep the LFS cache
    /// aside, start a fresh repository pointing at the (credentialed) URL,
    /// fetch the commit, put the LFS cache back as `lfs.bak`, and reset the
    /// work tree to the commit.
    pub fn checkout_steps(&self) -> (r: Vec<RepoStep>)
        ensures
            checkout_steps_spec(*self, r@),
    {
        let dir = self.item.dir.as_str();
        let name = match file_name(dir) {
            Some(n) => n,
            None => to_owned("unknown"),
        };
        let mut msg = to_owned("【depctl】checking out repository: ");
        msg.append(name.as_str());
        crate::text::push_char(&mut msg, '@');
        msg.append(self.item.commit.as_str());
        let url = self.add_login_info(self.item.url.as_str());
        let mut reset = concat("git reset --hard \"", self.item.commit.as_str());
        reset.append("\" && git clean -df -q");
        let ghost (m, r, u) = (msg@, reset@, url@);
        let steps = vec![
            RepoStep::Log(msg),
            RepoStep::MoveIfExists { from: join2_exec(dir, ".git", "lfs"), to: join(dir, ".lfs.bak") },
            RepoStep::DeleteIfExists(join(dir, ".git")),
            RepoStep::CreateDir(to_owned(dir)),
            RepoStep::Exec(to_owned("git init -q")),
            RepoStep::Exec(concat("git remote add origin ", url.as_str())),
            RepoStep::FetchCommit,
            RepoStep::MoveIfExists { from: join(dir, ".lfs.bak"), to: join2_exec(dir, ".git", "lfs.bak") },
            RepoStep::SkipLfsSmudge,
            RepoStep::Exec(reset),
        ];
        assert(steps@.len() == 10);
        assert(steps@[0] matches RepoStep::Log(x) && x@ == m);
        assert(m == "【depctl】checking out repository: "@ + repo_display_name(self.item.dir@) + seq!['@'] + self.item.commit@);
        assert(steps@[5] matches RepoStep::Exec(x) && x@ == "git remote add origin "@ + u);
        assert(steps@[9] matches RepoStep::Exec(x) && x@ == r);
        steps
    }

    /// Where git records the commits a shallow repository was cut at.
    pub fn shallow_file(&self) -> (r: String)
        ensures
            r@ == join2(self.item.dir@, ".git"@, "shallow"@),
    {
        join2_exec(self.item.dir.as_str(), ".git", "shallow")
    }
}

} // verus!
