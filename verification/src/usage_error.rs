//! What went wrong with a query, and what can be done about it.

use vstd::prelude::*;
use vstd::std_specs::convert::{FromSpec, FromSpecImpl};
use vstd::string::*;

use crate::text::{contains, lowercase, mentions, occurs_at, to_lowercase, views};

verus! {

/// What kind of failure an error tells of.
#[derive(Clone, Copy, Debug, PartialEq, Eq, Structural)]
pub enum ErrorKind {
    AccountChanged,
    LocalIo,
    Authentication,
    Timeout,
    RuntimeUnavailable,
    Network,
    AppServer,
    Unknown,
}

/// An error of a query: its kind, what it says, and whether logging in again helps.
#[derive(Debug)]
pub struct UsageQueryError {
    pub code: &'static str,
    pub message: String,
    pub reauth_required: bool,
}

/// Whether one of some words occurs in a text.
pub open spec fn mentions_any(text: Seq<char>, words: Seq<Seq<char>>) -> bool {
    exists|i: int| 0 <= i < words.len() && mentions(text, #[trigger] words[i])
}

/// The words of errors of the hub's own files.
pub open spec fn file_words() -> Seq<Seq<char>> {
    seq![
        "认证文件"@,
        "认证目录"@,
        "隔离认证"@,
        "dpapi"@,
        "加密账号"@,
        "凭据与目标"@,
        "账号索引"@,
        "auth.json 不是有效 json"@,
        "无法从认证文件识别账号"@,
    ]
}

/// The words of errors that logging in again helps against.
pub open spec fn login_words() -> Seq<Seq<char>> {
    seq![
        "unauthorized"@,
        "not logged in"@,
        "authentication failed"@,
        "authentication required"@,
        "invalid_grant"@,
        "refresh_token_reused"@,
        "refresh_token_expired"@,
        "refresh_token_invalidated"@,
        "token expired"@,
        "access token"@,
        "登录失效"@,
        "未登录"@,
        "401"@,
    ]
}

/// The words of errors of waiting too long.
pub open spec fn timeout_words() -> Seq<Seq<char>> {
    seq!["超时"@, "timeout"@]
}

/// The words of errors of a Codex that cannot be found.
pub open spec fn runtime_words() -> Seq<Seq<char>> {
    seq!["未找到 codex"@, "无法确定 codex home"@]
}

/// The words of errors of the network.
pub open spec fn network_words() -> Seq<Seq<char>> {
    seq!["network"@, "connection"@, "connect"@, "dns"@, "网络"@, "连接"@]
}

/// The words of other errors of files.
pub open spec fn other_file_words() -> Seq<Seq<char>> {
    seq!["文件"@, "目录"@, "dpapi"@, "加密账号"@, "清理隔离"@]
}

/// The kind of failure that an error in lower case tells of.
pub open spec fn kind_of(text: Seq<char>) -> ErrorKind {
    if mentions(text, "查询期间账号已变化"@) {
        ErrorKind::AccountChanged
    } else if mentions_any(text, file_words()) {
        ErrorKind::LocalIo
    } else if mentions_any(text, login_words()) {
        ErrorKind::Authentication
    } else if mentions_any(text, timeout_words()) {
        ErrorKind::Timeout
    } else if mentions_any(text, runtime_words()) {
        ErrorKind::RuntimeUnavailable
    } else if mentions_any(text, network_words()) {
        ErrorKind::Network
    } else if mentions(text, "app server"@) {
        ErrorKind::AppServer
    } else if mentions_any(text, other_file_words()) {
        ErrorKind::LocalIo
    } else {
        ErrorKind::Unknown
    }
}

/// The code of a kind.
pub open spec fn code_of(kind: ErrorKind) -> &'static str {
    match kind {
        ErrorKind::AccountChanged => "account_changed",
        ErrorKind::LocalIo => "local_io",
        ErrorKind::Authentication => "authentication_required",
        ErrorKind::Timeout => "timeout",
        ErrorKind::RuntimeUnavailable => "runtime_unavailable",
        ErrorKind::Network => "network",
        ErrorKind::AppServer => "app_server",
        ErrorKind::Unknown => "unknown",
    }
}

/// Whether one of some words occurs in a text.
fn contains_any(text: &str, words: &Vec<&'static str>) -> (r: bool)
    ensures
        r == mentions_any(text@, views(words@)),
{
    let ghost all = views(words@);
    for at in 0..words.len()
        invariant
            all == views(words@),
            forall|i: int| 0 <= i < at ==> !mentions(text@, #[trigger] all[i]),
    {
        assert(all[at as int] == words@[at as int]@);
        if contains(text, words[at]) {
            return true;
        }
    }
    false
}

/// The kind of failure that an error in lower case tells of.
pub fn classify(text: &str) -> (r: ErrorKind)
    ensures
        r == kind_of(text@),
{
    let file_list = vec![
        "认证文件",
        "认证目录",
        "隔离认证",
        "dpapi",
        "加密账号",
        "凭据与目标",
        "账号索引",
        "auth.json 不是有效 json",
        "无法从认证文件识别账号",
    ];
    assert(views(file_list@) =~= file_words());
    let login_list = vec![
        "unauthorized",
        "not logged in",
        "authentication failed",
        "authentication required",
        "invalid_grant",
        "refresh_token_reused",
        "refresh_token_expired",
        "refresh_token_invalidated",
        "token expired",
        "access token",
        "登录失效",
        "未登录",
        "401",
    ];
    assert(views(login_list@) =~= login_words());
    let timeout_list = vec!["超时", "timeout"];
    assert(views(timeout_list@) =~= timeout_words());
    let runtime_list = vec!["未找到 codex", "无法确定 codex home"];
    assert(views(runtime_list@) =~= runtime_words());
    let network_list = vec!["network", "connection", "connect", "dns", "网络", "连接"];
    assert(views(network_list@) =~= network_words());
    let other_list = vec!["文件", "目录", "dpapi", "加密账号", "清理隔离"];
    assert(views(other_list@) =~= other_file_words());
    if contains(text, "查询期间账号已变化") {
        ErrorKind::AccountChanged
    } else if contains_any(text, &file_list) {
        ErrorKind::LocalIo
    } else if contains_any(text, &login_list) {
        ErrorKind::Authentication
    } else if contains_any(text, &timeout_list) {
        ErrorKind::Timeout
    } else if contains_any(text, &runtime_list) {
        ErrorKind::RuntimeUnavailable
    } else if contains_any(text, &network_list) {
        ErrorKind::Network
    } else if contains(text, "app server") {
        ErrorKind::AppServer
    } else if contains_any(text, &other_list) {
        ErrorKind::LocalIo
    } else {
        ErrorKind::Unknown
    }
}

/// The code of a kind.
pub fn code(kind: ErrorKind) -> (r: &'static str)
    ensures
        r == code_of(kind),
{
    match kind {
        ErrorKind::AccountChanged => "account_changed",
        ErrorKind::LocalIo => "local_io",
        ErrorKind::Authentication => "authentication_required",
        ErrorKind::Timeout => "timeout",
        ErrorKind::RuntimeUnavailable => "runtime_unavailable",
        ErrorKind::Network => "network",
        ErrorKind::AppServer => "app_server",
        ErrorKind::Unknown => "unknown",
    }
}

impl FromSpecImpl<String> for UsageQueryError {
    open spec fn obeys_from_spec() -> bool {
        true
    }

    open spec fn from_spec(message: String) -> UsageQueryError {
        let kind = kind_of(lowercase(message@));
        UsageQueryError {
            code: code_of(kind),
            message,
            reauth_required: kind is Authentication,
        }
    }
}

impl From<String> for UsageQueryError {
    fn from(message: String) -> (r: UsageQueryError) {
        let normalized = to_lowercase(message.as_str());
        let kind = classify(normalized.as_str());
        let reauth_required: bool = match kind {
            ErrorKind::Authentication => true,
            _ => false,
        };
        UsageQueryError { code: code(kind), message, reauth_required }
    }
}

/// Logging in again is asked for exactly where the error is one of authentication; an account that
/// changed during the query, or a file of the hub's own that cannot be read, never asks for it,
/// whatever else the error says.
pub proof fn law_login_is_asked_for_only_if_it_helps(text: Seq<char>)
    ensures
        mentions(text, "查询期间账号已变化"@) ==> kind_of(text) == ErrorKind::AccountChanged,
        !mentions(text, "查询期间账号已变化"@) && mentions_any(text, file_words()) ==> kind_of(text)
            == ErrorKind::LocalIo,
        kind_of(text) == ErrorKind::Authentication <==> !mentions(text, "查询期间账号已变化"@)
            && !mentions_any(text, file_words()) && mentions_any(text, login_words()),
{
}

/// Whether an error tells of an account that changed during the query.
pub open spec fn tells_of_change(text: Seq<char>) -> bool {
    mentions(text, "查询期间账号已变化"@)
}

/// Whether an error tells of a file of the hub's own.
pub open spec fn tells_of_own_file(text: Seq<char>) -> bool {
    ||| mentions(text, "认证文件"@)
    ||| mentions(text, "认证目录"@)
    ||| mentions(text, "隔离认证"@)
    ||| mentions(text, "dpapi"@)
    ||| mentions(text, "加密账号"@)
    ||| mentions(text, "凭据与目标"@)
    ||| mentions(text, "账号索引"@)
    ||| mentions(text, "auth.json 不是有效 json"@)
    ||| mentions(text, "无法从认证文件识别账号"@)
}

/// Whether an error tells that logging in again would help.
pub open spec fn tells_of_login(text: Seq<char>) -> bool {
    ||| mentions(text, "unauthorized"@)
    ||| mentions(text, "not logged in"@)
    ||| mentions(text, "authentication failed"@)
    ||| mentions(text, "authentication required"@)
    ||| mentions(text, "invalid_grant"@)
    ||| mentions(text, "refresh_token_reused"@)
    ||| mentions(text, "refresh_token_expired"@)
    ||| mentions(text, "refresh_token_invalidated"@)
    ||| mentions(text, "token expired"@)
    ||| mentions(text, "access token"@)
    ||| mentions(text, "登录失效"@)
    ||| mentions(text, "未登录"@)
    ||| mentions(text, "401"@)
}

/// Whether an error tells of the network.
pub open spec fn tells_of_network(text: Seq<char>) -> bool {
    ||| mentions(text, "network"@)
    ||| mentions(text, "connect"@)
    ||| mentions(text, "dns"@)
    ||| mentions(text, "网络"@)
    ||| mentions(text, "连接"@)
}

/// An error that mentions the longer word mentions the shorter one.
proof fn lemma_connection_is_connect(text: Seq<char>)
    requires
        mentions(text, "connection"@),
    ensures
        mentions(text, "connect"@),
{
    reveal_strlit("connection");
    reveal_strlit("connect");
    let at = choose|at: int| occurs_at(text, "connection"@, at);
    assert(text.subrange(at, at + 7) =~= text.subrange(at, at + 10).take(7));
    assert("connection"@.take(7) =~= "connect"@);
    assert(occurs_at(text, "connect"@, at));
}

/// What a word in an error makes of it: the first of these that it tells of counts.
pub proof fn law_errors_are_told_by_their_words(text: Seq<char>)
    ensures
        tells_of_change(text) <==> kind_of(text) == ErrorKind::AccountChanged,
        !tells_of_change(text) && tells_of_own_file(text) ==> kind_of(text) == ErrorKind::LocalIo,
        kind_of(text) == ErrorKind::Authentication <==> !tells_of_change(text)
            && !tells_of_own_file(text) && tells_of_login(text),
        ({
            let earlier = tells_of_change(text) || tells_of_own_file(text) || tells_of_login(text);
            let late = mentions(text, "超时"@) || mentions(text, "timeout"@);
            let missing = mentions(text, "未找到 codex"@) || mentions(
                text,
                "无法确定 codex home"@,
            );
            &&& kind_of(text) == ErrorKind::Timeout <==> !earlier && late
            &&& kind_of(text) == ErrorKind::RuntimeUnavailable <==> !earlier && !late && missing
            &&& kind_of(text) == ErrorKind::Network <==> !earlier && !late && !missing
                && tells_of_network(text)
            &&& kind_of(text) == ErrorKind::AppServer <==> !earlier && !late && !missing
                && !tells_of_network(text) && mentions(text, "app server"@)
            &&& kind_of(text) == ErrorKind::Unknown ==> !mentions(text, "文件"@) && !mentions(
                text,
                "目录"@,
            ) && !mentions(text, "清理隔离"@)
            &&& !earlier && !late && !missing && !tells_of_network(text) && !mentions(
                text,
                "app server"@,
            ) && (mentions(text, "文件"@) || mentions(text, "目录"@) || mentions(
                text,
                "清理隔离"@,
            )) ==> kind_of(text) == ErrorKind::LocalIo
            &&& kind_of(text) == ErrorKind::Unknown || kind_of(text) == ErrorKind::LocalIo
                || earlier || late || missing || tells_of_network(text) || mentions(
                text,
                "app server"@,
            )
            &&& kind_of(text) == ErrorKind::LocalIo ==> tells_of_own_file(text) || mentions(
                text,
                "文件"@,
            ) || mentions(text, "目录"@) || mentions(text, "清理隔离"@)
        }),
{
    let files = file_words();
    assert(mentions_any(text, files) <==> tells_of_own_file(text)) by {
        if tells_of_own_file(text) {
            let at: int = if mentions(text, files[0]) {
                0
            } else if mentions(text, files[1]) {
                1
            } else if mentions(text, files[2]) {
                2
            } else if mentions(text, files[3]) {
                3
            } else if mentions(text, files[4]) {
                4
            } else if mentions(text, files[5]) {
                5
            } else if mentions(text, files[6]) {
                6
            } else if mentions(text, files[7]) {
                7
            } else {
                8
            };
            assert(mentions(text, files[at]));
        }
    }
    let logins = login_words();
    assert(mentions_any(text, logins) <==> tells_of_login(text)) by {
        if tells_of_login(text) {
            let at: int = if mentions(text, logins[0]) {
                0
            } else if mentions(text, logins[1]) {
                1
            } else if mentions(text, logins[2]) {
                2
            } else if mentions(text, logins[3]) {
                3
            } else if mentions(text, logins[4]) {
                4
            } else if mentions(text, logins[5]) {
                5
            } else if mentions(text, logins[6]) {
                6
            } else if mentions(text, logins[7]) {
                7
            } else if mentions(text, logins[8]) {
                8
            } else if mentions(text, logins[9]) {
                9
            } else if mentions(text, logins[10]) {
                10
            } else if mentions(text, logins[11]) {
                11
            } else {
                12
            };
            assert(mentions(text, logins[at]));
        }
    }
    let late = timeout_words();
    assert(mentions_any(text, late) <==> mentions(text, late[0]) || mentions(text, late[1]));
    let missing = runtime_words();
    assert(mentions_any(text, missing) <==> mentions(text, missing[0]) || mentions(
        text,
        missing[1],
    ));
    let network = network_words();
    if mentions(text, "connection"@) {
        lemma_connection_is_connect(text);
    }
    assert(mentions_any(text, network) <==> tells_of_network(text)) by {
        if tells_of_network(text) {
            let at: int = if mentions(text, network[0]) {
                0
            } else if mentions(text, network[2]) {
                2
            } else if mentions(text, network[3]) {
                3
            } else if mentions(text, network[4]) {
                4
            } else {
                5
            };
            assert(mentions(text, network[at]));
        }
    }
    let others = other_file_words();
    assert(mentions_any(text, others) <==> mentions(text, others[0]) || mentions(text, others[1])
        || mentions(text, others[2]) || mentions(text, others[3]) || mentions(text, others[4]));
}

/// An error of a query keeps what it says, tells its kind by a code, and asks for a login exactly
/// where the kind is one of authentication.
pub proof fn law_query_error_tells_its_kind(message: String)
    ensures
        ({
            let error = <UsageQueryError as FromSpec<String>>::from_spec(message);
            let kind = kind_of(lowercase(message@));
            &&& error.message == message
            &&& error.reauth_required <==> kind == ErrorKind::Authentication
            &&& error.code@ == match kind {
                ErrorKind::AccountChanged => "account_changed"@,
                ErrorKind::LocalIo => "local_io"@,
                ErrorKind::Authentication => "authentication_required"@,
                ErrorKind::Timeout => "timeout"@,
                ErrorKind::RuntimeUnavailable => "runtime_unavailable"@,
                ErrorKind::Network => "network"@,
                ErrorKind::AppServer => "app_server"@,
                ErrorKind::Unknown => "unknown"@,
            }
        }),
{
}

} // verus!
