//! The usage of an account, as the Codex app server tells it.

use vstd::prelude::*;
use vstd::string::*;

use crate::accounts::{copy_optional, AccountInfo, AccountInfoView};
use crate::effects::{Step, StepView};
use crate::json::{
    document_bytes, empty_object, encode, line_document, parse_line, tree_member, tree_number,
    tree_signed, tree_text, tree_unsigned, with_member, writable, Json, JsonNumber, JsonTree,
};
use crate::text::{chars_of, held, join2, join3, join4, outcome, signed_decimal, signed_number_text};
use crate::vault::{is_named, names};

verus! {

/// How long an answer may take, in seconds.
pub const REQUEST_TIMEOUT: u64 = 20;

/// How long the server is given to end by itself, in milliseconds.
pub const STOP_PATIENCE: u64 = 800;

/// A limit on usage: how much of it is used, over how long, and when it starts anew.
#[derive(Debug)]
pub struct LimitWindow {
    pub used_percent: Option<JsonNumber>,
    pub window_duration_mins: Option<u64>,
    pub resets_at: Option<u64>,
}

/// What `LimitWindow` says.
#[verifier::ext_equal]
pub struct LimitWindowView {
    pub used_percent: Option<JsonNumber>,
    pub window_duration_mins: Option<u64>,
    pub resets_at: Option<u64>,
}

impl View for LimitWindow {
    type V = LimitWindowView;

    open spec fn view(&self) -> LimitWindowView {
        LimitWindowView {
            used_percent: self.used_percent,
            window_duration_mins: self.window_duration_mins,
            resets_at: self.resets_at,
        }
    }
}

/// The usage of an account at some time.
#[derive(Debug)]
pub struct UsageSnapshot {
    pub account_id: String,
    pub account: Option<AccountInfo>,
    pub primary: Option<LimitWindow>,
    pub secondary: Option<LimitWindow>,
    pub rate_limit_reached_type: Option<String>,
    pub reset_credits_available: Option<u64>,
    pub captured_at: u64,
}

/// What `UsageSnapshot` says.
#[verifier::ext_equal]
pub struct UsageSnapshotView {
    pub account_id: Seq<char>,
    pub account: Option<AccountInfoView>,
    pub primary: Option<LimitWindowView>,
    pub secondary: Option<LimitWindowView>,
    pub rate_limit_reached_type: Option<Seq<char>>,
    pub reset_credits_available: Option<u64>,
    pub captured_at: u64,
}

impl View for UsageSnapshot {
    type V = UsageSnapshotView;

    open spec fn view(&self) -> UsageSnapshotView {
        UsageSnapshotView {
            account_id: self.account_id@,
            account: held(self.account),
            primary: held(self.primary),
            secondary: held(self.secondary),
            rate_limit_reached_type: held(self.rate_limit_reached_type),
            reset_credits_available: self.reset_credits_available,
            captured_at: self.captured_at,
        }
    }
}

impl Clone for LimitWindow {
    fn clone(&self) -> (r: LimitWindow)
        ensures
            r == *self,
    {
        LimitWindow {
            used_percent: self.used_percent,
            window_duration_mins: self.window_duration_mins,
            resets_at: self.resets_at,
        }
    }
}

/// A copy of a limit that may be missing.
fn copy_window(window: &Option<LimitWindow>) -> (r: Option<LimitWindow>)
    ensures
        r == *window,
{
    match window {
        Some(window) => Some(window.clone()),
        None => None,
    }
}

/// A copy of what is known of an account, if anything is.
fn copy_account(account: &Option<AccountInfo>) -> (r: Option<AccountInfo>)
    ensures
        r == *account,
{
    match account {
        Some(info) => Some(info.clone()),
        None => None,
    }
}

impl Clone for UsageSnapshot {
    fn clone(&self) -> (r: UsageSnapshot)
        ensures
            r == *self,
    {
        UsageSnapshot {
            account_id: self.account_id.clone(),
            account: copy_account(&self.account),
            primary: copy_window(&self.primary),
            secondary: copy_window(&self.secondary),
            rate_limit_reached_type: copy_optional(&self.rate_limit_reached_type),
            reset_credits_available: self.reset_credits_available,
            captured_at: self.captured_at,
        }
    }
}

/// The text under one of two names: the first under which there is a text counts.
pub open spec fn text_under(
    tree: JsonTree,
    name: Seq<char>,
    other: Seq<char>,
) -> Option<Seq<char>> {
    match member_text(tree, name) {
        Some(text) => Some(text),
        None => member_text(tree, other),
    }
}

/// The text under a name.
pub open spec fn member_text(tree: JsonTree, name: Seq<char>) -> Option<Seq<char>> {
    match tree_member(tree, name) {
        Some(value) => tree_text(value),
        None => None,
    }
}

/// The number under a name.
pub open spec fn member_number(tree: JsonTree, name: Seq<char>) -> Option<JsonNumber> {
    match tree_member(tree, name) {
        Some(value) => tree_number(value),
        None => None,
    }
}

/// The whole number under a name.
pub open spec fn member_unsigned(tree: JsonTree, name: Seq<char>) -> Option<u64> {
    match tree_member(tree, name) {
        Some(value) => tree_unsigned(value),
        None => None,
    }
}

/// The number under one of two names: the first under which there is a number counts.
pub open spec fn number_under(tree: JsonTree, name: Seq<char>, other: Seq<char>) -> Option<
    JsonNumber,
> {
    match member_number(tree, name) {
        Some(number) => Some(number),
        None => member_number(tree, other),
    }
}

/// The whole number under one of two names: the first under which there is one counts.
pub open spec fn unsigned_under(tree: JsonTree, name: Seq<char>, other: Seq<char>) -> Option<u64> {
    match member_unsigned(tree, name) {
        Some(number) => Some(number),
        None => member_unsigned(tree, other),
    }
}

/// The member under one of two names: the first that is there counts.
pub open spec fn member_under(tree: JsonTree, name: Seq<char>, other: Seq<char>) -> Option<
    JsonTree,
> {
    match tree_member(tree, name) {
        Some(value) => Some(value),
        None => tree_member(tree, other),
    }
}

/// Where a character first stands in a text.
pub open spec fn first_place(text: Seq<char>, c: char) -> Option<int>
    decreases text.len(),
{
    if text.len() == 0 {
        None
    } else if text[0] == c {
        Some(0)
    } else {
        match first_place(text.drop_first(), c) {
            Some(at) => Some(at + 1),
            None => None,
        }
    }
}

/// The first place of a character is one in the text.
pub proof fn lemma_first_place(text: Seq<char>, c: char)
    ensures
        first_place(text, c) matches Some(at) ==> 0 <= at < text.len() && text[at] == c,
    decreases text.len(),
{
    if text.len() > 0 && text[0] != c {
        lemma_first_place(text.drop_first(), c);
    }
}

/// An address of which the domain and the first character are left; one without a domain is
/// hidden as a whole.
pub open spec fn redacted(email: Seq<char>) -> Seq<char> {
    match first_place(email, '@') {
        None => "***"@,
        Some(at) => seq![
            if at == 0 {
                '*'
            } else {
                email[0]
            },
        ] + "***@"@ + email.skip(at + 1),
    }
}

/// A limit on usage, unless it is null.
pub open spec fn window_of(tree: JsonTree) -> Option<LimitWindowView> {
    if tree is Null {
        None
    } else {
        Some(
            LimitWindowView {
                used_percent: number_under(tree, "usedPercent"@, "used_percent"@),
                window_duration_mins: unsigned_under(
                    tree,
                    "windowDurationMins"@,
                    "window_duration_mins"@,
                ),
                resets_at: unsigned_under(tree, "resetsAt"@, "resets_at"@),
            },
        )
    }
}

/// The limit with a name among the limits.
pub open spec fn window_under(limits: Option<JsonTree>, name: Seq<char>) -> Option<
    LimitWindowView,
> {
    match limits {
        Some(tree) => match tree_member(tree, name) {
            Some(window) => window_of(window),
            None => None,
        },
        None => None,
    }
}

/// What an answer tells of the account.
pub open spec fn account_of_answer(answer: JsonTree) -> Option<AccountInfoView> {
    match tree_member(answer, "account"@) {
        Some(tree) => Some(
            AccountInfoView {
                account_type: member_text(tree, "type"@),
                email: match member_text(tree, "email"@) {
                    Some(email) => Some(redacted(email)),
                    None => None,
                },
                plan_type: text_under(tree, "planType"@, "plan_type"@),
            },
        ),
        None => None,
    }
}

/// The usage that two answers tell, at some time.
pub open spec fn snapshot_of(account: JsonTree, usage: JsonTree, now: u64) -> UsageSnapshotView {
    let limits = member_under(usage, "rateLimits"@, "rate_limits"@);
    UsageSnapshotView {
        account_id: ""@,
        account: account_of_answer(account),
        primary: window_under(limits, "primary"@),
        secondary: window_under(limits, "secondary"@),
        rate_limit_reached_type: match limits {
            Some(tree) => text_under(tree, "rateLimitReachedType"@, "rate_limit_reached_type"@),
            None => None,
        },
        reset_credits_available: match member_under(
            usage,
            "rateLimitResetCredits"@,
            "rate_limit_reset_credits"@,
        ) {
            Some(tree) => unsigned_under(tree, "availableCount"@, "available_count"@),
            None => None,
        },
        captured_at: now,
    }
}

/// The text under a name.
fn text_at(value: &Json, name: &str) -> (r: Option<String>)
    ensures
        held(r) == member_text(value@, name@),
{
    match value.get(name) {
        Some(member) => match member.as_str() {
            Some(text) => Some(text.to_owned()),
            None => None,
        },
        None => None,
    }
}

/// The text under one of two names.
pub fn string(value: &Json, name: &str, other: &str) -> (r: Option<String>)
    ensures
        held(r) == text_under(value@, name@, other@),
{
    match text_at(value, name) {
        Some(text) => Some(text),
        None => text_at(value, other),
    }
}

/// The number under one of two names.
pub fn number(value: &Json, name: &str, other: &str) -> (r: Option<JsonNumber>)
    ensures
        r == number_under(value@, name@, other@),
{
    let first: Option<JsonNumber> = match value.get(name) {
        Some(member) => member.as_number(),
        None => None,
    };
    match first {
        Some(found) => Some(found),
        None => match value.get(other) {
            Some(member) => member.as_number(),
            None => None,
        },
    }
}

/// The whole number under one of two names.
pub fn number_u64(value: &Json, name: &str, other: &str) -> (r: Option<u64>)
    ensures
        r == unsigned_under(value@, name@, other@),
{
    let first: Option<u64> = match value.get(name) {
        Some(member) => member.as_u64(),
        None => None,
    };
    match first {
        Some(found) => Some(found),
        None => match value.get(other) {
            Some(member) => member.as_u64(),
            None => None,
        },
    }
}

/// The member under one of two names.
fn either_member<'a>(value: &'a Json, name: &str, other: &str) -> (r: Option<&'a Json>)
    ensures
        held(r) == member_under(value@, name@, other@),
{
    match value.get(name) {
        Some(member) => Some(member),
        None => value.get(other),
    }
}

/// Hides an address but for its domain and first character.
pub fn redact_email(email: &str) -> (r: String)
    ensures
        r@ == redacted(email@),
{
    let chars = chars_of(email);
    let ghost all = chars@;
    assert(all.skip(0) =~= all);
    let mut at: usize = 0;
    while at < chars.len() && chars[at] != '@'
        invariant
            all == chars@,
            at <= all.len(),
            first_place(all, '@') == (match first_place(all.skip(at as int), '@') {
                Some(rest) => Some(at + rest),
                None => None,
            }),
        decreases all.len() - at,
    {
        assert(all.skip(at as int).drop_first() =~= all.skip(at + 1));
        at = at + 1;
    }
    if at == chars.len() {
        return "***".to_owned();
    }
    assert(all.skip(at as int)[0] == '@');
    let count: usize = chars.len();
    assert(email@.subrange(at + 1, count as int) =~= email@.skip(at + 1));
    let domain = email.substring_char(at + 1, count);
    if at == 0 {
        proof {
            reveal_strlit("*");
            assert("*"@ =~= seq!['*']);
        }
        join3("*", "***@", domain)
    } else {
        let first = email.substring_char(0, 1);
        assert(first@ =~= seq![email@[0]]);
        join3(first, "***@", domain)
    }
}

/// Reads a limit on usage.
pub fn parse_window(value: &Json) -> (r: Option<LimitWindow>)
    ensures
        held(r) == window_of(value@),
{
    if value.is_null() {
        return None;
    }
    Some(
        LimitWindow {
            used_percent: number(value, "usedPercent", "used_percent"),
            window_duration_mins: number_u64(value, "windowDurationMins", "window_duration_mins"),
            resets_at: number_u64(value, "resetsAt", "resets_at"),
        },
    )
}

/// The limit with a name among the limits.
fn window_at(limits: Option<&Json>, name: &str) -> (r: Option<LimitWindow>)
    ensures
        held(r) == window_under(held(limits), name@),
{
    match limits {
        Some(value) => match value.get(name) {
            Some(window) => parse_window(window),
            None => None,
        },
        None => None,
    }
}

/// What an answer tells of the account.
fn read_account(answer: &Json) -> (r: Option<AccountInfo>)
    ensures
        held(r) == account_of_answer(answer@),
{
    match answer.get("account") {
        Some(value) => {
            let email: Option<String> = match text_at(value, "email") {
                Some(email) => Some(redact_email(email.as_str())),
                None => None,
            };
            Some(
                AccountInfo {
                    account_type: text_at(value, "type"),
                    email,
                    plan_type: string(value, "planType", "plan_type"),
                },
            )
        },
        None => None,
    }
}

/// The usage that two answers tell, at some time.
pub fn to_snapshot(account_result: &Json, usage_result: &Json, now: u64) -> (r: UsageSnapshot)
    ensures
        r@ == snapshot_of(account_result@, usage_result@, now),
{
    let limits = either_member(usage_result, "rateLimits", "rate_limits");
    let reached: Option<String> = match limits {
        Some(value) => string(value, "rateLimitReachedType", "rate_limit_reached_type"),
        None => None,
    };
    let credits: Option<u64> = match either_member(
        usage_result,
        "rateLimitResetCredits",
        "rate_limit_reset_credits",
    ) {
        Some(value) => number_u64(value, "availableCount", "available_count"),
        None => None,
    };
    UsageSnapshot {
        account_id: "".to_owned(),
        account: read_account(account_result),
        primary: window_at(limits, "primary"),
        secondary: window_at(limits, "secondary"),
        rate_limit_reached_type: reached,
        reset_credits_available: credits,
        captured_at: now,
    }
}

/// Accepts a query during which the account in use did not change.
pub open spec fn identity_verdict(
    before: Seq<char>,
    after: Option<Seq<char>>,
) -> Result<(), Seq<char>> {
    if names(after, before) {
        Ok(())
    } else {
        Err("查询期间账号已变化，已丢弃本次结果，请重新刷新"@)
    }
}

/// Accepts a query during which the account in use did not change.
pub fn verify_query_identity(before: &str, after: &Option<String>) -> (r: Result<(), String>)
    ensures
        outcome(r) == identity_verdict(before@, held(*after)),
{
    if is_named(after, before) {
        Ok(())
    } else {
        Err("查询期间账号已变化，已丢弃本次结果，请重新刷新".to_owned())
    }
}

/// A JSON object with these members.
pub open spec fn object(members: Map<Seq<char>, JsonTree>) -> JsonTree {
    JsonTree::Object(members)
}

/// A whole number in JSON.
pub open spec fn whole(n: u64) -> JsonTree {
    JsonTree::Number(JsonNumber::Unsigned(n))
}

/// A request to the server.
pub open spec fn request_tree(method: Seq<char>, id: u64, params: JsonTree) -> JsonTree {
    object(
        map!["method"@ => JsonTree::Text(method), "id"@ => whole(id), "params"@ => params],
    )
}

/// The request by which the hub makes itself known.
pub open spec fn initialize_tree(version: Seq<char>) -> JsonTree {
    request_tree(
        "initialize"@,
        1,
        object(
            map![
                "clientInfo"@ => object(map![
                    "name"@ => JsonTree::Text("codex_account_hub"@),
                    "title"@ => JsonTree::Text("Codex Account Hub"@),
                    "version"@ => JsonTree::Text(version),
                ]),
                "capabilities"@ => object(Map::empty()),
            ],
        ),
    )
}

/// The notice that the hub is ready.
pub open spec fn initialized_tree() -> JsonTree {
    object(
        map![
            "method"@ => JsonTree::Text("initialized"@),
            "params"@ => object(Map::empty()),
        ],
    )
}

/// The request for the account.
pub open spec fn account_tree() -> JsonTree {
    request_tree("account/read"@, 2, object(map!["refreshToken"@ => JsonTree::Bool(false)]))
}

/// The request for its limits.
pub open spec fn limits_tree() -> JsonTree {
    request_tree("account/rateLimits/read"@, 3, object(Map::empty()))
}

/// A request to the server.
fn request(method: &str, id: u64, params: Json) -> (r: Json)
    requires
        writable(params),
    ensures
        r@ == request_tree(method@, id, params@),
        writable(r),
{
    proof {
        reveal_strlit("method");
        reveal_strlit("id");
        reveal_strlit("params");
        assert("method"@[0] == 'm' && "params"@[0] == 'p');
        assert("method"@.len() == 6 && "params"@.len() == 6 && "id"@.len() == 2);
    }
    let last = with_member("params", params, empty_object());
    let middle = with_member("id", Json::Number(JsonNumber::Unsigned(id)), last);
    let whole_request = with_member("method", Json::Text(method.to_owned()), middle);
    assert(whole_request@->Object_0 =~= request_tree(method@, id, params@)->Object_0);
    whole_request
}

/// The request by which the hub makes itself known.
fn initialize_request(version: &str) -> (r: Json)
    ensures
        r@ == initialize_tree(version@),
        writable(r),
{
    proof {
        reveal_strlit("name");
        reveal_strlit("title");
        reveal_strlit("version");
        reveal_strlit("clientInfo");
        reveal_strlit("capabilities");
        assert("name"@.len() == 4 && "title"@.len() == 5 && "version"@.len() == 7);
        assert("clientInfo"@.len() == 10 && "capabilities"@.len() == 12);
    }
    let inner = with_member("version", Json::Text(version.to_owned()), empty_object());
    let inner = with_member("title", Json::Text("Codex Account Hub".to_owned()), inner);
    let client = with_member("name", Json::Text("codex_account_hub".to_owned()), inner);
    let ghost client_tree = map![
        "name"@ => JsonTree::Text("codex_account_hub"@),
        "title"@ => JsonTree::Text("Codex Account Hub"@),
        "version"@ => JsonTree::Text(version@),
    ];
    assert(client@->Object_0 =~= client_tree);
    let params = with_member("capabilities", empty_object(), empty_object());
    let params = with_member("clientInfo", client, params);
    assert(params@->Object_0 =~= map![
        "clientInfo"@ => object(client_tree),
        "capabilities"@ => object(Map::empty()),
    ]);
    request("initialize", 1, params)
}

/// The notice that the hub is ready.
fn initialized_notice() -> (r: Json)
    ensures
        r@ == initialized_tree(),
        writable(r),
{
    proof {
        reveal_strlit("method");
        reveal_strlit("params");
        assert("method"@[0] == 'm' && "params"@[0] == 'p');
    }
    let last = with_member("params", empty_object(), empty_object());
    let notice = with_member("method", Json::Text("initialized".to_owned()), last);
    assert(notice@->Object_0 =~= initialized_tree()->Object_0);
    notice
}

/// The request for the account.
fn account_request() -> (r: Json)
    ensures
        r@ == account_tree(),
        writable(r),
{
    let params = with_member("refreshToken", Json::Bool(false), empty_object());
    assert(params@->Object_0 =~= map!["refreshToken"@ => JsonTree::Bool(false)]);
    request("account/read", 2, params)
}

/// The request for its limits.
fn limits_request() -> (r: Json)
    ensures
        r@ == limits_tree(),
        writable(r),
{
    request("account/rateLimits/read", 3, empty_object())
}

/// What a conversation with the server asks for: to send bytes; to receive a line, within the time
/// for one answer, which begins anew where `fresh` is set; the time.
#[derive(Debug)]
pub enum ServerAction {
    Send(Vec<u8>),
    Receive { fresh: bool },
    Now,
}

/// What `ServerAction` says.
#[verifier::ext_equal]
pub enum ServerActionView {
    Send(Seq<u8>),
    Receive { fresh: bool },
    Now,
}

impl View for ServerAction {
    type V = ServerActionView;

    open spec fn view(&self) -> ServerActionView {
        match self {
            ServerAction::Send(inner) => ServerActionView::Send(inner@),
            ServerAction::Receive { fresh } => ServerActionView::Receive {
                fresh: *fresh,
            },
            ServerAction::Now => ServerActionView::Now,
        }
    }
}

/// What comes of it.
#[derive(Debug)]
pub enum ServerEvent {
    Sent,
    WriteFailed(String),
    Failed(String),
    Line(String),
    Closed,
    TimedOut,
    Time(u64),
}

/// What `ServerEvent` says.
#[verifier::ext_equal]
pub enum ServerEventView {
    Sent,
    WriteFailed(Seq<char>),
    Failed(Seq<char>),
    Line(Seq<char>),
    Closed,
    TimedOut,
    Time(u64),
}

impl View for ServerEvent {
    type V = ServerEventView;

    open spec fn view(&self) -> ServerEventView {
        match self {
            ServerEvent::Sent => ServerEventView::Sent,
            ServerEvent::WriteFailed(inner) => ServerEventView::WriteFailed(inner@),
            ServerEvent::Failed(inner) => ServerEventView::Failed(inner@),
            ServerEvent::Line(inner) => ServerEventView::Line(inner@),
            ServerEvent::Closed => ServerEventView::Closed,
            ServerEvent::TimedOut => ServerEventView::TimedOut,
            ServerEvent::Time(inner) => ServerEventView::Time(*inner),
        }
    }
}

/// What a line is to a request: nothing, or its failure, or its result.
#[derive(Debug)]
pub enum Answer {
    Other,
    Failed(String),
    Value(Json),
}

/// What `Answer` says.
#[verifier::ext_equal]
pub enum AnswerView {
    Other,
    Failed(Seq<char>),
    Value(JsonTree),
}

impl View for Answer {
    type V = AnswerView;

    open spec fn view(&self) -> AnswerView {
        match self {
            Answer::Other => AnswerView::Other,
            Answer::Failed(inner) => AnswerView::Failed(inner@),
            Answer::Value(inner) => AnswerView::Value(inner@),
        }
    }
}

/// A number that may be missing, as it is shown in errors.
pub open spec fn code_shown(code: Option<i64>) -> Seq<char> {
    match code {
        Some(n) => "Some("@ + signed_decimal(n as int) + ")"@,
        None => "None"@,
    }
}

/// The failure that an error object tells.
pub open spec fn failure_told(error: JsonTree) -> Seq<char> {
    let code = match tree_member(error, "code"@) {
        Some(value) => tree_signed(value),
        None => None,
    };
    let text = match member_text(error, "message"@) {
        Some(text) => text,
        None => "未知错误"@,
    };
    "App Server 请求失败（"@ + code_shown(code) + "）："@ + text
}

/// What a message is to the request with an id.
pub open spec fn message_answer(message: JsonTree, id: u64) -> AnswerView {
    if member_unsigned(message, "id"@) != Some(id) {
        AnswerView::Other
    } else {
        match tree_member(message, "error"@) {
            Some(error) => AnswerView::Failed(failure_told(error)),
            None => match tree_member(message, "result"@) {
                Some(value) => AnswerView::Value(value),
                None => AnswerView::Failed("App Server 响应缺少 result"@),
            },
        }
    }
}

/// What a line is to the request with an id; a line that is not JSON is nothing to it.
pub open spec fn line_answer(line: Seq<char>, id: u64) -> AnswerView {
    match line_document(line) {
        Ok(message) => message_answer(message, id),
        Err(_) => AnswerView::Other,
    }
}

/// What a message is to the request with an id.
pub fn answer_in(message: Json, id: u64) -> (r: Answer)
    ensures
        r@ == message_answer(message@, id),
{
    let found: Option<u64> = match message.get("id") {
        Some(value) => value.as_u64(),
        None => None,
    };
    let wanted: bool = match found {
        Some(n) => n == id,
        None => false,
    };
    if !wanted {
        return Answer::Other;
    }
    if let Some(error) = message.get("error") {
        let code: Option<i64> = match error.get("code") {
            Some(value) => value.as_i64(),
            None => None,
        };
        let shown = match code {
            Some(n) => join3("Some(", signed_number_text(n).as_str(), ")"),
            None => "None".to_owned(),
        };
        let text = match text_at(error, "message") {
            Some(text) => text,
            None => "未知错误".to_owned(),
        };
        return Answer::Failed(
            join4("App Server 请求失败（", shown.as_str(), "）：", text.as_str()),
        );
    }
    match message.into_member("result") {
        Some(value) => Answer::Value(value),
        None => Answer::Failed("App Server 响应缺少 result".to_owned()),
    }
}

/// What a line is to the request with an id.
pub fn read_line(line: &str, id: u64) -> (r: Answer)
    ensures
        r@ == line_answer(line@, id),
{
    match parse_line(line) {
        Ok(message) => answer_in(message, id),
        Err(_) => Answer::Other,
    }
}

/// A conversation with the server: each request is sent, then its answer is awaited.
#[derive(Debug)]
pub enum Query {
    InitializeSent,
    Initialize,
    InitializedSent,
    AccountSent,
    Account,
    LimitsSent { account: Json },
    Limits { account: Json },
    Clock { account: Json, usage: Json },
}

/// What `Query` says.
#[verifier::ext_equal]
pub enum QueryView {
    InitializeSent,
    Initialize,
    InitializedSent,
    AccountSent,
    Account,
    LimitsSent { account: JsonTree },
    Limits { account: JsonTree },
    Clock { account: JsonTree, usage: JsonTree },
}

impl View for Query {
    type V = QueryView;

    open spec fn view(&self) -> QueryView {
        match self {
            Query::InitializeSent => QueryView::InitializeSent,
            Query::Initialize => QueryView::Initialize,
            Query::InitializedSent => QueryView::InitializedSent,
            Query::AccountSent => QueryView::AccountSent,
            Query::Account => QueryView::Account,
            Query::LimitsSent { account } => QueryView::LimitsSent {
                account: account@,
            },
            Query::Limits { account } => QueryView::Limits {
                account: account@,
            },
            Query::Clock { account, usage } => QueryView::Clock {
                account: account@,
                usage: usage@,
            },
        }
    }
}

/// A line of bytes: what was written, and the end of the line.
pub open spec fn line_of(bytes: Result<Seq<u8>, Seq<char>>) -> Result<Seq<u8>, Seq<char>> {
    match bytes {
        Ok(bytes) => Ok(bytes.push(10)),
        Err(error) => Err(error),
    }
}

/// Ends a line of bytes.
pub fn end_line(bytes: Result<Vec<u8>, String>) -> (r: Result<Vec<u8>, String>)
    ensures
        outcome(r) == line_of(outcome(bytes)),
{
    match bytes {
        Ok(bytes) => {
            let mut line = bytes;
            line.push(10);
            Ok(line)
        },
        Err(error) => Err(error),
    }
}

/// Sends a line, if there is one.
pub open spec fn query_send(
    line: Result<Seq<u8>, Seq<char>>,
    next: QueryView,
) -> StepView<ServerActionView, QueryView, UsageSnapshotView> {
    match line {
        Ok(bytes) => StepView::Ask(ServerActionView::Send(bytes), next),
        Err(error) => StepView::Done(Err(error)),
    }
}

/// Sends a line, if there is one.
pub fn send_line(
    line: Result<Vec<u8>, String>,
    next: Query,
) -> (r: Step<ServerAction, Query, UsageSnapshot>)
    ensures
        r@ == query_send(outcome(line), next@),
{
    match line {
        Ok(bytes) => Step::Ask(ServerAction::Send(bytes), next),
        Err(error) => Step::Done(Err(error)),
    }
}

/// Begins a conversation; `version` is that of the hub.
pub open spec fn querying(version: Seq<char>) -> StepView<
    ServerActionView,
    QueryView,
    UsageSnapshotView,
> {
    query_send(line_of(document_bytes(initialize_tree(version))), QueryView::InitializeSent)
}

/// Begins a conversation; `version` is that of the hub.
pub fn query(version: &str) -> (r: Step<ServerAction, Query, UsageSnapshot>)
    ensures
        r@ == querying(version@),
{
    send_line(end_line(encode(initialize_request(version))), Query::InitializeSent)
}

/// Says that the hub is ready.
pub open spec fn query_ready() -> StepView<ServerActionView, QueryView, UsageSnapshotView> {
    query_send(line_of(document_bytes(initialized_tree())), QueryView::InitializedSent)
}

/// Says that the hub is ready.
pub fn send_ready() -> (r: Step<ServerAction, Query, UsageSnapshot>)
    ensures
        r@ == query_ready(),
{
    send_line(end_line(encode(initialized_notice())), Query::InitializedSent)
}

/// Asks for the account.
pub open spec fn query_account() -> StepView<ServerActionView, QueryView, UsageSnapshotView> {
    query_send(line_of(document_bytes(account_tree())), QueryView::AccountSent)
}

/// Asks for the account.
pub fn send_account() -> (r: Step<ServerAction, Query, UsageSnapshot>)
    ensures
        r@ == query_account(),
{
    send_line(end_line(encode(account_request())), Query::AccountSent)
}

/// Asks for the limits.
pub open spec fn query_limits(account: JsonTree) -> StepView<
    ServerActionView,
    QueryView,
    UsageSnapshotView,
> {
    query_send(line_of(document_bytes(limits_tree())), QueryView::LimitsSent { account })
}

/// Asks for the limits.
pub fn send_limits(account: Json) -> (r: Step<ServerAction, Query, UsageSnapshot>)
    ensures
        r@ == query_limits(account@),
{
    send_line(end_line(encode(limits_request())), Query::LimitsSent { account })
}

/// Whether a request was sent.
pub open spec fn sent_reply(event: ServerEventView) -> Result<(), Seq<char>> {
    match event {
        ServerEventView::Sent => Ok(()),
        ServerEventView::WriteFailed(error) => Err("App Server 写入失败："@ + error),
        ServerEventView::Failed(error) => Err(error),
        _ => Err("应答与请求不符"@),
    }
}

/// Whether a request was sent.
pub fn expect_sent(event: ServerEvent) -> (r: Result<(), String>)
    ensures
        outcome(r) == sent_reply(event@),
{
    match event {
        ServerEvent::Sent => Ok(()),
        ServerEvent::WriteFailed(error) => Err(join2("App Server 写入失败：", error.as_str())),
        ServerEvent::Failed(error) => Err(error),
        _ => Err("应答与请求不符".to_owned()),
    }
}

/// What an event is to the request with an id.
pub open spec fn answer_reply(event: ServerEventView, id: u64) -> AnswerView {
    match event {
        ServerEventView::Line(line) => line_answer(line, id),
        ServerEventView::Closed => AnswerView::Failed("App Server 在响应前退出"@),
        ServerEventView::TimedOut => AnswerView::Failed("App Server 请求超时"@),
        ServerEventView::Failed(error) => AnswerView::Failed(error),
        _ => AnswerView::Failed("应答与请求不符"@),
    }
}

/// What an event is to the request with an id.
pub fn expect_answer(event: ServerEvent, id: u64) -> (r: Answer)
    ensures
        r@ == answer_reply(event@, id),
{
    match event {
        ServerEvent::Line(line) => read_line(line.as_str(), id),
        ServerEvent::Closed => Answer::Failed("App Server 在响应前退出".to_owned()),
        ServerEvent::TimedOut => Answer::Failed("App Server 请求超时".to_owned()),
        ServerEvent::Failed(error) => Answer::Failed(error),
        _ => Answer::Failed("应答与请求不符".to_owned()),
    }
}

/// Waits for the answer to a request that was sent.
pub open spec fn query_receive(
    event: ServerEventView,
    waiting: QueryView,
) -> StepView<ServerActionView, QueryView, UsageSnapshotView> {
    match sent_reply(event) {
        Err(error) => StepView::Done(Err(error)),
        Ok(_) => StepView::Ask(ServerActionView::Receive { fresh: true }, waiting),
    }
}

/// Waits for the answer to a request that was sent.
pub fn receive_answer(
    event: ServerEvent,
    waiting: Query,
) -> (r: Step<ServerAction, Query, UsageSnapshot>)
    ensures
        r@ == query_receive(event@, waiting@),
{
    match expect_sent(event) {
        Err(error) => Step::Done(Err(error)),
        Ok(_) => Step::Ask(ServerAction::Receive { fresh: true }, waiting),
    }
}

/// Goes on with what came of it.
pub open spec fn query_next(
    state: QueryView,
    event: ServerEventView,
) -> StepView<ServerActionView, QueryView, UsageSnapshotView> {
    match state {
        QueryView::InitializeSent => query_receive(event, QueryView::Initialize),
        QueryView::Initialize => match answer_reply(event, 1) {
            AnswerView::Other => StepView::Ask(
                ServerActionView::Receive { fresh: false },
                QueryView::Initialize,
            ),
            AnswerView::Failed(error) => StepView::Done(Err(error)),
            AnswerView::Value(_) => query_ready(),
        },
        QueryView::InitializedSent => match sent_reply(event) {
            Err(error) => StepView::Done(Err(error)),
            Ok(_) => query_account(),
        },
        QueryView::AccountSent => query_receive(event, QueryView::Account),
        QueryView::Account => match answer_reply(event, 2) {
            AnswerView::Other => StepView::Ask(
                ServerActionView::Receive { fresh: false },
                QueryView::Account,
            ),
            AnswerView::Failed(error) => StepView::Done(Err(error)),
            AnswerView::Value(account) => query_limits(account),
        },
        QueryView::LimitsSent { account } => query_receive(event, QueryView::Limits { account }),
        QueryView::Limits { account } => match answer_reply(event, 3) {
            AnswerView::Other => StepView::Ask(
                ServerActionView::Receive { fresh: false },
                QueryView::Limits { account },
            ),
            AnswerView::Failed(error) => StepView::Done(Err(error)),
            AnswerView::Value(usage) => StepView::Ask(
                ServerActionView::Now,
                QueryView::Clock { account, usage },
            ),
        },
        QueryView::Clock { account, usage } => match event {
            ServerEventView::Time(now) => StepView::Done(Ok(snapshot_of(account, usage, now))),
            _ => StepView::Done(Err("应答与请求不符"@)),
        },
    }
}

impl Query {
    /// Goes on with what came of it.
    pub fn resume(self, event: ServerEvent) -> (r: Step<ServerAction, Query, UsageSnapshot>)
        ensures
            r@ == query_next(self@, event@),
    {
        match self {
            Query::InitializeSent => receive_answer(event, Query::Initialize),
            Query::Initialize => match expect_answer(event, 1) {
                Answer::Other => Step::Ask(
                    ServerAction::Receive { fresh: false },
                    Query::Initialize,
                ),
                Answer::Failed(error) => Step::Done(Err(error)),
                Answer::Value(_) => send_ready(),
            },
            Query::InitializedSent => match expect_sent(event) {
                Err(error) => Step::Done(Err(error)),
                Ok(_) => send_account(),
            },
            Query::AccountSent => receive_answer(event, Query::Account),
            Query::Account => match expect_answer(event, 2) {
                Answer::Other => Step::Ask(ServerAction::Receive { fresh: false }, Query::Account),
                Answer::Failed(error) => Step::Done(Err(error)),
                Answer::Value(account) => send_limits(account),
            },
            Query::LimitsSent { account } => receive_answer(event, Query::Limits { account }),
            Query::Limits { account } => match expect_answer(event, 3) {
                Answer::Other => Step::Ask(
                    ServerAction::Receive { fresh: false },
                    Query::Limits { account },
                ),
                Answer::Failed(error) => Step::Done(Err(error)),
                Answer::Value(usage) => Step::Ask(
                    ServerAction::Now,
                    Query::Clock { account, usage },
                ),
            },
            Query::Clock { account, usage } => match event {
                ServerEvent::Time(now) => Step::Done(Ok(to_snapshot(&account, &usage, now))),
                _ => Step::Done(Err("应答与请求不符".to_owned())),
            },
        }
    }
}

/// What a query of a home asks for: the account that the home is logged in to, the server to be
/// started, its process to be attached to the hub, or to be killed, or to be recorded, the
/// conversation, the server to be stopped, the record to be removed.
#[derive(Debug)]
pub enum UsageAction {
    Identify,
    Start,
    Attach,
    Kill,
    Record,
    Converse,
    Stop,
    Clear,
}

/// What `UsageAction` says.
#[verifier::ext_equal]
pub enum UsageActionView {
    Identify,
    Start,
    Attach,
    Kill,
    Record,
    Converse,
    Stop,
    Clear,
}

impl View for UsageAction {
    type V = UsageActionView;

    open spec fn view(&self) -> UsageActionView {
        match self {
            UsageAction::Identify => UsageActionView::Identify,
            UsageAction::Start => UsageActionView::Start,
            UsageAction::Attach => UsageActionView::Attach,
            UsageAction::Kill => UsageActionView::Kill,
            UsageAction::Record => UsageActionView::Record,
            UsageAction::Converse => UsageActionView::Converse,
            UsageAction::Stop => UsageActionView::Stop,
            UsageAction::Clear => UsageActionView::Clear,
        }
    }
}

/// What comes of it.
#[derive(Debug)]
pub enum UsageEvent {
    Identity(Result<String, String>),
    Finished(Result<(), String>),
    Snapshot(Result<UsageSnapshot, String>),
}

/// What `UsageEvent` says.
#[verifier::ext_equal]
pub enum UsageEventView {
    Identity(Result<Seq<char>, Seq<char>>),
    Finished(Result<(), Seq<char>>),
    Snapshot(Result<UsageSnapshotView, Seq<char>>),
}

impl View for UsageEvent {
    type V = UsageEventView;

    open spec fn view(&self) -> UsageEventView {
        match self {
            UsageEvent::Identity(inner) => UsageEventView::Identity(outcome(*inner)),
            UsageEvent::Finished(inner) => UsageEventView::Finished(outcome(*inner)),
            UsageEvent::Snapshot(inner) => UsageEventView::Snapshot(outcome(*inner)),
        }
    }
}

/// A query of a home. A home of the hub's own is `isolated`: the process that works there is
/// recorded as long as it does.
#[derive(Debug)]
pub enum QueryUsage {
    Before { isolated: bool },
    Started { before: String, isolated: bool },
    Attached { before: String, isolated: bool },
    Killed { before: String, error: String },
    Recorded { before: String },
    Abandoned { before: String, error: String },
    Conversed { before: String, isolated: bool },
    Stopped { before: String, isolated: bool, result: Result<UsageSnapshot, String> },
    Cleared { before: String, result: Result<UsageSnapshot, String> },
    After { before: String, result: Result<UsageSnapshot, String> },
}

/// What `QueryUsage` says.
#[verifier::ext_equal]
pub enum QueryUsageView {
    Before { isolated: bool },
    Started { before: Seq<char>, isolated: bool },
    Attached { before: Seq<char>, isolated: bool },
    Killed { before: Seq<char>, error: Seq<char> },
    Recorded { before: Seq<char> },
    Abandoned { before: Seq<char>, error: Seq<char> },
    Conversed { before: Seq<char>, isolated: bool },
    Stopped { before: Seq<char>, isolated: bool, result: Result<UsageSnapshotView, Seq<char>> },
    Cleared { before: Seq<char>, result: Result<UsageSnapshotView, Seq<char>> },
    After { before: Seq<char>, result: Result<UsageSnapshotView, Seq<char>> },
}

impl View for QueryUsage {
    type V = QueryUsageView;

    open spec fn view(&self) -> QueryUsageView {
        match self {
            QueryUsage::Before { isolated } => QueryUsageView::Before {
                isolated: *isolated,
            },
            QueryUsage::Started { before, isolated } => QueryUsageView::Started {
                before: before@,
                isolated: *isolated,
            },
            QueryUsage::Attached { before, isolated } => QueryUsageView::Attached {
                before: before@,
                isolated: *isolated,
            },
            QueryUsage::Killed { before, error } => QueryUsageView::Killed {
                before: before@,
                error: error@,
            },
            QueryUsage::Recorded { before } => QueryUsageView::Recorded {
                before: before@,
            },
            QueryUsage::Abandoned { before, error } => QueryUsageView::Abandoned {
                before: before@,
                error: error@,
            },
            QueryUsage::Conversed { before, isolated } => QueryUsageView::Conversed {
                before: before@,
                isolated: *isolated,
            },
            QueryUsage::Stopped { before, isolated, result } => QueryUsageView::Stopped {
                before: before@,
                isolated: *isolated,
                result: outcome(*result),
            },
            QueryUsage::Cleared { before, result } => QueryUsageView::Cleared {
                before: before@,
                result: outcome(*result),
            },
            QueryUsage::After { before, result } => QueryUsageView::After {
                before: before@,
                result: outcome(*result),
            },
        }
    }
}

/// Queries the usage of the account that a home is logged in to.
pub open spec fn querying_usage(
    isolated: bool,
) -> StepView<UsageActionView, QueryUsageView, UsageSnapshotView> {
    StepView::Ask(UsageActionView::Identify, QueryUsageView::Before { isolated })
}

/// Queries the usage of the account that a home is logged in to.
pub fn query_usage_owned(isolated: bool) -> (r: Step<UsageAction, QueryUsage, UsageSnapshot>)
    ensures
        r@ == querying_usage(isolated),
{
    Step::Ask(UsageAction::Identify, QueryUsage::Before { isolated })
}

/// Queries the usage of the account in use.
pub open spec fn querying_current() -> StepView<
    UsageActionView,
    QueryUsageView,
    UsageSnapshotView,
> {
    querying_usage(false)
}

/// Queries the usage of the account in use.
pub fn query_usage() -> (r: Step<UsageAction, QueryUsage, UsageSnapshot>)
    ensures
        r@ == querying_current(),
{
    query_usage_owned(false)
}

/// Looks once more which account the home is logged in to.
pub open spec fn usage_settle(
    before: Seq<char>,
    result: Result<UsageSnapshotView, Seq<char>>,
) -> StepView<UsageActionView, QueryUsageView, UsageSnapshotView> {
    StepView::Ask(UsageActionView::Identify, QueryUsageView::After { before, result })
}

/// Looks once more which account the home is logged in to.
pub fn settle_usage(
    before: String,
    result: Result<UsageSnapshot, String>,
) -> (r: Step<UsageAction, QueryUsage, UsageSnapshot>)
    ensures
        r@ == usage_settle(before@, outcome(result)),
{
    Step::Ask(UsageAction::Identify, QueryUsage::After { before, result })
}

/// Whether something was carried out.
pub open spec fn finished_reply(event: UsageEventView) -> Result<(), Seq<char>> {
    match event {
        UsageEventView::Finished(result) => result,
        _ => Err("应答与请求不符"@),
    }
}

/// Whether something was carried out.
pub fn expect_finished(event: UsageEvent) -> (r: Result<(), String>)
    ensures
        outcome(r) == finished_reply(event@),
{
    match event {
        UsageEvent::Finished(result) => result,
        _ => Err("应答与请求不符".to_owned()),
    }
}

/// What a conversation came to.
pub open spec fn snapshot_reply(event: UsageEventView) -> Result<UsageSnapshotView, Seq<char>> {
    match event {
        UsageEventView::Snapshot(result) => result,
        _ => Err("应答与请求不符"@),
    }
}

/// What a conversation came to.
pub fn expect_snapshot(event: UsageEvent) -> (r: Result<UsageSnapshot, String>)
    ensures
        outcome(r) == snapshot_reply(event@),
{
    match event {
        UsageEvent::Snapshot(result) => result,
        _ => Err("应答与请求不符".to_owned()),
    }
}

/// The account that a home is logged in to.
pub open spec fn identity_reply(event: UsageEventView) -> Result<Seq<char>, Seq<char>> {
    match event {
        UsageEventView::Identity(result) => result,
        _ => Err("应答与请求不符"@),
    }
}

/// The account that a home is logged in to.
pub fn expect_identity(event: UsageEvent) -> (r: Result<String, String>)
    ensures
        outcome(r) == identity_reply(event@),
{
    match event {
        UsageEvent::Identity(result) => result,
        _ => Err("应答与请求不符".to_owned()),
    }
}

/// The result of a query, bound to the account that it was made for.
pub open spec fn bound_snapshot(
    before: Seq<char>,
    after: Option<Seq<char>>,
    result: Result<UsageSnapshotView, Seq<char>>,
) -> Result<UsageSnapshotView, Seq<char>> {
    match identity_verdict(before, after) {
        Err(error) => Err(error),
        Ok(_) => match result {
            Err(error) => Err(error),
            Ok(snapshot) => Ok(
                UsageSnapshotView {
                    account_id: before,
                    account: snapshot.account,
                    primary: snapshot.primary,
                    secondary: snapshot.secondary,
                    rate_limit_reached_type: snapshot.rate_limit_reached_type,
                    reset_credits_available: snapshot.reset_credits_available,
                    captured_at: snapshot.captured_at,
                },
            ),
        },
    }
}

/// The result of a query, bound to the account that it was made for.
pub fn bind_snapshot(
    before: String,
    after: Option<String>,
    result: Result<UsageSnapshot, String>,
) -> (r: Result<UsageSnapshot, String>)
    ensures
        outcome(r) == bound_snapshot(before@, held(after), outcome(result)),
{
    match verify_query_identity(before.as_str(), &after) {
        Err(error) => Err(error),
        Ok(_) => match result {
            Err(error) => Err(error),
            Ok(snapshot) => Ok(
                UsageSnapshot {
                    account_id: before,
                    account: snapshot.account,
                    primary: snapshot.primary,
                    secondary: snapshot.secondary,
                    rate_limit_reached_type: snapshot.rate_limit_reached_type,
                    reset_credits_available: snapshot.reset_credits_available,
                    captured_at: snapshot.captured_at,
                },
            ),
        },
    }
}

/// What is known, if anything is.
pub open spec fn known_part(result: Result<Seq<char>, Seq<char>>) -> Option<Seq<char>> {
    match result {
        Ok(text) => Some(text),
        Err(_) => None,
    }
}

/// What is known, if anything is.
pub fn known(result: Result<String, String>) -> (r: Option<String>)
    ensures
        held(r) == known_part(outcome(result)),
{
    match result {
        Ok(text) => Some(text),
        Err(_) => None,
    }
}

/// Goes on with what came of it.
pub open spec fn query_usage_next(
    state: QueryUsageView,
    event: UsageEventView,
) -> StepView<UsageActionView, QueryUsageView, UsageSnapshotView> {
    match state {
        QueryUsageView::Before { isolated } => match identity_reply(event) {
            Err(error) => StepView::Done(Err(error)),
            Ok(before) => StepView::Ask(
                UsageActionView::Start,
                QueryUsageView::Started { before, isolated },
            ),
        },
        QueryUsageView::Started { before, isolated } => match finished_reply(event) {
            Err(error) => usage_settle(
                before,
                Err("无法启动 Codex App Server："@ + error),
            ),
            Ok(_) => StepView::Ask(
                UsageActionView::Attach,
                QueryUsageView::Attached { before, isolated },
            ),
        },
        QueryUsageView::Killed { before, error } => usage_settle(before, Err(error)),
        QueryUsageView::Attached { before, isolated } => match finished_reply(event) {
            Err(error) => StepView::Ask(
                UsageActionView::Kill,
                QueryUsageView::Killed { before, error },
            ),
            Ok(_) => if isolated {
                StepView::Ask(UsageActionView::Record, QueryUsageView::Recorded { before })
            } else {
                StepView::Ask(
                    UsageActionView::Converse,
                    QueryUsageView::Conversed { before, isolated },
                )
            },
        },
        QueryUsageView::Recorded { before } => match finished_reply(event) {
            Err(error) => StepView::Ask(
                UsageActionView::Stop,
                QueryUsageView::Abandoned { before, error },
            ),
            Ok(_) => StepView::Ask(
                UsageActionView::Converse,
                QueryUsageView::Conversed { before, isolated: true },
            ),
        },
        QueryUsageView::Abandoned { before, error } => usage_settle(before, Err(error)),
        QueryUsageView::Conversed { before, isolated } => StepView::Ask(
            UsageActionView::Stop,
            QueryUsageView::Stopped { before, isolated, result: snapshot_reply(event) },
        ),
        QueryUsageView::Stopped { before, isolated, result } => match finished_reply(event) {
            Err(error) => usage_settle(
                before,
                Err("无法确认查询进程退出："@ + error),
            ),
            Ok(_) => if isolated {
                StepView::Ask(UsageActionView::Clear, QueryUsageView::Cleared { before, result })
            } else {
                usage_settle(before, result)
            },
        },
        QueryUsageView::Cleared { before, result } => match finished_reply(event) {
            Err(error) => usage_settle(before, Err(error)),
            Ok(_) => usage_settle(before, result),
        },
        QueryUsageView::After { before, result } => StepView::Done(
            bound_snapshot(before, known_part(identity_reply(event)), result),
        ),
    }
}

impl QueryUsage {
    /// Goes on with what came of it.
    pub fn resume(self, event: UsageEvent) -> (r: Step<UsageAction, QueryUsage, UsageSnapshot>)
        ensures
            r@ == query_usage_next(self@, event@),
    {
        match self {
            QueryUsage::Before { isolated } => match expect_identity(event) {
                Err(error) => Step::Done(Err(error)),
                Ok(before) => Step::Ask(
                    UsageAction::Start,
                    QueryUsage::Started { before, isolated },
                ),
            },
            QueryUsage::Started { before, isolated } => match expect_finished(event) {
                Err(error) => settle_usage(
                    before,
                    Err(join2("无法启动 Codex App Server：", error.as_str())),
                ),
                Ok(_) => Step::Ask(
                    UsageAction::Attach,
                    QueryUsage::Attached { before, isolated },
                ),
            },
            QueryUsage::Killed { before, error } => settle_usage(before, Err(error)),
            QueryUsage::Attached { before, isolated } => match expect_finished(event) {
                Err(error) => Step::Ask(
                    UsageAction::Kill,
                    QueryUsage::Killed { before, error },
                ),
                Ok(_) => if isolated {
                    Step::Ask(UsageAction::Record, QueryUsage::Recorded { before })
                } else {
                    Step::Ask(UsageAction::Converse, QueryUsage::Conversed { before, isolated })
                },
            },
            QueryUsage::Recorded { before } => match expect_finished(event) {
                Err(error) => Step::Ask(
                    UsageAction::Stop,
                    QueryUsage::Abandoned { before, error },
                ),
                Ok(_) => Step::Ask(
                    UsageAction::Converse,
                    QueryUsage::Conversed { before, isolated: true },
                ),
            },
            QueryUsage::Abandoned { before, error } => settle_usage(before, Err(error)),
            QueryUsage::Conversed { before, isolated } => Step::Ask(
                UsageAction::Stop,
                QueryUsage::Stopped { before, isolated, result: expect_snapshot(event) },
            ),
            QueryUsage::Stopped { before, isolated, result } => match expect_finished(event) {
                Err(error) => settle_usage(
                    before,
                    Err(join2("无法确认查询进程退出：", error.as_str())),
                ),
                Ok(_) => if isolated {
                    Step::Ask(UsageAction::Clear, QueryUsage::Cleared { before, result })
                } else {
                    settle_usage(before, result)
                },
            },
            QueryUsage::Cleared { before, result } => match expect_finished(event) {
                Err(error) => settle_usage(before, Err(error)),
                Ok(_) => settle_usage(before, result),
            },
            QueryUsage::After { before, result } => Step::Done(
                bind_snapshot(before, known(expect_identity(event)), result),
            ),
        }
    }
}

/// A result is bound to an account only if that account was in use before and after the query; if
/// it changed or disappeared the result is dropped, whatever it is.
pub proof fn law_result_is_bound_to_account(
    before: Seq<char>,
    after: Option<Seq<char>>,
    result: Result<UsageSnapshotView, Seq<char>>,
)
    ensures
        bound_snapshot(before, after, result) matches Ok(snapshot) ==> snapshot.account_id == before
            && after == Some(before) && result == Ok::<UsageSnapshotView, Seq<char>>(
            UsageSnapshotView { account_id: result->Ok_0.account_id, ..snapshot },
        ),
        after != Some(before) ==> bound_snapshot(before, after, result) == Err::<
            UsageSnapshotView,
            Seq<char>,
        >("查询期间账号已变化，已丢弃本次结果，请重新刷新"@),
{
}

/// An address never shows more of its local part than the first character: two addresses that
/// share that character and the domain look the same.
pub proof fn law_redaction_hides_the_local_part(a: Seq<char>, b: Seq<char>)
    requires
        first_place(a, '@') is None <==> first_place(b, '@') is None,
        first_place(a, '@') matches Some(i) ==> (first_place(b, '@') matches Some(j)
            && a.skip(i + 1) == b.skip(j + 1) && (i == 0 <==> j == 0)
            && (i > 0 ==> a[0] == b[0])),
    ensures
        redacted(a) == redacted(b),
{
    lemma_first_place(a, '@');
    lemma_first_place(b, '@');
}

} // verus!
