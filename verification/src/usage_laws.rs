//! What a query of the usage tells, and what it takes.

use vstd::prelude::*;

use crate::app_server::{
    answer_reply, first_place, lemma_first_place, message_answer, query_next, query_usage_next,
    querying, querying_current, querying_usage, redacted, snapshot_of, AnswerView, LimitWindowView,
    QueryUsageView, QueryView, ServerActionView, ServerEventView, UsageActionView, UsageEventView,
    UsageSnapshotView,
};
use crate::courses::{asked, lemma_course_step, reached};
use crate::effects::StepView;
use crate::json::{document_bytes, line_document, JsonNumber, JsonTree};
use crate::text::signed_decimal;

verus! {

/// Whether a number is under a name of an object.
pub open spec fn has_number(
    members: Map<Seq<char>, JsonTree>,
    name: Seq<char>,
    number: JsonNumber,
) -> bool {
    members.contains_key(name) && members[name] == JsonTree::Number(number)
}

/// Whether a whole number from zero on is under a name of an object.
pub open spec fn has_whole(members: Map<Seq<char>, JsonTree>, name: Seq<char>, n: u64) -> bool {
    has_number(members, name, JsonNumber::Unsigned(n))
}

/// Whether a text is under a name of an object.
pub open spec fn has_text(
    members: Map<Seq<char>, JsonTree>,
    name: Seq<char>,
    text: Seq<char>,
) -> bool {
    members.contains_key(name) && members[name] == JsonTree::Text(text)
}

/// Whether a number is shown that is under one of two names, the first before the other, and none
/// where there is none.
pub open spec fn shows_number(
    members: Map<Seq<char>, JsonTree>,
    name: Seq<char>,
    other: Seq<char>,
    shown: Option<JsonNumber>,
) -> bool {
    &&& forall|n: JsonNumber| #[trigger] has_number(members, name, n) ==> shown == Some(n)
    &&& forall|n: JsonNumber| #[trigger]
        has_number(members, other, n) && !(members.contains_key(name)
            && members[name] is Number) ==> shown == Some(n)
    &&& shown matches Some(n) ==> has_number(members, name, n) || has_number(members, other, n)
}

/// Whether a whole number is shown that is under one of two names, the first before the other, and
/// none where there is none.
pub open spec fn shows_whole(
    members: Map<Seq<char>, JsonTree>,
    name: Seq<char>,
    other: Seq<char>,
    shown: Option<u64>,
) -> bool {
    &&& forall|n: u64| #[trigger] has_whole(members, name, n) ==> shown == Some(n)
    &&& forall|n: u64| #[trigger]
        has_whole(members, other, n) && !(members.contains_key(name)
            && members[name] matches JsonTree::Number(JsonNumber::Unsigned(_))) ==> shown == Some(n)
    &&& shown matches Some(n) ==> has_whole(members, name, n) || has_whole(members, other, n)
}

/// Whether a text is shown that is under one of two names, the first before the other, and none
/// where there is none.
pub open spec fn shows_text(
    members: Map<Seq<char>, JsonTree>,
    name: Seq<char>,
    other: Seq<char>,
    shown: Option<Seq<char>>,
) -> bool {
    &&& forall|text: Seq<char>| #[trigger] has_text(members, name, text) ==> shown == Some(text)
    &&& forall|text: Seq<char>| #[trigger]
        has_text(members, other, text) && !(members.contains_key(name)
            && members[name] is Text) ==> shown == Some(text)
    &&& shown matches Some(text) ==> has_text(members, name, text) || has_text(
        members,
        other,
        text,
    )
}

/// Whether a window shows what a document tells of it.
pub open spec fn shows_window(tree: JsonTree, shown: LimitWindowView) -> bool {
    match tree {
        JsonTree::Object(members) => {
            &&& shows_number(members, "usedPercent"@, "used_percent"@, shown.used_percent)
            &&& shows_whole(
                members,
                "windowDurationMins"@,
                "window_duration_mins"@,
                shown.window_duration_mins,
            )
            &&& shows_whole(members, "resetsAt"@, "resets_at"@, shown.resets_at)
        },
        _ => shown.used_percent is None && shown.window_duration_mins is None
            && shown.resets_at is None,
    }
}

/// Whether a member of an object is one that tells something.
pub open spec fn has_more_than_null(members: Map<Seq<char>, JsonTree>, name: Seq<char>) -> bool {
    members.contains_key(name) && !(members[name] is Null)
}

/// Whether these are the limits in an answer: those under the one name, or else under the other.
pub open spec fn has_limits(
    usage: Map<Seq<char>, JsonTree>,
    limits: Map<Seq<char>, JsonTree>,
) -> bool {
    if usage.contains_key("rateLimits"@) {
        usage["rateLimits"@] == JsonTree::Object(limits)
    } else {
        usage.contains_key("rate_limits"@) && usage["rate_limits"@] == JsonTree::Object(limits)
    }
}

/// The snapshot has a window exactly where the limits of the answer have one that is not null, the
/// primary and the secondary alike, and it shows the numbers that are told of it. It has the time
/// at which it was made.
pub proof fn law_windows_are_those_of_the_answer(
    account: JsonTree,
    usage: Map<Seq<char>, JsonTree>,
    limits: Map<Seq<char>, JsonTree>,
    now: u64,
)
    requires
        has_limits(usage, limits),
    ensures
        ({
            let snapshot = snapshot_of(account, JsonTree::Object(usage), now);
            &&& has_more_than_null(limits, "primary"@) ==> (snapshot.primary matches Some(window)
                && shows_window(limits["primary"@], window))
            &&& has_more_than_null(limits, "secondary"@) ==> (snapshot.secondary matches Some(
                window,
            ) && shows_window(limits["secondary"@], window))
            &&& !has_more_than_null(limits, "primary"@) ==> snapshot.primary is None
            &&& !has_more_than_null(limits, "secondary"@) ==> snapshot.secondary is None
            &&& shows_text(
                limits,
                "rateLimitReachedType"@,
                "rate_limit_reached_type"@,
                snapshot.rate_limit_reached_type,
            )
            &&& snapshot.captured_at == now
        }),
{
    let snapshot = snapshot_of(account, JsonTree::Object(usage), now);
    if has_more_than_null(limits, "primary"@) {
        assert(snapshot.primary is Some);
        assert(shows_window(limits["primary"@], snapshot.primary->Some_0));
    }
    if has_more_than_null(limits, "secondary"@) {
        assert(snapshot.secondary is Some);
        assert(shows_window(limits["secondary"@], snapshot.secondary->Some_0));
    }
}

/// An answer without limits tells of no window.
pub proof fn law_no_limits_no_windows(account: JsonTree, usage: JsonTree, now: u64)
    requires
        usage matches JsonTree::Object(members) ==> forall|limits: Map<Seq<char>, JsonTree>|
            !#[trigger] has_limits(members, limits),
    ensures
        ({
            let snapshot = snapshot_of(account, usage, now);
            &&& snapshot.primary is None
            &&& snapshot.secondary is None
            &&& snapshot.rate_limit_reached_type is None
        }),
{
    if let JsonTree::Object(members) = usage {
        if members.contains_key("rateLimits"@) {
            if let JsonTree::Object(limits) = members["rateLimits"@] {
                assert(has_limits(members, limits));
            }
        } else if members.contains_key("rate_limits"@) {
            if let JsonTree::Object(limits) = members["rate_limits"@] {
                assert(has_limits(members, limits));
            }
        }
    }
}

/// The snapshot tells how often the limits can be reset, as the answer does.
pub proof fn law_reset_credits_are_those_of_the_answer(
    account: JsonTree,
    usage: Map<Seq<char>, JsonTree>,
    credits: Map<Seq<char>, JsonTree>,
    now: u64,
)
    requires
        if usage.contains_key("rateLimitResetCredits"@) {
            usage["rateLimitResetCredits"@] == JsonTree::Object(credits)
        } else {
            usage.contains_key("rate_limit_reset_credits"@) && usage["rate_limit_reset_credits"@]
                == JsonTree::Object(credits)
        },
    ensures
        shows_whole(
            credits,
            "availableCount"@,
            "available_count"@,
            snapshot_of(account, JsonTree::Object(usage), now).reset_credits_available,
        ),
{
}

/// The snapshot tells of the account what the answer does: its kind, its plan, and its address as
/// far as that is shown.
pub proof fn law_account_is_that_of_the_answer(
    answer: Map<Seq<char>, JsonTree>,
    account: Map<Seq<char>, JsonTree>,
    usage: JsonTree,
    now: u64,
)
    requires
        answer.contains_key("account"@),
        answer["account"@] == JsonTree::Object(account),
    ensures
        snapshot_of(JsonTree::Object(answer), usage, now).account matches Some(info) && {
            &&& shows_text(account, "type"@, "type"@, info.account_type)
            &&& shows_text(account, "planType"@, "plan_type"@, info.plan_type)
            &&& forall|email: Seq<char>| #[trigger]
                has_text(account, "email"@, email) ==> info.email == Some(redacted(email))
            &&& !(account.contains_key("email"@) && account["email"@] is Text) ==> info.email
                is None
        },
{
    let info = snapshot_of(JsonTree::Object(answer), usage, now).account->Some_0;
    assert(shows_text(account, "type"@, "type"@, info.account_type));
    assert(shows_text(account, "planType"@, "plan_type"@, info.plan_type));
}

/// An answer without an account tells of none.
pub proof fn law_no_account_is_made_up(answer: JsonTree, usage: JsonTree, now: u64)
    requires
        answer matches JsonTree::Object(members) ==> !members.contains_key("account"@),
    ensures
        snapshot_of(answer, usage, now).account is None,
{
}

/// The first place of a character in a text that has it after a stretch without it.
pub proof fn lemma_first_place_after(before: Seq<char>, c: char, after: Seq<char>)
    requires
        !before.contains(c),
    ensures
        first_place(before + seq![c] + after, c) == Some(before.len() as int),
    decreases before.len(),
{
    let text = before + seq![c] + after;
    if before.len() == 0 {
        assert(text[0] == c);
    } else {
        assert(before.contains(before[0]));
        assert(text[0] == before[0]);
        assert forall|d: char| before.drop_first().contains(d) implies before.contains(d) by {
            let i = choose|i: int| 0 <= i < before.drop_first().len() && before.drop_first()[i]
                == d;
            assert(before[i + 1] == d);
        }
        lemma_first_place_after(before.drop_first(), c, after);
        assert(text.drop_first() =~= before.drop_first() + seq![c] + after);
    }
}

/// Of an address the first character and the domain are shown, and nothing of what stands between;
/// of a text that is no address nothing is shown.
pub proof fn law_address_is_shown_in_part(local: Seq<char>, domain: Seq<char>)
    requires
        !local.contains('@'),
    ensures
        redacted(local) == "***"@,
        local.len() > 0 ==> redacted(local + seq!['@'] + domain) == seq![local[0]] + "***@"@
            + domain,
        local.len() == 0 ==> redacted(local + seq!['@'] + domain) == "****@"@ + domain,
{
    lemma_first_place(local, '@');
    lemma_first_place_after(local, '@', domain);
    let email = local + seq!['@'] + domain;
    assert(email.skip(local.len() as int + 1) =~= domain);
    reveal_strlit("***@");
    reveal_strlit("****@");
    assert(seq!['*'] + "***@"@ =~= "****@"@);
}

/// Whether a message carries the id of a request.
pub open spec fn answers_request(message: JsonTree, id: u64) -> bool {
    message matches JsonTree::Object(members) && has_whole(members, "id"@, id)
}

/// Whether an event is a line that has nothing to do with a request: one that is not JSON, or that
/// does not carry the id of the request.
pub open spec fn is_aside(event: ServerEventView, id: u64) -> bool {
    event matches ServerEventView::Line(line) && match line_document(line) {
        Ok(message) => !answers_request(message, id),
        Err(_) => true,
    }
}

/// Whether an event is a line with the result of a request.
pub open spec fn is_result(event: ServerEventView, id: u64, value: JsonTree) -> bool {
    event matches ServerEventView::Line(line) && match line_document(line) {
        Ok(JsonTree::Object(members)) => has_whole(members, "id"@, id) && !members.contains_key(
            "error"@,
        ) && members.contains_key("result"@) && members["result"@] == value,
        _ => false,
    }
}

/// A line with a result is taken as such, and a line that does not concern the request is passed
/// over, whatever else it says.
pub proof fn law_answer_is_told_by_its_id(event: ServerEventView, id: u64, value: JsonTree)
    ensures
        is_result(event, id, value) ==> answer_reply(event, id) == AnswerView::Value(value),
        is_aside(event, id) <==> answer_reply(event, id) is Other,
        answer_reply(event, id) matches AnswerView::Value(told) ==> is_result(event, id, told),
{
}

/// A request that is answered by an error tells its code and its text; one that is answered by
/// neither an error nor a result is told so.
pub proof fn law_error_of_the_server_is_told(members: Map<Seq<char>, JsonTree>, id: u64)
    requires
        has_whole(members, "id"@, id),
    ensures
        members.contains_key("error"@) ==> message_answer(
            JsonTree::Object(members),
            id,
        ) is Failed,
        !members.contains_key("error"@) && !members.contains_key("result"@) ==> message_answer(
            JsonTree::Object(members),
            id,
        ) == AnswerView::Failed("App Server 响应缺少 result"@),
        forall|error: Map<Seq<char>, JsonTree>, code: i64, text: Seq<char>|
            members.contains_key("error"@) && members["error"@] == JsonTree::Object(error)
                && code < 0 && #[trigger] has_number(error, "code"@, JsonNumber::Negative(code))
                && #[trigger] has_text(error, "message"@, text) ==> message_answer(
                JsonTree::Object(members),
                id,
            ) == AnswerView::Failed(
                "App Server 请求失败（"@ + ("Some("@ + signed_decimal(code as int) + ")"@)
                    + "）："@ + text,
            ),
        forall|error: Map<Seq<char>, JsonTree>, code: u64, text: Seq<char>|
            members.contains_key("error"@) && members["error"@] == JsonTree::Object(error)
                && code <= i64::MAX && #[trigger] has_whole(error, "code"@, code)
                && #[trigger] has_text(error, "message"@, text) ==> message_answer(
                JsonTree::Object(members),
                id,
            ) == AnswerView::Failed(
                "App Server 请求失败（"@ + ("Some("@ + signed_decimal(code as int) + ")"@)
                    + "）："@ + text,
            ),
        forall|error: Map<Seq<char>, JsonTree>, text: Seq<char>|
            members.contains_key("error"@) && members["error"@] == JsonTree::Object(error)
                && !error.contains_key("code"@) && #[trigger] has_text(error, "message"@, text)
                ==> message_answer(JsonTree::Object(members), id) == AnswerView::Failed(
                "App Server 请求失败（"@ + "None"@ + "）："@ + text,
            ),
{
}

/// The machine of a conversation with the server.
pub open spec fn query_machine() -> spec_fn(
    QueryView,
    ServerEventView,
) -> StepView<ServerActionView, QueryView, UsageSnapshotView> {
    |machine: QueryView, event: ServerEventView| query_next(machine, event)
}

/// The lines that do not concern a request are passed over until its answer comes.
proof fn lemma_lines_passed_over(
    state: QueryView,
    fresh: bool,
    asides: Seq<ServerEventView>,
    rest: Seq<ServerEventView>,
)
    requires
        forall|i: int|
            0 <= i < asides.len() ==> query_next(state, #[trigger] asides[i]) == (StepView::<
                ServerActionView,
                QueryView,
                UsageSnapshotView,
            >::Ask(ServerActionView::Receive { fresh: false }, state)),
        rest.len() > 0,
    ensures
        ({
            let step = StepView::<ServerActionView, QueryView, UsageSnapshotView>::Ask(
                ServerActionView::Receive { fresh },
                state,
            );
            let next = query_next(state, rest[0]);
            &&& asked(query_machine(), step, asides + rest) == seq![
                ServerActionView::Receive { fresh },
            ] + Seq::new(asides.len(), |i: int| ServerActionView::Receive { fresh: false }) + asked(
                query_machine(),
                next,
                rest.drop_first(),
            )
            &&& reached(query_machine(), step, asides + rest) == reached(
                query_machine(),
                next,
                rest.drop_first(),
            )
        }),
    decreases asides.len(),
{
    let machine = query_machine();
    let action = ServerActionView::Receive { fresh };
    let idle = Seq::new(asides.len(), |i: int| ServerActionView::Receive { fresh: false });
    let last = asked(machine, query_next(state, rest[0]), rest.drop_first());
    if asides.len() == 0 {
        assert(asides + rest =~= seq![rest[0]] + rest.drop_first());
        lemma_course_step(machine, action, state, rest[0], rest.drop_first());
        assert(seq![action] + idle + last =~= seq![action] + last);
    } else {
        let fewer = asides.drop_first();
        assert(asides + rest =~= seq![asides[0]] + (fewer + rest));
        lemma_course_step(machine, action, state, asides[0], fewer + rest);
        lemma_lines_passed_over(state, false, fewer, rest);
        let shorter = Seq::new(fewer.len(), |i: int| ServerActionView::Receive { fresh: false });
        assert(seq![action] + (seq![ServerActionView::Receive { fresh: false }] + shorter + last)
            =~= seq![action] + idle + last);
    }
}

/// A line that is sent: the document, and the end of the line.
pub open spec fn sends(tree: JsonTree, action: ServerActionView) -> bool {
    document_bytes(tree) matches Ok(bytes) && action == ServerActionView::Send(bytes.push(10))
}

/// A conversation in which every request is answered, from its first line to its last, whatever
/// lines come in between that do not concern it: the hub makes itself known, says that it is ready,
/// asks for the account and then for its limits, one thing after the other, each time after the
/// answer to the one before. The snapshot is that of the two answers.
pub proof fn law_course_of_a_conversation(
    version: Seq<char>,
    asides1: Seq<ServerEventView>,
    known: ServerEventView,
    greeting: JsonTree,
    asides2: Seq<ServerEventView>,
    told: ServerEventView,
    account: JsonTree,
    asides3: Seq<ServerEventView>,
    counted: ServerEventView,
    usage: JsonTree,
    now: u64,
)
    requires
        forall|i: int| 0 <= i < asides1.len() ==> is_aside(#[trigger] asides1[i], 1),
        forall|i: int| 0 <= i < asides2.len() ==> is_aside(#[trigger] asides2[i], 2),
        forall|i: int| 0 <= i < asides3.len() ==> is_aside(#[trigger] asides3[i], 3),
        is_result(known, 1, greeting),
        is_result(told, 2, account),
        is_result(counted, 3, usage),
        document_bytes(first_request(version)) is Ok,
        document_bytes(ready_notice()) is Ok,
        document_bytes(account_question()) is Ok,
        document_bytes(limits_question()) is Ok,
    ensures
        ({
            let sent = seq![ServerEventView::Sent];
            let events = sent + asides1 + seq![known] + sent + sent + asides2 + seq![told] + sent
                + asides3 + seq![counted, ServerEventView::Time(now)];
            let wait = seq![ServerActionView::Receive { fresh: true }];
            let idle = |n: nat| Seq::new(n, |i: int| ServerActionView::Receive { fresh: false });
            let course = asked(query_machine(), querying(version), events);
            &&& exists|
                a: ServerActionView,
                b: ServerActionView,
                c: ServerActionView,
                d: ServerActionView,
            |
                #![trigger
                    sends(first_request(version), a),
                    sends(ready_notice(), b),
                    sends(account_question(), c),
                    sends(limits_question(), d)
                ]
                sends(first_request(version), a) && sends(ready_notice(), b) && sends(
                    account_question(),
                    c,
                ) && sends(limits_question(), d) && course == seq![a] + wait + idle(asides1.len())
                    + seq![b, c] + wait + idle(asides2.len()) + seq![d] + wait + idle(asides3.len())
                    + seq![ServerActionView::Now]
            &&& reached(query_machine(), querying(version), events) == StepView::<
                ServerActionView,
                QueryView,
                UsageSnapshotView,
            >::Done(Ok(snapshot_of(account, usage, now)))
        }),
{
    let machine = query_machine();
    let sent = ServerEventView::Sent;
    let wait = ServerActionView::Receive { fresh: true };
    let idle = |n: nat| Seq::new(n, |i: int| ServerActionView::Receive { fresh: false });
    law_requests_are_these(version);
    let a = ServerActionView::Send(document_bytes(first_request(version))->Ok_0.push(10));
    let b = ServerActionView::Send(document_bytes(ready_notice())->Ok_0.push(10));
    let c = ServerActionView::Send(document_bytes(account_question())->Ok_0.push(10));
    let d = ServerActionView::Send(document_bytes(limits_question())->Ok_0.push(10));
    assert(sends(first_request(version), a) && sends(ready_notice(), b) && sends(
        account_question(),
        c,
    ) && sends(limits_question(), d));
    let time = ServerEventView::Time(now);
    let none = Seq::<ServerEventView>::empty();
    let clock = QueryView::Clock { account, usage };
    // From the last answer backwards.
    let e6 = seq![time] + none;
    lemma_course_step(machine, ServerActionView::Now, clock, time, none);
    let limits = QueryView::Limits { account };
    let e5 = asides3 + (seq![counted] + e6);
    assert((seq![counted] + e6).drop_first() =~= e6);
    law_answer_is_told_by_its_id(counted, 3, usage);
    lemma_lines_passed_over(limits, true, asides3, seq![counted] + e6);
    let limits_sent = QueryView::LimitsSent { account };
    let e4 = seq![sent] + e5;
    lemma_course_step(machine, d, limits_sent, sent, e5);
    let e3 = asides2 + (seq![told] + e4);
    assert((seq![told] + e4).drop_first() =~= e4);
    law_answer_is_told_by_its_id(told, 2, account);
    lemma_lines_passed_over(QueryView::Account, true, asides2, seq![told] + e4);
    lemma_course_step(machine, c, QueryView::AccountSent, sent, e3);
    let e2 = seq![sent] + e3;
    lemma_course_step(machine, b, QueryView::InitializedSent, sent, e2);
    let e1 = seq![sent] + e2;
    law_answer_is_told_by_its_id(known, 1, greeting);
    assert((seq![known] + e1).drop_first() =~= e1);
    lemma_lines_passed_over(QueryView::Initialize, true, asides1, seq![known] + e1);
    let e0 = asides1 + (seq![known] + e1);
    lemma_course_step(machine, a, QueryView::InitializeSent, sent, e0);
    let events = seq![sent] + asides1 + seq![known] + seq![sent] + seq![sent] + asides2 + seq![told]
        + seq![sent] + asides3 + seq![counted, time];
    assert(events =~= seq![sent] + e0);
    let course = asked(machine, querying(version), events);
    let tail3 = seq![wait] + idle(asides3.len()) + seq![ServerActionView::Now];
    let tail2 = seq![wait] + idle(asides2.len()) + (seq![d] + tail3);
    let tail1 = seq![wait] + idle(asides1.len()) + (seq![b] + (seq![c] + tail2));
    assert(asked(machine, StepView::Ask(ServerActionView::Now, clock), e6) =~= seq![
        ServerActionView::Now,
    ]);
    assert(course == seq![a] + tail1);
    assert(course =~= seq![a] + seq![wait] + idle(asides1.len()) + seq![b, c] + seq![wait] + idle(
        asides2.len(),
    ) + seq![d] + seq![wait] + idle(asides3.len()) + seq![ServerActionView::Now]);
}

/// The line by which the hub makes itself known.
pub open spec fn first_request(version: Seq<char>) -> JsonTree {
    JsonTree::Object(
        map![
            "method"@ => JsonTree::Text("initialize"@),
            "id"@ => JsonTree::Number(JsonNumber::Unsigned(1)),
            "params"@ => JsonTree::Object(map![
                "clientInfo"@ => JsonTree::Object(map![
                    "name"@ => JsonTree::Text("codex_account_hub"@),
                    "title"@ => JsonTree::Text("Codex Account Hub"@),
                    "version"@ => JsonTree::Text(version),
                ]),
                "capabilities"@ => JsonTree::Object(Map::empty()),
            ]),
        ],
    )
}

/// The line by which the hub says that it is ready.
pub open spec fn ready_notice() -> JsonTree {
    JsonTree::Object(
        map![
            "method"@ => JsonTree::Text("initialized"@),
            "params"@ => JsonTree::Object(Map::empty()),
        ],
    )
}

/// The line that asks for the account, as it is known, without the token being renewed.
pub open spec fn account_question() -> JsonTree {
    JsonTree::Object(
        map![
            "method"@ => JsonTree::Text("account/read"@),
            "id"@ => JsonTree::Number(JsonNumber::Unsigned(2)),
            "params"@ => JsonTree::Object(map!["refreshToken"@ => JsonTree::Bool(false)]),
        ],
    )
}

/// The line that asks for the limits.
pub open spec fn limits_question() -> JsonTree {
    JsonTree::Object(
        map![
            "method"@ => JsonTree::Text("account/rateLimits/read"@),
            "id"@ => JsonTree::Number(JsonNumber::Unsigned(3)),
            "params"@ => JsonTree::Object(Map::empty()),
        ],
    )
}

/// The four lines of a conversation are these, word for word.
pub proof fn law_requests_are_these(version: Seq<char>)
    ensures
        crate::app_server::initialize_tree(version) == first_request(version),
        crate::app_server::initialized_tree() == ready_notice(),
        crate::app_server::account_tree() == account_question(),
        crate::app_server::limits_tree() == limits_question(),
{
}

/// Whether a state of a conversation is one of waiting for an answer.
pub open spec fn is_waiting(state: QueryView) -> bool {
    state is Initialize || state is Account || state is Limits
}

/// A conversation that gets no answer ends, and tells why: the server left, the time was over, or
/// the line could not be written.
pub proof fn law_missing_answer_ends_the_conversation(state: QueryView, error: Seq<char>)
    ensures
        is_waiting(state) ==> query_next(state, ServerEventView::Closed) == StepView::<
            ServerActionView,
            QueryView,
            UsageSnapshotView,
        >::Done(Err("App Server 在响应前退出"@)),
        is_waiting(state) ==> query_next(state, ServerEventView::TimedOut) == StepView::<
            ServerActionView,
            QueryView,
            UsageSnapshotView,
        >::Done(Err("App Server 请求超时"@)),
        !is_waiting(state) && !(state is Clock) ==> query_next(
            state,
            ServerEventView::WriteFailed(error),
        ) == StepView::<ServerActionView, QueryView, UsageSnapshotView>::Done(
            Err("App Server 写入失败："@ + error),
        ),
        query_next(state, ServerEventView::Failed(error)) is Done,
        query_next(state, ServerEventView::Failed(error))->Done_0 is Err,
{
}

/// A conversation gives a snapshot only after all of its answers.
pub proof fn law_snapshot_comes_last(state: QueryView, event: ServerEventView)
    ensures
        query_next(state, event) matches StepView::Done(Ok(_)) ==> state is Clock,
        query_next(state, event) matches StepView::Ask(_, QueryView::Clock { account, usage }) ==> (
        state matches QueryView::Limits { account: kept } && kept == account && is_result(
            event,
            3,
            usage,
        )),
        query_next(state, event) matches StepView::Ask(_, QueryView::LimitsSent { account }) ==> (
        state is Account && is_result(event, 2, account)),
{
}

/// The machine of a query.
pub open spec fn usage_machine() -> spec_fn(
    QueryUsageView,
    UsageEventView,
) -> StepView<UsageActionView, QueryUsageView, UsageSnapshotView> {
    |machine: QueryUsageView, event: UsageEventView| query_usage_next(machine, event)
}

/// What a query comes to: what the conversation came to, for the account that the home is logged in
/// to before and after it; if that changed, or is not known, nothing of it.
pub open spec fn comes_to(
    before: Seq<char>,
    after: Result<Seq<char>, Seq<char>>,
    result: Result<UsageSnapshotView, Seq<char>>,
) -> StepView<UsageActionView, QueryUsageView, UsageSnapshotView> {
    StepView::Done(
        if after != Ok::<Seq<char>, Seq<char>>(before) {
            Err("查询期间账号已变化，已丢弃本次结果，请重新刷新"@)
        } else {
            match result {
                Ok(snapshot) => Ok(UsageSnapshotView { account_id: before, ..snapshot }),
                Err(error) => Err(error),
            }
        },
    )
}

/// A query of the account in use, in which nothing fails but perhaps the conversation: the account
/// is looked up, the server is started and attached, the conversation is held, the server is
/// stopped, and the account is looked up again.
pub proof fn law_course_of_a_query(
    before: Seq<char>,
    result: Result<UsageSnapshotView, Seq<char>>,
    after: Result<Seq<char>, Seq<char>>,
)
    ensures
        ({
            let done = UsageEventView::Finished(Ok(()));
            let events = seq![
                UsageEventView::Identity(Ok(before)),
                done,
                done,
                UsageEventView::Snapshot(result),
                done,
                UsageEventView::Identity(after),
            ];
            &&& asked(usage_machine(), querying_current(), events) == seq![
                UsageActionView::Identify,
                UsageActionView::Start,
                UsageActionView::Attach,
                UsageActionView::Converse,
                UsageActionView::Stop,
                UsageActionView::Identify,
            ]
            &&& reached(usage_machine(), querying_current(), events) == comes_to(
                before,
                after,
                result,
            )
        }),
{
    reveal_with_fuel(asked, 8);
    reveal_with_fuel(reached, 8);
    let done = UsageEventView::Finished(Ok(()));
    let events = seq![
        UsageEventView::Identity(Ok(before)),
        done,
        done,
        UsageEventView::Snapshot(result),
        done,
        UsageEventView::Identity(after),
    ];
    assert(asked(usage_machine(), querying_current(), events) =~= seq![
        UsageActionView::Identify,
        UsageActionView::Start,
        UsageActionView::Attach,
        UsageActionView::Converse,
        UsageActionView::Stop,
        UsageActionView::Identify,
    ]);
}

/// A query of a home of the hub's own: the process is recorded there before the conversation, and
/// the record is removed after the process has left.
pub proof fn law_course_of_an_isolated_query(
    before: Seq<char>,
    result: Result<UsageSnapshotView, Seq<char>>,
    after: Result<Seq<char>, Seq<char>>,
)
    ensures
        ({
            let done = UsageEventView::Finished(Ok(()));
            let events = seq![
                UsageEventView::Identity(Ok(before)),
                done,
                done,
                done,
                UsageEventView::Snapshot(result),
                done,
                done,
                UsageEventView::Identity(after),
            ];
            &&& asked(usage_machine(), querying_usage(true), events) == seq![
                UsageActionView::Identify,
                UsageActionView::Start,
                UsageActionView::Attach,
                UsageActionView::Record,
                UsageActionView::Converse,
                UsageActionView::Stop,
                UsageActionView::Clear,
                UsageActionView::Identify,
            ]
            &&& reached(usage_machine(), querying_usage(true), events) == comes_to(
                before,
                after,
                result,
            )
        }),
{
    reveal_with_fuel(asked, 10);
    reveal_with_fuel(reached, 10);
    let done = UsageEventView::Finished(Ok(()));
    let events = seq![
        UsageEventView::Identity(Ok(before)),
        done,
        done,
        done,
        UsageEventView::Snapshot(result),
        done,
        done,
        UsageEventView::Identity(after),
    ];
    assert(asked(usage_machine(), querying_usage(true), events) =~= seq![
        UsageActionView::Identify,
        UsageActionView::Start,
        UsageActionView::Attach,
        UsageActionView::Record,
        UsageActionView::Converse,
        UsageActionView::Stop,
        UsageActionView::Clear,
        UsageActionView::Identify,
    ]);
}

/// What fails in a query is told, if the account did not change: that the server does not start, is
/// not attached, is not recorded, does not leave, or stays recorded. It overrides what the
/// conversation came to.
pub proof fn law_failure_of_a_query_is_told(
    before: Seq<char>,
    isolated: bool,
    result: Result<UsageSnapshotView, Seq<char>>,
    error: Seq<char>,
    any: UsageEventView,
    after: Result<Seq<char>, Seq<char>>,
)
    ensures
        ({
            let failed = UsageEventView::Finished(Err(error));
            let last = UsageEventView::Identity(after);
            let go = |state: QueryUsageView, events: Seq<UsageEventView>|
                reached(usage_machine(), query_usage_next(state, failed), events);
            &&& go(QueryUsageView::Started { before, isolated }, seq![last]) == comes_to(
                before,
                after,
                Err("无法启动 Codex App Server："@ + error),
            )
            &&& go(QueryUsageView::Attached { before, isolated }, seq![any, last]) == comes_to(
                before,
                after,
                Err(error),
            )
            &&& go(QueryUsageView::Recorded { before }, seq![any, last]) == comes_to(
                before,
                after,
                Err(error),
            )
            &&& go(QueryUsageView::Stopped { before, isolated, result }, seq![last]) == comes_to(
                before,
                after,
                Err("无法确认查询进程退出："@ + error),
            )
            &&& go(QueryUsageView::Cleared { before, result }, seq![last]) == comes_to(
                before,
                after,
                Err(error),
            )
            &&& query_usage_next(
                QueryUsageView::Before { isolated },
                UsageEventView::Identity(Err(error)),
            ) == StepView::<UsageActionView, QueryUsageView, UsageSnapshotView>::Done(Err(error))
        }),
{
    reveal_with_fuel(reached, 4);
}

/// Whether a server is running that no one has been asked to stop.
spec fn is_server_up(state: QueryUsageView) -> bool {
    state is Attached || state is Recorded || state is Conversed
}

/// From a state with a server that is up, the end comes only after it was asked to be stopped.
proof fn lemma_server_is_stopped(
    action: UsageActionView,
    state: QueryUsageView,
    events: Seq<UsageEventView>,
)
    requires
        is_server_up(state),
        reached(usage_machine(), StepView::Ask(action, state), events) is Done,
    ensures
        ({
            let course = asked(usage_machine(), StepView::Ask(action, state), events);
            exists|k: int|
                0 <= k < course.len() && (#[trigger] course[k] is Stop || course[k] is Kill)
        }),
    decreases events.len(),
{
    let machine = usage_machine();
    let course = asked(machine, StepView::Ask(action, state), events);
    if events.len() > 0 {
        let later = events.drop_first();
        assert(events =~= seq![events[0]] + later);
        lemma_course_step(machine, action, state, events[0], later);
        let next = query_usage_next(state, events[0]);
        let rest = asked(machine, next, later);
        assert(course == seq![action] + rest);
        let (request, following) = (next->Ask_0, next->Ask_1);
        if is_server_up(following) {
            lemma_server_is_stopped(request, following, later);
            let k = choose|k: int|
                0 <= k < rest.len() && (#[trigger] rest[k] is Stop || rest[k] is Kill);
            assert(course[k + 1] == rest[k]);
        } else {
            assert(rest[0] == request);
            assert(course[1] == rest[0]);
        }
    }
}

/// A server that was started is stopped, or killed, before the query ends, whatever comes of it.
pub proof fn law_server_does_not_outlive_its_query(
    before: Seq<char>,
    isolated: bool,
    events: Seq<UsageEventView>,
)
    requires
        reached(
            usage_machine(),
            query_usage_next(
                QueryUsageView::Started { before, isolated },
                UsageEventView::Finished(Ok(())),
            ),
            events,
        ) is Done,
    ensures
        ({
            let step = query_usage_next(
                QueryUsageView::Started { before, isolated },
                UsageEventView::Finished(Ok(())),
            );
            let course = asked(usage_machine(), step, events);
            exists|k: int|
                0 <= k < course.len() && (#[trigger] course[k] is Stop || course[k] is Kill)
        }),
{
    lemma_server_is_stopped(
        UsageActionView::Attach,
        QueryUsageView::Attached { before, isolated },
        events,
    );
}

} // verus!
