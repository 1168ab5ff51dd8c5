//! What becomes of the index, entry by entry.

use vstd::prelude::*;

use crate::accounts::{
    account_of, entered, forgotten, listed, marked, merged, place_of, relabelled, renamed_label,
    AccountIndexView, AccountInfoView, SavedAccountView,
};
use crate::text::{is_blank, trimmed, trimmed_end, trimmed_start};

verus! {

/// Whether the first entry of an account is the one at this place.
pub open spec fn is_first_entry(
    accounts: Seq<SavedAccountView>,
    id: Seq<char>,
    at: int,
) -> bool {
    &&& 0 <= at < accounts.len()
    &&& accounts[at].id == id
    &&& forall|i: int| 0 <= i < at ==> (#[trigger] accounts[i]).id != id
}

/// Whether an account has no entry.
pub open spec fn has_no_entry(accounts: Seq<SavedAccountView>, id: Seq<char>) -> bool {
    forall|i: int| 0 <= i < accounts.len() ==> (#[trigger] accounts[i]).id != id
}

/// Whether a text is nothing but white space.
pub open spec fn is_all_blank(text: Seq<char>) -> bool {
    forall|i: int| 0 <= i < text.len() ==> is_blank(#[trigger] text[i])
}

/// Whether no label is asked for, or nothing but white space.
pub open spec fn asks_for_no_label(label: Option<Seq<char>>) -> bool {
    label matches Some(text) ==> is_all_blank(text)
}

/// What is cut off at the start of a text is white space, and the rest does not begin with any.
proof fn lemma_trimmed_start(text: Seq<char>) -> (from: int)
    ensures
        0 <= from <= text.len(),
        trimmed_start(text) == text.subrange(from, text.len() as int),
        forall|i: int| 0 <= i < from ==> is_blank(#[trigger] text[i]),
        from < text.len() ==> !is_blank(text[from]),
    decreases text.len(),
{
    if text.len() > 0 && is_blank(text[0]) {
        let rest = text.drop_first();
        let from = lemma_trimmed_start(rest);
        assert(rest.subrange(from, rest.len() as int) =~= text.subrange(
            from + 1,
            text.len() as int,
        ));
        assert forall|i: int| 0 <= i < from + 1 implies is_blank(#[trigger] text[i]) by {
            if i > 0 {
                assert(rest[i - 1] == text[i]);
            }
        }
        from + 1
    } else {
        assert(text.subrange(0, text.len() as int) =~= text);
        0
    }
}

/// What is cut off at the end of a text is white space, and the rest does not end with any.
proof fn lemma_trimmed_end(text: Seq<char>) -> (to: int)
    ensures
        0 <= to <= text.len(),
        trimmed_end(text) == text.subrange(0, to),
        forall|i: int| to <= i < text.len() ==> is_blank(#[trigger] text[i]),
        to > 0 ==> !is_blank(text[to - 1]),
    decreases text.len(),
{
    if text.len() > 0 && is_blank(text.last()) {
        let rest = text.drop_last();
        let to = lemma_trimmed_end(rest);
        assert(rest.subrange(0, to) =~= text.subrange(0, to));
        assert forall|i: int| to <= i < text.len() implies is_blank(#[trigger] text[i]) by {
            if i < text.len() - 1 {
                assert(rest[i] == text[i]);
            }
        }
        to
    } else {
        assert(text.subrange(0, text.len() as int) =~= text);
        text.len() as int
    }
}

/// Trimming a text cuts off white space alone, and all there is of it at both ends: what stays is a
/// stretch of the text.
pub proof fn law_trimming_cuts_white_space_alone(text: Seq<char>)
    ensures
        exists|from: int, to: int|
            0 <= from <= to <= text.len() && trimmed(text) == #[trigger] text.subrange(from, to)
                && (forall|i: int|
                0 <= i < from || to <= i < text.len() ==> is_blank(#[trigger] text[i])),
        trimmed(text).len() > 0 ==> !is_blank(trimmed(text)[0]) && !is_blank(trimmed(text).last()),
        trimmed(text).len() == 0 <==> is_all_blank(text),
        trimmed(trimmed(text)) == trimmed(text),
{
    let from = lemma_trimmed_start(text);
    let rest = trimmed_start(text);
    let length = lemma_trimmed_end(rest);
    let to = from + length;
    let short = trimmed(text);
    assert(rest.subrange(0, length) =~= text.subrange(from, to));
    assert forall|i: int| 0 <= i < from || to <= i < text.len() implies is_blank(
        #[trigger] text[i],
    ) by {
        if i >= to {
            assert(rest[i - from] == text[i]);
        }
    }
    if length > 0 {
        assert(short[0] == rest[0]);
        assert(rest[0] == text[from]);
        assert(short.last() == rest[length - 1]);
        assert(!is_blank(text[from]));
    } else if rest.len() > 0 {
        assert(rest[0] == text[from]);
        assert(is_blank(rest[0]));
    }
    assert(trimmed_start(short) == short);
    assert(trimmed_end(short) == short);
}

/// An account whose entry is at a place, and one without an entry.
pub proof fn law_account_is_found_by_its_id(
    accounts: Seq<SavedAccountView>,
    id: Seq<char>,
    at: int,
)
    ensures
        is_first_entry(accounts, id, at) ==> place_of(accounts, id) == Some(at) && account_of(
            accounts,
            id,
        ) == Some(accounts[at]) && listed(accounts, id),
        has_no_entry(accounts, id) ==> place_of(accounts, id) is None && account_of(
            accounts,
            id,
        ) is None && !listed(accounts, id),
        has_no_entry(accounts, id) || exists|i: int| is_first_entry(accounts, id, i),
    decreases accounts.len(),
{
    crate::accounts::lemma_place_of(accounts, id);
    if let Some(i) = place_of(accounts, id) {
        assert(is_first_entry(accounts, id, i));
        if is_first_entry(accounts, id, at) {
            assert(at == i) by {
                if at < i {
                    assert(accounts[at].id != id);
                }
                if i < at {
                    assert(accounts[i].id != id);
                }
            }
        }
    } else {
        if is_first_entry(accounts, id, at) {
            assert(accounts[at].id != id);
        }
    }
}

/// A renaming leaves every entry where it is: that of the account has the label and is as before
/// otherwise, and is the one that is told; all others are as they were.
pub proof fn law_renaming_changes_one_label(
    index: AccountIndexView,
    id: Seq<char>,
    label: Seq<char>,
    at: int,
)
    requires
        is_first_entry(index.accounts, id, at),
    ensures
        relabelled(index, id, label) matches Some((changed, told)) && {
            &&& changed.version == index.version
            &&& changed.accounts.len() == index.accounts.len()
            &&& told == changed.accounts[at]
            &&& told.label == label
            &&& told.id == index.accounts[at].id
            &&& told.email == index.accounts[at].email
            &&& told.plan_type == index.accounts[at].plan_type
            &&& told.imported_at == index.accounts[at].imported_at
            &&& told.is_active == index.accounts[at].is_active
            &&& forall|i: int|
                0 <= i < index.accounts.len() && i != at ==> #[trigger] changed.accounts[i]
                    == index.accounts[i]
        },
{
    law_account_is_found_by_its_id(index.accounts, id, at);
}

/// An account without an entry is neither renamed nor forgotten.
pub proof fn law_unknown_account_is_refused(
    index: AccountIndexView,
    id: Seq<char>,
    label: Seq<char>,
)
    requires
        has_no_entry(index.accounts, id),
    ensures
        relabelled(index, id, label) is None,
        forgotten(index, id) is None,
{
    law_account_is_found_by_its_id(index.accounts, id, 0);
}

/// A label that an account can be given: more than white space and, without that around it, not
/// longer than eighty characters. It is given without the white space.
pub proof fn law_new_label_is_short_and_not_blank(label: Seq<char>)
    ensures
        renamed_label(label) is Ok <==> !is_all_blank(label) && trimmed(label).len() <= 80,
        renamed_label(label) matches Ok(given) ==> given == trimmed(label),
        is_all_blank(label) ==> renamed_label(label) == Err::<Seq<char>, Seq<char>>(
            "账号名称不能为空"@,
        ),
        trimmed(label).len() > 80 ==> renamed_label(label) == Err::<Seq<char>, Seq<char>>(
            "账号名称不能超过 80 个字符"@,
        ),
{
    law_trimming_cuts_white_space_alone(label);
}

/// Forgetting an account takes its entry out, and leaves all others as they were, in their order.
pub proof fn law_forgetting_takes_one_entry_out(
    index: AccountIndexView,
    id: Seq<char>,
    at: int,
)
    requires
        is_first_entry(index.accounts, id, at),
    ensures
        forgotten(index, id) matches Some(changed) && {
            &&& changed.version == index.version
            &&& changed.accounts.len() == index.accounts.len() - 1
            &&& forall|i: int| 0 <= i < at ==> #[trigger] changed.accounts[i] == index.accounts[i]
            &&& forall|i: int|
                at <= i < changed.accounts.len() ==> #[trigger] changed.accounts[i]
                    == index.accounts[i + 1]
        },
{
    law_account_is_found_by_its_id(index.accounts, id, at);
}

/// Entering an account puts it in the place of the entry that it has, or after all others; these
/// are as they were.
pub proof fn law_entering_replaces_or_adds_one_entry(
    index: AccountIndexView,
    saved: SavedAccountView,
    at: int,
)
    ensures
        is_first_entry(index.accounts, saved.id, at) ==> {
            let changed = entered(index, saved);
            &&& changed.version == index.version
            &&& changed.accounts.len() == index.accounts.len()
            &&& changed.accounts[at] == saved
            &&& forall|i: int|
                0 <= i < index.accounts.len() && i != at ==> #[trigger] changed.accounts[i]
                    == index.accounts[i]
        },
        has_no_entry(index.accounts, saved.id) ==> {
            let changed = entered(index, saved);
            &&& changed.version == index.version
            &&& changed.accounts.len() == index.accounts.len() + 1
            &&& changed.accounts.last() == saved
            &&& forall|i: int|
                0 <= i < index.accounts.len() ==> #[trigger] changed.accounts[i]
                    == index.accounts[i]
        },
{
    law_account_is_found_by_its_id(index.accounts, saved.id, at);
}

/// The entry after an import of an account that has one already: where no label is asked for, it
/// has the label that it had, whatever the address is; where one is, it has that one. Its address
/// and its plan are those that are told now, or else those that it had.
pub proof fn law_known_account_keeps_its_label(
    index: AccountIndexView,
    id: Seq<char>,
    account: Option<AccountInfoView>,
    label: Option<Seq<char>>,
    now: u64,
    at: int,
)
    requires
        is_first_entry(index.accounts, id, at),
    ensures
        asks_for_no_label(label) && index.accounts[at].label.len() <= 80 ==> merged(
            index,
            id,
            account,
            label,
            now,
        ) is Ok,
        merged(index, id, account, label, now) matches Ok(saved) ==> {
            let had = index.accounts[at];
            &&& saved.id == id
            &&& saved.imported_at == now
            &&& !saved.is_active
            &&& saved.label.len() <= 80
            &&& asks_for_no_label(label) ==> saved.label == had.label
            &&& label matches Some(text) ==> (!is_all_blank(text) ==> saved.label == trimmed(text))
            &&& account matches Some(info) ==> (info.email is Some ==> saved.email == info.email)
            &&& account matches Some(info) ==> (info.plan_type is Some ==> saved.plan_type
                == info.plan_type)
            &&& (account matches Some(info) ==> info.email is None) ==> saved.email == had.email
            &&& (account matches Some(info) ==> info.plan_type is None) ==> saved.plan_type
                == had.plan_type
        },
{
    law_account_is_found_by_its_id(index.accounts, id, at);
    if let Some(text) = label {
        law_trimming_cuts_white_space_alone(text);
    }
}

/// The entry after an import of an account that has none yet: its label is the one that is asked
/// for, or else its address, or else a standing one. Its address and its plan are those that are
/// told.
pub proof fn law_new_account_is_labelled_by_its_address(
    index: AccountIndexView,
    id: Seq<char>,
    account: Option<AccountInfoView>,
    label: Option<Seq<char>>,
    now: u64,
)
    requires
        has_no_entry(index.accounts, id),
    ensures
        merged(index, id, account, label, now) matches Ok(saved) ==> {
            &&& saved.id == id
            &&& saved.imported_at == now
            &&& !saved.is_active
            &&& saved.label.len() <= 80
            &&& label matches Some(text) ==> (!is_all_blank(text) ==> saved.label == trimmed(text))
            &&& account matches Some(info) ==> saved.email == info.email && saved.plan_type
                == info.plan_type
            &&& account is None ==> saved.email is None && saved.plan_type is None
            &&& asks_for_no_label(label) ==> match saved.email {
                Some(email) => saved.label == email,
                None => saved.label == "Codex 账号"@,
            }
        },
        asks_for_no_label(label) && (account matches Some(info) ==> (info.email matches Some(
            email,
        ) ==> email.len() <= 80)) ==> merged(index, id, account, label, now) is Ok,
{
    law_account_is_found_by_its_id(index.accounts, id, 0);
    reveal_strlit("Codex 账号");
    if let Some(text) = label {
        law_trimming_cuts_white_space_alone(text);
    }
}

/// An import is refused only for a label that is too long: the one asked for, or else the one that
/// the entry has, or else the address.
pub proof fn law_only_a_long_label_is_refused(
    index: AccountIndexView,
    id: Seq<char>,
    account: Option<AccountInfoView>,
    label: Option<Seq<char>>,
    now: u64,
)
    ensures
        merged(index, id, account, label, now) matches Err(error) ==> error
            == "账号名称不能超过 80 个字符"@,
        label matches Some(text) ==> (!is_all_blank(text) ==> (merged(
            index,
            id,
            account,
            label,
            now,
        ) is Ok <==> trimmed(text).len() <= 80)),
{
    if let Some(text) = label {
        law_trimming_cuts_white_space_alone(text);
    }
}

/// The accounts are listed as they are in the index, and one is marked as in use exactly where its
/// id is that of the login in use.
pub proof fn law_account_in_use_is_marked(
    accounts: Seq<SavedAccountView>,
    active: Option<Seq<char>>,
)
    ensures
        marked(accounts, active).len() == accounts.len(),
        forall|i: int|
            #![trigger marked(accounts, active)[i]]
            0 <= i < accounts.len() ==> {
                let shown = marked(accounts, active)[i];
                let had = accounts[i];
                &&& shown.is_active <==> active == Some(had.id)
                &&& shown.id == had.id && shown.label == had.label && shown.email == had.email
                &&& shown.plan_type == had.plan_type && shown.imported_at == had.imported_at
            },
{
}

/// An account that was entered is found under its id as it was entered.
pub proof fn law_new_entry_is_found(index: AccountIndexView, saved: SavedAccountView)
    ensures
        exists|at: int|
            #[trigger] is_first_entry(entered(index, saved).accounts, saved.id, at) && entered(
                index,
                saved,
            ).accounts[at] == saved,
{
    law_account_is_found_by_its_id(index.accounts, saved.id, 0);
    let now = entered(index, saved).accounts;
    if has_no_entry(index.accounts, saved.id) {
        law_entering_replaces_or_adds_one_entry(index, saved, 0);
        let at = index.accounts.len() as int;
        assert forall|i: int| 0 <= i < at implies (#[trigger] now[i]).id != saved.id by {
            assert(now[i] == index.accounts[i]);
        }
        assert(is_first_entry(now, saved.id, at));
    } else {
        let at = choose|at: int| is_first_entry(index.accounts, saved.id, at);
        law_entering_replaces_or_adds_one_entry(index, saved, at);
        assert forall|i: int| 0 <= i < at implies (#[trigger] now[i]).id != saved.id by {
            assert(now[i] == index.accounts[i]);
        }
        assert(is_first_entry(now, saved.id, at));
    }
}

} // verus!
