//! The backups that a switch leaves, and which of them are kept.

use vstd::prelude::*;
use vstd::string::*;

use crate::text::{
    chars_of, closes_with, decimal, digit, ends_with, long_number_text, number_text, views,
};

verus! {

/// How many backups are kept.
pub const MAX_SWITCH_BACKUPS: usize = 5;

/// The file name of a backup: the time it was made, a mark that makes it unique, and the account
/// whose credentials it holds.
pub open spec fn backup_name(seconds: u64, mark: u128, id: Seq<char>) -> Seq<char> {
    decimal(seconds as nat) + "-"@ + decimal(mark as nat) + "-"@ + id + ".dpapi"@
}

/// The file name of a backup.
pub fn backup_file_name(seconds: u64, mark: u128, id: &str) -> (r: String)
    ensures
        r@ == backup_name(seconds, mark, id@),
{
    number_text(seconds).concat("-").concat(long_number_text(mark).as_str()).concat("-").concat(
        id,
    ).concat(".dpapi")
}

/// Whether a file name has the extension of an encrypted file; a name that is nothing but the
/// extension has none.
pub open spec fn is_sealed_name(name: Seq<char>) -> bool {
    closes_with(name, ".dpapi"@) && name.len() > ".dpapi"@.len()
}

/// Whether `a` comes after `b` in the order of texts, character by character.
pub open spec fn follows(a: Seq<char>, b: Seq<char>) -> bool
    decreases a.len(),
{
    if a.len() == 0 {
        false
    } else if b.len() == 0 {
        true
    } else if a[0] == b[0] {
        follows(a.drop_first(), b.drop_first())
    } else {
        a[0] > b[0]
    }
}

/// A list, last text first, with one more text put in its place.
pub open spec fn ranked_with(ranked: Seq<Seq<char>>, name: Seq<char>) -> Seq<Seq<char>>
    decreases ranked.len(),
{
    if ranked.len() == 0 {
        seq![name]
    } else if follows(name, ranked.last()) {
        ranked_with(ranked.drop_last(), name).push(ranked.last())
    } else {
        ranked.push(name)
    }
}

/// The encrypted files among `names`, last name first.
pub open spec fn ranked_backups(names: Seq<Seq<char>>) -> Seq<Seq<char>>
    decreases names.len(),
{
    if names.len() == 0 {
        seq![]
    } else if is_sealed_name(names.last()) {
        ranked_with(ranked_backups(names.drop_last()), names.last())
    } else {
        ranked_backups(names.drop_last())
    }
}

/// The backups to remove: all but the `keep` whose names come last.
pub open spec fn outdated(names: Seq<Seq<char>>, keep: usize) -> Seq<Seq<char>> {
    let ranked = ranked_backups(names);
    if ranked.len() <= keep {
        seq![]
    } else {
        ranked.skip(keep as int)
    }
}

/// The backups to keep: the `keep` whose names come last, or all.
pub open spec fn retained(names: Seq<Seq<char>>, keep: usize) -> Seq<Seq<char>> {
    let ranked = ranked_backups(names);
    if ranked.len() <= keep {
        ranked
    } else {
        ranked.take(keep as int)
    }
}

/// Whether `a` comes after `b` in the order of texts.
fn comes_after(a: &str, b: &str) -> (r: bool)
    ensures
        r == follows(a@, b@),
{
    let left = chars_of(a);
    let right = chars_of(b);
    let mut at: usize = 0;
    assert(a@.skip(0) =~= a@ && b@.skip(0) =~= b@);
    while at < left.len() && at < right.len()
        invariant
            left@ == a@,
            right@ == b@,
            at <= left@.len(),
            at <= right@.len(),
            follows(a@, b@) == follows(a@.skip(at as int), b@.skip(at as int)),
        decreases left@.len() - at,
    {
        assert(a@.skip(at as int).drop_first() =~= a@.skip(at + 1));
        assert(b@.skip(at as int).drop_first() =~= b@.skip(at + 1));
        if left[at] != right[at] {
            return left[at] > right[at];
        }
        at = at + 1;
    }
    at < left.len()
}

/// Puts a name into a list that has its last name first.
fn rank(ranked: &mut Vec<String>, name: String)
    ensures
        views(final(ranked)@) == ranked_with(views(old(ranked)@), name@),
{
    let ghost all = views(ranked@);
    let mut at: usize = ranked.len();
    let ghost mut after = Seq::<Seq<char>>::empty();
    assert(all.take(at as int) =~= all);
    assert(ranked_with(all.take(at as int), name@) + after =~= ranked_with(all, name@));
    while at > 0 && comes_after(name.as_str(), ranked[at - 1].as_str())
        invariant
            at <= ranked@.len(),
            all == views(ranked@),
            after == all.skip(at as int),
            ranked_with(all.take(at as int), name@) + after == ranked_with(all, name@),
        decreases at,
    {
        assert(all.take(at as int).drop_last() =~= all.take(at - 1));
        assert(ranked_with(all.take(at as int), name@) + after =~= ranked_with(
            all.take(at - 1),
            name@,
        ) + all.skip(at - 1));
        proof {
            after = all.skip(at - 1);
        }
        at = at - 1;
    }
    let ghost before = ranked@;
    assert(ranked_with(all.take(at as int), name@) =~= all.take(at as int).push(name@));
    ranked.insert(at, name);
    assert(views(ranked@) =~= all.take(at as int).push(name@) + all.skip(at as int));
}

/// The backups to remove so that the `keep` newest stay.
pub fn outdated_backups(names: &Vec<String>, keep: usize) -> (r: Vec<String>)
    ensures
        views(r@) == outdated(views(names@), keep),
{
    let ghost all = views(names@);
    let mut ranked: Vec<String> = Vec::new();
    assert(views(ranked@) =~= seq![]);
    assert(all.take(0) =~= seq![]);
    for at in 0..names.len()
        invariant
            all == views(names@),
            views(ranked@) == ranked_backups(all.take(at as int)),
    {
        assert(all.take(at + 1).drop_last() =~= all.take(at as int));
        let name = &names[at];
        if ends_with(name.as_str(), ".dpapi") && name.as_str().unicode_len()
            > ".dpapi".unicode_len() {
            rank(&mut ranked, name.clone());
        }
    }
    assert(all.take(all.len() as int) =~= all);
    let mut doomed: Vec<String> = Vec::new();
    let mut at: usize = keep;
    while at < ranked.len()
        invariant
            keep <= at,
            at <= ranked@.len() || at == keep,
            doomed@.len() == at - keep,
            forall|i: int|
                0 <= i < doomed@.len() ==> (#[trigger] doomed@[i])@ == ranked@[keep + i]@,
        decreases ranked@.len() - at,
    {
        doomed.push(ranked[at].clone());
        at = at + 1;
    }
    assert(views(doomed@) =~= outdated(all, keep));
    doomed
}

/// The order of texts is total.
proof fn lemma_order_total(a: Seq<char>, b: Seq<char>)
    ensures
        !follows(a, a),
        follows(a, b) ==> !follows(b, a),
        follows(a, b) || follows(b, a) || a == b,
    decreases a.len(),
{
    if a.len() > 0 {
        if b.len() > 0 {
            lemma_order_total(a.drop_first(), b.drop_first());
            if a[0] == b[0] && a.drop_first() == b.drop_first() {
                assert(a =~= seq![a[0]] + a.drop_first());
                assert(b =~= seq![b[0]] + b.drop_first());
            }
        }
        lemma_order_total(a.drop_first(), a.drop_first());
    } else if b.len() == 0 {
        assert(a =~= b);
    }
}

/// The order of texts is transitive.
proof fn lemma_order_transitive(a: Seq<char>, b: Seq<char>, c: Seq<char>)
    requires
        follows(a, b),
        follows(b, c),
    ensures
        follows(a, c),
    decreases a.len(),
{
    if b.len() > 0 && c.len() > 0 && a[0] == b[0] && b[0] == c[0] {
        lemma_order_transitive(a.drop_first(), b.drop_first(), c.drop_first());
    }
}

/// Whether a list has its last text first.
pub open spec fn is_ranked(ranked: Seq<Seq<char>>) -> bool {
    forall|i: int, j: int|
        0 <= i < j < ranked.len() ==> !follows(#[trigger] ranked[j], #[trigger] ranked[i])
}

/// A text put into its place leaves a list ranked, and adds that text alone.
proof fn lemma_ranked_with(ranked: Seq<Seq<char>>, name: Seq<char>)
    requires
        is_ranked(ranked),
    ensures
        is_ranked(ranked_with(ranked, name)),
        ranked_with(ranked, name).len() == ranked.len() + 1,
        ranked_with(ranked, name).to_multiset() == ranked.to_multiset().insert(name),
    decreases ranked.len(),
{
    broadcast use vstd::seq_lib::group_to_multiset_ensures;

    if ranked.len() == 0 {
        assert(ranked =~= Seq::<Seq<char>>::empty());
        assert(seq![name] =~= ranked.push(name));
    } else if follows(name, ranked.last()) {
        let rest = ranked.drop_last();
        lemma_ranked_with(rest, name);
        let inner = ranked_with(rest, name);
        assert(ranked =~= rest.push(ranked.last()));
        assert forall|i: int| 0 <= i < inner.len() implies !follows(
            ranked.last(),
            #[trigger] inner[i],
        ) by {
            assert(inner.to_multiset().contains(inner[i]));
            if inner[i] == name {
                lemma_order_total(name, ranked.last());
            } else {
                assert(rest.to_multiset().contains(inner[i]));
                assert(rest.contains(inner[i]));
                let k = choose|k: int| 0 <= k < rest.len() && rest[k] == inner[i];
                assert(rest[k] == ranked[k]);
            }
        }
        assert(is_ranked(inner.push(ranked.last())));
        assert(ranked.to_multiset() =~= rest.to_multiset().insert(ranked.last()));
        assert(ranked_with(ranked, name).to_multiset() =~= ranked.to_multiset().insert(name));
    } else {
        let r = ranked.push(name);
        assert forall|i: int, j: int| 0 <= i < j < r.len() implies !follows(
            #[trigger] r[j],
            #[trigger] r[i],
        ) by {
            if j == ranked.len() && i < ranked.len() - 1 {
                if follows(name, ranked[i]) {
                    let last = ranked.last();
                    lemma_order_total(last, name);
                    if last == name {
                        assert(!follows(ranked[ranked.len() - 1], ranked[i]));
                    } else {
                        lemma_order_transitive(last, name, ranked[i]);
                        assert(!follows(ranked[ranked.len() - 1], ranked[i]));
                    }
                }
            }
        }
    }
}

/// `ranked_backups` lists the encrypted files, each as often as it is named, last name first.
pub proof fn lemma_ranked_backups(names: Seq<Seq<char>>)
    ensures
        is_ranked(ranked_backups(names)),
        ranked_backups(names).to_multiset() == names.filter(
            |name: Seq<char>| is_sealed_name(name),
        ).to_multiset(),
    decreases names.len(),
{
    broadcast use vstd::seq_lib::group_to_multiset_ensures;

    reveal(Seq::filter);
    if names.len() > 0 {
        lemma_ranked_backups(names.drop_last());
        let rest = ranked_backups(names.drop_last());
        if is_sealed_name(names.last()) {
            lemma_ranked_with(rest, names.last());
        }
    } else {
        assert(names.filter(|name: Seq<char>| is_sealed_name(name)) =~= seq![]);
    }
}

/// The backups that are kept are the newest: as many as are to be kept, or all, stay; what is
/// removed is an encrypted file that was there; and no file that stays comes before one that is
/// removed.
pub proof fn law_newest_backups_stay(names: Seq<Seq<char>>, keep: usize)
    ensures
        ({
            let ranked = ranked_backups(names);
            let kept = retained(names, keep);
            let removed = outdated(names, keep);
            &&& kept + removed == ranked
            &&& kept.len() == if ranked.len() <= keep {
                ranked.len()
            } else {
                keep as nat
            }
            &&& forall|i: int|
                0 <= i < removed.len() ==> is_sealed_name(#[trigger] removed[i]) && names.contains(
                    removed[i],
                )
            &&& forall|i: int, j: int|
                0 <= i < kept.len() && 0 <= j < removed.len() ==> !follows(
                    #[trigger] removed[j],
                    #[trigger] kept[i],
                )
        }),
{
    broadcast use vstd::seq_lib::group_to_multiset_ensures;

    lemma_ranked_backups(names);
    let ranked = ranked_backups(names);
    let sealed = names.filter(|name: Seq<char>| is_sealed_name(name));
    let removed = outdated(names, keep);
    let kept = retained(names, keep);
    assert(kept + removed =~= ranked);
    assert forall|i: int| 0 <= i < removed.len() implies is_sealed_name(#[trigger] removed[i])
        && names.contains(removed[i]) by {
        let at = keep + i;
        assert(removed[i] == ranked[at]);
        assert(ranked.to_multiset().contains(ranked[at]));
        assert(sealed.contains(ranked[at]));
        lemma_filter_member(names, ranked[at]);
    }
    assert forall|i: int, j: int| 0 <= i < kept.len() && 0 <= j < removed.len() implies !follows(
        #[trigger] removed[j],
        #[trigger] kept[i],
    ) by {
        assert(removed[j] == ranked[keep + j]);
        assert(kept[i] == ranked[i]);
    }
}

/// What a filter keeps was there and passes it.
proof fn lemma_filter_member(names: Seq<Seq<char>>, name: Seq<char>)
    requires
        names.filter(|n: Seq<char>| is_sealed_name(n)).contains(name),
    ensures
        is_sealed_name(name),
        names.contains(name),
    decreases names.len(),
{
    reveal(Seq::filter);
    let kept = names.filter(|n: Seq<char>| is_sealed_name(n));
    let at = choose|i: int| 0 <= i < kept.len() && kept[i] == name;
    let rest = names.drop_last().filter(|n: Seq<char>| is_sealed_name(n));
    if is_sealed_name(names.last()) && at == kept.len() - 1 {
        assert(names[names.len() - 1] == name);
    } else {
        assert(rest[at] == name);
        lemma_filter_member(names.drop_last(), name);
        let i = choose|i: int| 0 <= i < names.drop_last().len() && names.drop_last()[i] == name;
        assert(names[i] == name);
    }
}

/// What is in a list and passes a filter is kept by it.
proof fn lemma_filter_keeps(names: Seq<Seq<char>>, name: Seq<char>)
    requires
        names.contains(name),
        is_sealed_name(name),
    ensures
        names.filter(|n: Seq<char>| is_sealed_name(n)).contains(name),
    decreases names.len(),
{
    reveal(Seq::filter);
    let kept = names.filter(|n: Seq<char>| is_sealed_name(n));
    let rest = names.drop_last().filter(|n: Seq<char>| is_sealed_name(n));
    let at = choose|i: int| 0 <= i < names.len() && names[i] == name;
    if at == names.len() - 1 {
        assert(kept[rest.len() as int] == name);
    } else {
        assert(names.drop_last()[at] == name);
        lemma_filter_keeps(names.drop_last(), name);
        let i = choose|i: int| 0 <= i < rest.len() && rest[i] == name;
        assert(kept[i] == name);
    }
}

/// An encrypted file that is named is among those that are ranked.
pub proof fn lemma_sealed_is_ranked(names: Seq<Seq<char>>, name: Seq<char>)
    requires
        names.contains(name),
        is_sealed_name(name),
    ensures
        ranked_backups(names).contains(name),
{
    broadcast use vstd::seq_lib::group_to_multiset_ensures;

    lemma_filter_keeps(names, name);
    lemma_ranked_backups(names);
    let sealed = names.filter(|n: Seq<char>| is_sealed_name(n));
    assert(sealed.to_multiset().contains(name));
    assert(ranked_backups(names).to_multiset().contains(name));
}

/// What a filter keeps of a list without repetition has none either.
proof fn lemma_filter_distinct(names: Seq<Seq<char>>)
    requires
        names.no_duplicates(),
    ensures
        names.filter(|n: Seq<char>| is_sealed_name(n)).no_duplicates(),
    decreases names.len(),
{
    reveal(Seq::filter);
    if names.len() > 0 {
        let rest = names.drop_last();
        lemma_filter_distinct(rest);
        let kept = rest.filter(|n: Seq<char>| is_sealed_name(n));
        if kept.contains(names.last()) {
            lemma_filter_member(rest, names.last());
            let i = choose|i: int| 0 <= i < rest.len() && rest[i] == names.last();
            assert(names[i] == names[names.len() - 1]);
        }
    }
}

/// A backup whose name comes after those of all others is not removed.
pub proof fn law_last_backup_stays(names: Seq<Seq<char>>, keep: usize, name: Seq<char>)
    requires
        keep > 0,
        names.no_duplicates(),
        forall|i: int|
            0 <= i < names.len() && names[i] != name && is_sealed_name(names[i]) ==> follows(
                name,
                #[trigger] names[i],
            ),
    ensures
        !outdated(names, keep).contains(name),
{
    broadcast use vstd::seq_lib::group_to_multiset_ensures;

    let ranked = ranked_backups(names);
    let sealed = names.filter(|n: Seq<char>| is_sealed_name(n));
    let removed = outdated(names, keep);
    if removed.contains(name) {
        lemma_ranked_backups(names);
        lemma_filter_distinct(names);
        sealed.lemma_multiset_has_no_duplicates();
        ranked.lemma_multiset_has_no_duplicates_conv();
        let j = choose|j: int| 0 <= j < removed.len() && removed[j] == name;
        assert(removed[j] == ranked[keep + j]);
        assert(ranked.to_multiset().contains(ranked[0]));
        assert(sealed.contains(ranked[0]));
        lemma_filter_member(names, ranked[0]);
        let i = choose|i: int| 0 <= i < names.len() && names[i] == ranked[0];
        assert(ranked[0] != name);
        assert(follows(name, names[i]));
    }
}

/// A text that comes after another of its length comes after it whatever is added to both.
proof fn lemma_follows_extended(a: Seq<char>, b: Seq<char>, x: Seq<char>, y: Seq<char>)
    requires
        a.len() == b.len(),
        follows(a, b),
    ensures
        follows(a + x, b + y),
    decreases a.len(),
{
    if a[0] == b[0] {
        lemma_follows_extended(a.drop_first(), b.drop_first(), x, y);
        assert((a + x).drop_first() =~= a.drop_first() + x);
        assert((b + y).drop_first() =~= b.drop_first() + y);
    }
}

/// Two texts that differ in their last character alone are in the order of that character.
proof fn lemma_follows_last(a: Seq<char>, c: char, d: char)
    requires
        c > d,
    ensures
        follows(a.push(c), a.push(d)),
    decreases a.len(),
{
    if a.len() > 0 {
        lemma_follows_last(a.drop_first(), c, d);
        assert(a.push(c).drop_first() =~= a.drop_first().push(c));
        assert(a.push(d).drop_first() =~= a.drop_first().push(d));
    }
}

/// Of two numbers with as many digits the greater one comes after the other as a text.
proof fn lemma_decimal_order(m: nat, n: nat)
    requires
        m > n,
        decimal(m).len() == decimal(n).len(),
    ensures
        follows(decimal(m), decimal(n)),
    decreases m,
{
    lemma_decimal_len(m);
    lemma_decimal_len(n);
    if m < 10 {
        assert(decimal(m).drop_first() =~= seq![]);
    } else {
        assert(n >= 10);
        let (a, b) = (decimal(m / 10), decimal(n / 10));
        if m / 10 > n / 10 {
            lemma_decimal_order(m / 10, n / 10);
            lemma_follows_extended(a, b, seq![digit(m % 10)], seq![digit(n % 10)]);
            assert(a + seq![digit(m % 10)] =~= decimal(m));
            assert(b + seq![digit(n % 10)] =~= decimal(n));
        } else {
            assert(m / 10 == n / 10);
            lemma_follows_last(a, digit(m % 10), digit(n % 10));
        }
    }
}

/// Decimal notation has a digit, and one only for numbers below ten.
proof fn lemma_decimal_len(n: nat)
    ensures
        decimal(n).len() >= 1,
        decimal(n).len() == 1 <==> n < 10,
    decreases n,
{
    if n >= 10 {
        lemma_decimal_len(n / 10);
    }
}

/// A backup that was made later comes after an earlier one by its name, as long as the times
/// have as many digits; so the names that come last are the newest.
pub proof fn law_backup_names_follow_time(
    later: u64,
    earlier: u64,
    later_mark: u128,
    earlier_mark: u128,
    later_id: Seq<char>,
    earlier_id: Seq<char>,
)
    requires
        later > earlier,
        decimal(later as nat).len() == decimal(earlier as nat).len(),
    ensures
        follows(
            backup_name(later, later_mark, later_id),
            backup_name(earlier, earlier_mark, earlier_id),
        ),
{
    lemma_decimal_order(later as nat, earlier as nat);
    let (a, b) = (decimal(later as nat), decimal(earlier as nat));
    let x = "-"@ + decimal(later_mark as nat) + "-"@ + later_id + ".dpapi"@;
    let y = "-"@ + decimal(earlier_mark as nat) + "-"@ + earlier_id + ".dpapi"@;
    lemma_follows_extended(a, b, x, y);
    assert(a + x =~= backup_name(later, later_mark, later_id));
    assert(b + y =~= backup_name(earlier, earlier_mark, earlier_id));
}

/// A backup is named by the time at which it was made, a mark and the account that it is of, and
/// has the extension of an encrypted file.
pub proof fn law_backup_tells_its_time_and_account(seconds: u64, mark: u128, id: Seq<char>)
    ensures
        backup_name(seconds, mark, id) == decimal(seconds as nat) + "-"@ + decimal(mark as nat)
            + "-"@ + id + ".dpapi"@,
        is_sealed_name(backup_name(seconds, mark, id)),
{
    let name = backup_name(seconds, mark, id);
    let head = decimal(seconds as nat) + "-"@ + decimal(mark as nat) + "-"@ + id;
    reveal_strlit("-");
    assert(head.len() > 0);
    assert(name.subrange(head.len() as int, name.len() as int) =~= ".dpapi"@);
}

/// An encrypted file is one whose name is more than the extension, and has it.
pub proof fn law_encrypted_files_have_the_extension(stem: Seq<char>, name: Seq<char>)
    ensures
        stem.len() > 0 ==> is_sealed_name(stem + ".dpapi"@),
        !is_sealed_name(".dpapi"@),
        is_sealed_name(name) ==> name.len() > 6 && name.skip(name.len() - 6) == ".dpapi"@,
{
    reveal_strlit(".dpapi");
    let whole = stem + ".dpapi"@;
    assert(whole.subrange(stem.len() as int, whole.len() as int) =~= ".dpapi"@);
    if is_sealed_name(name) {
        assert(name.skip(name.len() - 6) =~= name.subrange(name.len() - 6, name.len() as int));
    }
}

/// One text comes after another by the first character in which they differ, or because it goes on
/// where the other ends.
pub proof fn law_texts_are_ordered_by_their_first_difference(
    head: Seq<char>,
    a: char,
    b: char,
    left: Seq<char>,
    right: Seq<char>,
)
    requires
        a > b,
    ensures
        follows(head + seq![a] + left, head + seq![b] + right),
        !follows(head + seq![b] + right, head + seq![a] + left),
        follows(head + seq![a] + left, head),
        !follows(head, head + seq![a] + left),
        !follows(head, head),
    decreases head.len(),
{
    let high = head + seq![a] + left;
    let low = head + seq![b] + right;
    if head.len() == 0 {
        assert(high[0] == a && low[0] == b);
    } else {
        let rest = head.drop_first();
        law_texts_are_ordered_by_their_first_difference(rest, a, b, left, right);
        assert(high.drop_first() =~= rest + seq![a] + left);
        assert(low.drop_first() =~= rest + seq![b] + right);
        assert(high[0] == head[0] && low[0] == head[0]);
    }
}

} // verus!
