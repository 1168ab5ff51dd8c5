//! The last known usage of each account.

use vstd::prelude::*;
use vstd::string::*;

use crate::app_server::{UsageSnapshot, UsageSnapshotView};
use crate::text::{decimal, join2, number_text, outcome, same};

verus! {

/// The version of the cache files that the hub writes.
pub const CACHE_VERSION: u32 = 1;

/// A cache file.
#[derive(Debug)]
pub struct CacheFile {
    pub version: u32,
    pub snapshots: Vec<(String, UsageSnapshot)>,
}

/// What came of reading a cache file.
#[derive(Debug)]
pub enum CacheReply {
    Missing,
    Failed(String),
    Damaged(String),
    File(CacheFile),
}

/// The snapshots of a list by account; of two for one account the first counts.
pub open spec fn by_account(entries: Seq<(String, UsageSnapshot)>) -> Map<
    Seq<char>,
    UsageSnapshotView,
>
    decreases entries.len(),
{
    if entries.len() == 0 {
        Map::empty()
    } else {
        by_account(entries.drop_first()).insert(entries[0].0@, entries[0].1@)
    }
}

/// The last known usage of each account.
#[derive(Debug)]
pub struct UsageCache {
    entries: Vec<(String, UsageSnapshot)>,
}

impl View for UsageCache {
    type V = Map<Seq<char>, UsageSnapshotView>;

    closed spec fn view(&self) -> Map<Seq<char>, UsageSnapshotView> {
        by_account(self.entries@)
    }
}

/// The snapshots of a cache file, or why there are none.
pub open spec fn read_verdict(reply: CacheReply) -> Result<
    Map<Seq<char>, UsageSnapshotView>,
    Seq<char>,
> {
    match reply {
        CacheReply::Missing => Ok(Map::empty()),
        CacheReply::Failed(error) => Err("无法读取额度缓存："@ + error@),
        CacheReply::Damaged(error) => Err("额度缓存损坏："@ + error@),
        CacheReply::File(file) => if file.version != CACHE_VERSION {
            Err("不支持的额度缓存版本："@ + decimal(file.version as nat))
        } else {
            Ok(by_account(file.snapshots@))
        },
    }
}

/// The snapshots that a cache begins with: those of its file, or none.
pub open spec fn loaded(reply: CacheReply) -> Map<Seq<char>, UsageSnapshotView> {
    match read_verdict(reply) {
        Ok(snapshots) => snapshots,
        Err(_) => Map::empty(),
    }
}

/// Whether a snapshot is older than the one that is known for an account.
pub open spec fn is_outdated(
    cache: Map<Seq<char>, UsageSnapshotView>,
    id: Seq<char>,
    snapshot: UsageSnapshotView,
) -> bool {
    cache.contains_key(id) && cache[id].captured_at > snapshot.captured_at
}

/// The cache after a snapshot came in.
pub open spec fn stored(
    cache: Map<Seq<char>, UsageSnapshotView>,
    id: Seq<char>,
    snapshot: UsageSnapshotView,
) -> Map<Seq<char>, UsageSnapshotView> {
    if is_outdated(cache, id, snapshot) {
        cache
    } else {
        cache.insert(id, snapshot)
    }
}

/// What the entries of a list say of an account.
proof fn lemma_by_account(entries: Seq<(String, UsageSnapshot)>, id: Seq<char>)
    ensures
        by_account(entries).contains_key(id) <==> exists|i: int|
            0 <= i < entries.len() && (#[trigger] entries[i]).0@ == id,
        forall|i: int|
            #![trigger entries[i]]
            0 <= i < entries.len() && entries[i].0@ == id && (forall|j: int|
                0 <= j < i ==> (#[trigger] entries[j]).0@ != id) ==> by_account(entries)[id]
                == entries[i].1@,
    decreases entries.len(),
{
    if entries.len() > 0 {
        let rest = entries.drop_first();
        lemma_by_account(rest, id);
        assert(forall|i: int| 0 <= i < rest.len() ==> #[trigger] rest[i] == entries[i + 1]);
        if by_account(rest).contains_key(id) {
            let i = choose|i: int| 0 <= i < rest.len() && (#[trigger] rest[i]).0@ == id;
            assert(entries[i + 1].0@ == id);
        }
        if exists|i: int| 0 <= i < entries.len() && (#[trigger] entries[i]).0@ == id {
            let i = choose|i: int| 0 <= i < entries.len() && (#[trigger] entries[i]).0@ == id;
            if i > 0 {
                assert(rest[i - 1].0@ == id);
            }
        }
        assert forall|i: int|
            #![trigger entries[i]]
            0 <= i < entries.len() && entries[i].0@ == id && (forall|j: int|
                0 <= j < i ==> (#[trigger] entries[j]).0@ != id) implies by_account(entries)[id]
            == entries[i].1@ by {
            if i > 0 {
                assert(entries[0].0@ != id);
                assert(rest[i - 1] == entries[i]);
                assert forall|j: int| 0 <= j < i - 1 implies (#[trigger] rest[j]).0@ != id by {
                    assert(rest[j] == entries[j + 1]);
                }
            }
        }
    }
}

/// Where an account first stands in a list.
fn find(entries: &Vec<(String, UsageSnapshot)>, id: &str) -> (r: Option<usize>)
    ensures
        match r {
            Some(at) => at < entries@.len() && entries@[at as int].0@ == id@ && forall|j: int|
                0 <= j < at ==> (#[trigger] entries@[j]).0@ != id@,
            None => forall|j: int| 0 <= j < entries@.len() ==> (#[trigger] entries@[j]).0@ != id@,
        },
{
    for at in 0..entries.len()
        invariant
            forall|j: int| 0 <= j < at ==> (#[trigger] entries@[j]).0@ != id@,
    {
        if same(entries[at].0.as_str(), id) {
            return Some(at);
        }
    }
    None
}

/// The snapshots of a cache file, or why there are none.
pub fn read_cache(reply: CacheReply) -> (r: Result<UsageCache, String>)
    ensures
        outcome(r) == read_verdict(reply),
{
    match reply {
        CacheReply::Missing => {
            let entries: Vec<(String, UsageSnapshot)> = Vec::new();
            Ok(UsageCache { entries })
        },
        CacheReply::Failed(error) => Err(join2("无法读取额度缓存：", error.as_str())),
        CacheReply::Damaged(error) => Err(join2("额度缓存损坏：", error.as_str())),
        CacheReply::File(file) => if file.version != CACHE_VERSION {
            Err(join2("不支持的额度缓存版本：", number_text(file.version as u64).as_str()))
        } else {
            Ok(UsageCache { entries: file.snapshots })
        },
    }
}

impl UsageCache {
    /// A cache with what its file holds; one that cannot be read is as good as empty.
    pub fn load(reply: CacheReply) -> (r: UsageCache)
        ensures
            r@ == loaded(reply),
    {
        match read_cache(reply) {
            Ok(cache) => cache,
            Err(_) => {
                let entries: Vec<(String, UsageSnapshot)> = Vec::new();
                UsageCache { entries }
            },
        }
    }

    /// All snapshots.
    pub fn all(&self) -> (r: Vec<(String, UsageSnapshot)>)
        ensures
            by_account(r@) == self@,
    {
        let mut copies: Vec<(String, UsageSnapshot)> = Vec::new();
        for at in 0..self.entries.len()
            invariant
                copies@ == self.entries@.take(at as int),
        {
            let (id, snapshot) = &self.entries[at];
            copies.push((id.clone(), snapshot.clone()));
            assert(copies@ =~= self.entries@.take(at + 1));
        }
        assert(copies@ =~= self.entries@);
        copies
    }

    /// The cache as a file.
    pub fn to_file(&self) -> (r: CacheFile)
        ensures
            r.version == CACHE_VERSION,
            by_account(r.snapshots@) == self@,
    {
        CacheFile { version: CACHE_VERSION, snapshots: self.all() }
    }

    /// Takes a snapshot in, unless a newer one is known for the account. Says whether the file has
    /// to be written.
    pub fn store(&mut self, account_id: String, snapshot: UsageSnapshot) -> (r: bool)
        ensures
            final(self)@ == stored(old(self)@, account_id@, snapshot@),
            r == !is_outdated(old(self)@, account_id@, snapshot@),
    {
        proof {
            lemma_by_account(self.entries@, account_id@);
        }
        let ghost before = self.entries@;
        match find(&self.entries, account_id.as_str()) {
            Some(at) => {
                if self.entries[at].1.captured_at > snapshot.captured_at {
                    return false;
                }
                self.entries.set(at, (account_id, snapshot));
                proof {
                    lemma_replaced(before, at as int, (account_id, snapshot));
                }
            },
            None => {
                self.entries.insert(0, (account_id, snapshot));
                assert(self.entries@.drop_first() =~= before);
            },
        }
        true
    }

    /// Forgets an account.
    pub fn remove(&mut self, account_id: &str)
        ensures
            final(self)@ == old(self)@.remove(account_id@),
    {
        let ghost before = self.entries@;
        let mut kept: Vec<(String, UsageSnapshot)> = Vec::new();
        let mut at: usize = self.entries.len();
        assert(before.skip(at as int) =~= seq![]);
        assert(by_account(kept@) =~= by_account(before.skip(at as int)).remove(account_id@));
        while at > 0
            invariant
                before == self.entries@,
                at <= before.len(),
                by_account(kept@) == by_account(before.skip(at as int)).remove(account_id@),
            decreases at,
        {
            at = at - 1;
            assert(before.skip(at as int).drop_first() =~= before.skip(at + 1));
            assert(before.skip(at as int)[0] == before[at as int]);
            let (id, snapshot) = &self.entries[at];
            let ghost tail = kept@;
            if !same(id.as_str(), account_id) {
                kept.insert(0, (id.clone(), snapshot.clone()));
                assert(kept@.drop_first() =~= tail);
            }
            assert(by_account(kept@) =~= by_account(before.skip(at as int)).remove(account_id@));
        }
        assert(before.skip(0) =~= before);
        self.entries = kept;
    }
}

/// Replacing the first entry of an account replaces its snapshot.
proof fn lemma_replaced(
    entries: Seq<(String, UsageSnapshot)>,
    at: int,
    entry: (String, UsageSnapshot),
)
    requires
        0 <= at < entries.len(),
        entries[at].0@ == entry.0@,
        forall|j: int| 0 <= j < at ==> (#[trigger] entries[j]).0@ != entry.0@,
    ensures
        by_account(entries.update(at, entry)) == by_account(entries).insert(entry.0@, entry.1@),
    decreases entries.len(),
{
    let rest = entries.drop_first();
    let changed = entries.update(at, entry);
    if at == 0 {
        assert(changed.drop_first() =~= rest);
        assert(by_account(changed) =~= by_account(entries).insert(entry.0@, entry.1@));
    } else {
        assert(rest[at - 1] == entries[at]);
        assert forall|j: int| 0 <= j < at - 1 implies (#[trigger] rest[j]).0@ != entry.0@ by {
            assert(rest[j] == entries[j + 1]);
        }
        lemma_replaced(rest, at - 1, entry);
        assert(changed.drop_first() =~= rest.update(at - 1, entry));
        assert(by_account(changed) =~= by_account(entries).insert(entry.0@, entry.1@));
    }
}

/// A snapshot never gives way to an older one: of two that come in one after the other, in either
/// order, the newer one stays.
pub proof fn law_newer_snapshot_stays(
    cache: Map<Seq<char>, UsageSnapshotView>,
    id: Seq<char>,
    newer: UsageSnapshotView,
    older: UsageSnapshotView,
)
    requires
        newer.captured_at > older.captured_at,
        !is_outdated(cache, id, newer),
    ensures
        stored(stored(cache, id, newer), id, older)[id] == newer,
        stored(stored(cache, id, older), id, newer)[id] == newer,
{
}

/// The time of what is known for an account never goes back.
pub proof fn law_known_time_never_goes_back(
    cache: Map<Seq<char>, UsageSnapshotView>,
    id: Seq<char>,
    snapshot: UsageSnapshotView,
    other: Seq<char>,
)
    requires
        cache.contains_key(other),
    ensures
        stored(cache, id, snapshot).contains_key(other),
        stored(cache, id, snapshot)[other].captured_at >= cache[other].captured_at,
        other != id ==> stored(cache, id, snapshot)[other] == cache[other],
{
}

/// A cache that was written as a file is read as it was.
pub proof fn law_cache_file_round_trip(
    cache: Map<Seq<char>, UsageSnapshotView>,
    file: CacheFile,
)
    requires
        file.version == CACHE_VERSION,
        by_account(file.snapshots@) == cache,
    ensures
        loaded(CacheReply::File(file)) == cache,
{
}

/// A snapshot that is not older than what is known is taken in as it is; one that is older changes
/// nothing. No other account is touched.
pub proof fn law_snapshot_is_taken_in(
    cache: Map<Seq<char>, UsageSnapshotView>,
    id: Seq<char>,
    snapshot: UsageSnapshotView,
)
    ensures
        !cache.contains_key(id) || snapshot.captured_at >= cache[id].captured_at ==> stored(
            cache,
            id,
            snapshot,
        ) == cache.insert(id, snapshot) && !is_outdated(cache, id, snapshot),
        cache.contains_key(id) && snapshot.captured_at < cache[id].captured_at ==> stored(
            cache,
            id,
            snapshot,
        ) == cache && is_outdated(cache, id, snapshot),
{
}

/// A cache begins with what its file lists, where the file is of the version that is known; with
/// nothing where there is no file, or one that cannot be read, is damaged or of another version,
/// which is told.
pub proof fn law_cache_begins_with_its_file(file: CacheFile, error: String, i: int)
    ensures
        loaded(CacheReply::Missing) == Map::<Seq<char>, UsageSnapshotView>::empty(),
        read_verdict(CacheReply::Missing) is Ok,
        loaded(CacheReply::Failed(error)) == Map::<Seq<char>, UsageSnapshotView>::empty(),
        read_verdict(CacheReply::Failed(error)) == Err::<
            Map<Seq<char>, UsageSnapshotView>,
            Seq<char>,
        >("无法读取额度缓存："@ + error@),
        loaded(CacheReply::Damaged(error)) == Map::<Seq<char>, UsageSnapshotView>::empty(),
        read_verdict(CacheReply::Damaged(error)) == Err::<
            Map<Seq<char>, UsageSnapshotView>,
            Seq<char>,
        >("额度缓存损坏："@ + error@),
        file.version != 1 ==> loaded(CacheReply::File(file)) == Map::<
            Seq<char>,
            UsageSnapshotView,
        >::empty() && read_verdict(CacheReply::File(file)) is Err,
        file.version == 1 && 0 <= i < file.snapshots@.len() && (forall|j: int|
            0 <= j < i ==> (#[trigger] file.snapshots@[j]).0@ != file.snapshots@[i].0@) ==> {
            let id = file.snapshots@[i].0@;
            &&& loaded(CacheReply::File(file)).contains_key(id)
            &&& loaded(CacheReply::File(file))[id] == file.snapshots@[i].1@
        },
{
    if 0 <= i < file.snapshots@.len() {
        lemma_by_account(file.snapshots@, file.snapshots@[i].0@);
    }
}

/// A cache has no account but those that its file lists.
pub proof fn law_cache_makes_no_account_up(file: CacheFile, id: Seq<char>)
    requires
        loaded(CacheReply::File(file)).contains_key(id),
    ensures
        exists|i: int| 0 <= i < file.snapshots@.len() && (#[trigger] file.snapshots@[i]).0@ == id,
{
    lemma_by_account(file.snapshots@, id);
}

} // verus!
