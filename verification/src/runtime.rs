//! Finding Codex and its home.

use vstd::prelude::*;
use vstd::string::*;

use crate::accounts::copy_optional;
use crate::app_server::{first_place, lemma_first_place};
use crate::effects::{Step, StepView};
use crate::text::{chars_of, first_and_rest, held, outcome, split_first, trim, trimmed, views};

verus! {

/// The program of Codex, its home and its version.
#[derive(Debug)]
pub struct RuntimeInfo {
    pub codex_path: String,
    pub codex_home: String,
    pub codex_version: Option<String>,
}

/// What `RuntimeInfo` says.
#[verifier::ext_equal]
pub struct RuntimeInfoView {
    pub codex_path: Seq<char>,
    pub codex_home: Seq<char>,
    pub codex_version: Option<Seq<char>>,
}

impl View for RuntimeInfo {
    type V = RuntimeInfoView;

    open spec fn view(&self) -> RuntimeInfoView {
        RuntimeInfoView {
            codex_path: self.codex_path@,
            codex_home: self.codex_home@,
            codex_version: held(self.codex_version),
        }
    }
}

impl Clone for RuntimeInfo {
    fn clone(&self) -> (r: RuntimeInfo)
        ensures
            r == *self,
    {
        RuntimeInfo {
            codex_path: self.codex_path.clone(),
            codex_home: self.codex_home.clone(),
            codex_version: copy_optional(&self.codex_version),
        }
    }
}

/// The home of Codex: the one that is set, or else the one in the user's profile, if there is one.
pub open spec fn home_choice(
    set: Option<Seq<char>>,
    in_profile: Option<Seq<char>>,
) -> Result<Seq<char>, Seq<char>> {
    match set {
        Some(home) => Ok(home),
        None => match in_profile {
            Some(home) => Ok(home),
            None => Err("无法确定 Codex Home：缺少 USERPROFILE"@),
        },
    }
}

/// The home of Codex: the one that is set, or else the one in the user's profile, if there is one.
pub fn codex_home(set: Option<String>, in_profile: Option<String>) -> (r: Result<String, String>)
    ensures
        outcome(r) == home_choice(held(set), held(in_profile)),
{
    match set {
        Some(home) => Ok(home),
        None => match in_profile {
            Some(home) => Ok(home),
            None => Err("无法确定 Codex Home：缺少 USERPROFILE".to_owned()),
        },
    }
}

/// A line without the white space around it, if there is more to it.
pub open spec fn line_candidate(line: Seq<char>) -> Seq<Seq<char>> {
    if trimmed(line).len() == 0 {
        seq![]
    } else {
        seq![trimmed(line)]
    }
}

/// The lines of a text that are more than white space, without the white space around them.
pub open spec fn candidates_in(text: Seq<char>) -> Seq<Seq<char>>
    decreases text.len(),
{
    match first_place(text, '\n') {
        None => line_candidate(text),
        Some(at) => {
            proof {
                lemma_first_place(text, '\n');
            }
            line_candidate(text.take(at)) + candidates_in(text.skip(at + 1))
        },
    }
}

/// The lines of a text that are more than white space.
pub fn path_candidates(text: &str) -> (r: Vec<String>)
    ensures
        views(r@) == candidates_in(text@),
{
    let chars = chars_of(text);
    let count: usize = chars.len();
    let ghost all = text@;
    let mut found: Vec<String> = Vec::new();
    let mut start: usize = 0;
    let mut at: usize = 0;
    assert(all.skip(0) =~= all);
    assert(views(found@) =~= seq![]);
    while at < count
        invariant
            chars@ == all,
            all == text@,
            count == all.len(),
            start <= at <= count,
            views(found@) + candidates_in(all.skip(start as int)) == candidates_in(all),
            first_place(all.skip(start as int), '\n') == (match first_place(
                all.skip(at as int),
                '\n',
            ) {
                Some(rest) => Some(at - start + rest),
                None => None,
            }),
        decreases count - at,
    {
        assert(all.skip(at as int).drop_first() =~= all.skip(at + 1));
        assert(all.skip(at as int)[0] == all[at as int]);
        if chars[at] == '\n' {
            let line = text.substring_char(start, at);
            assert(line@ =~= all.skip(start as int).take(at - start));
            assert(all.skip(start as int).skip(at - start + 1) =~= all.skip(at + 1));
            let ghost before = found@;
            let clean = trim(line);
            if !clean.is_empty() {
                found.push(clean.to_owned());
                assert(views(found@) =~= views(before) + line_candidate(line@));
            }
            assert(views(found@) =~= views(before) + line_candidate(line@));
            assert(views(found@) + candidates_in(all.skip(at + 1)) =~= views(before) + (
            line_candidate(line@) + candidates_in(all.skip(at + 1))));
            start = at + 1;
        }
        at = at + 1;
    }
    assert(all.skip(count as int).len() == 0);
    let line = text.substring_char(start, count);
    assert(line@ =~= all.skip(start as int));
    let ghost before = found@;
    let clean = trim(line);
    if !clean.is_empty() {
        found.push(clean.to_owned());
        assert(views(found@) =~= views(before) + line_candidate(line@));
    }
    assert(views(found@) =~= views(before) + line_candidate(line@));
    found
}

/// A program that came with the desktop application, and when its directory was last modified.
#[derive(Debug)]
pub struct Bundled {
    pub path: String,
    pub modified: Option<u128>,
}

/// What `Bundled` says.
#[verifier::ext_equal]
pub struct BundledView {
    pub path: Seq<char>,
    pub modified: Option<u128>,
}

impl View for Bundled {
    type V = BundledView;

    open spec fn view(&self) -> BundledView {
        BundledView {
            path: self.path@,
            modified: self.modified,
        }
    }
}

/// Whether one time is no earlier than another; an unknown time is earlier than any.
pub open spec fn no_earlier(a: Option<u128>, b: Option<u128>) -> bool {
    match (a, b) {
        (_, None) => true,
        (None, Some(_)) => false,
        (Some(a), Some(b)) => a >= b,
    }
}

/// A list that has the newest first, with one more entry put in front of those that are no newer.
pub open spec fn newest_with(list: Seq<BundledView>, entry: BundledView) -> Seq<BundledView>
    decreases list.len(),
{
    if list.len() == 0 || no_earlier(entry.modified, list[0].modified) {
        seq![entry] + list
    } else {
        seq![list[0]] + newest_with(list.drop_first(), entry)
    }
}

/// The entries, the newest first; of those of one time the last one first.
pub open spec fn newest_order(entries: Seq<BundledView>) -> Seq<BundledView>
    decreases entries.len(),
{
    if entries.len() == 0 {
        seq![]
    } else {
        newest_with(newest_order(entries.drop_last()), entries.last())
    }
}

/// The paths of entries.
pub open spec fn paths_of(entries: Seq<BundledView>) -> Seq<Seq<char>> {
    entries.map_values(|entry: BundledView| entry.path)
}

/// Whether one time is no earlier than another.
fn is_no_earlier(a: Option<u128>, b: Option<u128>) -> (r: bool)
    ensures
        r == no_earlier(a, b),
{
    match (a, b) {
        (_, None) => true,
        (None, Some(_)) => false,
        (Some(a), Some(b)) => a >= b,
    }
}

/// Puts an entry into a list that has the newest first.
fn put_newest(list: &mut Vec<Bundled>, entry: Bundled)
    ensures
        views(final(list)@) == newest_with(views(old(list)@), entry@),
{
    let ghost all = views(list@);
    let mut at: usize = 0;
    assert(all.skip(0) =~= all);
    assert(all.take(0) + newest_with(all.skip(0), entry@) =~= newest_with(all, entry@));
    while at < list.len() && !is_no_earlier(entry.modified, list[at].modified)
        invariant
            all == views(list@),
            at <= list@.len(),
            all.take(at as int) + newest_with(all.skip(at as int), entry@) == newest_with(
                all,
                entry@,
            ),
        decreases list@.len() - at,
    {
        assert(all.skip(at as int)[0] == list@[at as int]@);
        assert(all.skip(at as int).drop_first() =~= all.skip(at + 1));
        assert(all.take(at as int) + (seq![all[at as int]] + newest_with(all.skip(at + 1), entry@))
            =~= all.take(at + 1) + newest_with(all.skip(at + 1), entry@));
        at = at + 1;
    }
    proof {
        if at < list@.len() {
            assert(all.skip(at as int)[0] == list@[at as int]@);
        }
    }
    list.insert(at, entry);
    assert(views(list@) =~= all.take(at as int) + (seq![entry@] + all.skip(at as int)));
}

/// The paths of entries, the newest first.
pub fn newest_first(entries: Vec<Bundled>) -> (r: Vec<String>)
    ensures
        views(r@) == paths_of(newest_order(views(entries@))),
{
    let ghost all = views(entries@);
    let mut ordered: Vec<Bundled> = Vec::new();
    assert(all.take(0) =~= seq![]);
    assert(views(ordered@) =~= seq![]);
    for at in 0..entries.len()
        invariant
            all == views(entries@),
            views(ordered@) == newest_order(all.take(at as int)),
    {
        assert(all.take(at + 1).drop_last() =~= all.take(at as int));
        assert(all.take(at + 1).last() == entries@[at as int]@);
        put_newest(
            &mut ordered,
            Bundled { path: entries[at].path.clone(), modified: entries[at].modified },
        );
    }
    assert(all.take(all.len() as int) =~= all);
    let mut paths: Vec<String> = Vec::new();
    for at in 0..ordered.len()
        invariant
            paths@.len() == at,
            forall|i: int| 0 <= i < at ==> (#[trigger] paths@[i])@ == ordered@[i]@.path,
    {
        paths.push(ordered[at].path.clone());
    }
    assert(views(paths@) =~= paths_of(views(ordered@)));
    paths
}

/// What finding Codex asks for: what the search path has, whether a path is that of a file, the
/// programs that came with the desktop application, the version that a program prints.
#[derive(Debug)]
pub enum RuntimeAction {
    Where,
    IsFile(String),
    ListBundled,
    Version(String),
}

/// What `RuntimeAction` says.
#[verifier::ext_equal]
pub enum RuntimeActionView {
    Where,
    IsFile(Seq<char>),
    ListBundled,
    Version(Seq<char>),
}

impl View for RuntimeAction {
    type V = RuntimeActionView;

    open spec fn view(&self) -> RuntimeActionView {
        match self {
            RuntimeAction::Where => RuntimeActionView::Where,
            RuntimeAction::IsFile(inner) => RuntimeActionView::IsFile(inner@),
            RuntimeAction::ListBundled => RuntimeActionView::ListBundled,
            RuntimeAction::Version(inner) => RuntimeActionView::Version(inner@),
        }
    }
}

/// What comes of it.
#[derive(Debug)]
pub enum RuntimeEvent {
    Output { success: bool, text: String },
    Present(bool),
    Entries(Vec<Bundled>),
    Failed,
}

/// What `RuntimeEvent` says.
#[verifier::ext_equal]
pub enum RuntimeEventView {
    Output { success: bool, text: Seq<char> },
    Present(bool),
    Entries(Seq<BundledView>),
    Failed,
}

impl View for RuntimeEvent {
    type V = RuntimeEventView;

    open spec fn view(&self) -> RuntimeEventView {
        match self {
            RuntimeEvent::Output { success, text } => RuntimeEventView::Output {
                success: *success,
                text: text@,
            },
            RuntimeEvent::Present(inner) => RuntimeEventView::Present(*inner),
            RuntimeEvent::Entries(inner) => RuntimeEventView::Entries(views(inner@)),
            RuntimeEvent::Failed => RuntimeEventView::Failed,
        }
    }
}

/// Finding Codex: on the search path first, then among what came with the desktop application.
#[derive(Debug)]
pub enum Discover {
    Searched { home: String },
    OnPath { home: String, path: String, rest: Vec<String> },
    Listed { home: String },
    InBundle { home: String, path: String, rest: Vec<String> },
    Asked { home: String, path: String },
}

/// What `Discover` says.
#[verifier::ext_equal]
pub enum DiscoverView {
    Searched { home: Seq<char> },
    OnPath { home: Seq<char>, path: Seq<char>, rest: Seq<Seq<char>> },
    Listed { home: Seq<char> },
    InBundle { home: Seq<char>, path: Seq<char>, rest: Seq<Seq<char>> },
    Asked { home: Seq<char>, path: Seq<char> },
}

impl View for Discover {
    type V = DiscoverView;

    open spec fn view(&self) -> DiscoverView {
        match self {
            Discover::Searched { home } => DiscoverView::Searched {
                home: home@,
            },
            Discover::OnPath { home, path, rest } => DiscoverView::OnPath {
                home: home@,
                path: path@,
                rest: views(rest@),
            },
            Discover::Listed { home } => DiscoverView::Listed {
                home: home@,
            },
            Discover::InBundle { home, path, rest } => DiscoverView::InBundle {
                home: home@,
                path: path@,
                rest: views(rest@),
            },
            Discover::Asked { home, path } => DiscoverView::Asked {
                home: home@,
                path: path@,
            },
        }
    }
}

/// Finds Codex, if its home is known.
pub open spec fn discovering(
    home: Result<Seq<char>, Seq<char>>,
) -> StepView<RuntimeActionView, DiscoverView, RuntimeInfoView> {
    match home {
        Err(error) => StepView::Done(Err(error)),
        Ok(home) => StepView::Ask(RuntimeActionView::Where, DiscoverView::Searched { home }),
    }
}

/// Finds Codex, if its home is known.
pub fn discover_runtime(
    home: Result<String, String>,
) -> (r: Step<RuntimeAction, Discover, RuntimeInfo>)
    ensures
        r@ == discovering(outcome(home)),
{
    match home {
        Err(error) => Step::Done(Err(error)),
        Ok(home) => Step::Ask(RuntimeAction::Where, Discover::Searched { home }),
    }
}

/// Tries what the search path has.
pub open spec fn discover_on_path(
    home: Seq<char>,
    paths: Seq<Seq<char>>,
) -> StepView<RuntimeActionView, DiscoverView, RuntimeInfoView> {
    match first_and_rest(paths) {
        Some((path, rest)) => StepView::Ask(
            RuntimeActionView::IsFile(path),
            DiscoverView::OnPath { home, path, rest },
        ),
        None => StepView::Ask(RuntimeActionView::ListBundled, DiscoverView::Listed { home }),
    }
}

/// Tries what the search path has.
pub fn try_on_path(
    home: String,
    paths: Vec<String>,
) -> (r: Step<RuntimeAction, Discover, RuntimeInfo>)
    ensures
        r@ == discover_on_path(home@, views(paths@)),
{
    match split_first(paths) {
        Some((path, rest)) => Step::Ask(
            RuntimeAction::IsFile(path.clone()),
            Discover::OnPath { home, path, rest },
        ),
        None => Step::Ask(RuntimeAction::ListBundled, Discover::Listed { home }),
    }
}

/// Tries what came with the desktop application.
pub open spec fn discover_in_bundle(
    home: Seq<char>,
    paths: Seq<Seq<char>>,
) -> StepView<RuntimeActionView, DiscoverView, RuntimeInfoView> {
    match first_and_rest(paths) {
        Some((path, rest)) => StepView::Ask(
            RuntimeActionView::IsFile(path),
            DiscoverView::InBundle { home, path, rest },
        ),
        None => StepView::Done(
            Err("未找到 codex.exe，请确认已安装 Codex 桌面端或 CLI"@),
        ),
    }
}

/// Tries what came with the desktop application.
pub fn try_in_bundle(
    home: String,
    paths: Vec<String>,
) -> (r: Step<RuntimeAction, Discover, RuntimeInfo>)
    ensures
        r@ == discover_in_bundle(home@, views(paths@)),
{
    match split_first(paths) {
        Some((path, rest)) => Step::Ask(
            RuntimeAction::IsFile(path.clone()),
            Discover::InBundle { home, path, rest },
        ),
        None => Step::Done(
            Err("未找到 codex.exe，请确认已安装 Codex 桌面端或 CLI".to_owned()),
        ),
    }
}

/// Asks for the version of the program that was found.
pub open spec fn discover_version(
    home: Seq<char>,
    path: Seq<char>,
) -> StepView<RuntimeActionView, DiscoverView, RuntimeInfoView> {
    StepView::Ask(RuntimeActionView::Version(path), DiscoverView::Asked { home, path })
}

/// Asks for the version of the program that was found.
pub fn ask_version(home: String, path: String) -> (r: Step<RuntimeAction, Discover, RuntimeInfo>)
    ensures
        r@ == discover_version(home@, path@),
{
    Step::Ask(RuntimeAction::Version(path.clone()), Discover::Asked { home, path })
}

/// What a program printed, without the white space around it, if it succeeded.
pub open spec fn output_reply(event: RuntimeEventView) -> Option<Seq<char>> {
    match event {
        RuntimeEventView::Output { success, text } => if success {
            Some(trimmed(text))
        } else {
            None
        },
        _ => None,
    }
}

/// What a program printed, without the white space around it, if it succeeded.
pub fn printed(event: RuntimeEvent) -> (r: Option<String>)
    ensures
        held(r) == output_reply(event@),
{
    match event {
        RuntimeEvent::Output { success, text } => if success {
            Some(trim(text.as_str()).to_owned())
        } else {
            None
        },
        _ => None,
    }
}

/// Whether a path is that of a file.
pub open spec fn there_reply(event: RuntimeEventView) -> bool {
    match event {
        RuntimeEventView::Present(flag) => flag,
        _ => false,
    }
}

/// Whether a path is that of a file.
pub fn is_there(event: RuntimeEvent) -> (r: bool)
    ensures
        r == there_reply(event@),
{
    match event {
        RuntimeEvent::Present(flag) => flag,
        _ => false,
    }
}

/// Goes on with what came of it.
pub open spec fn discover_next(
    state: DiscoverView,
    event: RuntimeEventView,
) -> StepView<RuntimeActionView, DiscoverView, RuntimeInfoView> {
    match state {
        DiscoverView::Searched { home } => match event {
            RuntimeEventView::Output { success, text } => if success {
                discover_on_path(home, candidates_in(text))
            } else {
                StepView::Ask(RuntimeActionView::ListBundled, DiscoverView::Listed { home })
            },
            _ => StepView::Ask(RuntimeActionView::ListBundled, DiscoverView::Listed { home }),
        },
        DiscoverView::OnPath { home, path, rest } => if there_reply(event) {
            discover_version(home, path)
        } else {
            discover_on_path(home, rest)
        },
        DiscoverView::Listed { home } => match event {
            RuntimeEventView::Entries(entries) => discover_in_bundle(
                home,
                paths_of(newest_order(entries)),
            ),
            _ => StepView::Done(
                Err("未找到 codex.exe，请确认已安装 Codex 桌面端或 CLI"@),
            ),
        },
        DiscoverView::InBundle { home, path, rest } => if there_reply(event) {
            discover_version(home, path)
        } else {
            discover_in_bundle(home, rest)
        },
        DiscoverView::Asked { home, path } => StepView::Done(
            Ok(
                RuntimeInfoView {
                    codex_path: path,
                    codex_home: home,
                    codex_version: output_reply(event),
                },
            ),
        ),
    }
}

impl Discover {
    /// Goes on with what came of it.
    pub fn resume(self, event: RuntimeEvent) -> (r: Step<RuntimeAction, Discover, RuntimeInfo>)
        ensures
            r@ == discover_next(self@, event@),
    {
        match self {
            Discover::Searched { home } => match event {
                RuntimeEvent::Output { success, text } => if success {
                    try_on_path(home, path_candidates(text.as_str()))
                } else {
                    Step::Ask(RuntimeAction::ListBundled, Discover::Listed { home })
                },
                _ => Step::Ask(RuntimeAction::ListBundled, Discover::Listed { home }),
            },
            Discover::OnPath { home, path, rest } => if is_there(event) {
                ask_version(home, path)
            } else {
                try_on_path(home, rest)
            },
            Discover::Listed { home } => match event {
                RuntimeEvent::Entries(entries) => try_in_bundle(home, newest_first(entries)),
                _ => Step::Done(
                    Err("未找到 codex.exe，请确认已安装 Codex 桌面端或 CLI".to_owned()),
                ),
            },
            Discover::InBundle { home, path, rest } => if is_there(event) {
                ask_version(home, path)
            } else {
                try_in_bundle(home, rest)
            },
            Discover::Asked { home, path } => Step::Done(
                Ok(
                    RuntimeInfo {
                        codex_path: path,
                        codex_home: home,
                        codex_version: printed(event),
                    },
                ),
            ),
        }
    }
}

/// Whether a list has the newest first.
pub open spec fn is_newest_first(list: Seq<BundledView>) -> bool {
    forall|i: int, j: int|
        0 <= i < j < list.len() ==> no_earlier(
            (#[trigger] list[i]).modified,
            (#[trigger] list[j]).modified,
        )
}

/// Putting an entry into a list keeps the newest first.
proof fn lemma_newest_with(list: Seq<BundledView>, entry: BundledView)
    requires
        is_newest_first(list),
    ensures
        is_newest_first(newest_with(list, entry)),
        newest_with(list, entry).len() == list.len() + 1,
        newest_with(list, entry).to_multiset() == list.to_multiset().insert(entry),
        forall|i: int|
            0 <= i < newest_with(list, entry).len() ==> #[trigger] newest_with(list, entry)[i]
                == entry || list.contains(newest_with(list, entry)[i]),
    decreases list.len(),
{
    broadcast use vstd::seq_lib::group_to_multiset_ensures;

    let placed = newest_with(list, entry);
    if list.len() == 0 || no_earlier(entry.modified, list[0].modified) {
        assert(placed.drop_first() =~= list);
        assert forall|i: int, j: int| 0 <= i < j < placed.len() implies no_earlier(
            (#[trigger] placed[i]).modified,
            (#[trigger] placed[j]).modified,
        ) by {
            assert(placed[j] == list[j - 1]);
            if i == 0 {
                if j > 1 {
                    assert(no_earlier(list[0].modified, list[j - 1].modified));
                }
            } else {
                assert(placed[i] == list[i - 1]);
            }
        }
        assert(placed =~= list.insert(0, entry));
        assert forall|i: int| 0 <= i < placed.len() implies #[trigger] placed[i] == entry
            || list.contains(placed[i]) by {
            if i > 0 {
                assert(placed[i] == list[i - 1]);
            }
        }
        vstd::seq_lib::to_multiset_insert(list, 0, entry);
    } else {
        let rest = list.drop_first();
        assert(forall|i: int| 0 <= i < rest.len() ==> #[trigger] rest[i] == list[i + 1]);
        assert(is_newest_first(rest));
        lemma_newest_with(rest, entry);
        let inner = newest_with(rest, entry);
        assert(placed.drop_first() =~= inner);
        assert forall|i: int, j: int| 0 <= i < j < placed.len() implies no_earlier(
            (#[trigger] placed[i]).modified,
            (#[trigger] placed[j]).modified,
        ) by {
            assert(placed[j] == inner[j - 1]);
            if i == 0 {
                if inner[j - 1] != entry {
                    assert(rest.contains(inner[j - 1]));
                    let k = choose|k: int| 0 <= k < rest.len() && rest[k] == inner[j - 1];
                    assert(rest[k] == list[k + 1]);
                }
            } else {
                assert(placed[i] == inner[i - 1]);
            }
        }
        assert forall|i: int| 0 <= i < placed.len() implies #[trigger] placed[i] == entry
            || list.contains(placed[i]) by {
            if i == 0 {
                assert(list.contains(list[0]));
            } else {
                assert(placed[i] == inner[i - 1]);
                if inner[i - 1] != entry {
                    let k = choose|k: int| 0 <= k < rest.len() && rest[k] == inner[i - 1];
                    assert(list[k + 1] == inner[i - 1]);
                }
            }
        }
        assert(list =~= rest.insert(0, list[0]));
        assert(placed =~= inner.insert(0, list[0]));
        vstd::seq_lib::to_multiset_insert(rest, 0, list[0]);
        vstd::seq_lib::to_multiset_insert(inner, 0, list[0]);
        assert(placed.to_multiset() =~= list.to_multiset().insert(entry));
    }
}

/// The programs that came with the desktop application are tried from the newest to the oldest,
/// each of them once.
pub proof fn law_newest_program_is_tried_first(entries: Seq<BundledView>)
    ensures
        is_newest_first(newest_order(entries)),
        newest_order(entries).to_multiset() == entries.to_multiset(),
    decreases entries.len(),
{
    broadcast use vstd::seq_lib::group_to_multiset_ensures;

    if entries.len() > 0 {
        law_newest_program_is_tried_first(entries.drop_last());
        lemma_newest_with(newest_order(entries.drop_last()), entries.last());
        assert(entries =~= entries.drop_last().push(entries.last()));
    } else {
        assert(entries =~= seq![]);
    }
}

} // verus!
