//! Which program is found, and where it is looked for.

use vstd::prelude::*;

use crate::app_server::lemma_first_place;
use crate::courses::{asked, lemma_course_step, reached};
use crate::effects::StepView;
use crate::index_laws::{is_all_blank, law_trimming_cuts_white_space_alone};
use crate::runtime::{
    candidates_in, discover_in_bundle, discover_next, discover_on_path, discovering, home_choice,
    law_newest_program_is_tried_first, newest_order, paths_of, BundledView, DiscoverView,
    RuntimeActionView, RuntimeEventView, RuntimeInfoView,
};
use crate::text::trimmed;
use crate::usage_laws::lemma_first_place_after;

verus! {

/// The machine that finds Codex.
pub open spec fn discover_machine() -> spec_fn(
    DiscoverView,
    RuntimeEventView,
) -> StepView<RuntimeActionView, DiscoverView, RuntimeInfoView> {
    |machine: DiscoverView, event: RuntimeEventView| discover_next(machine, event)
}

/// That many paths at which there is no file.
pub open spec fn misses(count: nat) -> Seq<RuntimeEventView> {
    Seq::new(count, |i: int| RuntimeEventView::Present(false))
}

/// That the first paths of a list are looked at, in their order.
pub open spec fn looks_at(paths: Seq<Seq<char>>, count: nat) -> Seq<RuntimeActionView> {
    Seq::new(count, |i: int| RuntimeActionView::IsFile(paths[i]))
}

/// What is told of a program: where it is, the home that it uses, and the version that it prints,
/// if it prints one.
pub open spec fn tells_program(
    path: Seq<char>,
    home: Seq<char>,
    success: bool,
    text: Seq<char>,
) -> StepView<RuntimeActionView, DiscoverView, RuntimeInfoView> {
    StepView::Done(
        Ok(
            RuntimeInfoView {
                codex_path: path,
                codex_home: home,
                codex_version: if success {
                    Some(trimmed(text))
                } else {
                    None
                },
            },
        ),
    )
}

/// The lines that a search prints: each that is more than white space is a path, without the white
/// space around it.
pub proof fn law_each_line_is_a_path(line: Seq<char>, rest: Seq<char>)
    requires
        !line.contains('\n'),
    ensures
        ({
            let found = if is_all_blank(line) {
                Seq::<Seq<char>>::empty()
            } else {
                seq![trimmed(line)]
            };
            &&& candidates_in(line) == found
            &&& candidates_in(line + seq!['\n'] + rest) == found + candidates_in(rest)
        }),
{
    let text = line + seq!['\n'] + rest;
    lemma_first_place(line, '\n');
    lemma_first_place_after(line, '\n', rest);
    law_trimming_cuts_white_space_alone(line);
    assert(text.take(line.len() as int) =~= line);
    assert(text.skip(line.len() as int + 1) =~= rest);
}

/// Looking along the search path comes to the first file that is there.
proof fn lemma_found_on_path(
    home: Seq<char>,
    paths: Seq<Seq<char>>,
    at: nat,
    success: bool,
    text: Seq<char>,
)
    requires
        at < paths.len(),
    ensures
        ({
            let events = misses(at) + seq![
                RuntimeEventView::Present(true),
                RuntimeEventView::Output { success, text },
            ];
            let step = discover_on_path(home, paths);
            &&& asked(discover_machine(), step, events) == looks_at(paths, at + 1) + seq![
                RuntimeActionView::Version(paths[at as int]),
            ]
            &&& reached(discover_machine(), step, events) == tells_program(
                paths[at as int],
                home,
                success,
                text,
            )
        }),
    decreases at,
{
    let machine = discover_machine();
    let there = RuntimeEventView::Present(true);
    let output = RuntimeEventView::Output { success, text };
    let events = misses(at) + seq![there, output];
    let step = discover_on_path(home, paths);
    let rest = paths.drop_first();
    let course = asked(machine, step, events);
    if at == 0 {
        reveal_with_fuel(asked, 4);
        reveal_with_fuel(reached, 4);
        assert(events =~= seq![there, output]);
        assert(course =~= looks_at(paths, 1) + seq![RuntimeActionView::Version(paths[0])]);
    } else {
        let fewer = (at - 1) as nat;
        lemma_found_on_path(home, rest, fewer, success, text);
        let later = misses(fewer) + seq![there, output];
        assert(events =~= seq![RuntimeEventView::Present(false)] + later);
        lemma_course_step(
            machine,
            step->Ask_0,
            step->Ask_1,
            RuntimeEventView::Present(false),
            later,
        );
        assert(course =~= looks_at(paths, at + 1) + seq![
            RuntimeActionView::Version(paths[at as int]),
        ]);
    }
}

/// Looking along the search path without finding a file comes to the programs that are bundled.
proof fn lemma_none_on_path(
    home: Seq<char>,
    paths: Seq<Seq<char>>,
    rest: Seq<RuntimeEventView>,
)
    ensures
        ({
            let step = discover_on_path(home, paths);
            let listing = StepView::<RuntimeActionView, DiscoverView, RuntimeInfoView>::Ask(
                RuntimeActionView::ListBundled,
                DiscoverView::Listed { home },
            );
            &&& asked(discover_machine(), step, misses(paths.len()) + rest) == looks_at(
                paths,
                paths.len(),
            ) + asked(discover_machine(), listing, rest)
            &&& reached(discover_machine(), step, misses(paths.len()) + rest) == reached(
                discover_machine(),
                listing,
                rest,
            )
        }),
    decreases paths.len(),
{
    let machine = discover_machine();
    let step = discover_on_path(home, paths);
    let listing = StepView::<RuntimeActionView, DiscoverView, RuntimeInfoView>::Ask(
        RuntimeActionView::ListBundled,
        DiscoverView::Listed { home },
    );
    let events = misses(paths.len()) + rest;
    if paths.len() == 0 {
        assert(events =~= rest);
        assert(looks_at(paths, 0) + asked(machine, listing, rest) =~= asked(
            machine,
            listing,
            rest,
        ));
    } else {
        let fewer = paths.drop_first();
        lemma_none_on_path(home, fewer, rest);
        let later = misses(fewer.len()) + rest;
        assert(events =~= seq![RuntimeEventView::Present(false)] + later);
        lemma_course_step(
            machine,
            step->Ask_0,
            step->Ask_1,
            RuntimeEventView::Present(false),
            later,
        );
        assert(asked(machine, step, events) =~= looks_at(paths, paths.len()) + asked(
            machine,
            listing,
            rest,
        ));
    }
}

/// Looking at the programs that are bundled comes to the first file that is there.
proof fn lemma_found_in_bundle(
    home: Seq<char>,
    paths: Seq<Seq<char>>,
    at: nat,
    success: bool,
    text: Seq<char>,
)
    requires
        at < paths.len(),
    ensures
        ({
            let events = misses(at) + seq![
                RuntimeEventView::Present(true),
                RuntimeEventView::Output { success, text },
            ];
            let step = discover_in_bundle(home, paths);
            &&& asked(discover_machine(), step, events) == looks_at(paths, at + 1) + seq![
                RuntimeActionView::Version(paths[at as int]),
            ]
            &&& reached(discover_machine(), step, events) == tells_program(
                paths[at as int],
                home,
                success,
                text,
            )
        }),
    decreases at,
{
    let machine = discover_machine();
    let there = RuntimeEventView::Present(true);
    let output = RuntimeEventView::Output { success, text };
    let events = misses(at) + seq![there, output];
    let step = discover_in_bundle(home, paths);
    let rest = paths.drop_first();
    let course = asked(machine, step, events);
    if at == 0 {
        reveal_with_fuel(asked, 4);
        reveal_with_fuel(reached, 4);
        assert(events =~= seq![there, output]);
        assert(course =~= looks_at(paths, 1) + seq![RuntimeActionView::Version(paths[0])]);
    } else {
        let fewer = (at - 1) as nat;
        lemma_found_in_bundle(home, rest, fewer, success, text);
        let later = misses(fewer) + seq![there, output];
        assert(events =~= seq![RuntimeEventView::Present(false)] + later);
        lemma_course_step(
            machine,
            step->Ask_0,
            step->Ask_1,
            RuntimeEventView::Present(false),
            later,
        );
        assert(course =~= looks_at(paths, at + 1) + seq![
            RuntimeActionView::Version(paths[at as int]),
        ]);
    }
}

/// Looking at the programs that are bundled without finding a file.
proof fn lemma_none_in_bundle(home: Seq<char>, paths: Seq<Seq<char>>)
    ensures
        ({
            let step = discover_in_bundle(home, paths);
            &&& asked(discover_machine(), step, misses(paths.len())) == looks_at(paths, paths.len())
            &&& reached(discover_machine(), step, misses(paths.len())) == StepView::<
                RuntimeActionView,
                DiscoverView,
                RuntimeInfoView,
            >::Done(
                Err("未找到 codex.exe，请确认已安装 Codex 桌面端或 CLI"@),
            )
        }),
    decreases paths.len(),
{
    let machine = discover_machine();
    let step = discover_in_bundle(home, paths);
    if paths.len() == 0 {
        assert(asked(machine, step, misses(0)) =~= looks_at(paths, 0));
    } else {
        let fewer = paths.drop_first();
        lemma_none_in_bundle(home, fewer);
        let later = misses(fewer.len());
        assert(misses(paths.len()) =~= seq![RuntimeEventView::Present(false)] + later);
        lemma_course_step(
            machine,
            step->Ask_0,
            step->Ask_1,
            RuntimeEventView::Present(false),
            later,
        );
        assert(asked(machine, step, misses(paths.len())) =~= looks_at(paths, paths.len()));
    }
}

/// The program is the first one on the search path that is there, whichever that is; nothing is
/// looked at after it. It is told with the home and with the version that it prints.
pub proof fn law_first_program_on_the_path_is_taken(
    home: Seq<char>,
    printed: Seq<char>,
    at: nat,
    success: bool,
    version: Seq<char>,
)
    requires
        at < candidates_in(printed).len(),
    ensures
        ({
            let paths = candidates_in(printed);
            let events = seq![RuntimeEventView::Output { success: true, text: printed }] + (misses(
                at,
            ) + seq![
                RuntimeEventView::Present(true),
                RuntimeEventView::Output { success, text: version },
            ]);
            &&& asked(discover_machine(), discovering(Ok(home)), events) == seq![
                RuntimeActionView::Where,
            ] + (looks_at(paths, at + 1) + seq![RuntimeActionView::Version(paths[at as int])])
            &&& reached(discover_machine(), discovering(Ok(home)), events) == tells_program(
                paths[at as int],
                home,
                success,
                version,
            )
        }),
{
    let paths = candidates_in(printed);
    let events = misses(at) + seq![
        RuntimeEventView::Present(true),
        RuntimeEventView::Output { success, text: version },
    ];
    lemma_found_on_path(home, paths, at, success, version);
    lemma_course_step(
        discover_machine(),
        RuntimeActionView::Where,
        DiscoverView::Searched { home },
        RuntimeEventView::Output { success: true, text: printed },
        events,
    );
}

/// Where nothing on the search path is there, or the search fails, the bundled programs are looked
/// at from the newest on, and the first that is there is taken.
pub proof fn law_newest_bundled_program_is_taken(
    home: Seq<char>,
    entries: Seq<BundledView>,
    at: nat,
    success: bool,
    version: Seq<char>,
)
    requires
        at < entries.len(),
    ensures
        ({
            let ordered = newest_order(entries);
            let paths = Seq::new(ordered.len(), |i: int| ordered[i].path);
            let step = StepView::<RuntimeActionView, DiscoverView, RuntimeInfoView>::Ask(
                RuntimeActionView::ListBundled,
                DiscoverView::Listed { home },
            );
            let events = seq![RuntimeEventView::Entries(entries)] + (misses(at) + seq![
                RuntimeEventView::Present(true),
                RuntimeEventView::Output { success, text: version },
            ]);
            &&& ordered.len() == entries.len()
            &&& asked(discover_machine(), step, events) == seq![RuntimeActionView::ListBundled] + (
            looks_at(paths, at + 1) + seq![RuntimeActionView::Version(paths[at as int])])
            &&& reached(discover_machine(), step, events) == tells_program(
                paths[at as int],
                home,
                success,
                version,
            )
        }),
{
    broadcast use vstd::seq_lib::group_to_multiset_ensures;

    let ordered = newest_order(entries);
    law_newest_program_is_tried_first(entries);
    assert(ordered.to_multiset().len() == ordered.len());
    assert(entries.to_multiset().len() == entries.len());
    let paths = Seq::new(ordered.len(), |i: int| ordered[i].path);
    assert(paths_of(ordered) =~= paths);
    let events = misses(at) + seq![
        RuntimeEventView::Present(true),
        RuntimeEventView::Output { success, text: version },
    ];
    lemma_found_in_bundle(home, paths, at, success, version);
    lemma_course_step(
        discover_machine(),
        RuntimeActionView::ListBundled,
        DiscoverView::Listed { home },
        RuntimeEventView::Entries(entries),
        events,
    );
}

/// Where the search path has no program that is there, all of it is looked at and then what is
/// bundled; where the search itself fails, what is bundled is looked at at once.
pub proof fn law_bundle_comes_after_the_path(
    home: Seq<char>,
    printed: Seq<char>,
    text: Seq<char>,
    rest: Seq<RuntimeEventView>,
)
    ensures
        ({
            let paths = candidates_in(printed);
            let listing = StepView::<RuntimeActionView, DiscoverView, RuntimeInfoView>::Ask(
                RuntimeActionView::ListBundled,
                DiscoverView::Listed { home },
            );
            let start = discovering(Ok(home));
            let searched = seq![RuntimeEventView::Output { success: true, text: printed }] + (
            misses(paths.len()) + rest);
            let failed = seq![RuntimeEventView::Output { success: false, text }] + rest;
            let machine = discover_machine();
            &&& asked(machine, start, searched) == seq![RuntimeActionView::Where] + (looks_at(
                paths,
                paths.len(),
            ) + asked(machine, listing, rest))
            &&& reached(machine, start, searched) == reached(machine, listing, rest)
            &&& asked(machine, start, failed) == seq![RuntimeActionView::Where] + asked(
                machine,
                listing,
                rest,
            )
            &&& reached(machine, start, failed) == reached(machine, listing, rest)
        }),
{
    let paths = candidates_in(printed);
    lemma_none_on_path(home, paths, rest);
    lemma_course_step(
        discover_machine(),
        RuntimeActionView::Where,
        DiscoverView::Searched { home },
        RuntimeEventView::Output { success: true, text: printed },
        misses(paths.len()) + rest,
    );
    lemma_course_step(
        discover_machine(),
        RuntimeActionView::Where,
        DiscoverView::Searched { home },
        RuntimeEventView::Output { success: false, text },
        rest,
    );
}

/// Where no bundled program is there either, or they cannot be listed, that is told, after all of
/// them were looked at.
pub proof fn law_missing_program_is_told(
    home: Seq<char>,
    entries: Seq<BundledView>,
    event: RuntimeEventView,
)
    requires
        !(event is Entries),
    ensures
        ({
            let ordered = newest_order(entries);
            let paths = Seq::new(ordered.len(), |i: int| ordered[i].path);
            let step = StepView::<RuntimeActionView, DiscoverView, RuntimeInfoView>::Ask(
                RuntimeActionView::ListBundled,
                DiscoverView::Listed { home },
            );
            let events = seq![RuntimeEventView::Entries(entries)] + misses(paths.len());
            let told = StepView::<RuntimeActionView, DiscoverView, RuntimeInfoView>::Done(
                Err("未找到 codex.exe，请确认已安装 Codex 桌面端或 CLI"@),
            );
            &&& asked(discover_machine(), step, events) == seq![RuntimeActionView::ListBundled]
                + looks_at(paths, paths.len())
            &&& reached(discover_machine(), step, events) == told
            &&& discover_next(DiscoverView::Listed { home }, event) == told
        }),
{
    let ordered = newest_order(entries);
    let paths = Seq::new(ordered.len(), |i: int| ordered[i].path);
    assert(paths_of(ordered) =~= paths);
    lemma_none_in_bundle(home, paths);
    lemma_course_step(
        discover_machine(),
        RuntimeActionView::ListBundled,
        DiscoverView::Listed { home },
        RuntimeEventView::Entries(entries),
        misses(paths.len()),
    );
}

/// The bundled programs are looked at by the time of their directory, the latest first and those of
/// which it is not known last.
pub proof fn law_bundled_programs_are_ordered_by_time(entries: Seq<BundledView>, i: int, j: int)
    requires
        0 <= i < j < newest_order(entries).len(),
    ensures
        newest_order(entries)[j].modified matches Some(later) ==> (
        newest_order(entries)[i].modified matches Some(earlier) && earlier >= later),
{
    law_newest_program_is_tried_first(entries);
}

/// A home that is set is used; or else that in the profile; without either, that is told, and
/// nothing is looked for.
pub proof fn law_home_that_is_set_is_used(
    set: Seq<char>,
    profile: Option<Seq<char>>,
    error: Seq<char>,
)
    ensures
        home_choice(Some(set), profile) == Ok::<Seq<char>, Seq<char>>(set),
        home_choice(None, Some(set)) == Ok::<Seq<char>, Seq<char>>(set),
        home_choice(None, None) == Err::<Seq<char>, Seq<char>>(
            "无法确定 Codex Home：缺少 USERPROFILE"@,
        ),
        discovering(Err(error)) == StepView::<
            RuntimeActionView,
            DiscoverView,
            RuntimeInfoView,
        >::Done(Err(error)),
{
}

} // verus!
