//! Lists of files to copy into a staging tree.

use vstd::prelude::*;
use crate::paths::{
    file_name, file_name_is_one_component, join, spec_file_name, spec_join, texts, texts_push,
};

verus! {

/// One file to copy.
#[derive(Debug)]
pub struct CopyStep {
    /// The file as it is on the host.
    pub from: String,
    /// Where it goes in the staging tree.
    pub to: String,
}

/// The source and the destination of each step of a list.
pub open spec fn step_texts(steps: Seq<CopyStep>) -> Seq<(Seq<char>, Seq<char>)> {
    Seq::new(steps.len(), |i: int| (steps[i].from@, steps[i].to@))
}

/// Whether source `i` has a file name that no earlier source has.
pub open spec fn first_of_its_name(sources: Seq<Seq<char>>, i: int) -> bool {
    &&& spec_file_name(sources[i]) is Some
    &&& forall|j: int| 0 <= j < i ==> spec_file_name(sources[j]) != spec_file_name(sources[i])
}

/// Whether source `i` is copied: it has a file name and, where each name may
/// be taken once only, no earlier source has the same.
pub open spec fn is_copied(sources: Seq<Seq<char>>, i: int, once: bool) -> bool {
    if once {
        first_of_its_name(sources, i)
    } else {
        spec_file_name(sources[i]) is Some
    }
}

/// The copy of a source into `dir`, under its own file name.
pub open spec fn copy_of(dir: Seq<char>, source: Seq<char>) -> (Seq<char>, Seq<char>)
    recommends
        spec_file_name(source) is Some,
{
    (source, spec_join(dir, spec_file_name(source)->Some_0))
}

/// The copies that the first `n` sources give, in their order.
pub open spec fn copies_into(dir: Seq<char>, sources: Seq<Seq<char>>, n: int, once: bool) -> Seq<
    (Seq<char>, Seq<char>),
>
    decreases n,
{
    if n <= 0 {
        Seq::empty()
    } else if is_copied(sources, n - 1, once) {
        copies_into(dir, sources, n - 1, once).push(copy_of(dir, sources[n - 1]))
    } else {
        copies_into(dir, sources, n - 1, once)
    }
}

/// The text of an optional string.
pub open spec fn opt_text(s: Option<String>) -> Option<Seq<char>> {
    match s {
        Some(t) => Some(t@),
        None => None,
    }
}

fn seen_before(names: &Vec<Option<String>>, name: &String) -> (seen: bool)
    ensures
        seen == exists|j: int| 0 <= j < names@.len() && opt_text(#[trigger] names@[j]) == Some(name@),
{
    let mut j: usize = 0;
    while j < names.len()
        invariant
            j <= names@.len(),
            forall|k: int| 0 <= k < j ==> opt_text(#[trigger] names@[k]) != Some(name@),
        decreases names@.len() - j,
    {
        match &names[j] {
            Some(n) => {
                if *n == *name {
                    return true;
                }
            },
            None => {},
        }
        j += 1;
    }
    false
}

/// Plans the copy of each source into `dir` under its own file name, in the
/// order given. A source without a file name is left out; with `once`, so is a
/// source whose file name an earlier source has.
pub fn plan_copies(dir: &str, sources: &Vec<String>, once: bool) -> (steps: Vec<CopyStep>)
    ensures
        step_texts(steps@) == copies_into(dir@, texts(sources@), sources@.len() as int, once),
{
    let ghost all = texts(sources@);
    let mut steps: Vec<CopyStep> = Vec::new();
    let mut names: Vec<Option<String>> = Vec::new();
    assert(step_texts(steps@) =~= copies_into(dir@, all, 0, once));
    let mut i: usize = 0;
    while i < sources.len()
        invariant
            i <= sources@.len(),
            all == texts(sources@),
            names@.len() == i,
            forall|j: int| 0 <= j < i ==> opt_text(#[trigger] names@[j]) == spec_file_name(all[j]),
            step_texts(steps@) == copies_into(dir@, all, i as int, once),
        decreases sources@.len() - i,
    {
        let name: Option<String> = file_name(sources[i].as_str());
        assert(all[i as int] == sources@[i as int]@);
        let ghost before = steps@;
        match &name {
            Some(n) => {
                let taken: bool = once && seen_before(&names, n);
                proof {
                    if once {
                        if taken {
                            let j = choose|j: int|
                                0 <= j < names@.len() && opt_text(#[trigger] names@[j]) == Some(n@);
                            assert(spec_file_name(all[j]) == spec_file_name(all[i as int]));
                            assert(!first_of_its_name(all, i as int));
                        } else {
                            assert forall|j: int| 0 <= j < i implies spec_file_name(all[j])
                                != spec_file_name(all[i as int]) by {
                                assert(opt_text(names@[j]) == spec_file_name(all[j]));
                            }
                            assert(first_of_its_name(all, i as int));
                        }
                    }
                    assert(is_copied(all, i as int, once) == !taken);
                }
                if !taken {
                    let to: String = join(dir, n.as_str());
                    steps.push(CopyStep { from: sources[i].clone(), to });
                    assert(step_texts(steps@) =~= step_texts(before).push(
                        copy_of(dir@, all[i as int]),
                    ));
                }
            },
            None => {
                assert(!is_copied(all, i as int, once));
            },
        }
        names.push(name);
        i += 1;
    }
    steps
}

/// Appends copies of the strings of `more` to `list`.
pub fn append_texts(list: &mut Vec<String>, more: &Vec<String>)
    ensures
        texts(final(list)@) == texts(old(list)@) + texts(more@),
{
    let mut i: usize = 0;
    assert(texts(list@) =~= texts(old(list)@) + texts(more@).subrange(0, 0));
    while i < more.len()
        invariant
            i <= more@.len(),
            texts(list@) == texts(old(list)@) + texts(more@).subrange(0, i as int),
        decreases more@.len() - i,
    {
        proof {
            texts_push(list@, more@[i as int]);
        }
        list.push(more[i].clone());
        i += 1;
        assert(texts(list@) =~= texts(old(list)@) + texts(more@).subrange(0, i as int));
    }
    assert(texts(more@).subrange(0, more@.len() as int) =~= texts(more@));
}

/// Whether one of the texts of `list` is `text`.
pub fn contains_text(list: &Vec<String>, text: &String) -> (found: bool)
    ensures
        found == texts(list@).contains(text@),
{
    let mut i: usize = 0;
    while i < list.len()
        invariant
            i <= list@.len(),
            forall|k: int| 0 <= k < i ==> texts(list@)[k] != text@,
        decreases list@.len() - i,
    {
        if list[i] == *text {
            assert(texts(list@)[i as int] == text@);
            return true;
        }
        i += 1;
    }
    false
}

/// Two file names that are joined to one directory give different paths
/// unless they are the same name.
pub proof fn join_tells_names_apart(dir: Seq<char>, a: Seq<char>, b: Seq<char>)
    requires
        a.len() > 0 && a[0] != '/',
        b.len() > 0 && b[0] != '/',
        spec_join(dir, a) == spec_join(dir, b),
    ensures
        a == b,
{
    let head = if dir.len() == 0 || dir.last() == '/' {
        dir
    } else {
        dir + seq!['/']
    };
    assert(spec_join(dir, a) =~= head + a);
    assert(spec_join(dir, b) =~= head + b);
    assert((head + a).subrange(head.len() as int, (head + a).len() as int) =~= a);
    assert((head + b).subrange(head.len() as int, (head + b).len() as int) =~= b);
}

/// Whether `copy` is the copy of one of the first `n` sources that is copied.
pub open spec fn comes_from_source(
    dir: Seq<char>,
    sources: Seq<Seq<char>>,
    n: int,
    once: bool,
    copy: (Seq<char>, Seq<char>),
) -> bool {
    exists|i: int|
        0 <= i < n && #[trigger] is_copied(sources, i, once) && copy == copy_of(dir, sources[i])
}

/// Each planned copy is the copy of a source that is copied, and each source
/// that is copied has its copy in the plan.
pub proof fn copies_are_of_copied_sources(
    dir: Seq<char>,
    sources: Seq<Seq<char>>,
    n: int,
    once: bool,
)
    requires
        0 <= n <= sources.len(),
    ensures
        forall|k: int|
            0 <= k < copies_into(dir, sources, n, once).len() ==> comes_from_source(
                dir,
                sources,
                n,
                once,
                #[trigger] copies_into(dir, sources, n, once)[k],
            ),
        forall|i: int|
            0 <= i < n && #[trigger] is_copied(sources, i, once) ==> copies_into(
                dir,
                sources,
                n,
                once,
            ).contains(copy_of(dir, sources[i])),
    decreases n,
{
    if n > 0 {
        copies_are_of_copied_sources(dir, sources, n - 1, once);
        let before = copies_into(dir, sources, n - 1, once);
        let now = copies_into(dir, sources, n, once);
        assert forall|k: int| 0 <= k < now.len() implies comes_from_source(
            dir,
            sources,
            n,
            once,
            #[trigger] now[k],
        ) by {
            if k < before.len() {
                assert(now[k] == before[k]);
                assert(comes_from_source(dir, sources, n - 1, once, before[k]));
                let i = choose|i: int|
                    0 <= i < n - 1 && #[trigger] is_copied(sources, i, once) && before[k]
                        == copy_of(dir, sources[i]);
                assert(0 <= i < n && is_copied(sources, i, once) && now[k] == copy_of(
                    dir,
                    sources[i],
                ));
            } else {
                assert(is_copied(sources, n - 1, once));
                assert(now[k] == copy_of(dir, sources[n - 1]));
            }
        }
        assert forall|i: int| 0 <= i < n && #[trigger] is_copied(sources, i, once) implies now.contains(
            copy_of(dir, sources[i]),
        ) by {
            if i < n - 1 {
                let k = choose|k: int|
                    0 <= k < before.len() && before[k] == copy_of(dir, sources[i]);
                assert(now[k] == copy_of(dir, sources[i]));
            } else {
                assert(now[now.len() - 1] == copy_of(dir, sources[i]));
            }
        }
    }
}

/// Where each file name is taken once only, no two planned copies go to the
/// same place.
pub proof fn destinations_are_distinct(dir: Seq<char>, sources: Seq<Seq<char>>, n: int)
    requires
        0 <= n <= sources.len(),
    ensures
        forall|a: int, b: int|
            0 <= a < b < copies_into(dir, sources, n, true).len() ==> copies_into(
                dir,
                sources,
                n,
                true,
            )[a].1 != copies_into(dir, sources, n, true)[b].1,
    decreases n,
{
    if n > 0 {
        destinations_are_distinct(dir, sources, n - 1);
        copies_are_of_copied_sources(dir, sources, n - 1, true);
        let before = copies_into(dir, sources, n - 1, true);
        let now = copies_into(dir, sources, n, true);
        assert forall|a: int, b: int| 0 <= a < b < now.len() implies now[a].1 != now[b].1 by {
            if b < before.len() {
                assert(now[a] == before[a] && now[b] == before[b]);
            } else {
                assert(is_copied(sources, n - 1, true));
                assert(now[b] == copy_of(dir, sources[n - 1]));
                assert(now[a] == before[a]);
                assert(comes_from_source(dir, sources, n - 1, true, before[a]));
                let i = choose|i: int|
                    0 <= i < n - 1 && #[trigger] is_copied(sources, i, true) && before[a]
                        == copy_of(dir, sources[i]);
                assert(spec_file_name(sources[i]) != spec_file_name(sources[n - 1]));
                file_name_is_one_component(sources[i]);
                file_name_is_one_component(sources[n - 1]);
                if now[a].1 == now[b].1 {
                    join_tells_names_apart(
                        dir,
                        spec_file_name(sources[i])->Some_0,
                        spec_file_name(sources[n - 1])->Some_0,
                    );
                }
            }
        }
    }
}

/// Of two sources with the same file name the first wins: where `first` is
/// the first source of its name and `later` has the same name, the copy of
/// `first` is planned, `later` is not copied, and whatever is planned for the
/// place that `later` would take comes from `first`.
pub proof fn first_source_wins(dir: Seq<char>, sources: Seq<Seq<char>>, first: int, later: int)
    requires
        0 <= first < later < sources.len(),
        first_of_its_name(sources, first),
        spec_file_name(sources[later]) == spec_file_name(sources[first]),
    ensures
        copies_into(dir, sources, sources.len() as int, true).contains(
            copy_of(dir, sources[first]),
        ),
        !is_copied(sources, later, true),
        forall|k: int|
            0 <= k < copies_into(dir, sources, sources.len() as int, true).len() && copies_into(
                dir,
                sources,
                sources.len() as int,
                true,
            )[k].1 == copy_of(dir, sources[later]).1 ==> copies_into(
                dir,
                sources,
                sources.len() as int,
                true,
            )[k].0 == sources[first],
{
    let copies = copies_into(dir, sources, sources.len() as int, true);
    copies_are_of_copied_sources(dir, sources, sources.len() as int, true);
    assert(is_copied(sources, first, true));
    assert forall|k: int|
        0 <= k < copies.len() && copies[k].1 == copy_of(dir, sources[later]).1 implies copies[k].0
        == sources[first] by {
        assert(comes_from_source(dir, sources, sources.len() as int, true, copies[k]));
        let i = choose|i: int|
            0 <= i < sources.len() && #[trigger] is_copied(sources, i, true) && copies[k]
                == copy_of(dir, sources[i]);
        file_name_is_one_component(sources[i]);
        file_name_is_one_component(sources[first]);
        join_tells_names_apart(
            dir,
            spec_file_name(sources[i])->Some_0,
            spec_file_name(sources[first])->Some_0,
        );
        assert(spec_file_name(sources[i]) == spec_file_name(sources[first]));
        assert(i == first);
    }
}

} // verus!
