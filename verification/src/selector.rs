//! Choosing the log groups of a run.

use vstd::prelude::*;
use crate::models::LogGroup;

verus! {

/// The names that a request holds, as plain character sequences.
pub open spec fn requested_names(log_groups: Seq<String>) -> Seq<Seq<char>> {
    log_groups.map_values(|name: String| name@)
}

/// A request selects every group when it names none, or when one of its
/// names is the word `all`.
pub open spec fn selects_everything(requested: Seq<Seq<char>>) -> bool {
    requested.len() == 0 || requested.contains("all"@)
}

/// A group answers a request of explicit names when it has a name and the
/// request holds that name.
pub open spec fn group_requested(group: LogGroup, requested: Seq<Seq<char>>) -> bool {
    match group.log_group_name {
        Some(name) => requested.contains(name@),
        None => false,
    }
}

/// The groups that a request selects, in the order in which they were discovered.
pub open spec fn selection(groups: Seq<LogGroup>, requested: Seq<Seq<char>>) -> Seq<LogGroup> {
    if selects_everything(requested) {
        groups
    } else {
        groups.filter(|group: LogGroup| group_requested(group, requested))
    }
}

/// A request that holds the word `all` selects the discovered groups as they are.
pub proof fn lemma_all_selects_every_group(groups: Seq<LogGroup>, requested: Seq<Seq<char>>)
    requires
        requested.contains("all"@),
    ensures
        selection(groups, requested) == groups,
{
}

/// A request without names selects the discovered groups as they are.
pub proof fn lemma_empty_request_selects_every_group(groups: Seq<LogGroup>)
    ensures
        selection(groups, Seq::<Seq<char>>::empty()) == groups,
{
}

/// Of no groups, every request selects none.
pub proof fn lemma_nothing_to_select(requested: Seq<Seq<char>>)
    ensures
        selection(Seq::<LogGroup>::empty(), requested) == Seq::<LogGroup>::empty(),
{
    reveal(Seq::filter);
}

/// Of a single group, a request selects that group or nothing.
pub proof fn lemma_selection_of_one(group: LogGroup, requested: Seq<Seq<char>>)
    ensures
        selection(seq![group], requested) == (if selects_everything(requested) || group_requested(
            group,
            requested,
        ) {
            seq![group]
        } else {
            Seq::<LogGroup>::empty()
        }),
{
    reveal(Seq::filter);
    let wanted = |group: LogGroup| group_requested(group, requested);
    assert(seq![group].drop_last().filter(wanted) == Seq::<LogGroup>::empty());
}

/// Selection keeps the order of discovery: what a request selects of one
/// run of groups followed by another is what it selects of the first,
/// followed by what it selects of the second.
pub proof fn lemma_selection_keeps_order(
    first: Seq<LogGroup>,
    second: Seq<LogGroup>,
    requested: Seq<Seq<char>>,
)
    ensures
        selection(first + second, requested) == selection(first, requested) + selection(
            second,
            requested,
        ),
{
    let wanted = |group: LogGroup| group_requested(group, requested);
    Seq::filter_distributes_over_add(first, second, wanted);
}

/// A request of explicit names selects exactly the groups that bear one of
/// the names: each selected group is a discovered group with a requested
/// name, and each discovered group with a requested name is selected.
pub proof fn lemma_selection_by_name(groups: Seq<LogGroup>, requested: Seq<Seq<char>>)
    requires
        !selects_everything(requested),
    ensures
        forall|group: LogGroup| #[trigger]
            selection(groups, requested).contains(group) <==> groups.contains(group)
                && group_requested(group, requested),
        selection(groups, requested).len() <= groups.len(),
{
    let wanted = |group: LogGroup| group_requested(group, requested);
    let chosen = groups.filter(wanted);
    groups.lemma_filter_len(wanted);
    assert forall|group: LogGroup| #[trigger] chosen.contains(group) <==> groups.contains(group)
        && group_requested(group, requested) by {
        if chosen.contains(group) {
            let j = choose|j: int| 0 <= j < chosen.len() && chosen[j] == group;
            groups.lemma_filter_pred(wanted, j);
            groups.lemma_filter_contains_rev(wanted, group);
        }
        if groups.contains(group) && group_requested(group, requested) {
            let i = choose|i: int| 0 <= i < groups.len() && groups[i] == group;
            groups.lemma_filter_contains(wanted, i);
        }
    }
}

/// Whether `places` are the places in `groups`, in rising order, of exactly
/// the groups that bear a requested name.
pub open spec fn places_of_requested(
    groups: Seq<LogGroup>,
    requested: Seq<Seq<char>>,
    places: Seq<int>,
) -> bool {
    &&& forall|k: int|
        0 <= k < places.len() ==> 0 <= #[trigger] places[k] < groups.len() && group_requested(
            groups[places[k]],
            requested,
        )
    &&& forall|k: int, l: int|
        0 <= k < l < places.len() ==> #[trigger] places[k] < #[trigger] places[l]
    &&& forall|p: int|
        0 <= p < groups.len() && group_requested(#[trigger] groups[p], requested)
            ==> places.contains(p)
}

/// A request of explicit names selects the groups that bear one of the
/// names, each as often as it was discovered, in the order of discovery:
/// the selection is made of the groups at the places of the requested
/// groups, from the first such place to the last.
pub proof fn lemma_selection_in_order(groups: Seq<LogGroup>, requested: Seq<Seq<char>>) -> (places:
    Seq<int>)
    requires
        !selects_everything(requested),
    ensures
        places_of_requested(groups, requested, places),
        selection(groups, requested) == Seq::new(places.len(), |k: int| groups[places[k]]),
    decreases groups.len(),
{
    reveal(Seq::filter);
    if groups.len() == 0 {
        Seq::<int>::empty()
    } else {
        let head = groups.drop_last();
        let last = groups.len() - 1;
        let before = lemma_selection_in_order(head, requested);
        let places = if group_requested(groups[last], requested) {
            before.push(last)
        } else {
            before
        };
        assert forall|p: int|
            0 <= p < groups.len() && group_requested(
                #[trigger] groups[p],
                requested,
            ) implies places.contains(p) by {
            if p < last {
                assert(head[p] == groups[p]);
                let k = choose|k: int| 0 <= k < before.len() && before[k] == p;
                assert(places[k] == p);
            } else {
                assert(places[before.len() as int] == p);
            }
        }
        let chosen = Seq::new(places.len(), |k: int| groups[places[k]]);
        assert(selection(groups, requested) =~= chosen);
        places
    }
}

/// Whether `names` holds `wanted`.
pub fn holds_name(names: &Vec<String>, wanted: &String) -> (found: bool)
    ensures
        found == requested_names(names@).contains(wanted@),
{
    let mut i: usize = 0;
    while i < names.len()
        invariant
            i <= names.len(),
            forall|j: int| 0 <= j < i ==> requested_names(names@)[j] != wanted@,
        decreases names.len() - i,
    {
        if names[i] == *wanted {
            assert(requested_names(names@)[i as int] == wanted@);
            return true;
        }
        i += 1;
    }
    false
}

/// Keeps the discovered groups that the request selects. A request that
/// holds the word `all`, or no name at all, keeps every group as it is; any
/// other request keeps the groups that bear one of its names, in the order
/// in which they were discovered.
pub fn filter_log_groups(all_log_groups: Vec<LogGroup>, log_groups: Vec<String>) -> (selected: Vec<
    LogGroup,
>)
    ensures
        selected@ == selection(all_log_groups@, requested_names(log_groups@)),
{
    let all = String::from_str("all");
    if log_groups.len() == 0 || holds_name(&log_groups, &all) {
        return all_log_groups;
    }
    let ghost requested = requested_names(log_groups@);
    let ghost wanted = |group: LogGroup| group_requested(group, requested);
    let ghost groups = all_log_groups@;
    let mut selected: Vec<LogGroup> = Vec::new();
    for group in iter: all_log_groups.into_iter()
        invariant
            requested == requested_names(log_groups@),
            wanted == |group: LogGroup| group_requested(group, requested),
            iter.seq() == groups,
            selected@ == groups.take(iter.index() as int).filter(wanted),
    {
        let keep = match &group.log_group_name {
            Some(name) => holds_name(&log_groups, name),
            None => false,
        };
        proof {
            let i = iter.index() as int;
            reveal(Seq::filter);
            assert(groups.take(i + 1).drop_last() == groups.take(i));
        }
        if keep {
            selected.push(group);
        }
    }
    proof {
        assert(groups.take(groups.len() as int) == groups);
    }
    selected
}

} // verus!
