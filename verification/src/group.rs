//! Groups: the instances that share a value of the group tag.
//!
//! A group is no resource of the provider's. It exists as long as some
//! instance of the inventory carries its tag, and an instance carries at
//! most one. Its members are listed by name, in dictionary order, each name
//! once, so that a fan-out over them always runs in the same order.

use crate::instance::{InstanceRecord, RecordView};
use crate::resolve::{ResolutionError, ResolutionErrorView};
use crate::text::{
    ascending, comes_before, lemma_ascending_unique, lemma_precedes_total,
    lemma_precedes_transitive, precedes, same_text,
};
use vstd::prelude::*;

verus! {

/// A group and the names of its members.
#[derive(Clone, Debug, PartialEq, Eq)]
pub struct GroupDescriptor {
    pub group_name: String,
    pub member_names: Vec<String>,
}

/// What a [`GroupDescriptor`] holds, as plain values.
pub struct GroupView {
    pub group_name: Seq<char>,
    pub member_names: Seq<Seq<char>>,
}

impl View for GroupDescriptor {
    type V = GroupView;

    open spec fn view(&self) -> GroupView {
        GroupView { group_name: self.group_name@, member_names: self.member_names.deep_view() }
    }
}

impl DeepView for GroupDescriptor {
    type V = GroupView;

    open spec fn deep_view(&self) -> GroupView {
        self@
    }
}

/// The record at `i` is tagged with the group.
pub open spec fn tagged_at(directory: Seq<RecordView>, group: Seq<char>, i: int) -> bool {
    0 <= i < directory.len() && directory[i].group == Some(group)
}

/// Some instance of the inventory is tagged with the group.
pub open spec fn group_known(directory: Seq<RecordView>, group: Seq<char>) -> bool {
    exists|i: int| tagged_at(directory, group, i)
}

/// The names of the instances that are tagged with the group.
pub open spec fn tagged_names(directory: Seq<RecordView>, group: Seq<char>) -> Set<Seq<char>> {
    Set::new(
        |name: Seq<char>|
            exists|i: int| #[trigger] tagged_at(directory, group, i) && directory[i].name == name,
    )
}

/// `members` is the member list of the group: the names of the instances
/// tagged with it, each once, in dictionary order.
pub open spec fn is_member_list(
    directory: Seq<RecordView>,
    group: Seq<char>,
    members: Seq<Seq<char>>,
) -> bool {
    ascending(members) && members.to_set() == tagged_names(directory, group)
}

/// `r` is what resolving `group` against `directory` gives: the group with
/// its member list where some instance is tagged with it, `GroupNotFound`
/// where none is.
pub open spec fn is_group_resolution(
    group: Seq<char>,
    directory: Seq<RecordView>,
    r: Result<GroupView, ResolutionErrorView>,
) -> bool {
    if group_known(directory, group) {
        &&& r is Ok
        &&& r->Ok_0.group_name == group
        &&& is_member_list(directory, group, r->Ok_0.member_names)
    } else {
        r == Err::<GroupView, ResolutionErrorView>(ResolutionErrorView::GroupNotFound(group))
    }
}

/// The view of a resolution's outcome.
pub open spec fn group_outcome(r: Result<GroupDescriptor, ResolutionError>) -> Result<
    GroupView,
    ResolutionErrorView,
> {
    match r {
        Ok(descriptor) => Ok(descriptor@),
        Err(e) => Err(e@),
    }
}

/// Group resolution is deterministic: one group and one inventory admit
/// one outcome only, the member list in one order.
pub proof fn lemma_group_resolution_unique(
    group: Seq<char>,
    directory: Seq<RecordView>,
    a: Result<GroupView, ResolutionErrorView>,
    b: Result<GroupView, ResolutionErrorView>,
)
    requires
        is_group_resolution(group, directory, a),
        is_group_resolution(group, directory, b),
    ensures
        a == b,
{
    if group_known(directory, group) {
        lemma_ascending_unique(a->Ok_0.member_names, b->Ok_0.member_names);
    }
}

/// Puts `name` at its place in an ascending list, unless it is there.
pub fn insert_name(members: &mut Vec<String>, name: &str)
    requires
        ascending(old(members).deep_view()),
    ensures
        ascending(final(members).deep_view()),
        final(members).deep_view().to_set() == old(members).deep_view().to_set().insert(name@),
{
    let ghost before = members.deep_view();
    let mut at: usize = 0;
    while at < members.len() && comes_before(members[at].as_str(), name)
        invariant
            at <= members.len(),
            members.deep_view() == before,
            forall|j: int| 0 <= j < at ==> precedes(#[trigger] before[j], name@),
        decreases members.len() - at,
    {
        assert(before[at as int] == members[at as int]@);
        at = at + 1;
    }
    if at < members.len() {
        assert(before[at as int] == members[at as int]@);
        if same_text(members[at].as_str(), name) {
            proof {
                assert(before.to_set().contains(before[at as int]));
                assert(before.to_set().insert(name@) =~= before.to_set());
            }
            return;
        }
    }
    members.insert(at, name.to_owned());
    proof {
        let after = members.deep_view();
        assert(after =~= before.insert(at as int, name@));
        if at < before.len() {
            lemma_precedes_total(before[at as int], name@);
        }
        assert forall|i: int, j: int| 0 <= i < j < after.len() implies precedes(
            #[trigger] after[i],
            #[trigger] after[j],
        ) by {
            if j < at {
                assert(precedes(before[i], before[j]));
            } else if j == at {
                assert(after[i] == before[i]);
            } else if i == at {
                assert(after[j] == before[j - 1]);
                if j - 1 > at {
                    assert(precedes(before[at as int], before[j - 1]));
                    lemma_precedes_transitive(name@, before[at as int], before[j - 1]);
                }
            } else if i < at {
                assert(after[i] == before[i]);
                assert(after[j] == before[j - 1]);
                assert(precedes(before[i], before[j - 1]));
            } else {
                assert(after[i] == before[i - 1]);
                assert(after[j] == before[j - 1]);
                assert(precedes(before[i - 1], before[j - 1]));
            }
        }
        assert forall|e: Seq<char>| after.to_set().contains(e) <==> before.to_set().insert(
            name@,
        ).contains(e) by {
            if after.to_set().contains(e) {
                let k = choose|k: int| 0 <= k < after.len() && after[k] == e;
                if k < at {
                    assert(before[k] == e);
                } else if k > at {
                    assert(before[k - 1] == e);
                }
            }
            if before.to_set().contains(e) {
                let k = choose|k: int| 0 <= k < before.len() && before[k] == e;
                if k < at {
                    assert(after[k] == e);
                } else {
                    assert(after[k + 1] == e);
                }
            }
            if e == name@ {
                assert(after[at as int] == e);
            }
        }
        assert(after.to_set() =~= before.to_set().insert(name@));
    }
}

/// Resolves a group against the inventory: the group with the names of
/// the instances tagged with it, each name once, in dictionary order;
/// `GroupNotFound` where no instance is tagged with it. Whether each name
/// still resolves to one instance is not asked here.
pub fn resolve_group(group: &str, directory: &Vec<InstanceRecord>) -> (r: Result<
    GroupDescriptor,
    ResolutionError,
>)
    ensures
        is_group_resolution(group@, directory.deep_view(), group_outcome(r)),
{
    let ghost all = directory.deep_view();
    let mut members: Vec<String> = Vec::new();
    let mut known = false;
    let mut i: usize = 0;
    proof {
        assert(members.deep_view().to_set() =~= tagged_names(all.take(0), group@));
    }
    while i < directory.len()
        invariant
            i <= directory.len(),
            all == directory.deep_view(),
            ascending(members.deep_view()),
            members.deep_view().to_set() == tagged_names(all.take(i as int), group@),
            known == group_known(all.take(i as int), group@),
        decreases directory.len() - i,
    {
        let record = &directory[i];
        let tagged = match &record.group {
            Some(g) => same_text(g.as_str(), group),
            None => false,
        };
        let ghost sofar = all.take(i as int);
        let ghost next = all.take(i + 1);
        proof {
            assert(record@ == all[i as int]);
            assert(next[i as int] == all[i as int]);
            assert(tagged == tagged_at(next, group@, i as int));
            assert forall|k: int| tagged_at(sofar, group@, k) implies tagged_at(
                next,
                group@,
                k,
            ) by {
                assert(sofar[k] == next[k]);
            }
            assert forall|k: int| tagged_at(next, group@, k) && k != i implies tagged_at(
                sofar,
                group@,
                k,
            ) by {
                assert(sofar[k] == next[k]);
            }
        }
        if tagged {
            known = true;
            insert_name(&mut members, record.name.as_str());
        }
        proof {
            let want = tagged_names(next, group@);
            let had = tagged_names(sofar, group@);
            assert forall|n: Seq<char>| want.contains(n) <==> (had.contains(n) || (tagged && n
                == record.name@)) by {
                if want.contains(n) {
                    let k = choose|k: int| #[trigger]
                        tagged_at(next, group@, k) && next[k].name == n;
                    if k != i {
                        assert(tagged_at(sofar, group@, k));
                        assert(sofar[k] == next[k]);
                    }
                }
                if had.contains(n) {
                    let k = choose|k: int| #[trigger]
                        tagged_at(sofar, group@, k) && sofar[k].name == n;
                    assert(tagged_at(next, group@, k));
                    assert(sofar[k] == next[k]);
                }
                if tagged && n == record.name@ {
                    assert(tagged_at(next, group@, i as int));
                }
            }
            assert(members.deep_view().to_set() =~= want);
            if group_known(next, group@) {
                let k = choose|k: int| tagged_at(next, group@, k);
                if k != i {
                    assert(tagged_at(sofar, group@, k));
                }
            }
            if group_known(sofar, group@) {
                let k = choose|k: int| tagged_at(sofar, group@, k);
                assert(tagged_at(next, group@, k));
            }
        }
        i = i + 1;
    }
    proof {
        assert(all.take(all.len() as int) =~= all);
    }
    if known {
        Ok(GroupDescriptor { group_name: group.to_owned(), member_names: members })
    } else {
        Err(ResolutionError::GroupNotFound(group.to_owned()))
    }
}

} // verus!
