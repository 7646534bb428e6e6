//! Name resolution: from the name an operator typed to the one instance
//! that bears it.
//!
//! Matching is exact and case-sensitive. A name that several instances
//! bear is never settled by picking one of them.

use crate::instance::{InstanceRecord, InstanceState, RecordView};
use crate::text::same_text;
use vstd::prelude::*;

verus! {

/// Why a name, or a group, could not be turned into instances.
#[derive(Clone, Debug, PartialEq, Eq)]
pub enum ResolutionError {
    /// No instance bears the name.
    NotFound(String),
    /// Several instances bear the name; their ids, in inventory order.
    AmbiguousName(String, Vec<String>),
    /// No instance is tagged with the group.
    GroupNotFound(String),
    /// The instance of this name has no address to connect to.
    NoAddress(String),
}

/// What a [`ResolutionError`] holds, as plain values.
pub enum ResolutionErrorView {
    NotFound(Seq<char>),
    AmbiguousName(Seq<char>, Seq<Seq<char>>),
    GroupNotFound(Seq<char>),
    NoAddress(Seq<char>),
}

impl View for ResolutionError {
    type V = ResolutionErrorView;

    open spec fn view(&self) -> ResolutionErrorView {
        match *self {
            ResolutionError::NotFound(name) => ResolutionErrorView::NotFound(name@),
            ResolutionError::AmbiguousName(name, ids) => ResolutionErrorView::AmbiguousName(
                name@,
                ids.deep_view(),
            ),
            ResolutionError::GroupNotFound(group) => ResolutionErrorView::GroupNotFound(group@),
            ResolutionError::NoAddress(name) => ResolutionErrorView::NoAddress(name@),
        }
    }
}

impl DeepView for ResolutionError {
    type V = ResolutionErrorView;

    open spec fn deep_view(&self) -> ResolutionErrorView {
        self@
    }
}

/// A copy of a resolution error.
pub fn copy_error(e: &ResolutionError) -> (r: ResolutionError)
    ensures
        r@ == e@,
{
    match e {
        ResolutionError::NotFound(name) => ResolutionError::NotFound(name.clone()),
        ResolutionError::AmbiguousName(name, ids) => {
            let mut copy: Vec<String> = Vec::new();
            let mut i: usize = 0;
            while i < ids.len()
                invariant
                    i <= ids.len(),
                    copy.deep_view() == ids.deep_view().take(i as int),
                decreases ids.len() - i,
            {
                let ghost sofar = copy.deep_view();
                copy.push(ids[i].clone());
                assert(copy.deep_view() =~= sofar.push(ids[i as int]@));
                assert(ids.deep_view().take(i + 1) =~= ids.deep_view().take(i as int).push(
                    ids[i as int]@,
                ));
                i = i + 1;
            }
            assert(ids.deep_view().take(ids.len() as int) =~= ids.deep_view());
            ResolutionError::AmbiguousName(name.clone(), copy)
        },
        ResolutionError::GroupNotFound(group) => ResolutionError::GroupNotFound(group.clone()),
        ResolutionError::NoAddress(name) => ResolutionError::NoAddress(name.clone()),
    }
}

/// The records that bear the name, in inventory order.
pub open spec fn bearers(directory: Seq<RecordView>, name: Seq<char>) -> Seq<RecordView> {
    directory.filter(|r: RecordView| r.name == name)
}

/// The ids of the records, in their order.
pub open spec fn ids_of(records: Seq<RecordView>) -> Seq<Seq<char>> {
    records.map_values(|r: RecordView| r.id)
}

/// What resolving `name` against `directory` gives: the one record that
/// bears the name, or the reason there is no such one.
pub open spec fn resolve_spec(name: Seq<char>, directory: Seq<RecordView>) -> Result<
    RecordView,
    ResolutionErrorView,
> {
    let found = bearers(directory, name);
    if found.len() == 0 {
        Err(ResolutionErrorView::NotFound(name))
    } else if found.len() == 1 {
        Ok(found[0])
    } else {
        Err(ResolutionErrorView::AmbiguousName(name, ids_of(found)))
    }
}

/// Whether an address is one that a connection can be made to.
pub open spec fn usable_address(address: Option<Seq<char>>) -> bool {
    address is Some && address->0.len() > 0
}

/// What `connect` to `name` gives: the address to hand to the remote
/// shell, or the reason there is none.
pub open spec fn connect_spec(name: Seq<char>, directory: Seq<RecordView>) -> Result<
    Seq<char>,
    ResolutionErrorView,
> {
    match resolve_spec(name, directory) {
        Err(e) => Err(e),
        Ok(record) => if record.state == InstanceState::Running && usable_address(
            record.public_ip,
        ) {
            Ok(record.public_ip->0)
        } else {
            Err(ResolutionErrorView::NoAddress(name))
        },
    }
}

/// The bearers of a name in an inventory are those in its first `k`
/// records followed by those in the rest.
pub proof fn lemma_bearers_split(directory: Seq<RecordView>, name: Seq<char>, k: int)
    requires
        0 <= k <= directory.len(),
    ensures
        bearers(directory, name) == bearers(directory.take(k), name) + bearers(
            directory.skip(k),
            name,
        ),
{
    assert(directory =~= directory.take(k) + directory.skip(k));
    Seq::filter_distributes_over_add(
        directory.take(k),
        directory.skip(k),
        |r: RecordView| r.name == name,
    );
}

/// Where no record bears the name, none is found.
pub proof fn lemma_no_bearers(directory: Seq<RecordView>, name: Seq<char>)
    requires
        forall|i: int| 0 <= i < directory.len() ==> (#[trigger] directory[i]).name != name,
    ensures
        bearers(directory, name).len() == 0,
{
    let bears = |r: RecordView| r.name == name;
    assert(directory.all(|r: RecordView| !bears(r)));
    directory.lemma_all_neg_filter_empty(bears);
}

/// Resolution of a name that no record of the inventory bears fails with
/// `NotFound`.
pub proof fn lemma_resolve_none(directory: Seq<RecordView>, name: Seq<char>)
    requires
        forall|i: int| 0 <= i < directory.len() ==> (#[trigger] directory[i]).name != name,
    ensures
        resolve_spec(name, directory) == Err::<RecordView, ResolutionErrorView>(
            ResolutionErrorView::NotFound(name),
        ),
{
    lemma_no_bearers(directory, name);
}

/// Resolution of a name that exactly one record of the inventory bears
/// gives that record.
pub proof fn lemma_resolve_one(directory: Seq<RecordView>, name: Seq<char>, i: int)
    requires
        0 <= i < directory.len(),
        directory[i].name == name,
        forall|j: int|
            0 <= j < directory.len() && j != i ==> (#[trigger] directory[j]).name != name,
    ensures
        resolve_spec(name, directory) == Ok::<RecordView, ResolutionErrorView>(directory[i]),
{
    let front = directory.take(i);
    let back = directory.skip(i + 1);
    let rest = directory.skip(i);
    lemma_bearers_split(directory, name, i);
    lemma_bearers_split(rest, name, 1);
    assert(rest.skip(1) =~= back);
    assert(rest.take(1) =~= Seq::<RecordView>::empty().push(directory[i]));
    assert forall|j: int| 0 <= j < front.len() implies (#[trigger] front[j]).name != name by {
        assert(front[j] == directory[j]);
    }
    assert forall|j: int| 0 <= j < back.len() implies (#[trigger] back[j]).name != name by {
        assert(back[j] == directory[j + i + 1]);
    }
    lemma_no_bearers(front, name);
    lemma_no_bearers(back, name);
    Seq::<RecordView>::empty().lemma_filter_push(directory[i], |r: RecordView| r.name == name);
    lemma_no_bearers(Seq::<RecordView>::empty(), name);
    assert(bearers(rest.take(1), name) =~= Seq::<RecordView>::empty().push(directory[i]));
    assert(bearers(directory, name) =~= Seq::<RecordView>::empty().push(directory[i]));
}

/// Resolution of a name that two or more records of the inventory bear
/// fails with `AmbiguousName`, and the ids it lists are those of the
/// records that bear the name: each of them, and no other.
pub proof fn lemma_resolve_many(directory: Seq<RecordView>, name: Seq<char>, i: int, j: int)
    requires
        0 <= i < j < directory.len(),
        directory[i].name == name,
        directory[j].name == name,
    ensures
        resolve_spec(name, directory) == Err::<RecordView, ResolutionErrorView>(
            ResolutionErrorView::AmbiguousName(name, ids_of(bearers(directory, name))),
        ),
        forall|k: int|
            0 <= k < directory.len() && (#[trigger] directory[k]).name == name ==> ids_of(
                bearers(directory, name),
            ).contains(directory[k].id),
        forall|id: Seq<char>| #[trigger]
            ids_of(bearers(directory, name)).contains(id) ==> exists|k: int|
                0 <= k < directory.len() && (#[trigger] directory[k]).name == name
                    && directory[k].id == id,
{
    let bears = |r: RecordView| r.name == name;
    let found = bearers(directory, name);
    let front = directory.take(j);
    let back = directory.skip(j);
    lemma_bearers_split(directory, name, j);
    assert(front[i] == directory[i]);
    front.lemma_filter_contains(bears, i);
    assert(back[0] == directory[j]);
    back.lemma_filter_contains(bears, 0);
    assert(bearers(front, name).len() >= 1);
    assert(bearers(back, name).len() >= 1);
    assert(found.len() >= 2);
    assert forall|k: int|
        0 <= k < directory.len() && (#[trigger] directory[k]).name == name implies ids_of(
        found,
    ).contains(directory[k].id) by {
        directory.lemma_filter_contains(bears, k);
        let m = choose|m: int| 0 <= m < found.len() && found[m] == directory[k];
        assert(ids_of(found)[m] == directory[k].id);
    }
    assert forall|id: Seq<char>| #[trigger] ids_of(found).contains(id) implies exists|k: int|
        0 <= k < directory.len() && (#[trigger] directory[k]).name == name && directory[k].id
            == id by {
        let m = choose|m: int| 0 <= m < ids_of(found).len() && ids_of(found)[m] == id;
        assert(found.contains(found[m]));
        directory.lemma_filter_contains_rev(bears, found[m]);
        let k = choose|k: int| 0 <= k < directory.len() && directory[k] == found[m];
        assert(directory[k].name == name);
    }
}

/// Resolves `name` against the inventory: the one instance that bears it;
/// `NotFound` where none does; `AmbiguousName`, with the ids of all that
/// do, where several do.
pub fn resolve<'a>(name: &str, directory: &'a Vec<InstanceRecord>) -> (r: Result<
    &'a InstanceRecord,
    ResolutionError,
>)
    ensures
        match r {
            Ok(record) => resolve_spec(name@, directory.deep_view()) == Ok::<
                RecordView,
                ResolutionErrorView,
            >(record@),
            Err(e) => resolve_spec(name@, directory.deep_view()) == Err::<
                RecordView,
                ResolutionErrorView,
            >(e@),
        },
{
    let ghost all = directory.deep_view();
    let mut ids: Vec<String> = Vec::new();
    let mut first: usize = 0;
    let mut i: usize = 0;
    proof {
        assert(all.take(0) =~= Seq::<RecordView>::empty());
        reveal(Seq::filter);
        assert(ids.deep_view() =~= ids_of(bearers(all.take(0), name@)));
    }
    while i < directory.len()
        invariant
            i <= directory.len(),
            all == directory.deep_view(),
            ids.deep_view() == ids_of(bearers(all.take(i as int), name@)),
            ids.len() > 0 ==> first < i && bearers(all.take(i as int), name@)[0]
                == all[first as int],
        decreases directory.len() - i,
    {
        let record = &directory[i];
        proof {
            assert(all.take(i + 1) =~= all.take(i as int).push(all[i as int]));
            all.take(i as int).lemma_filter_push(all[i as int], |r: RecordView| r.name == name@);
            assert(all[i as int] == record@);
        }
        if same_text(record.name.as_str(), name) {
            if ids.len() == 0 {
                first = i;
            }
            let ghost sofar = ids.deep_view();
            ids.push(record.id.clone());
            proof {
                assert(ids.deep_view() =~= sofar.push(record.id@));
                assert(ids.deep_view() =~= ids_of(bearers(all.take(i + 1), name@)));
            }
        }
        i = i + 1;
    }
    proof {
        assert(all.take(all.len() as int) =~= all);
    }
    if ids.len() == 0 {
        Err(ResolutionError::NotFound(name.to_owned()))
    } else if ids.len() == 1 {
        Ok(&directory[first])
    } else {
        Err(ResolutionError::AmbiguousName(name.to_owned(), ids))
    }
}

/// The address to connect to for `name`: that of the one running instance
/// of this name, where it has one. A name that does not resolve gives the
/// resolver's error; an instance that is not running, or has no address,
/// gives `NoAddress`.
pub fn connection_address(name: &str, directory: &Vec<InstanceRecord>) -> (r: Result<
    String,
    ResolutionError,
>)
    ensures
        match r {
            Ok(address) => connect_spec(name@, directory.deep_view()) == Ok::<
                Seq<char>,
                ResolutionErrorView,
            >(address@),
            Err(e) => connect_spec(name@, directory.deep_view()) == Err::<
                Seq<char>,
                ResolutionErrorView,
            >(e@),
        },
{
    match resolve(name, directory) {
        Err(e) => Err(e),
        Ok(record) => {
            let running = match record.state {
                InstanceState::Running => true,
                _ => false,
            };
            match &record.public_ip {
                Some(address) => {
                    if running && !address.as_str().is_empty() {
                        Ok(address.clone())
                    } else {
                        Err(ResolutionError::NoAddress(name.to_owned()))
                    }
                },
                None => Err(ResolutionError::NoAddress(name.to_owned())),
            }
        },
    }
}

} // verus!
