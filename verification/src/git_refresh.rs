//! Refreshing the git status of the workspaces.
//!
//! Workspaces that share a repository are asked about together: there is one job for
//! each repository, and every workspace is told what its job found. A path is the
//! sequence of its bytes, in a form in which equal paths are equal sequences.

use crate::bytes::{copy_bytes, same_bytes};
use crate::sequences::{filter_extends, filter_members, filter_push, first_match};
use vstd::prelude::*;

verus! {

pub type PathBytes = Vec<u8>;

/// A workspace, where it is, and the repository it belongs to.
#[derive(Debug, PartialEq, Eq)]
pub struct WorkspaceGitRefreshItem {
    pub workspace_id: String,
    pub resolved_identity_cwd: PathBytes,
    pub cache_key: PathBytes,
}

/// A workspace that waits for what a job finds.
#[derive(Debug, PartialEq, Eq)]
pub struct WorkspaceGitRefreshTarget {
    pub workspace_id: String,
    pub resolved_identity_cwd: PathBytes,
}

/// What to find out about one repository, with what is already known of it.
#[derive(Debug, PartialEq, Eq)]
pub struct WorkspaceGitRefreshJob<'a, C> {
    pub cache_key: PathBytes,
    pub status_cwd: PathBytes,
    pub cached: Option<&'a C>,
    pub targets: Vec<WorkspaceGitRefreshTarget>,
}

/// What a workspace is told.
#[derive(Debug, PartialEq, Eq)]
pub struct WorkspaceGitStatus<S> {
    pub workspace_id: String,
    pub resolved_identity_cwd: PathBytes,
    pub snapshot: S,
}

/// What a refresh found, for the workspaces and for the cache.
#[derive(Debug, PartialEq, Eq)]
pub struct WorkspaceGitRefreshOutput<S, C> {
    pub results: Vec<WorkspaceGitStatus<S>>,
    pub cache_updates: Vec<(PathBytes, C)>,
}

/// A workspace, where it is if that is known, and the repository there if there is one.
#[derive(Debug, PartialEq, Eq)]
pub struct WorkspaceLocation {
    pub workspace_id: String,
    pub cwd: Option<PathBytes>,
    pub git_key: Option<PathBytes>,
}

#[verifier::ext_equal]
pub struct ItemView {
    pub workspace_id: Seq<char>,
    pub cwd: Seq<u8>,
    pub key: Seq<u8>,
}

#[verifier::ext_equal]
pub struct TargetView {
    pub workspace_id: Seq<char>,
    pub cwd: Seq<u8>,
}

#[verifier::ext_equal]
pub struct JobView {
    pub key: Seq<u8>,
    pub status_cwd: Seq<u8>,
    pub targets: Seq<TargetView>,
}

#[verifier::ext_equal]
pub struct LocationView {
    pub workspace_id: Seq<char>,
    pub cwd: Option<Seq<u8>>,
    pub git_key: Option<Seq<u8>>,
}

impl View for WorkspaceGitRefreshItem {
    type V = ItemView;

    open spec fn view(&self) -> ItemView {
        ItemView {
            workspace_id: self.workspace_id@,
            cwd: self.resolved_identity_cwd@,
            key: self.cache_key@,
        }
    }
}

impl View for WorkspaceGitRefreshTarget {
    type V = TargetView;

    open spec fn view(&self) -> TargetView {
        TargetView { workspace_id: self.workspace_id@, cwd: self.resolved_identity_cwd@ }
    }
}

impl<'a, C> View for WorkspaceGitRefreshJob<'a, C> {
    type V = JobView;

    open spec fn view(&self) -> JobView {
        JobView {
            key: self.cache_key@,
            status_cwd: self.status_cwd@,
            targets: self.targets@.map_values(|t: WorkspaceGitRefreshTarget| t@),
        }
    }
}

impl<S> WorkspaceGitStatus<S> {
    pub open spec fn target(self) -> TargetView {
        TargetView { workspace_id: self.workspace_id@, cwd: self.resolved_identity_cwd@ }
    }
}

pub open spec fn path_view(path: Option<PathBytes>) -> Option<Seq<u8>> {
    match path {
        Some(path) => Some(path@),
        None => None,
    }
}

impl View for WorkspaceLocation {
    type V = LocationView;

    open spec fn view(&self) -> LocationView {
        LocationView {
            workspace_id: self.workspace_id@,
            cwd: path_view(self.cwd),
            git_key: path_view(self.git_key),
        }
    }
}

pub open spec fn item_views(items: Seq<WorkspaceGitRefreshItem>) -> Seq<ItemView> {
    items.map_values(|item: WorkspaceGitRefreshItem| item@)
}

/// The item for a workspace whose place is known. Outside of any repository the place
/// itself serves as the key.
pub open spec fn located_item(location: LocationView) -> ItemView {
    ItemView {
        workspace_id: location.workspace_id,
        cwd: location.cwd->0,
        key: match location.git_key {
            Some(key) => key,
            None => location.cwd->0,
        },
    }
}

/// The items for the workspaces whose place is known, in their order.
pub open spec fn located_items(locations: Seq<LocationView>) -> Seq<ItemView> {
    locations.filter(|l: LocationView| l.cwd is Some).map_values(|l: LocationView| located_item(l))
}

pub open spec fn target_of(item: ItemView) -> TargetView {
    TargetView { workspace_id: item.workspace_id, cwd: item.cwd }
}

/// The keys of some items, each at the place where it comes up first.
pub open spec fn distinct_keys(items: Seq<ItemView>) -> Seq<Seq<u8>>
    decreases items.len(),
{
    if items.len() == 0 {
        Seq::empty()
    } else {
        let keys = distinct_keys(items.drop_last());
        if keys.contains(items.last().key) {
            keys
        } else {
            keys.push(items.last().key)
        }
    }
}

/// The job for one key: its targets are the items with that key, in their order.
pub open spec fn job_for(items: Seq<ItemView>, key: Seq<u8>) -> JobView {
    JobView {
        key,
        status_cwd: key,
        targets: items.filter(|item: ItemView| item.key == key).map_values(
            |item: ItemView| target_of(item),
        ),
    }
}

/// One job for each key.
pub open spec fn jobs_for(items: Seq<ItemView>) -> Seq<JobView> {
    distinct_keys(items).map_values(|key: Seq<u8>| job_for(items, key))
}

/// What the cache holds for a key.
pub open spec fn cached_entry<C>(cache: Seq<(PathBytes, C)>, key: Seq<u8>) -> Option<C> {
    match first_match(cache, |entry: (PathBytes, C)| entry.0@ == key) {
        Some(entry) => Some(entry.1),
        None => None,
    }
}

/// The entry in place `i` of the cache is the first one for a key.
pub open spec fn is_first_for<C>(cache: Seq<(PathBytes, C)>, key: Seq<u8>, i: int) -> bool {
    &&& 0 <= i < cache.len()
    &&& cache[i].0@ == key
    &&& forall|k: int| 0 <= k < i ==> (#[trigger] cache[k]).0@ != key
}

/// The cache is searched whole: what it holds for a key is the first entry with that key,
/// in whichever place that is.
pub proof fn cache_is_searched_whole<C>(cache: Seq<(PathBytes, C)>, key: Seq<u8>, i: int)
    requires
        0 <= i < cache.len(),
        cache[i].0@ == key,
        forall|k: int| 0 <= k < i ==> (#[trigger] cache[k]).0@ != key,
    ensures
        cached_entry(cache, key) == Some(cache[i].1),
    decreases cache.len(),
{
    if i > 0 {
        let rest = cache.drop_first();
        assert(cache[0].0@ != key);
        assert(rest[i - 1] == cache[i]);
        assert forall|k: int| 0 <= k < i - 1 implies (#[trigger] rest[k]).0@ != key by {
            assert(rest[k] == cache[k + 1]);
        }
        cache_is_searched_whole(rest, key, i - 1);
        assert(cached_entry(cache, key) == cached_entry(rest, key));
    }
}

/// The cache holds nothing for a key only if none of its entries has the key.
pub proof fn cache_overlooks_nothing<C>(cache: Seq<(PathBytes, C)>, key: Seq<u8>)
    ensures
        cached_entry(cache, key) is None <==> forall|i: int|
            0 <= i < cache.len() ==> (#[trigger] cache[i]).0@ != key,
    decreases cache.len(),
{
    if cache.len() > 0 {
        let rest = cache.drop_first();
        cache_overlooks_nothing(rest, key);
        assert(forall|k: int| 0 <= k < rest.len() ==> #[trigger] rest[k] == cache[k + 1]);
        if cache[0].0@ == key {
            cache_is_searched_whole(cache, key, 0);
        } else {
            assert(cached_entry(cache, key) == cached_entry(rest, key));
            if cached_entry(rest, key) is None {
                assert forall|i: int| 0 <= i < cache.len() implies (#[trigger] cache[i]).0@
                    != key by {
                    if i > 0 {
                        assert(rest[i - 1].0@ != key);
                    }
                }
            } else {
                let k = choose|k: int| 0 <= k < rest.len() && (#[trigger] rest[k]).0@ == key;
                assert(cache[k + 1].0@ == key);
            }
        }
    }
}

/// How many targets some jobs have between them.
pub open spec fn total_targets(jobs: Seq<JobView>) -> nat
    decreases jobs.len(),
{
    if jobs.len() == 0 {
        0
    } else {
        total_targets(jobs.drop_last()) + jobs.last().targets.len()
    }
}

fn find_cached<'a, C>(cache: &'a Vec<(PathBytes, C)>, key: &PathBytes) -> (r: Option<&'a C>)
    ensures
        match r {
            Some(entry) => cached_entry(cache@, key@) == Some(*entry),
            None => cached_entry(cache@, key@) is None,
        },
{
    let ghost test = |entry: (PathBytes, C)| entry.0@ == key@;
    let mut i: usize = 0;
    assert(cache@.skip(0) =~= cache@);
    while i < cache.len()
        invariant
            i <= cache@.len(),
            test == (|entry: (PathBytes, C)| entry.0@ == key@),
            first_match(cache@, test) == first_match(cache@.skip(i as int), test),
        decreases cache@.len() - i,
    {
        assert(cache@.skip(i as int).first() == cache@[i as int]);
        assert(cache@.skip(i as int).drop_first() =~= cache@.skip(i + 1));
        if same_bytes(cache[i].0.as_slice(), key.as_slice()) {
            return Some(&cache[i].1);
        }
        i = i + 1;
    }
    None
}

/// The keys of some items are different from each other, and are those of the items.
pub proof fn distinct_keys_are_the_keys(items: Seq<ItemView>)
    ensures
        distinct_keys(items).no_duplicates(),
        forall|key: Seq<u8>| #[trigger]
            distinct_keys(items).contains(key) <==> exists|i: int|
                0 <= i < items.len() && (#[trigger] items[i]).key == key,
    decreases items.len(),
{
    if items.len() > 0 {
        let front = items.drop_last();
        let keys = distinct_keys(front);
        distinct_keys_are_the_keys(front);
        assert forall|key: Seq<u8>| #[trigger]
            distinct_keys(items).contains(key) <==> exists|i: int|
                0 <= i < items.len() && (#[trigger] items[i]).key == key by {
            if distinct_keys(items).contains(key) {
                if keys.contains(key) {
                    let i = choose|i: int| 0 <= i < front.len() && (#[trigger] front[i]).key == key;
                    assert(items[i].key == key);
                } else {
                    let k = choose|k: int|
                        0 <= k < distinct_keys(items).len() && distinct_keys(items)[k] == key;
                    assert(k == keys.len()) by {
                        if k < keys.len() {
                            assert(keys[k] == key);
                        }
                    }
                    assert(items[items.len() - 1].key == key);
                }
            }
            if exists|i: int| 0 <= i < items.len() && (#[trigger] items[i]).key == key {
                let i = choose|i: int| 0 <= i < items.len() && (#[trigger] items[i]).key == key;
                if i < front.len() {
                    assert(front[i].key == key);
                    assert(keys.contains(key));
                    let k = choose|k: int| 0 <= k < keys.len() && keys[k] == key;
                    assert(distinct_keys(items)[k] == key);
                } else if keys.contains(key) {
                } else {
                    assert(distinct_keys(items).last() == key);
                }
            }
        }
    }
}

/// The jobs once an item with a known key is added.
proof fn jobs_with_known_key(items: Seq<ItemView>, item: ItemView, j: int)
    requires
        0 <= j < distinct_keys(items).len(),
        distinct_keys(items)[j] == item.key,
    ensures
        jobs_for(items.push(item)) == jobs_for(items).update(
            j,
            JobView {
                targets: jobs_for(items)[j].targets.push(target_of(item)),
                ..jobs_for(items)[j]
            },
        ),
{
    let more = items.push(item);
    let keys = distinct_keys(items);
    distinct_keys_are_the_keys(items);
    assert(more.drop_last() =~= items);
    assert(keys.contains(item.key));
    assert(distinct_keys(more) == keys);
    assert forall|k: int| 0 <= k < keys.len() implies jobs_for(more)[k] == jobs_for(items).update(
        j,
        JobView {
            targets: jobs_for(items)[j].targets.push(target_of(item)),
            ..jobs_for(items)[j]
        },
    )[k] by {
        let key = keys[k];
        filter_push(items, item, |i: ItemView| i.key == key);
        if k == j {
            assert(jobs_for(more)[k].targets =~= jobs_for(items)[j].targets.push(target_of(item)));
        } else {
            assert(key != item.key);
        }
    }
    assert(jobs_for(more) =~= jobs_for(items).update(
        j,
        JobView {
            targets: jobs_for(items)[j].targets.push(target_of(item)),
            ..jobs_for(items)[j]
        },
    ));
}

/// The jobs once an item with a new key is added.
proof fn jobs_with_new_key(items: Seq<ItemView>, item: ItemView)
    requires
        !distinct_keys(items).contains(item.key),
    ensures
        jobs_for(items.push(item)) == jobs_for(items).push(
            JobView { key: item.key, status_cwd: item.key, targets: seq![target_of(item)] },
        ),
{
    let more = items.push(item);
    let keys = distinct_keys(items);
    distinct_keys_are_the_keys(items);
    assert(more.drop_last() =~= items);
    assert(distinct_keys(more) == keys.push(item.key));
    let fresh = JobView { key: item.key, status_cwd: item.key, targets: seq![target_of(item)] };
    assert forall|k: int| 0 <= k < keys.len() + 1 implies jobs_for(more)[k] == jobs_for(items).push(
        fresh,
    )[k] by {
        let key = distinct_keys(more)[k];
        let same_key = |i: ItemView| i.key == key;
        filter_push(items, item, same_key);
        if k == keys.len() {
            filter_of_none(items, same_key);
            assert(jobs_for(more)[k].targets =~= seq![target_of(item)]);
        } else {
            assert(keys[k] == key);
            assert(keys.contains(key));
            assert(key != item.key);
        }
    }
    assert(jobs_for(more) =~= jobs_for(items).push(fresh));
}

proof fn filter_of_none(items: Seq<ItemView>, test: spec_fn(ItemView) -> bool)
    requires
        forall|i: int| 0 <= i < items.len() ==> !test(#[trigger] items[i]),
    ensures
        items.filter(test) == Seq::<ItemView>::empty(),
    decreases items.len(),
{
    reveal(Seq::filter);
    if items.len() > 0 {
        assert forall|i: int| 0 <= i < items.drop_last().len() implies !test(
            #[trigger] items.drop_last()[i],
        ) by {
            assert(items.drop_last()[i] == items[i]);
        }
        assert(!test(items[items.len() - 1]));
        filter_of_none(items.drop_last(), test);
    }
}

/// One job for each repository, with the workspaces that wait for it and with what the
/// cache knows of it.
pub fn deduplicate_git_refresh_items<'a, C>(
    items: Vec<WorkspaceGitRefreshItem>,
    cache: &'a Vec<(PathBytes, C)>,
) -> (jobs: Vec<WorkspaceGitRefreshJob<'a, C>>)
    ensures
        jobs@.map_values(|job: WorkspaceGitRefreshJob<'a, C>| job@) == jobs_for(item_views(items@)),
        forall|j: int|
            0 <= j < jobs@.len() ==> match (#[trigger] jobs@[j]).cached {
                Some(entry) => cached_entry(cache@, jobs@[j].cache_key@) == Some(*entry),
                None => cached_entry(cache@, jobs@[j].cache_key@) is None,
            },
        forall|j: int, i: int|
            #![trigger jobs@[j], cache@[i]]
            0 <= j < jobs@.len() && is_first_for(cache@, jobs@[j].cache_key@, i) ==> (
            jobs@[j].cached matches Some(entry) && *entry == cache@[i].1),
        forall|j: int|
            0 <= j < jobs@.len() ==> ((#[trigger] jobs@[j]).cached is None <==> forall|i: int|
                0 <= i < cache@.len() ==> (#[trigger] cache@[i]).0@ != jobs@[j].cache_key@),
{
    let ghost views = item_views(items@);
    let mut jobs: Vec<WorkspaceGitRefreshJob<'a, C>> = Vec::new();
    let mut i: usize = 0;
    assert(jobs@.map_values(|job: WorkspaceGitRefreshJob<'a, C>| job@) =~= jobs_for(views.take(0)));
    while i < items.len()
        invariant
            i <= items@.len(),
            views == item_views(items@),
            jobs@.map_values(|job: WorkspaceGitRefreshJob<'a, C>| job@) == jobs_for(
                views.take(i as int),
            ),
            forall|j: int|
                0 <= j < jobs@.len() ==> match (#[trigger] jobs@[j]).cached {
                    Some(entry) => cached_entry(cache@, jobs@[j].cache_key@) == Some(*entry),
                    None => cached_entry(cache@, jobs@[j].cache_key@) is None,
                },
        decreases items@.len() - i,
    {
        let item = &items[i];
        let target = WorkspaceGitRefreshTarget {
            workspace_id: item.workspace_id.clone(),
            resolved_identity_cwd: copy_bytes(&item.resolved_identity_cwd),
        };
        let ghost before = views.take(i as int);
        let ghost keys = distinct_keys(before);
        let ghost job_views = jobs@.map_values(|job: WorkspaceGitRefreshJob<'a, C>| job@);
        assert(views.take(i + 1) =~= before.push(item@));
        assert(job_views.len() == jobs@.len() && jobs_for(before).len() == keys.len());
        let mut j: usize = 0;
        while j < jobs.len() && !same_bytes(
            jobs[j].cache_key.as_slice(),
            item.cache_key.as_slice(),
        )
            invariant
                j <= jobs@.len(),
                jobs@.len() == keys.len(),
                keys == distinct_keys(before),
                job_views == jobs_for(before),
                job_views == jobs@.map_values(|job: WorkspaceGitRefreshJob<'a, C>| job@),
                forall|k: int| 0 <= k < j ==> keys[k] != item@.key,
            decreases jobs@.len() - j,
        {
            assert(job_views[j as int] == jobs@[j as int]@);
            assert(job_views[j as int].key == keys[j as int]);
            j = j + 1;
        }
        if j < jobs.len() {
            assert(job_views[j as int] == jobs@[j as int]@);
            assert(job_views[j as int].key == keys[j as int]);
            let ghost old_job = jobs@[j as int];
            jobs[j].targets.push(target);
            proof {
                jobs_with_known_key(before, item@, j as int);
                assert(jobs@[j as int]@.targets =~= old_job@.targets.push(target@));
                assert(jobs@.map_values(|job: WorkspaceGitRefreshJob<'a, C>| job@)
                    =~= job_views.update(j as int, jobs@[j as int]@));
            }
        } else {
            let cached = find_cached(cache, &item.cache_key);
            let mut targets: Vec<WorkspaceGitRefreshTarget> = Vec::new();
            targets.push(target);
            let job = WorkspaceGitRefreshJob {
                cache_key: copy_bytes(&item.cache_key),
                status_cwd: copy_bytes(&item.cache_key),
                cached,
                targets,
            };
            jobs.push(job);
            proof {
                assert(!keys.contains(item@.key));
                jobs_with_new_key(before, item@);
                assert(job@.targets =~= seq![target@]);
                assert(jobs@.map_values(|job: WorkspaceGitRefreshJob<'a, C>| job@)
                    =~= job_views.push(job@));
            }
        }
        i = i + 1;
    }
    assert(views.take(i as int) =~= views);
    proof {
        assert forall|j: int, k: int|
            #![trigger jobs@[j], cache@[k]]
            0 <= j < jobs@.len() && is_first_for(cache@, jobs@[j].cache_key@, k) implies (
        jobs@[j].cached matches Some(entry) && *entry == cache@[k].1) by {
            cache_is_searched_whole(cache@, jobs@[j].cache_key@, k);
        }
        assert forall|j: int| 0 <= j < jobs@.len() implies ((#[trigger] jobs@[j]).cached is None
            <==> forall|k: int|
            0 <= k < cache@.len() ==> (#[trigger] cache@[k]).0@ != jobs@[j].cache_key@) by {
            cache_overlooks_nothing(cache@, jobs@[j].cache_key@);
        }
    }
    jobs
}

/// The items to refresh: the workspaces whose place is known.
pub fn workspace_git_refresh_items(locations: &Vec<WorkspaceLocation>) -> (items: Vec<
    WorkspaceGitRefreshItem,
>)
    ensures
        item_views(items@) == located_items(
            locations@.map_values(|l: WorkspaceLocation| l@),
        ),
{
    let ghost known = |l: LocationView| l.cwd is Some;
    let ghost views = locations@.map_values(|l: WorkspaceLocation| l@);
    let mut items: Vec<WorkspaceGitRefreshItem> = Vec::new();
    let mut i: usize = 0;
    proof {
        reveal(Seq::filter);
        assert(item_views(items@) =~= located_items(views.take(0)));
    }
    while i < locations.len()
        invariant
            i <= locations@.len(),
            known == (|l: LocationView| l.cwd is Some),
            views == locations@.map_values(|l: WorkspaceLocation| l@),
            item_views(items@) == located_items(views.take(i as int)),
        decreases locations@.len() - i,
    {
        let location = &locations[i];
        let ghost before = items@;
        proof {
            assert(views[i as int] == location@);
            filter_extends(views, known, i as int);
        }
        if let Some(cwd) = &location.cwd {
            let cache_key = match &location.git_key {
                Some(key) => copy_bytes(key),
                None => copy_bytes(cwd),
            };
            let item = WorkspaceGitRefreshItem {
                workspace_id: location.workspace_id.clone(),
                resolved_identity_cwd: copy_bytes(cwd),
                cache_key,
            };
            items.push(item);
            proof {
                assert(item@ == located_item(location@));
                assert(item_views(items@) =~= item_views(before).push(item@));
                assert(located_items(views.take(i + 1)) =~= located_items(
                    views.take(i as int),
                ).push(item@));
            }
        }
        i = i + 1;
    }
    assert(views.take(i as int) =~= views);
    items
}

impl<S, C> WorkspaceGitRefreshOutput<S, C> {
    pub fn new() -> (output: Self)
        ensures
            output.results@ == Seq::<WorkspaceGitStatus<S>>::empty(),
            output.cache_updates@ == Seq::<(PathBytes, C)>::empty(),
    {
        Self { results: Vec::new(), cache_updates: Vec::new() }
    }
}

impl<S: Clone, C> WorkspaceGitRefreshOutput<S, C> {
    /// Adds what a job found: each of its targets is told of the snapshot, and what is
    /// new to the cache is noted for it.
    pub fn add_job<'a>(
        &mut self,
        job: WorkspaceGitRefreshJob<'a, C>,
        snapshot: S,
        cache_entry: Option<C>,
    )
        ensures
            final(self).results@.len() == old(self).results@.len() + job@.targets.len(),
            final(self).results@.take(old(self).results@.len() as int) == old(self).results@,
            forall|t: int|
                0 <= t < job@.targets.len() ==> {
                    let result = #[trigger] final(self).results@[old(self).results@.len() + t];
                    &&& result.target() == job@.targets[t]
                    &&& cloned(snapshot, result.snapshot)
                },
            match cache_entry {
                Some(entry) => {
                    let n = old(self).cache_updates@.len() as int;
                    &&& final(self).cache_updates@.len() == n + 1
                    &&& final(self).cache_updates@.take(n) == old(self).cache_updates@
                    &&& final(self).cache_updates@[n].0@ == job@.key
                    &&& final(self).cache_updates@[n].1 == entry
                },
                None => final(self).cache_updates@ == old(self).cache_updates@,
            },
    {
        let ghost n = self.results@.len() as int;
        if let Some(entry) = cache_entry {
            let ghost updates = self.cache_updates@;
            self.cache_updates.push((job.cache_key, entry));
            assert(self.cache_updates@.take(updates.len() as int) =~= updates);
        }
        let ghost first = self.results@;
        let ghost updated = self.cache_updates@;
        let ghost target_views = job.targets@.map_values(|t: WorkspaceGitRefreshTarget| t@);
        let targets = job.targets;
        let mut t: usize = 0;
        assert(self.results@.take(n) =~= first);
        while t < targets.len()
            invariant
                t <= targets@.len(),
                n == first.len(),
                target_views == targets@.map_values(|t: WorkspaceGitRefreshTarget| t@),
                self.cache_updates@ == updated,
                self.results@.len() == n + t,
                self.results@.take(n) == first,
                forall|k: int|
                    0 <= k < t ==> {
                        let result = #[trigger] self.results@[n + k];
                        &&& result.target() == target_views[k]
                        &&& cloned(snapshot, result.snapshot)
                    },
            decreases targets@.len() - t,
        {
            let ghost before = self.results@;
            let status = WorkspaceGitStatus {
                workspace_id: targets[t].workspace_id.clone(),
                resolved_identity_cwd: copy_bytes(&targets[t].resolved_identity_cwd),
                snapshot: snapshot.clone(),
            };
            self.results.push(status);
            proof {
                assert(self.results@.take(n) =~= before.take(n));
                assert(target_views[t as int] == targets@[t as int]@);
                assert forall|k: int| 0 <= k < t + 1 implies {
                    let result = #[trigger] self.results@[n + k];
                    &&& result.target() == target_views[k]
                    &&& cloned(snapshot, result.snapshot)
                } by {
                    if k < t {
                        assert(self.results@[n + k] == before[n + k]);
                    }
                }
            }
            t = t + 1;
        }
    }
}

/// Who is told, and by which job, in the order of the jobs.
pub open spec fn told(jobs: Seq<JobView>) -> Seq<(int, TargetView)>
    decreases jobs.len(),
{
    if jobs.len() == 0 {
        Seq::empty()
    } else {
        told(jobs.drop_last()) + jobs.last().targets.map_values(
            |target: TargetView| (jobs.len() - 1, target),
        )
    }
}

/// What is new to the cache, in the order of the jobs.
pub open spec fn noted<S, C>(jobs: Seq<JobView>, found: Seq<(S, Option<C>)>) -> Seq<(Seq<u8>, C)>
    decreases jobs.len(),
{
    if jobs.len() == 0 {
        Seq::empty()
    } else {
        let before = noted(jobs.drop_last(), found);
        match found[jobs.len() - 1].1 {
            Some(entry) => before.push((jobs.last().key, entry)),
            None => before,
        }
    }
}

/// `found` is what `snapshot_of` may answer when it is asked about a job.
pub open spec fn asked<S, C, F: Fn(&PathBytes, Option<&C>) -> (S, Option<C>)>(
    snapshot_of: F,
    cache: Seq<(PathBytes, C)>,
    job: JobView,
    found: (S, Option<C>),
) -> bool {
    exists|path: PathBytes, cached: Option<&C>| #[trigger]
        snapshot_of.ensures((&path, cached), found) && path@ == job.status_cwd && match cached {
            Some(entry) => cached_entry(cache, job.key) == Some(*entry),
            None => cached_entry(cache, job.key) is None,
        }
}

/// The output holds what the jobs found: every target is told of a copy of the snapshot
/// of its job.
pub open spec fn reports<S: Clone, C>(
    output: WorkspaceGitRefreshOutput<S, C>,
    jobs: Seq<JobView>,
    found: Seq<(S, Option<C>)>,
) -> bool {
    &&& output.results@.len() == told(jobs).len()
    &&& forall|k: int|
        0 <= k < told(jobs).len() ==> {
            &&& (#[trigger] output.results@[k]).target() == told(jobs)[k].1
            &&& cloned(found[told(jobs)[k].0].0, output.results@[k].snapshot)
        }
    &&& output.cache_updates@.map_values(|update: (PathBytes, C)| (update.0@, update.1)) == noted(
        jobs,
        found,
    )
}

proof fn told_by_earlier_jobs(jobs: Seq<JobView>)
    ensures
        forall|k: int| 0 <= k < told(jobs).len() ==> 0 <= (#[trigger] told(jobs)[k]).0 < jobs.len(),
        told(jobs).len() == total_targets(jobs),
    decreases jobs.len(),
{
    if jobs.len() > 0 {
        told_by_earlier_jobs(jobs.drop_last());
    }
}

proof fn noted_of_prefix<S, C>(
    jobs: Seq<JobView>,
    found: Seq<(S, Option<C>)>,
    more: Seq<(S, Option<C>)>,
)
    requires
        found.len() == jobs.len() <= more.len(),
        more.take(found.len() as int) == found,
    ensures
        noted(jobs, more) == noted(jobs, found),
    decreases jobs.len(),
{
    if jobs.len() > 0 {
        let n = jobs.len() - 1;
        assert(more[n] == more.take(found.len() as int)[n]);
        assert(more.take(n) =~= found.take(n));
        noted_of_prefix(jobs.drop_last(), found.take(n), more);
        noted_of_prefix(jobs.drop_last(), found.take(n), found);
    }
}

/// Adding what one more job found.
proof fn report_grows<S: Clone, C>(
    before: WorkspaceGitRefreshOutput<S, C>,
    after: WorkspaceGitRefreshOutput<S, C>,
    jobs: Seq<JobView>,
    found: Seq<(S, Option<C>)>,
    job: JobView,
    snapshot: S,
    cache_entry: Option<C>,
)
    requires
        found.len() == jobs.len(),
        reports(before, jobs, found),
        after.results@.len() == before.results@.len() + job.targets.len(),
        after.results@.take(before.results@.len() as int) == before.results@,
        forall|t: int|
            0 <= t < job.targets.len() ==> {
                let result = #[trigger] after.results@[before.results@.len() + t];
                &&& result.target() == job.targets[t]
                &&& cloned(snapshot, result.snapshot)
            },
        match cache_entry {
            Some(entry) => {
                let n = before.cache_updates@.len() as int;
                &&& after.cache_updates@.len() == n + 1
                &&& after.cache_updates@.take(n) == before.cache_updates@
                &&& after.cache_updates@[n].0@ == job.key
                &&& after.cache_updates@[n].1 == entry
            },
            None => after.cache_updates@ == before.cache_updates@,
        },
    ensures
        reports(after, jobs.push(job), found.push((snapshot, cache_entry))),
{
    let more = found.push((snapshot, cache_entry));
    let all = jobs.push(job);
    let n = before.results@.len();
    let pair = |update: (PathBytes, C)| (update.0@, update.1);
    assert(all.drop_last() =~= jobs);
    assert(more.take(found.len() as int) =~= found);
    noted_of_prefix(jobs, found, more);
    told_by_earlier_jobs(jobs);
    assert forall|k: int| 0 <= k < told(all).len() implies {
        &&& (#[trigger] after.results@[k]).target() == told(all)[k].1
        &&& cloned(more[told(all)[k].0].0, after.results@[k].snapshot)
    } by {
        if k < n {
            assert(after.results@[k] == after.results@.take(n as int)[k]);
            assert(told(all)[k] == told(jobs)[k]);
            assert(before.results@[k].target() == told(jobs)[k].1);
            assert(more[told(jobs)[k].0] == found[told(jobs)[k].0]);
        } else {
            let t = k - n;
            assert(after.results@[n + t].target() == job.targets[t]);
        }
    }
    match cache_entry {
        Some(entry) => {
            let m = before.cache_updates@.len() as int;
            assert forall|i: int| 0 <= i < m implies after.cache_updates@[i]
                == before.cache_updates@[i] by {
                assert(after.cache_updates@[i] == after.cache_updates@.take(m)[i]);
            }
            assert(after.cache_updates@.map_values(pair) =~= before.cache_updates@.map_values(
                pair,
            ).push((job.key, entry)));
        },
        None => {},
    }
}

/// Refreshes the git status of some workspaces. `snapshot_of` finds out about one
/// repository, given where it is and what the cache knows of it; it says what the
/// workspaces are to be told, and what is new to the cache.
pub fn refresh_workspace_git_statuses_with_cache<S: Clone, C, F>(
    items: Vec<WorkspaceGitRefreshItem>,
    cache: &Vec<(PathBytes, C)>,
    snapshot_of: F,
) -> (output: WorkspaceGitRefreshOutput<S, C>) where
    F: Fn(&PathBytes, Option<&C>) -> (S, Option<C>),

    requires
        forall|path: &PathBytes, cached: Option<&C>| snapshot_of.requires((path, cached)),
    ensures
        exists|found: Seq<(S, Option<C>)>|
            #![trigger reports(output, jobs_for(item_views(items@)), found)]
            {
                let jobs = jobs_for(item_views(items@));
                &&& found.len() == jobs.len()
                &&& reports(output, jobs, found)
                &&& forall|j: int|
                    0 <= j < jobs.len() ==> asked(
                        snapshot_of,
                        cache@,
                        jobs[j],
                        #[trigger] found[j],
                    )
            },
        output.results@.len() == items@.len(),
{
    let ghost all = jobs_for(item_views(items@));
    proof {
        every_item_is_a_target(item_views(items@));
        told_by_earlier_jobs(all);
    }
    let mut jobs = deduplicate_git_refresh_items(items, cache);
    let ghost total = jobs@;
    let mut output: WorkspaceGitRefreshOutput<S, C> = WorkspaceGitRefreshOutput::new();
    let ghost mut found: Seq<(S, Option<C>)> = Seq::empty();
    proof {
        assert(all.len() == total.len());
        assert(output.cache_updates@.map_values(|update: (PathBytes, C)| (update.0@, update.1))
            =~= noted(all.take(0), found));
        assert(total.skip(0) =~= total);
        assert(reports(output, all.take(0), found));
    }
    while jobs.len() > 0
        invariant
            forall|path: &PathBytes, cached: Option<&C>| snapshot_of.requires((path, cached)),
            found.len() + jobs@.len() == total.len(),
            all.len() == total.len(),
            all == total.map_values(|job: WorkspaceGitRefreshJob<'_, C>| job@),
            jobs@ == total.skip(found.len() as int),
            forall|j: int|
                0 <= j < total.len() ==> match (#[trigger] total[j]).cached {
                    Some(entry) => cached_entry(cache@, total[j].cache_key@) == Some(*entry),
                    None => cached_entry(cache@, total[j].cache_key@) is None,
                },
            reports(output, all.take(found.len() as int), found),
            forall|j: int|
                0 <= j < found.len() ==> asked(snapshot_of, cache@, all[j], #[trigger] found[j]),
        decreases jobs@.len(),
    {
        let ghost n = found.len() as int;
        let job = jobs.remove(0);
        assert(job == total[n]);
        assert(all[n] == job@);
        let (snapshot, cache_entry) = snapshot_of(&job.status_cwd, job.cached);
        let ghost before = output;
        let ghost view = job@;
        proof {
            assert(asked(snapshot_of, cache@, view, (snapshot, cache_entry)));
        }
        output.add_job(job, snapshot, cache_entry);
        proof {
            report_grows(before, output, all.take(n), found, view, snapshot, cache_entry);
            assert(all.take(n + 1) =~= all.take(n).push(view));
            found = found.push((snapshot, cache_entry));
            assert(jobs@ =~= total.skip(n + 1));
        }
    }
    proof {
        assert(all.take(found.len() as int) =~= all);
    }
    output
}

/// Each repository is asked about once.
pub proof fn one_job_for_each_repository(items: Seq<ItemView>, i: int, j: int)
    requires
        0 <= i < j < jobs_for(items).len(),
    ensures
        jobs_for(items)[i].key != jobs_for(items)[j].key,
{
    distinct_keys_are_the_keys(items);
}

proof fn total_of_update(jobs: Seq<JobView>, j: int, job: JobView)
    requires
        0 <= j < jobs.len(),
    ensures
        total_targets(jobs.update(j, job)) + jobs[j].targets.len() == total_targets(jobs)
            + job.targets.len(),
    decreases jobs.len(),
{
    if j == jobs.len() - 1 {
        assert(jobs.update(j, job).drop_last() =~= jobs.drop_last());
    } else {
        assert(jobs.update(j, job).drop_last() =~= jobs.drop_last().update(j, job));
        total_of_update(jobs.drop_last(), j, job);
    }
}

/// Every workspace is told once: the jobs have as many targets as there are items.
pub proof fn every_item_is_a_target(items: Seq<ItemView>)
    ensures
        total_targets(jobs_for(items)) == items.len(),
    decreases items.len(),
{
    if items.len() == 0 {
        assert(jobs_for(items) =~= Seq::<JobView>::empty());
    } else {
        let front = items.drop_last();
        let item = items.last();
        let keys = distinct_keys(front);
        every_item_is_a_target(front);
        assert(items =~= front.push(item));
        if keys.contains(item.key) {
            let j = choose|j: int| 0 <= j < keys.len() && keys[j] == item.key;
            jobs_with_known_key(front, item, j);
            let job = JobView {
                targets: jobs_for(front)[j].targets.push(target_of(item)),
                ..jobs_for(front)[j]
            };
            total_of_update(jobs_for(front), j, job);
        } else {
            jobs_with_new_key(front, item);
            assert(jobs_for(items).drop_last() =~= jobs_for(front));
        }
    }
}

/// A workspace is a target of the job for its own repository.
pub proof fn item_is_told_by_its_job(items: Seq<ItemView>, i: int)
    requires
        0 <= i < items.len(),
    ensures
        exists|j: int|
            {
                &&& 0 <= j < jobs_for(items).len()
                &&& (#[trigger] jobs_for(items)[j]).key == items[i].key
                &&& jobs_for(items)[j].targets.contains(target_of(items[i]))
            },
{
    let key = items[i].key;
    let same_key = |item: ItemView| item.key == key;
    distinct_keys_are_the_keys(items);
    assert(distinct_keys(items).contains(key));
    let j = choose|j: int| 0 <= j < distinct_keys(items).len() && distinct_keys(items)[j] == key;
    filter_members(items, same_key);
    assert(items.contains(items[i]));
    assert(items.filter(same_key).contains(items[i]));
    let k = choose|k: int|
        0 <= k < items.filter(same_key).len() && items.filter(same_key)[k] == items[i];
    assert(jobs_for(items)[j].key == key);
    assert(jobs_for(items)[j].targets[k] == target_of(items[i]));
}

/// Repositories are asked about in the order in which they come up: where the workspace in
/// place `b` belongs to a repository, those that are asked about before it have come up in
/// places before `b`.
pub proof fn keys_come_in_order(items: Seq<ItemView>, i: int, j: int, b: int)
    requires
        0 <= i < j < distinct_keys(items).len(),
        0 <= b < items.len(),
        items[b].key == distinct_keys(items)[j],
    ensures
        exists|a: int| 0 <= a < b && (#[trigger] items[a]).key == distinct_keys(items)[i],
    decreases items.len(),
{
    let front = items.drop_last();
    let before = distinct_keys(front);
    let keys = distinct_keys(items);
    distinct_keys_are_the_keys(front);
    distinct_keys_are_the_keys(items);
    assert(keys[i] == before[i]);
    if b < front.len() {
        assert(front[b] == items[b]);
        assert(before.contains(front[b].key));
        if j >= before.len() {
            let m = choose|m: int| 0 <= m < before.len() && before[m] == front[b].key;
            assert(keys[m] == keys[j]);
        }
        assert(keys[j] == before[j]);
        keys_come_in_order(front, i, j, b);
        let a = choose|a: int| 0 <= a < b && (#[trigger] front[a]).key == before[i];
        assert(items[a].key == keys[i]);
    } else {
        assert(before.contains(before[i]));
        let a = choose|a: int| 0 <= a < front.len() && (#[trigger] front[a]).key == before[i];
        assert(items[a].key == keys[i]);
    }
}

/// The job for a key is about the place that the key names, and its targets are the
/// workspaces with that key, in their order and no others.
pub proof fn job_gathers_its_workspaces(items: Seq<ItemView>, item: ItemView, key: Seq<u8>)
    ensures
        job_for(items, key).key == key,
        job_for(items, key).status_cwd == key,
        job_for(Seq::empty(), key).targets.len() == 0,
        item.key == key ==> job_for(items.push(item), key).targets == job_for(
            items,
            key,
        ).targets.push(TargetView { workspace_id: item.workspace_id, cwd: item.cwd }),
        item.key != key ==> job_for(items.push(item), key).targets == job_for(items, key).targets,
        jobs_for(items).len() == distinct_keys(items).len(),
        forall|j: int|
            0 <= j < jobs_for(items).len() ==> #[trigger] jobs_for(items)[j] == job_for(
                items,
                distinct_keys(items)[j],
            ),
{
    let test = |i: ItemView| i.key == key;
    filter_push(items, item, test);
    reveal(Seq::filter);
    assert(Seq::<ItemView>::empty().filter(test).len() == 0);
    let target = |i: ItemView| target_of(i);
    if item.key == key {
        assert(job_for(items.push(item), key).targets =~= job_for(items, key).targets.push(
            target_of(item),
        ));
    }
}

/// Every workspace whose place is known is refreshed, in the order of the workspaces. Its
/// key is the repository there, or the place itself where there is none.
pub proof fn known_places_are_refreshed(locations: Seq<LocationView>, location: LocationView)
    ensures
        located_items(Seq::empty()).len() == 0,
        location.cwd is None ==> located_items(locations.push(location)) == located_items(locations),
        location.cwd matches Some(cwd) ==> located_items(locations.push(location)) == located_items(
            locations,
        ).push(
            ItemView {
                workspace_id: location.workspace_id,
                cwd,
                key: if location.git_key is Some {
                    location.git_key->0
                } else {
                    cwd
                },
            },
        ),
{
    let known = |l: LocationView| l.cwd is Some;
    filter_push(locations, location, known);
    reveal(Seq::filter);
    assert(Seq::<LocationView>::empty().filter(known).len() == 0);
    if location.cwd is Some {
        assert(located_items(locations.push(location)) =~= located_items(locations).push(
            located_item(location),
        ));
    }
}

/// Those who are told are the targets of the jobs, job after job, each by its own job.
pub proof fn targets_are_told_in_order(jobs: Seq<JobView>, j: int, t: int)
    ensures
        told(jobs).len() == total_targets(jobs),
        0 <= j < jobs.len() && 0 <= t < jobs[j].targets.len() ==> {
            let k = total_targets(jobs.take(j)) + t;
            &&& 0 <= k < told(jobs).len()
            &&& told(jobs)[k] == (j, jobs[j].targets[t])
        },
    decreases jobs.len(),
{
    if jobs.len() > 0 {
        let front = jobs.drop_last();
        targets_are_told_in_order(front, j, t);
        if 0 <= j < front.len() {
            assert(front.take(j) =~= jobs.take(j));
            assert(front[j] == jobs[j]);
        } else if j == front.len() {
            assert(jobs.take(j) =~= front);
        }
    }
}

/// What jobs found that is new to the cache is noted for it under their keys, job after
/// job, and nothing else is.
pub proof fn news_is_noted_in_order<S, C>(
    jobs: Seq<JobView>,
    found: Seq<(S, Option<C>)>,
    job: JobView,
    news: (S, Option<C>),
)
    requires
        jobs.len() == found.len(),
    ensures
        noted(Seq::empty(), found).len() == 0,
        news.1 is None ==> noted(jobs.push(job), found.push(news)) == noted(jobs, found),
        news.1 matches Some(entry) ==> noted(jobs.push(job), found.push(news)) == noted(
            jobs,
            found,
        ).push((job.key, entry)),
        total_targets(jobs.push(job)) == total_targets(jobs) + job.targets.len(),
        total_targets(Seq::empty()) == 0,
{
    let more = found.push(news);
    assert(jobs.push(job).drop_last() =~= jobs);
    assert(more.take(found.len() as int) =~= found);
    noted_of_prefix(jobs, found, more);
}

/// A report tells every target of every job, in order, of what that job found, and hands on
/// what is new to the cache.
pub proof fn report_reaches_every_target<S: Clone, C>(
    output: WorkspaceGitRefreshOutput<S, C>,
    jobs: Seq<JobView>,
    found: Seq<(S, Option<C>)>,
    j: int,
    t: int,
)
    requires
        reports(output, jobs, found),
        0 <= j < jobs.len(),
        0 <= t < jobs[j].targets.len(),
    ensures
        output.results@.len() == total_targets(jobs),
        ({
            let result = output.results@[total_targets(jobs.take(j)) + t];
            &&& result.workspace_id@ == jobs[j].targets[t].workspace_id
            &&& result.resolved_identity_cwd@ == jobs[j].targets[t].cwd
            &&& cloned(found[j].0, result.snapshot)
        }),
        output.cache_updates@.len() == noted(jobs, found).len(),
        forall|i: int|
            0 <= i < output.cache_updates@.len() ==> {
                &&& (#[trigger] output.cache_updates@[i]).0@ == noted(jobs, found)[i].0
                &&& output.cache_updates@[i].1 == noted(jobs, found)[i].1
            },
{
    targets_are_told_in_order(jobs, j, t);
    let k = total_targets(jobs.take(j)) + t;
    assert(output.results@[k].target() == told(jobs)[k].1);
    let pair = |update: (PathBytes, C)| (update.0@, update.1);
    assert forall|i: int| 0 <= i < output.cache_updates@.len() implies {
        &&& (#[trigger] output.cache_updates@[i]).0@ == noted(jobs, found)[i].0
        &&& output.cache_updates@[i].1 == noted(jobs, found)[i].1
    } by {
        assert(output.cache_updates@.map_values(pair)[i] == pair(output.cache_updates@[i]));
    }
}

/// A repository is asked about at its own place, with what the cache knows of its key: the
/// first entry that has it, in place `i`, or nothing if none has.
pub proof fn repository_is_asked_with_its_cache<
    S,
    C,
    F: Fn(&PathBytes, Option<&C>) -> (S, Option<C>),
>(snapshot_of: F, cache: Seq<(PathBytes, C)>, job: JobView, found: (S, Option<C>), i: int)
    requires
        asked(snapshot_of, cache, job, found),
    ensures
        exists|path: PathBytes, cached: Option<&C>|
            {
                &&& #[trigger] snapshot_of.ensures((&path, cached), found)
                &&& path@ == job.status_cwd
                &&& cached is None <==> forall|k: int|
                    0 <= k < cache.len() ==> (#[trigger] cache[k]).0@ != job.key
                &&& 0 <= i < cache.len() && cache[i].0@ == job.key && (forall|k: int|
                    0 <= k < i ==> (#[trigger] cache[k]).0@ != job.key) ==> cached is Some
                    && *(cached->0) == cache[i].1
            },
{
    cache_overlooks_nothing(cache, job.key);
    let (path, cached) = choose|path: PathBytes, cached: Option<&C>| #[trigger]
        snapshot_of.ensures((&path, cached), found) && path@ == job.status_cwd && match cached {
            Some(entry) => cached_entry(cache, job.key) == Some(*entry),
            None => cached_entry(cache, job.key) is None,
        };
    if 0 <= i < cache.len() && cache[i].0@ == job.key && (forall|k: int|
        0 <= k < i ==> (#[trigger] cache[k]).0@ != job.key) {
        cache_is_searched_whole(cache, job.key, i);
    }
    assert(snapshot_of.ensures((&path, cached), found));
}

/// Items and places are modelled as they are.
pub proof fn items_are_modelled_as_they_are(
    items: Seq<WorkspaceGitRefreshItem>,
    i: int,
    location: WorkspaceLocation,
)
    ensures
        item_views(items).len() == items.len(),
        0 <= i < items.len() ==> {
            &&& item_views(items)[i].workspace_id == items[i].workspace_id@
            &&& item_views(items)[i].cwd == items[i].resolved_identity_cwd@
            &&& item_views(items)[i].key == items[i].cache_key@
        },
        location@.workspace_id == location.workspace_id@,
        location@.cwd is None <==> location.cwd is None,
        location.cwd matches Some(cwd) ==> location@.cwd == Some(cwd@),
        location@.git_key is None <==> location.git_key is None,
        location.git_key matches Some(key) ==> location@.git_key == Some(key@),
{
}

} // verus!
