//! Per-item-group orchestration. For each group the caller first asks whether
//! the destination already holds it; a group that is present, or whose fetch
//! succeeded and whose archive was written, has all its checksums merged and
//! advances progress, while a permanently failed group is taken off the
//! target. A sequential driver applies a whole run's outcomes; the caller may
//! process groups concurrently as long as each group's merge runs under the
//! index's exclusive lock.

use vstd::prelude::*;

use crate::collection::model_create;
use crate::collection::model_has;
use crate::collection::model_merge;
use crate::collection::model_wf;
use crate::collection::CollectionIndex;
use crate::collector::CollectionInfoBeatmapsets;
use crate::progress::ProgressTracker;
use crate::text::contains_seq;
use crate::text::dec_int;
use crate::text::i32_to_string;
use crate::text::str_contains;

verus! {

/// The checksums of a group's items, in order.
pub open spec fn group_checksums(g: CollectionInfoBeatmapsets) -> Seq<Seq<char>> {
    Seq::new(g.beatmaps@.len(), |i: int| g.beatmaps@[i].checksum@)
}

/// Some file name in the listing mentions the needle.
pub open spec fn spec_any_contains(names: Seq<Seq<char>>, needle: Seq<char>) -> bool {
    exists|i: int| 0 <= i < names.len() && contains_seq(names[i], needle)
}

/// Says whether the destination's file listing already holds an item group:
/// some file name mentions the group's identifier.
pub fn find_beatmap(names: &Vec<String>, id: i32) -> (r: Option<bool>)
    ensures
        r == if spec_any_contains(names.deep_view(), dec_int(id as int)) {
            Some(true)
        } else {
            None::<bool>
        },
{
    let needle = i32_to_string(id);
    let n = names.len();
    let mut i: usize = 0;
    while i < n
        invariant
            n == names@.len(),
            i <= n,
            needle@ == dec_int(id as int),
            forall|k: int| 0 <= k < i ==> !contains_seq(names.deep_view()[k], needle@),
        decreases n - i,
    {
        assert(names.deep_view()[i as int] == names@[i as int]@);
        if str_contains(names[i].as_str(), needle.as_str()) {
            assert(spec_any_contains(names.deep_view(), needle@));
            return Some(true);
        }
        i = i + 1;
    }
    None
}

/// What the name-sanitisation pass leaves of a file name; it depends on the
/// input characters alone.
pub uninterp spec fn sanitised_of(s: Seq<char>) -> Seq<char>;

/// Relies on sanitise_file_name::sanitise: rewrites a file name so every
/// file system accepts it.
#[verifier::external_body]
fn sanitise_name(s: &str) -> (r: String)
    ensures
        r@ == sanitised_of(s@),
{
    sanitise_file_name::sanitise(s)
}

/// The display name of one item group's archive: identifier, artist, title.
pub fn build_file_name(id: i32, artist: &str, title: &str) -> (r: String)
    ensures
        r@ == dec_int(id as int) + " "@ + artist@ + " - "@ + title@,
{
    let mut r = i32_to_string(id);
    r.append(" ");
    r.append(artist);
    r.append(" - ");
    r.append(title);
    r
}

/// Where one item group's archive lands: the sanitised display name, as an
/// `.osz` archive under the songs directory.
pub fn build_file_path(songs_path: &str, file_name: &str) -> (r: String)
    ensures
        r@ == songs_path@ + "/"@ + sanitised_of(file_name@) + ".osz"@,
{
    let mut r = String::from_str(songs_path);
    r.append("/");
    let safe = sanitise_name(file_name);
    r.append(safe.as_str());
    r.append(".osz");
    r
}

/// The index after every checksum of a list is merged, in order.
pub open spec fn model_merge_all(
    m: Seq<(Seq<char>, Seq<Seq<char>>)>,
    name: Seq<char>,
    cs: Seq<Seq<char>>,
) -> Seq<(Seq<char>, Seq<Seq<char>>)>
    decreases cs.len(),
{
    if cs.len() == 0 {
        m
    } else {
        model_merge_all(model_merge(m, name, cs[0]), name, cs.drop_first())
    }
}

/// Merging keeps every record's name in place, so well-formedness and every
/// name lookup survive a merge.
pub proof fn lemma_merge_keeps_names(
    m: Seq<(Seq<char>, Seq<Seq<char>>)>,
    name: Seq<char>,
    c: Seq<char>,
)
    requires
        model_wf(m),
    ensures
        model_wf(model_merge(m, name, c)),
        model_merge(m, name, c).len() == m.len(),
        forall|k: int|
            0 <= k < m.len() ==> #[trigger] model_merge(m, name, c)[k].0 == m[k].0,
{
    let m2 = model_merge(m, name, c);
    assert forall|k: int| 0 <= k < m.len() implies #[trigger] m2[k].0 == m[k].0 by {
        if model_has(m, name) {
            let i = crate::collection::model_idx(m, name);
            assert(0 <= i < m.len() && m[i].0 == name);
        }
    }
    crate::collection::lemma_merge_preserves_wf(m, name, c);
}

proof fn lemma_merge_target_contains(
    m: Seq<(Seq<char>, Seq<Seq<char>>)>,
    name: Seq<char>,
    c: Seq<char>,
)
    requires
        model_wf(m),
        model_has(m, name),
    ensures
        ({
            let m1 = model_merge(m, name, c);
            let i = crate::collection::model_idx(m, name);
            &&& crate::collection::model_idx(m1, name) == i
            &&& m1[i].1.contains(c)
            &&& forall|d: Seq<char>| #[trigger] m[i].1.contains(d) ==> m1[i].1.contains(d)
        }),
{
    let m1 = model_merge(m, name, c);
    let i = crate::collection::model_idx(m, name);
    assert(0 <= i < m.len() && m[i].0 == name);
    lemma_merge_keeps_names(m, name, c);
    crate::collection::lemma_idx_unique(m1, name, i);
    if !m[i].1.contains(c) {
        assert(m1[i].1 == m[i].1.push(c));
        assert(m1[i].1[m[i].1.len() as int] == c);
        assert(m1[i].1.contains(c));
        assert forall|d: Seq<char>| #[trigger] m[i].1.contains(d) implies m1[i].1.contains(d) by {
            let w = choose|w: int| 0 <= w < m[i].1.len() && m[i].1[w] == d;
            assert(m1[i].1[w] == d);
        }
    }
}

/// Merging a whole item group leaves its every checksum in the named record,
/// and loses none that the record already held: what a satisfied group
/// contributes to the index, whatever the other groups do.
pub proof fn lemma_merge_all_contains(
    m: Seq<(Seq<char>, Seq<Seq<char>>)>,
    name: Seq<char>,
    cs: Seq<Seq<char>>,
)
    requires
        model_wf(m),
        model_has(m, name),
    ensures
        ({
            let m2 = model_merge_all(m, name, cs);
            let i = crate::collection::model_idx(m, name);
            &&& model_wf(m2)
            &&& model_has(m2, name)
            &&& crate::collection::model_idx(m2, name) == i
            &&& forall|k: int| 0 <= k < cs.len() ==> m2[i].1.contains(#[trigger] cs[k])
            &&& forall|d: Seq<char>| #[trigger] m[i].1.contains(d) ==> m2[i].1.contains(d)
        }),
    decreases cs.len(),
{
    let i = crate::collection::model_idx(m, name);
    assert(0 <= i < m.len() && m[i].0 == name);
    if cs.len() > 0 {
        let m1 = model_merge(m, name, cs[0]);
        lemma_merge_keeps_names(m, name, cs[0]);
        lemma_merge_target_contains(m, name, cs[0]);
        assert(m1[i].0 == name);
        assert(model_has(m1, name));
        lemma_merge_all_contains(m1, name, cs.drop_first());
        let m2 = model_merge_all(m, name, cs);
        assert(m2 == model_merge_all(m1, name, cs.drop_first()));
        assert(m2[i].1.contains(cs[0]));
        assert forall|k: int| 0 <= k < cs.len() implies m2[i].1.contains(#[trigger] cs[k]) by {
            if k > 0 {
                assert(cs.drop_first()[k - 1] == cs[k]);
            }
        }
        assert forall|d: Seq<char>| #[trigger] m[i].1.contains(d) implies m2[i].1.contains(d) by {
            assert(m1[i].1.contains(d));
        }
    }
}

/// Every item of a run is counted exactly once: as satisfied or as abandoned.
pub proof fn lemma_outcome_items_conserved(
    groups: Seq<CollectionInfoBeatmapsets>,
    outcomes: Seq<GroupOutcome>,
)
    requires
        groups.len() == outcomes.len(),
    ensures
        satisfied_items(groups, outcomes) + abandoned_items(groups, outcomes) == total_items(
            groups,
        ),
    decreases groups.len(),
{
    if groups.len() > 0 {
        lemma_outcome_items_conserved(groups.drop_first(), outcomes.drop_first());
    }
}

/// Merges every checksum of an item group into the named collection, in the
/// group's order.
pub fn merge_group(index: &mut CollectionIndex, name: &str, group: &CollectionInfoBeatmapsets)
    requires
        old(index).wf(),
        model_has(old(index).model(), name@),
    ensures
        final(index).wf(),
        model_has(final(index).model(), name@),
        final(index).model() == model_merge_all(old(index).model(), name@, group_checksums(*group)),
{
    let ghost cs = group_checksums(*group);
    let n = group.beatmaps.len();
    let mut j: usize = 0;
    proof {
        assert(cs.skip(0) =~= cs);
    }
    while j < n
        invariant
            n == group.beatmaps@.len(),
            j <= n,
            cs == group_checksums(*group),
            index.wf(),
            model_has(index.model(), name@),
            model_merge_all(old(index).model(), name@, cs) == model_merge_all(
                index.model(),
                name@,
                cs.skip(j as int),
            ),
        decreases n - j,
    {
        let ghost m_before = index.model();
        assert(cs.skip(j as int)[0] == cs[j as int]);
        index.add_to_collection(name, group.beatmaps[j].checksum.as_str());
        proof {
            assert(cs[j as int] == group.beatmaps@[j as int].checksum@);
            lemma_merge_keeps_names(m_before, name@, cs[j as int]);
            let w = crate::collection::model_idx(m_before, name@);
            assert(0 <= w < m_before.len() && m_before[w].0 == name@);
            assert(index.model()[w].0 == name@);
            assert(model_has(index.model(), name@));
            assert(cs.skip(j as int).drop_first() =~= cs.skip(j + 1));
            assert(model_merge_all(m_before, name@, cs.skip(j as int)) == model_merge_all(
                index.model(),
                name@,
                cs.skip(j + 1),
            ));
        }
        j = j + 1;
    }
    proof {
        assert(cs.skip(n as int) =~= Seq::<Seq<char>>::empty());
    }
}

/// How one item group ended: its items are satisfied (already present
/// locally, or fetched and written), or the group failed permanently.
#[derive(Clone, Copy, PartialEq, Eq, Structural)]
pub enum GroupOutcome {
    Satisfied,
    Failed,
}

/// Processes one satisfied item group: the collection exists, every checksum
/// of the group is merged, and the group's items count as completed.
pub fn process_group_success(
    index: &mut CollectionIndex,
    progress: &mut ProgressTracker,
    name: &str,
    group: &CollectionInfoBeatmapsets,
)
    requires
        old(index).wf(),
        old(progress).wf(),
        old(progress).completed + group.beatmaps@.len() <= old(progress).target,
    ensures
        final(index).wf(),
        final(index).model() == model_merge_all(
            model_create(old(index).model(), name@),
            name@,
            group_checksums(*group),
        ),
        final(progress).wf(),
        final(progress).completed == old(progress).completed + group.beatmaps@.len(),
        final(progress).target == old(progress).target,
        final(progress).initial == old(progress).initial,
{
    let ghost m0 = index.model();
    index.create_collection(name);
    proof {
        if !model_has(m0, name@) {
            assert(index.model()[m0.len() as int].0 == name@);
        }
        assert(model_has(index.model(), name@));
    }
    merge_group(index, name, group);
    progress.advance(group.beatmaps.len() as u32);
}

/// Processes one permanently failed item group: the collection still exists,
/// nothing is merged, and the group's items leave the target.
pub fn process_group_failure(
    index: &mut CollectionIndex,
    progress: &mut ProgressTracker,
    name: &str,
    group: &CollectionInfoBeatmapsets,
)
    requires
        old(index).wf(),
        old(progress).wf(),
        old(progress).completed + group.beatmaps@.len() <= old(progress).target,
    ensures
        final(index).wf(),
        final(index).model() == model_create(old(index).model(), name@),
        final(progress).wf(),
        final(progress).completed == old(progress).completed,
        final(progress).target == old(progress).target - group.beatmaps@.len(),
        final(progress).initial == old(progress).initial,
{
    index.create_collection(name);
    progress.shrink_target(group.beatmaps.len() as u32);
}

/// How many items a run of groups holds in all.
pub open spec fn total_items(groups: Seq<CollectionInfoBeatmapsets>) -> int
    decreases groups.len(),
{
    if groups.len() == 0 {
        0
    } else {
        groups[0].beatmaps@.len() + total_items(groups.drop_first())
    }
}

proof fn lemma_total_items_nonneg(groups: Seq<CollectionInfoBeatmapsets>)
    ensures
        total_items(groups) >= 0,
    decreases groups.len(),
{
    if groups.len() > 0 {
        lemma_total_items_nonneg(groups.drop_first());
    }
}

/// How many items the satisfied groups hold.
pub open spec fn satisfied_items(
    groups: Seq<CollectionInfoBeatmapsets>,
    outcomes: Seq<GroupOutcome>,
) -> int
    decreases groups.len(),
{
    if groups.len() == 0 || outcomes.len() == 0 {
        0
    } else {
        (if outcomes[0] is Satisfied {
            groups[0].beatmaps@.len() as int
        } else {
            0
        }) + satisfied_items(groups.drop_first(), outcomes.drop_first())
    }
}

/// How many items the failed groups hold.
pub open spec fn abandoned_items(
    groups: Seq<CollectionInfoBeatmapsets>,
    outcomes: Seq<GroupOutcome>,
) -> int
    decreases groups.len(),
{
    if groups.len() == 0 || outcomes.len() == 0 {
        0
    } else {
        (if outcomes[0] is Failed {
            groups[0].beatmaps@.len() as int
        } else {
            0
        }) + abandoned_items(groups.drop_first(), outcomes.drop_first())
    }
}

/// The index a run leaves behind: per group, the collection is created, and a
/// satisfied group's checksums are merged.
pub open spec fn apply_outcomes(
    m: Seq<(Seq<char>, Seq<Seq<char>>)>,
    name: Seq<char>,
    groups: Seq<CollectionInfoBeatmapsets>,
    outcomes: Seq<GroupOutcome>,
) -> Seq<(Seq<char>, Seq<Seq<char>>)>
    decreases groups.len(),
{
    if groups.len() == 0 || outcomes.len() == 0 {
        m
    } else {
        let m1 = if outcomes[0] is Satisfied {
            model_merge_all(model_create(m, name), name, group_checksums(groups[0]))
        } else {
            model_create(m, name)
        };
        apply_outcomes(m1, name, groups.drop_first(), outcomes.drop_first())
    }
}

/// Drives a whole run over its item groups, one recorded outcome per group:
/// failures stay isolated to their group, completed counts rise exactly by
/// the satisfied groups' items, and the target falls exactly by the failed
/// groups' items.
pub fn run_groups(
    index: &mut CollectionIndex,
    progress: &mut ProgressTracker,
    name: &str,
    groups: &Vec<CollectionInfoBeatmapsets>,
    outcomes: &Vec<GroupOutcome>,
)
    requires
        old(index).wf(),
        old(progress).wf(),
        outcomes@.len() == groups@.len(),
        old(progress).completed + total_items(groups@) <= old(progress).target,
    ensures
        final(index).wf(),
        final(index).model() == apply_outcomes(
            old(index).model(),
            name@,
            groups@,
            outcomes@,
        ),
        final(progress).wf(),
        final(progress).completed == old(progress).completed + satisfied_items(
            groups@,
            outcomes@,
        ),
        final(progress).target == old(progress).target - abandoned_items(groups@, outcomes@),
        final(progress).initial == old(progress).initial,
{
    let n = groups.len();
    let mut j: usize = 0;
    proof {
        assert(groups@.skip(0) =~= groups@);
        assert(outcomes@.skip(0) =~= outcomes@);
    }
    while j < n
        invariant
            n == groups@.len(),
            outcomes@.len() == groups@.len(),
            j <= n,
            index.wf(),
            progress.wf(),
            progress.completed + total_items(groups@.skip(j as int)) <= progress.target,
            progress.initial == old(progress).initial,
            apply_outcomes(old(index).model(), name@, groups@, outcomes@) == apply_outcomes(
                index.model(),
                name@,
                groups@.skip(j as int),
                outcomes@.skip(j as int),
            ),
            old(progress).completed + satisfied_items(groups@, outcomes@) == progress.completed
                + satisfied_items(groups@.skip(j as int), outcomes@.skip(j as int)),
            old(progress).target - abandoned_items(groups@, outcomes@) == progress.target
                - abandoned_items(groups@.skip(j as int), outcomes@.skip(j as int)),
        decreases n - j,
    {
        let ghost gs = groups@.skip(j as int);
        let ghost os = outcomes@.skip(j as int);
        proof {
            assert(gs[0] == groups@[j as int]);
            assert(os[0] == outcomes@[j as int]);
            assert(gs.drop_first() =~= groups@.skip(j + 1));
            assert(os.drop_first() =~= outcomes@.skip(j + 1));
            lemma_total_items_nonneg(gs.drop_first());
        }
        let group = &groups[j];
        match outcomes[j] {
            GroupOutcome::Satisfied => {
                process_group_success(index, progress, name, group);
            },
            GroupOutcome::Failed => {
                process_group_failure(index, progress, name, group);
            },
        }
        j = j + 1;
    }
    proof {
        assert(groups@.skip(n as int) =~= Seq::<CollectionInfoBeatmapsets>::empty());
        assert(outcomes@.skip(n as int) =~= Seq::<GroupOutcome>::empty());
    }
}

} // verus!
