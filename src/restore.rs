use vstd::prelude::*;

use crate::events::InstanceId;
use crate::instance::GameInstance;
use crate::marker::{config_view, marker_spec, parse_marker, ConfigView, MarkerError};
use crate::registry::InstanceRegistry;

verus! {

/// The first instance directory whose marker file could not be read, and why.
#[derive(Debug, Clone, Copy, PartialEq, Eq, Structural)]
pub struct RestoreError {
    /// The directory's position in the listing.
    pub dir: usize,
    pub kind: MarkerError,
}

/// Whether the directory at `i` holds a marker file that reads well, or none.
pub open spec fn dir_ok(markers: Seq<Option<String>>, i: int) -> bool {
    match markers[i] {
        None => true,
        Some(t) => marker_spec(t@) is Ok,
    }
}

/// The configurations that a listing of instance directories restores,
/// by identifier; directories without a marker file are passed over, and a
/// later directory with the same identifier wins.
pub open spec fn restored_configs(markers: Seq<Option<String>>) -> Map<InstanceId, ConfigView>
    decreases markers.len(),
{
    if markers.len() == 0 {
        Map::empty()
    } else {
        let prev = restored_configs(markers.drop_last());
        match markers.last() {
            None => prev,
            Some(t) => match marker_spec(t@) {
                Ok(c) => prev.insert(c.0, c),
                Err(_) => prev,
            },
        }
    }
}

/// The number of directories that hold a marker file.
pub open spec fn marker_count(markers: Seq<Option<String>>) -> nat
    decreases markers.len(),
{
    if markers.len() == 0 {
        0
    } else {
        marker_count(markers.drop_last()) + if markers.last() is Some { 1nat } else { 0nat }
    }
}

/// The registry holds exactly the configurations `configs`, none running.
pub open spec fn registry_restores(reg: Map<InstanceId, GameInstance>, configs: Map<InstanceId, ConfigView>) -> bool {
    &&& reg.dom() == configs.dom()
    &&& forall|id: InstanceId| #[trigger] reg.contains_key(id) ==>
        config_view(reg[id].config_spec()) == configs[id] && !reg[id].running_spec()
        && reg[id] is Minecraft
}

/// Rebuilds the instances from the instance directories, given in listing
/// order as the text of each one's marker file (`None` where it has none).
/// The first marker file that cannot be read fails the whole pass.
pub fn restore_instances(markers: &Vec<Option<String>>) -> (r: Result<InstanceRegistry, RestoreError>)
    ensures
        r is Ok <==> forall|i: int| 0 <= i < markers@.len() ==> dir_ok(markers@, i),
        r matches Ok(reg) ==> reg.wf() && registry_restores(reg@, restored_configs(markers@)),
        r matches Err(e) ==> {
            &&& e.dir < markers@.len()
            &&& markers@[e.dir as int] matches Some(t) && marker_spec(t@) == Err::<ConfigView, MarkerError>(e.kind)
            &&& forall|j: int| 0 <= j < e.dir ==> dir_ok(markers@, j)
        },
{
    let mut reg = InstanceRegistry::new();
    let mut i: usize = 0;
    while i < markers.len()
        invariant
            i <= markers@.len(),
            reg.wf(),
            forall|j: int| 0 <= j < i ==> dir_ok(markers@, j),
            registry_restores(reg@, restored_configs(markers@.subrange(0, i as int))),
        decreases markers.len() - i,
    {
        proof {
            assert(markers@.subrange(0, i + 1).drop_last() =~= markers@.subrange(0, i as int));
        }
        match &markers[i] {
            None => {},
            Some(text) => {
                match parse_marker(text.as_str()) {
                    Err(kind) => {
                        proof {
                            assert(!dir_ok(markers@, i as int));
                        }
                        return Err(RestoreError { dir: i, kind });
                    },
                    Ok(config) => {
                        let g = GameInstance::restore_minecraft(config);
                        reg.insert(g);
                        proof {
                            let configs = restored_configs(markers@.subrange(0, i + 1));
                            assert(reg@.dom() =~= configs.dom());
                        }
                    },
                }
            },
        }
        i = i + 1;
    }
    proof {
        assert(markers@.subrange(0, markers@.len() as int) =~= markers@);
    }
    Ok(reg)
}

/// The identifiers of the configurations in `markers` differ from one another.
pub open spec fn ids_distinct(markers: Seq<Option<String>>) -> bool {
    forall|i: int, j: int|
        0 <= i < j < markers.len() && #[trigger] markers[i] is Some && #[trigger] markers[j] is Some
            ==> marker_spec(markers[i]->0@) is Ok && marker_spec(markers[j]->0@) is Ok
            ==> marker_spec(markers[i]->0@)->Ok_0.0 != marker_spec(markers[j]->0@)->Ok_0.0
}

/// Restoring N directories with readable marker files of distinct
/// identifiers, beside any number without one, restores exactly N instances,
/// one for each of those files.
pub proof fn lemma_restore_count(markers: Seq<Option<String>>)
    requires
        forall|i: int| 0 <= i < markers.len() ==> dir_ok(markers, i),
        ids_distinct(markers),
    ensures
        restored_configs(markers).dom().len() == marker_count(markers),
        restored_configs(markers).dom().finite(),
        forall|i: int| 0 <= i < markers.len() && #[trigger] markers[i] is Some ==>
            restored_configs(markers).contains_key(marker_spec(markers[i]->0@)->Ok_0.0)
                && restored_configs(markers)[marker_spec(markers[i]->0@)->Ok_0.0] == marker_spec(markers[i]->0@)->Ok_0,
    decreases markers.len(),
{
    if markers.len() > 0 {
        let prev = markers.drop_last();
        assert forall|i: int| 0 <= i < prev.len() implies dir_ok(prev, i) by {
            assert(dir_ok(markers, i));
            assert(prev[i] == markers[i]);
        }
        assert forall|i: int, j: int|
            0 <= i < j < prev.len() && #[trigger] prev[i] is Some && #[trigger] prev[j] is Some
                implies marker_spec(prev[i]->0@) is Ok && marker_spec(prev[j]->0@) is Ok
                ==> marker_spec(prev[i]->0@)->Ok_0.0 != marker_spec(prev[j]->0@)->Ok_0.0 by {
            assert(prev[i] == markers[i] && prev[j] == markers[j]);
        }
        lemma_restore_count(prev);
        let n = markers.len() - 1;
        assert(dir_ok(markers, n));
        match markers.last() {
            None => {
                assert forall|i: int| 0 <= i < markers.len() && #[trigger] markers[i] is Some implies
                    restored_configs(markers).contains_key(marker_spec(markers[i]->0@)->Ok_0.0)
                        && restored_configs(markers)[marker_spec(markers[i]->0@)->Ok_0.0] == marker_spec(markers[i]->0@)->Ok_0 by {
                    assert(i < n);
                    assert(prev[i] == markers[i]);
                }
            },
            Some(t) => {
                let c = marker_spec(t@)->Ok_0;
                assert(!restored_configs(prev).contains_key(c.0)) by {
                    if restored_configs(prev).contains_key(c.0) {
                        lemma_restored_from_some(prev, c.0);
                        let k = choose|k: int| 0 <= k < prev.len() && #[trigger] prev[k] is Some
                            && marker_spec(prev[k]->0@) is Ok && marker_spec(prev[k]->0@)->Ok_0.0 == c.0;
                        assert(markers[k] == prev[k]);
                        assert(markers[k] is Some && markers[n] is Some);
                    }
                }
                assert forall|i: int| 0 <= i < markers.len() && #[trigger] markers[i] is Some implies
                    restored_configs(markers).contains_key(marker_spec(markers[i]->0@)->Ok_0.0)
                        && restored_configs(markers)[marker_spec(markers[i]->0@)->Ok_0.0] == marker_spec(markers[i]->0@)->Ok_0 by {
                    if i < n {
                        assert(prev[i] == markers[i]);
                        assert(markers[n] is Some);
                    }
                }
            },
        }
    }
}

/// Every identifier restored comes from some directory's marker file.
proof fn lemma_restored_from_some(markers: Seq<Option<String>>, id: InstanceId)
    requires
        restored_configs(markers).contains_key(id),
    ensures
        exists|k: int| 0 <= k < markers.len() && #[trigger] markers[k] is Some
            && marker_spec(markers[k]->0@) is Ok && marker_spec(markers[k]->0@)->Ok_0.0 == id,
    decreases markers.len(),
{
    let prev = markers.drop_last();
    let n = markers.len() - 1;
    if restored_configs(prev).contains_key(id) {
        lemma_restored_from_some(prev, id);
        let k = choose|k: int| 0 <= k < prev.len() && #[trigger] prev[k] is Some
            && marker_spec(prev[k]->0@) is Ok && marker_spec(prev[k]->0@)->Ok_0.0 == id;
        assert(markers[k] == prev[k]);
    } else {
        assert(markers[n] is Some);
    }
}

/// A listing restores at most one configuration per directory.
pub proof fn lemma_restored_size(markers: Seq<Option<String>>)
    ensures
        restored_configs(markers).dom().finite(),
        restored_configs(markers).dom().len() <= markers.len(),
    decreases markers.len(),
{
    if markers.len() > 0 {
        lemma_restored_size(markers.drop_last());
    }
}

} // verus!
