//! Observations of the files that runs produce.
use crate::text::same_text;
use vstd::prelude::*;

verus! {

/// Identity of one artifact.
#[derive(Clone, Copy, Debug, PartialEq, Eq, Structural)]
pub struct ArtifactId(pub u64);

/// What is known of an artifact's file.
#[derive(Clone, Copy, Debug, PartialEq, Eq, Structural)]
pub enum ArtifactStatus {
    Available,
    Missing,
    Superseded,
}

/// One artifact, as far as observations concern it.
#[derive(Debug)]
pub struct ArtifactRecord {
    pub kind: u8,
    pub path: String,
    pub digest: String,
    pub size: u64,
    pub status: ArtifactStatus,
}

/// What the runtime saw of a file.
#[derive(Debug)]
pub struct ArtifactObservation {
    pub kind: u8,
    pub path: String,
    pub digest: String,
    pub size: u64,
}

/// What an observation changes.
#[derive(Clone, Copy, Debug, PartialEq, Eq, Structural)]
pub enum ArtifactChange {
    Nothing,
    /// The file is gone.
    Missing,
    /// The file has other contents, or is back.
    Refreshed,
}

/// What an observation changes. A superseded artifact, or one of a Project that
/// is gone, is left alone; so is one for which the observation is of another
/// file.
pub open spec fn observed_change(
    current: ArtifactRecord,
    project_open: bool,
    observation: Option<ArtifactObservation>,
    missing: bool,
) -> ArtifactChange {
    if current.status == ArtifactStatus::Superseded || !project_open {
        ArtifactChange::Nothing
    } else if missing {
        if current.status == ArtifactStatus::Missing {
            ArtifactChange::Nothing
        } else {
            ArtifactChange::Missing
        }
    } else {
        match observation {
            Some(seen) => if seen.path@ != current.path@ || seen.kind != current.kind {
                ArtifactChange::Nothing
            } else if current.status != ArtifactStatus::Available || current.digest@
                != seen.digest@ || current.size != seen.size {
                ArtifactChange::Refreshed
            } else {
                ArtifactChange::Nothing
            },
            None => ArtifactChange::Nothing,
        }
    }
}

/// Decide what an observation changes.
pub fn apply_artifact_observation(
    current: &ArtifactRecord,
    project_open: bool,
    observation: &Option<ArtifactObservation>,
    missing: bool,
) -> (change: ArtifactChange)
    ensures
        change == observed_change(*current, project_open, *observation, missing),
{
    if current.status == ArtifactStatus::Superseded || !project_open {
        return ArtifactChange::Nothing;
    }
    if missing {
        if current.status == ArtifactStatus::Missing {
            return ArtifactChange::Nothing;
        }
        return ArtifactChange::Missing;
    }
    match observation {
        Some(seen) => {
            if !same_text(seen.path.as_str(), current.path.as_str()) || seen.kind != current.kind {
                ArtifactChange::Nothing
            } else if current.status != ArtifactStatus::Available || !same_text(
                current.digest.as_str(),
                seen.digest.as_str(),
            ) || current.size != seen.size {
                ArtifactChange::Refreshed
            } else {
                ArtifactChange::Nothing
            }
        },
        None => ArtifactChange::Nothing,
    }
}

/// Observations under way. One artifact is observed by one request at a time;
/// what changes meanwhile is observed once more.
#[derive(Debug)]
pub struct ObservationQueue {
    pub pending: Vec<ArtifactId>,
    pub dirty: Vec<ArtifactId>,
}

/// `list` without `id`.
pub open spec fn without(list: Seq<ArtifactId>, id: ArtifactId) -> Seq<ArtifactId>
    decreases list.len(),
{
    if list.len() == 0 {
        list
    } else if list.last() == id {
        without(list.drop_last(), id)
    } else {
        without(list.drop_last(), id).push(list.last())
    }
}

proof fn lemma_without(list: Seq<ArtifactId>, id: ArtifactId)
    ensures
        forall|q: ArtifactId| #[trigger]
            without(list, id).contains(q) <==> list.contains(q) && q != id,
    decreases list.len(),
{
    if list.len() > 0 {
        let head = list.drop_last();
        let out = without(list, id);
        let rest = without(head, id);
        lemma_without(head, id);
        assert forall|q: ArtifactId| #[trigger] out.contains(q) <==> list.contains(q) && q != id by {
            if list.contains(q) && q != id {
                let k = choose|k: int| 0 <= k < list.len() && list[k] == q;
                if k < head.len() {
                    assert(head[k] == q);
                    assert(rest.contains(q));
                    let m = choose|m: int| 0 <= m < rest.len() && rest[m] == q;
                    assert(out[m] == q);
                } else {
                    assert(out[out.len() - 1] == q);
                }
            }
            if out.contains(q) {
                let k = choose|k: int| 0 <= k < out.len() && out[k] == q;
                if k < rest.len() {
                    assert(rest[k] == q);
                    assert(rest.contains(q));
                    let m = choose|m: int| 0 <= m < head.len() && head[m] == q;
                    assert(list[m] == q);
                } else {
                    assert(list[list.len() - 1] == q);
                }
            }
        }
    }
}

fn has_id(list: &Vec<ArtifactId>, id: ArtifactId) -> (found: bool)
    ensures
        found == list@.contains(id),
{
    let mut i: usize = 0;
    while i < list.len()
        invariant
            i <= list@.len(),
            forall|j: int| 0 <= j < i ==> list@[j] != id,
        decreases list@.len() - i,
    {
        if list[i] == id {
            assert(list@.contains(list@[i as int]));
            return true;
        }
        i += 1;
    }
    false
}

fn remove_id(list: &mut Vec<ArtifactId>, id: ArtifactId) -> (found: bool)
    ensures
        found == old(list)@.contains(id),
        final(list)@ == without(old(list)@, id),
{
    let found = has_id(list, id);
    let mut kept: Vec<ArtifactId> = Vec::new();
    let mut i: usize = 0;
    assert(list@.take(0) =~= Seq::<ArtifactId>::empty());
    while i < list.len()
        invariant
            i <= list@.len(),
            list@ == old(list)@,
            kept@ == without(list@.take(i as int), id),
        decreases list@.len() - i,
    {
        assert(list@.take(i + 1).drop_last() =~= list@.take(i as int));
        if list[i] != id {
            kept.push(list[i]);
        }
        i += 1;
    }
    assert(list@.take(i as int) =~= list@);
    *list = kept;
    found
}

impl ObservationQueue {
    /// Only what is being observed can have changed meanwhile.
    pub open spec fn wf(self) -> bool {
        forall|id: ArtifactId| #[trigger]
            self.dirty@.contains(id) ==> self.pending@.contains(id)
    }

    pub fn new() -> (queue: ObservationQueue)
        ensures
            queue.wf(),
            queue.pending@.len() == 0,
            queue.dirty@.len() == 0,
    {
        ObservationQueue { pending: Vec::new(), dirty: Vec::new() }
    }

    /// Ask for an observation; whether to send the request. While one is under
    /// way, the change is remembered instead.
    pub fn request(&mut self, id: ArtifactId) -> (send: bool)
        requires
            old(self).wf(),
        ensures
            final(self).wf(),
            send == !old(self).pending@.contains(id),
            final(self).pending@ == if send {
                old(self).pending@.push(id)
            } else {
                old(self).pending@
            },
            final(self).dirty@ == if send || old(self).dirty@.contains(id) {
                old(self).dirty@
            } else {
                old(self).dirty@.push(id)
            },
    {
        if has_id(&self.pending, id) {
            if !has_id(&self.dirty, id) {
                let ghost before = self.dirty@;
                self.dirty.push(id);
                assert forall|q: ArtifactId| #[trigger] self.dirty@.contains(q) implies
                    self.pending@.contains(q) by {
                    let k = choose|k: int| 0 <= k < self.dirty@.len() && self.dirty@[k] == q;
                    if k < before.len() {
                        assert(before[k] == q);
                        assert(before.contains(q));
                    }
                }
            }
            return false;
        }
        let ghost before = self.pending@;
        self.pending.push(id);
        assert forall|q: ArtifactId| #[trigger] self.dirty@.contains(q) implies
            self.pending@.contains(q) by {
            assert(before.contains(q));
            let k = choose|k: int| 0 <= k < before.len() && before[k] == q;
            assert(self.pending@[k] == q);
        }
        true
    }

    /// Take note that an observation arrived; whether the artifact changed
    /// meanwhile and is to be observed once more.
    pub fn finished(&mut self, id: ArtifactId) -> (again: bool)
        requires
            old(self).wf(),
        ensures
            final(self).wf(),
            again == old(self).dirty@.contains(id),
            final(self).pending@ == without(old(self).pending@, id),
            final(self).dirty@ == without(old(self).dirty@, id),
            !final(self).pending@.contains(id),
    {
        proof {
            lemma_without(self.pending@, id);
            lemma_without(self.dirty@, id);
        }
        remove_id(&mut self.pending, id);
        remove_id(&mut self.dirty, id)
    }
}

} // verus!
