use vstd::prelude::*;

verus! {

/// A write of one component kind of one entity: `(entity, kind)`.
pub type WriteKey = (u64, u64);

/// The epoch of the last write of `(entity, kind)` in `log`, where the
/// `i`-th write of the log (from zero) happens at epoch `i + 1`; zero if the
/// log holds no such write.
pub open spec fn last_write(log: Seq<WriteKey>, entity: u64, kind: u64) -> nat
    decreases log.len(),
{
    if log.len() == 0 {
        0
    } else if log.last() == (entity, kind) {
        log.len()
    } else {
        last_write(log.drop_last(), entity, kind)
    }
}

/// Some write of `(entity, kind)` happened after the epoch `token`.
pub open spec fn written_since(log: Seq<WriteKey>, entity: u64, kind: u64, token: nat) -> bool {
    exists|i: int| token <= i < log.len() && #[trigger] log[i] == (entity, kind)
}

/// The epoch at which a component of an entity was last written.
#[derive(Clone, Copy, Debug, PartialEq, Eq, Structural)]
pub struct WriteRecord {
    pub entity: u64,
    pub kind: u64,
    pub epoch: u64,
}

/// The world's epoch counter together with the last write epoch of each
/// component of each entity. Its view is the log of all writes, oldest
/// first; the current epoch is the length of that log.
pub struct EpochTracker {
    epoch: u64,
    records: Vec<WriteRecord>,
    log: Ghost<Seq<WriteKey>>,
}

impl View for EpochTracker {
    type V = Seq<WriteKey>;

    closed spec fn view(&self) -> Seq<WriteKey> {
        self.log@
    }
}

proof fn lemma_last_write_push(log: Seq<WriteKey>, x: WriteKey, entity: u64, kind: u64)
    ensures
        last_write(log.push(x), entity, kind) == if x == (entity, kind) {
            log.len() + 1
        } else {
            last_write(log, entity, kind)
        },
{
    assert(log.push(x).drop_last() =~= log);
}

proof fn lemma_last_write_bound(log: Seq<WriteKey>, entity: u64, kind: u64)
    ensures
        last_write(log, entity, kind) <= log.len(),
        last_write(log, entity, kind) > 0 ==> log[last_write(log, entity, kind) - 1] == (entity, kind),
    decreases log.len(),
{
    if log.len() > 0 {
        lemma_last_write_bound(log.drop_last(), entity, kind);
    }
}

/// The last write epoch is past `token` exactly when some write came after
/// `token`.
proof fn lemma_last_write_since(log: Seq<WriteKey>, entity: u64, kind: u64, token: nat)
    ensures
        (last_write(log, entity, kind) > token) == written_since(log, entity, kind, token),
    decreases log.len(),
{
    if log.len() > 0 {
        let init = log.drop_last();
        lemma_last_write_since(init, entity, kind, token);
        lemma_last_write_bound(log, entity, kind);
        if last_write(log, entity, kind) > token {
            let i = last_write(log, entity, kind) - 1;
            assert(log[i] == (entity, kind));
        }
        if written_since(log, entity, kind, token) && log.last() != (entity, kind) {
            let i = choose|i: int| token <= i < log.len() && #[trigger] log[i] == (entity, kind);
            assert(init[i] == (entity, kind));
        }
        if written_since(init, entity, kind, token) {
            let i = choose|i: int| token <= i < init.len() && #[trigger] init[i] == (entity, kind);
            assert(log[i] == (entity, kind));
        }
    }
}

impl EpochTracker {
    pub closed spec fn wf(&self) -> bool {
        &&& self.epoch == self.log@.len()
        &&& forall|i: int|
            0 <= i < self.records@.len() ==> {
                let r = #[trigger] self.records@[i];
                r.epoch == last_write(self.log@, r.entity, r.kind) && r.epoch > 0
            }
        &&& forall|i: int, j: int|
            0 <= i < j < self.records@.len() ==> (#[trigger] self.records@[i].entity != #[trigger] self.records@[j].entity
                || self.records@[i].kind != self.records@[j].kind)
        &&& forall|e: u64, k: u64|
            #[trigger] last_write(self.log@, e, k) > 0 ==> exists|i: int|
                0 <= i < self.records@.len() && #[trigger] self.records@[i].entity == e && self.records@[i].kind
                    == k
    }

    pub fn new() -> (r: EpochTracker)
        ensures
            r.wf(),
            r@ == Seq::<WriteKey>::empty(),
    {
        EpochTracker { epoch: 0, records: Vec::new(), log: Ghost(Seq::empty()) }
    }

    /// The current epoch: the number of writes so far. It is the token a
    /// flow captures before it sleeps.
    pub fn current_epoch(&self) -> (r: u64)
        requires
            self.wf(),
        ensures
            r == self@.len(),
    {
        self.epoch
    }

    fn find(&self, entity: u64, kind: u64) -> (r: Option<usize>)
        requires
            self.wf(),
        ensures
            r is Some ==> r->0 < self.records@.len() && self.records@[r->0 as int].entity == entity
                && self.records@[r->0 as int].kind == kind,
            r is None ==> forall|i: int|
                0 <= i < self.records@.len() ==> !(#[trigger] self.records@[i].entity == entity
                    && self.records@[i].kind == kind),
    {
        let n = self.records.len();
        let mut i: usize = 0;
        while i < n
            invariant
                n == self.records@.len(),
                i <= n,
                forall|j: int|
                    0 <= j < i ==> !(#[trigger] self.records@[j].entity == entity && self.records@[j].kind
                        == kind),
            decreases n - i,
        {
            if self.records[i].entity == entity && self.records[i].kind == kind {
                return Some(i);
            }
            i += 1;
        }
        None
    }

    /// Records a write of component `kind` of `entity`, which opens a new
    /// epoch.
    pub fn record_write(&mut self, entity: u64, kind: u64)
        requires
            old(self).wf(),
            old(self)@.len() < u64::MAX,
        ensures
            final(self).wf(),
            final(self)@ == old(self)@.push((entity, kind)),
    {
        let ghost old_log = self.log@;
        let ghost old_records = self.records@;
        let found = self.find(entity, kind);
        self.epoch = self.epoch + 1;
        let ghost new_log = old_log.push((entity, kind));
        self.log = Ghost(new_log);
        let rec = WriteRecord { entity, kind, epoch: self.epoch };
        match found {
            Some(j) => {
                self.records.set(j, rec);
            },
            None => {
                self.records.push(rec);
            },
        }
        assert forall|i: int| 0 <= i < self.records@.len() implies {
            let r = #[trigger] self.records@[i];
            r.epoch == last_write(self.log@, r.entity, r.kind) && r.epoch > 0
        } by {
            let r = self.records@[i];
            lemma_last_write_push(old_log, (entity, kind), r.entity, r.kind);
            if i < old_records.len() && r != rec {
                assert(r == old_records[i]);
            }
        }
        assert forall|e: u64, k: u64| #[trigger] last_write(self.log@, e, k) > 0 implies exists|i: int|
            0 <= i < self.records@.len() && #[trigger] self.records@[i].entity == e && self.records@[i].kind
                == k by {
            lemma_last_write_push(old_log, (entity, kind), e, k);
            if (e, k) == (entity, kind) {
                match found {
                    Some(j) => {
                        assert(self.records@[j as int].entity == e);
                    },
                    None => {
                        assert(self.records@[old_records.len() as int].entity == e);
                    },
                }
            } else {
                let i = choose|i: int|
                    0 <= i < old_records.len() && #[trigger] old_records[i].entity == e && old_records[i].kind
                        == k;
                assert(self.records@[i] == old_records[i]);
                assert(self.records@[i].entity == e);
            }
        }
    }

    /// Whether component `kind` of `entity` was written after the epoch
    /// `token`, however many times.
    pub fn was_modified_since(&self, entity: u64, kind: u64, token: u64) -> (r: bool)
        requires
            self.wf(),
        ensures
            r == written_since(self@, entity, kind, token as nat),
    {
        proof {
            lemma_last_write_since(self.log@, entity, kind, token as nat);
        }
        match self.find(entity, kind) {
            Some(j) => self.records[j].epoch > token,
            None => false,
        }
    }
}

/// Whether a write of `(entity, kind)` came after `token` depends only on
/// whether one did: further writes of it, or writes of anything else, after
/// the first one change nothing. A token taken at the end of `log` sees
/// exactly the writes that follow it.
pub proof fn lemma_modified_since_is_not_a_count(
    log: Seq<WriteKey>,
    later: Seq<WriteKey>,
    entity: u64,
    kind: u64,
    token: nat,
)
    requires
        token <= log.len(),
    ensures
        written_since(log + later, entity, kind, token) == (written_since(log, entity, kind, token)
            || later.contains((entity, kind))),
        written_since(log + later, entity, kind, log.len()) == later.contains((entity, kind)),
{
    let all = log + later;
    if written_since(all, entity, kind, token) {
        let i = choose|i: int| token <= i < all.len() && #[trigger] all[i] == (entity, kind);
        if i < log.len() {
            assert(log[i] == (entity, kind));
        } else {
            assert(later[i - log.len()] == (entity, kind));
        }
    }
    if written_since(log, entity, kind, token) {
        let i = choose|i: int| token <= i < log.len() && #[trigger] log[i] == (entity, kind);
        assert(all[i] == (entity, kind));
    }
    if later.contains((entity, kind)) {
        let i = choose|i: int| 0 <= i < later.len() && later[i] == (entity, kind);
        assert(all[log.len() + i] == (entity, kind));
    }
    if written_since(all, entity, kind, log.len()) {
        let i = choose|i: int| log.len() <= i < all.len() && #[trigger] all[i] == (entity, kind);
        assert(later[i - log.len()] == (entity, kind));
    }
}

/// What a flow needs to commit a deferred action: the entity and component
/// kind the action rests on, the epoch when it was requested, and a copy of
/// the data taken then.
pub struct CausalityGuard<T> {
    pub entity: u64,
    pub kind: u64,
    pub token: u64,
    pub snapshot: T,
}

impl<T> CausalityGuard<T> {
    /// Captures the current epoch together with `snapshot`.
    pub fn capture(tracker: &EpochTracker, entity: u64, kind: u64, snapshot: T) -> (r: CausalityGuard<T>)
        requires
            tracker.wf(),
        ensures
            r.entity == entity,
            r.kind == kind,
            r.token == tracker@.len(),
            r.snapshot == snapshot,
    {
        let token = tracker.current_epoch();
        CausalityGuard { entity, kind, token, snapshot }
    }

    /// The snapshot, if the entity still exists and the component was not
    /// written since the capture; nothing otherwise, and the action is
    /// dropped.
    pub fn commit(self, tracker: &EpochTracker, entity_alive: bool) -> (r: Option<T>)
        requires
            tracker.wf(),
        ensures
            r == if entity_alive && !written_since(tracker@, self.entity, self.kind, self.token as nat) {
                Some(self.snapshot)
            } else {
                None
            },
    {
        if entity_alive && !tracker.was_modified_since(self.entity, self.kind, self.token) {
            Some(self.snapshot)
        } else {
            None
        }
    }
}

} // verus!
