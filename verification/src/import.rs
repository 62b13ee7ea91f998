//! Deciding, row by row, what a measurement import does when a timestamp
//! is already taken.
use vstd::prelude::*;

use crate::text::push_str;

verus! {

/// What to do when an imported row's timestamp already exists.
#[derive(Debug, Clone, Copy, PartialEq, Eq)]
pub enum DuplicateStrategy {
    /// Reject the whole import (the default). A repeated timestamp is taken
    /// for a likely mistake rather than a second measurement in the same
    /// millisecond.
    Error,
    /// Skip colliding rows, insert the rest.
    Skip,
    /// Overwrite existing rows with the imported values.
    Update,
}

/// What happens to one imported row.
#[derive(Debug, Clone, Copy, PartialEq, Eq)]
pub enum ImportAction {
    /// Insert it as a new measurement.
    Insert,
    /// Leave it out; a measurement with its timestamp exists.
    Skip,
    /// Overwrite the measurement that has its timestamp.
    Update,
}

/// How many rows an import inserted, skipped and updated.
#[derive(Debug, Clone, Copy, PartialEq, Eq)]
pub struct ImportOutcome {
    pub inserted: u64,
    pub skipped: u64,
    pub updated: u64,
}

/// The row (0-based) that collided, and its timestamp.
#[derive(Debug, Clone)]
pub struct DuplicateTimestamp {
    pub index: usize,
    pub timestamp: String,
}

/// The texts of a sequence of strings.
pub open spec fn texts(v: Seq<String>) -> Seq<Seq<char>> {
    v.map_values(|s: String| s@)
}

/// The planner's state after some rows: the timestamps taken so far, the
/// actions decided, and the first colliding row under `Error`, if any.
pub type PlanState = (Set<Seq<char>>, Seq<ImportAction>, Option<nat>);

/// One row of the planner: a taken timestamp stops the plan under `Error`
/// and is skipped or updated under the other strategies; a new one is
/// inserted and taken from then on.
pub open spec fn plan_step(st: PlanState, index: nat, ts: Seq<char>, strategy: DuplicateStrategy) -> PlanState {
    if st.2 is Some {
        st
    } else if st.0.contains(ts) {
        match strategy {
            DuplicateStrategy::Error => (st.0, st.1, Some(index)),
            DuplicateStrategy::Skip => (st.0, st.1.push(ImportAction::Skip), None),
            DuplicateStrategy::Update => (st.0, st.1.push(ImportAction::Update), None),
        }
    } else {
        (st.0.insert(ts), st.1.push(ImportAction::Insert), None)
    }
}

/// The planner run over `rows` (their timestamps) against the timestamps
/// already stored.
pub open spec fn plan_run(rows: Seq<Seq<char>>, existing: Set<Seq<char>>, strategy: DuplicateStrategy) -> PlanState
    decreases rows.len(),
{
    if rows.len() == 0 {
        (existing, Seq::empty(), None)
    } else {
        plan_step(
            plan_run(rows.drop_last(), existing, strategy),
            (rows.len() - 1) as nat,
            rows.last(),
            strategy,
        )
    }
}

/// How often `a` occurs in `acts`.
pub open spec fn count_action(acts: Seq<ImportAction>, a: ImportAction) -> nat
    decreases acts.len(),
{
    if acts.len() == 0 {
        0
    } else {
        count_action(acts.drop_last(), a) + if acts.last() == a { 1nat } else { 0nat }
    }
}

/// The outcome of the actions decided.
pub open spec fn outcome_of(acts: Seq<ImportAction>) -> ImportOutcome {
    ImportOutcome {
        inserted: count_action(acts, ImportAction::Insert) as u64,
        skipped: count_action(acts, ImportAction::Skip) as u64,
        updated: count_action(acts, ImportAction::Update) as u64,
    }
}

fn contains_text(v: &Vec<String>, t: &String) -> (r: bool)
    ensures
        r == texts(v@).contains(t@),
{
    let mut i: usize = 0;
    while i < v.len()
        invariant
            i <= v.len(),
            forall|j: int| 0 <= j < i ==> v@[j]@ != t@,
        decreases v.len() - i,
    {
        if v[i] == *t {
            assert(texts(v@)[i as int] == t@);
            return true;
        }
        i = i + 1;
    }
    assert(!texts(v@).contains(t@)) by {
        if texts(v@).contains(t@) {
            let j = choose|j: int| 0 <= j < texts(v@).len() && texts(v@)[j] == t@;
            assert(v@[j]@ == t@);
        }
    }
    false
}

/// Decides what each imported row does, given the timestamps of the rows
/// (in file order) and those of the stored measurements. A timestamp counts
/// as taken if it is stored or belongs to an earlier inserted row. Under
/// `Error` the first collision refuses the whole import; under `Skip` and
/// `Update` collisions are skipped or overwrite, and the rest is inserted.
pub fn plan_import(rows: &Vec<String>, existing: &Vec<String>, strategy: DuplicateStrategy) -> (r:
    Result<(Vec<ImportAction>, ImportOutcome), DuplicateTimestamp>)
    requires
        rows.len() <= u64::MAX,
    ensures
        ({
            let st = plan_run(texts(rows@), texts(existing@).to_set(), strategy);
            match r {
                Ok((acts, outcome)) => st.2 is None && acts@ == st.1 && outcome == outcome_of(
                    st.1,
                ),
                Err(d) => st.2 == Some(d.index as nat) && d.index < rows.len() && d.timestamp@
                    == rows@[d.index as int]@,
            }
        }),
{
    // The timestamps already present, existing and planned: a set. vstd
    // specifies `HashSet` for keys whose hashing it knows to obey its model,
    // which `String`'s is not, so a list whose contents are read as a set
    // (`to_set`) holds it.
    let mut taken: Vec<String> = existing.clone();
    let mut acts: Vec<ImportAction> = Vec::new();
    let mut inserted: u64 = 0;
    let mut skipped: u64 = 0;
    let mut updated: u64 = 0;
    let mut i: usize = 0;
    proof {
        assert(texts(rows@).take(0) =~= Seq::<Seq<char>>::empty());
    }
    while i < rows.len()
        invariant
            i <= rows.len(),
            rows.len() <= u64::MAX,
            plan_run(texts(rows@).take(i as int), texts(existing@).to_set(), strategy) == (
                texts(taken@).to_set(),
                acts@,
                None::<nat>,
            ),
            acts@.len() == i,
            inserted == count_action(acts@, ImportAction::Insert),
            skipped == count_action(acts@, ImportAction::Skip),
            updated == count_action(acts@, ImportAction::Update),
            inserted + skipped + updated == i,
        decreases rows.len() - i,
    {
        let ghost before = acts@;
        let ghost taken_before = taken@;
        proof {
            let pre = texts(rows@).take(i + 1);
            assert(pre.drop_last() =~= texts(rows@).take(i as int));
            assert(pre.last() == rows@[i as int]@);
            assert(pre.len() - 1 == i);
        }
        let dup = contains_text(&taken, &rows[i]);
        if dup {
            match strategy {
                DuplicateStrategy::Error => {
                    proof {
                        lemma_plan_stops(texts(rows@), texts(existing@).to_set(), strategy, i as nat);
                    }
                    return Err(DuplicateTimestamp { index: i, timestamp: rows[i].clone() });
                },
                DuplicateStrategy::Skip => {
                    acts.push(ImportAction::Skip);
                    skipped = skipped + 1;
                },
                DuplicateStrategy::Update => {
                    acts.push(ImportAction::Update);
                    updated = updated + 1;
                },
            }
        } else {
            acts.push(ImportAction::Insert);
            inserted = inserted + 1;
            taken.push(rows[i].clone());
            proof {
                broadcast use vstd::seq_lib::group_seq_properties;
                assert(texts(taken@) =~= texts(taken_before).push(rows@[i as int]@));
                assert(texts(taken@).to_set() =~= texts(taken_before).to_set().insert(
                    rows@[i as int]@,
                ));
            }
        }
        proof {
            assert(acts@.drop_last() =~= before);
        }
        i = i + 1;
    }
    proof {
        assert(texts(rows@).take(rows.len() as int) =~= texts(rows@));
    }
    Ok((acts, ImportOutcome { inserted, skipped, updated }))
}

/// Once the planner has stopped at a collision it stays stopped.
proof fn lemma_plan_stops(rows: Seq<Seq<char>>, existing: Set<Seq<char>>, strategy: DuplicateStrategy, k: nat)
    requires
        k < rows.len(),
        plan_run(rows.take(k as int + 1), existing, strategy).2 == Some(k),
    ensures
        plan_run(rows, existing, strategy).2 == Some(k),
    decreases rows.len() - k,
{
    lemma_plan_stopped_prefix(rows, existing, strategy, k, rows.len() as int);
    assert(rows.take(rows.len() as int) =~= rows);
}

proof fn lemma_plan_stopped_prefix(rows: Seq<Seq<char>>, existing: Set<Seq<char>>, strategy: DuplicateStrategy, k: nat, n: int)
    requires
        k < n <= rows.len(),
        plan_run(rows.take(k as int + 1), existing, strategy).2 == Some(k),
    ensures
        plan_run(rows.take(n), existing, strategy).2 == Some(k),
    decreases n - k,
{
    if n > k + 1 {
        lemma_plan_stopped_prefix(rows, existing, strategy, k, n - 1);
        assert(rows.take(n).drop_last() =~= rows.take(n - 1));
    }
}

/// Some row before `i` was inserted with timestamp `x`.
pub open spec fn inserted_before(rows: Seq<Seq<char>>, acts: Seq<ImportAction>, i: int, x: Seq<char>) -> bool {
    exists|j: int| 0 <= j < i && acts[j] == ImportAction::Insert && #[trigger] rows[j] == x
}

/// What the planner keeps true of the rows it has decided.
pub open spec fn plan_invariant(rows: Seq<Seq<char>>, existing: Set<Seq<char>>, strategy: DuplicateStrategy, st: PlanState) -> bool {
    &&& st.1.len() == rows.len()
    &&& forall|x: Seq<char>| #[trigger] st.0.contains(x) <==> (existing.contains(x) || inserted_before(rows, st.1, rows.len() as int, x))
    &&& forall|i: int| 0 <= i < rows.len() ==> (#[trigger] st.1[i] == ImportAction::Insert <==> !(existing.contains(rows[i]) || inserted_before(rows, st.1, i, rows[i])))
    &&& forall|i: int| 0 <= i < rows.len() && #[trigger] st.1[i] != ImportAction::Insert ==> strategy != DuplicateStrategy::Error && (st.1[i] == ImportAction::Skip <==> strategy == DuplicateStrategy::Skip)
}

proof fn lemma_plan_invariant(rows: Seq<Seq<char>>, existing: Set<Seq<char>>, strategy: DuplicateStrategy)
    requires
        plan_run(rows, existing, strategy).2 is None,
    ensures
        plan_invariant(rows, existing, strategy, plan_run(rows, existing, strategy)),
    decreases rows.len(),
{
    if rows.len() > 0 {
        let pre = rows.drop_last();
        let st0 = plan_run(pre, existing, strategy);
        assert(st0.2 is None);
        lemma_plan_invariant(pre, existing, strategy);
        let st = plan_run(rows, existing, strategy);
        let n = pre.len() as int;
        let t = rows.last();
        assert(st.1.drop_last() =~= st0.1);
        assert forall|i: int| 0 <= i < n implies st.1[i] == st0.1[i] && rows[i] == pre[i] by {}
        assert forall|i: int, x: Seq<char>| 0 <= i <= n implies inserted_before(rows, st.1, i, x) == inserted_before(pre, st0.1, i, x) by {
            if inserted_before(rows, st.1, i, x) {
                let j = choose|j: int| 0 <= j < i && st.1[j] == ImportAction::Insert && #[trigger] rows[j] == x;
                assert(pre[j] == x);
            }
            if inserted_before(pre, st0.1, i, x) {
                let j = choose|j: int| 0 <= j < i && st0.1[j] == ImportAction::Insert && #[trigger] pre[j] == x;
                assert(rows[j] == x);
            }
        }
        assert forall|x: Seq<char>| #[trigger] st.0.contains(x) <==> (existing.contains(x) || inserted_before(rows, st.1, rows.len() as int, x)) by {
            if st.1[n] == ImportAction::Insert && x == t {
                assert(rows[n] == x);
            }
            if inserted_before(rows, st.1, rows.len() as int, x) {
                let j = choose|j: int| 0 <= j < rows.len() && st.1[j] == ImportAction::Insert && #[trigger] rows[j] == x;
                if j < n {
                    assert(inserted_before(pre, st0.1, n, x));
                }
            }
        }
        assert forall|i: int| 0 <= i < rows.len() implies (#[trigger] st.1[i] == ImportAction::Insert <==> !(existing.contains(rows[i]) || inserted_before(rows, st.1, i, rows[i]))) by {
            if i < n {
                assert(rows[i] == pre[i]);
            } else {
                assert(rows[i] == t);
            }
        }
    }
}

/// A completed plan decides every row, and the outcome counts them all:
/// inserted, skipped and updated add up to the number of rows.
pub proof fn law_import_accounts_for_every_row(rows: Seq<Seq<char>>, existing: Set<Seq<char>>, strategy: DuplicateStrategy)
    requires
        plan_run(rows, existing, strategy).2 is None,
    ensures
        ({
            let acts = plan_run(rows, existing, strategy).1;
            &&& acts.len() == rows.len()
            &&& count_action(acts, ImportAction::Insert) + count_action(acts, ImportAction::Skip)
                + count_action(acts, ImportAction::Update) == rows.len()
        }),
{
    lemma_plan_invariant(rows, existing, strategy);
    lemma_counts_add_up(plan_run(rows, existing, strategy).1);
}

proof fn lemma_counts_add_up(acts: Seq<ImportAction>)
    ensures
        count_action(acts, ImportAction::Insert) + count_action(acts, ImportAction::Skip)
            + count_action(acts, ImportAction::Update) == acts.len(),
    decreases acts.len(),
{
    if acts.len() > 0 {
        lemma_counts_add_up(acts.drop_last());
    }
}

/// An import never creates two measurements with one timestamp: the rows it
/// inserts have timestamps that were not stored and that differ from one
/// another.
pub proof fn law_import_keeps_timestamps_unique(rows: Seq<Seq<char>>, existing: Set<Seq<char>>, strategy: DuplicateStrategy)
    requires
        plan_run(rows, existing, strategy).2 is None,
    ensures
        ({
            let acts = plan_run(rows, existing, strategy).1;
            &&& forall|i: int| 0 <= i < rows.len() && acts[i] == ImportAction::Insert ==> !existing.contains(#[trigger] rows[i])
            &&& forall|i: int, j: int| 0 <= i < j < rows.len() && acts[i] == ImportAction::Insert && acts[j] == ImportAction::Insert ==> #[trigger] rows[i] != #[trigger] rows[j]
        }),
{
    lemma_plan_invariant(rows, existing, strategy);
    let acts = plan_run(rows, existing, strategy).1;
    assert forall|i: int, j: int| 0 <= i < j < rows.len() && acts[i] == ImportAction::Insert && acts[j] == ImportAction::Insert implies #[trigger] rows[i] != #[trigger] rows[j] by {
        if rows[i] == rows[j] {
            assert(inserted_before(rows, acts, j, rows[j]));
        }
    }
}

/// Timestamps that collide neither with stored ones nor with each other.
pub open spec fn collision_free(rows: Seq<Seq<char>>, existing: Set<Seq<char>>) -> bool {
    &&& forall|i: int| 0 <= i < rows.len() ==> !existing.contains(#[trigger] rows[i])
    &&& forall|i: int, j: int| 0 <= i < j < rows.len() ==> #[trigger] rows[i] != #[trigger] rows[j]
}

proof fn lemma_collision_free_inserts_all(rows: Seq<Seq<char>>, existing: Set<Seq<char>>, strategy: DuplicateStrategy)
    requires
        collision_free(rows, existing),
    ensures
        plan_run(rows, existing, strategy).2 is None,
        plan_run(rows, existing, strategy).1.len() == rows.len(),
        forall|i: int| 0 <= i < rows.len() ==> #[trigger] plan_run(rows, existing, strategy).1[i] == ImportAction::Insert,
        forall|x: Seq<char>| #[trigger] plan_run(rows, existing, strategy).0.contains(x) <==> (existing.contains(x) || rows.contains(x)),
    decreases rows.len(),
{
    if rows.len() > 0 {
        let pre = rows.drop_last();
        assert(collision_free(pre, existing)) by {
            assert forall|i: int, j: int| 0 <= i < j < pre.len() implies #[trigger] pre[i] != #[trigger] pre[j] by {
                assert(pre[i] == rows[i] && pre[j] == rows[j]);
            }
            assert forall|i: int| 0 <= i < pre.len() implies !existing.contains(#[trigger] pre[i]) by {
                assert(pre[i] == rows[i]);
            }
        }
        lemma_collision_free_inserts_all(pre, existing, strategy);
        let t = rows.last();
        let n = pre.len() as int;
        assert(!existing.contains(t)) by {
            assert(rows[n] == t);
        }
        assert(!pre.contains(t)) by {
            if pre.contains(t) {
                let j = choose|j: int| 0 <= j < pre.len() && pre[j] == t;
                assert(rows[j] == t && rows[n] == t);
            }
        }
        let st = plan_run(rows, existing, strategy);
        let st0 = plan_run(pre, existing, strategy);
        assert forall|i: int| 0 <= i < rows.len() implies #[trigger] st.1[i] == ImportAction::Insert by {
            if i < n {
                assert(st.1[i] == st0.1[i]);
            }
        }
        assert forall|x: Seq<char>| #[trigger] st.0.contains(x) <==> (existing.contains(x) || rows.contains(x)) by {
            if rows.contains(x) {
                let j = choose|j: int| 0 <= j < rows.len() && rows[j] == x;
                if j < n {
                    assert(pre[j] == x);
                }
            }
            if pre.contains(x) {
                let j = choose|j: int| 0 <= j < pre.len() && pre[j] == x;
                assert(rows[j] == x);
            }
        }
    }
}

/// With no collisions every strategy inserts every row; and the `Error`
/// strategy refuses an import exactly when some row collides with a stored
/// timestamp or with an earlier row.
pub proof fn law_import_error_exactly_on_collision(rows: Seq<Seq<char>>, existing: Set<Seq<char>>, strategy: DuplicateStrategy)
    ensures
        collision_free(rows, existing) ==> plan_run(rows, existing, strategy).2 is None && forall|i: int| 0 <= i < rows.len() ==> #[trigger] plan_run(rows, existing, strategy).1[i] == ImportAction::Insert,
        strategy == DuplicateStrategy::Error ==> (plan_run(rows, existing, strategy).2 is None <==> collision_free(rows, existing)),
{
    if collision_free(rows, existing) {
        lemma_collision_free_inserts_all(rows, existing, strategy);
    }
    if strategy == DuplicateStrategy::Error && plan_run(rows, existing, strategy).2 is None {
        lemma_plan_invariant(rows, existing, strategy);
        law_import_keeps_timestamps_unique(rows, existing, strategy);
        let acts = plan_run(rows, existing, strategy).1;
        assert forall|i: int| 0 <= i < rows.len() implies acts[i] == ImportAction::Insert by {
            if acts[i] != ImportAction::Insert {
                assert(strategy != DuplicateStrategy::Error);
            }
        }
    }
}

/// Under `Error` a refused import names its first collision: the rows
/// before it collide with nothing, and the named row collides with a stored
/// timestamp or with an earlier row.
pub proof fn law_refusal_names_first_collision(rows: Seq<Seq<char>>, existing: Set<Seq<char>>)
    requires
        plan_run(rows, existing, DuplicateStrategy::Error).2 is Some,
    ensures
        ({
            let k = plan_run(rows, existing, DuplicateStrategy::Error).2->0 as int;
            &&& 0 <= k < rows.len()
            &&& collision_free(rows.take(k), existing)
            &&& existing.contains(rows[k]) || exists|j: int| 0 <= j < k && #[trigger] rows[j] == rows[k]
        }),
    decreases rows.len(),
{
    let strategy = DuplicateStrategy::Error;
    let pre = rows.drop_last();
    let st0 = plan_run(pre, existing, strategy);
    if st0.2 is Some {
        law_refusal_names_first_collision(pre, existing);
        let k = st0.2->0 as int;
        assert(rows.take(k) =~= pre.take(k));
        assert(rows[k] == pre[k]);
        if !existing.contains(pre[k]) {
            let j = choose|j: int| 0 <= j < k && #[trigger] pre[j] == pre[k];
            assert(rows[j] == pre[j]);
        }
    } else {
        let n = pre.len() as int;
        law_import_error_exactly_on_collision(pre, existing, strategy);
        lemma_plan_invariant(pre, existing, strategy);
        assert(rows.take(n) =~= pre);
        let t = rows.last();
        assert(st0.0.contains(t));
        if !existing.contains(t) {
            assert(inserted_before(pre, st0.1, n, t));
            let j = choose|j: int| 0 <= j < n && st0.1[j] == ImportAction::Insert && #[trigger] pre[j] == t;
            assert(rows[j] == pre[j]);
        }
    }
}

impl DuplicateTimestamp {
    /// The message the command line prints for this collision.
    pub fn message(&self) -> (m: String)
        ensures
            m@ == "a measurement already exists at "@ + self.timestamp@
                + " (pass --on-duplicate skip or update to override)"@,
    {
        let mut m = String::new();
        push_str(&mut m, "a measurement already exists at ");
        push_str(&mut m, self.timestamp.as_str());
        push_str(&mut m, " (pass --on-duplicate skip or update to override)");
        m
    }
}

} // verus!
