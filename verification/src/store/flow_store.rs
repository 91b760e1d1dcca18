//! The flow executions in flight.
use crate::store::text_map::TextMap;
use vstd::prelude::*;

verus! {

/// TTL for a flow execution before it's swept as expired (seconds).
pub const FLOW_TTL_SECS: u64 = 600;

/// Lifecycle state of a single flow execution.
#[derive(Debug, Clone, Copy, PartialEq, Eq, Structural)]
pub enum FlowStatus {
    /// Waiting for the next user input (a screen is shown).
    Waiting,
    /// Flow finished successfully (auth minted).
    Completed,
    /// Flow terminated with an error.
    Failed,
}

/// A single in-flight `sign-up-or-in-passwords` execution.
///
/// `step` tracks which of the two screens the runtime last rendered:
/// `1` = email screen (`signIn`), `2` = password screen (`signInPassword`).
#[derive(Debug)]
pub struct FlowExecution {
    pub execution_id: String,
    pub flow_id: String,
    pub status: FlowStatus,
    /// 1 = email screen, 2 = password screen.
    pub step: u8,
    pub screen_id: String,
    pub login_id: Option<String>,
    pub created_at: u64,
}

impl Clone for FlowExecution {
    fn clone(&self) -> (r: Self)
        ensures
            r == *self,
    {
        FlowExecution {
            execution_id: self.execution_id.clone(),
            flow_id: self.flow_id.clone(),
            status: self.status,
            step: self.step,
            screen_id: self.screen_id.clone(),
            login_id: match &self.login_id {
                Some(login_id) => Some(login_id.clone()),
                None => None,
            },
            created_at: self.created_at,
        }
    }
}

/// In-memory store of flow executions, keyed by executionId.
pub struct FlowStore {
    execs: TextMap<FlowExecution>,
}

/// Whether an execution created at `created_at` is still alive at `now`.
pub open spec fn alive(created_at: u64, now: u64) -> bool {
    now - created_at < FLOW_TTL_SECS
}

/// The executions of `flows` that are still alive at `now`.
pub open spec fn living(flows: Map<Seq<char>, FlowExecution>, now: u64) -> Map<
    Seq<char>,
    FlowExecution,
> {
    flows.restrict(
        Set::new(|id: Seq<char>| flows.contains_key(id) && alive(flows[id].created_at, now)),
    )
}

/// Whether `after` is `before` moved on to the password screen with this login id.
pub open spec fn advanced(before: FlowExecution, after: FlowExecution, login_id: String) -> bool {
    &&& after.execution_id == before.execution_id
    &&& after.flow_id == before.flow_id
    &&& after.status == FlowStatus::Waiting
    &&& after.step == 2
    &&& after.screen_id@ == "signInPassword"@
    &&& after.login_id == Some(login_id)
    &&& after.created_at == before.created_at
}

impl View for FlowStore {
    type V = Map<Seq<char>, FlowExecution>;

    closed spec fn view(&self) -> Map<Seq<char>, FlowExecution> {
        self.execs@
    }
}

impl Default for FlowStore {
    fn default() -> (r: Self)
        ensures
            r.wf(),
            r@ == Map::<Seq<char>, FlowExecution>::empty(),
    {
        FlowStore { execs: TextMap::new() }
    }
}

impl FlowStore {
    /// Whether each key is there once.
    pub closed spec fn wf(self) -> bool {
        self.execs.wf()
    }

    /// A store without executions.
    pub fn new() -> (r: Self)
        ensures
            r.wf(),
            r@ == Map::<Seq<char>, FlowExecution>::empty(),
    {
        FlowStore::default()
    }

    /// Insert (or overwrite) a flow execution.
    pub fn insert(&mut self, exec: FlowExecution)
        requires
            old(self).wf(),
        ensures
            final(self).wf(),
            final(self)@ == old(self)@.insert(exec.execution_id@, exec),
            final(self)@ == with_execution(old(self)@, exec),
    {
        self.execs.insert(exec.execution_id.clone(), exec);
    }

    /// Non-destructive read of an execution.
    pub fn get(&self, id: &str) -> (r: Option<&FlowExecution>)
        requires
            self.wf(),
        ensures
            r == (if self@.contains_key(id@) {
                Some(&self@[id@])
            } else {
                None
            }),
            match r {
                Some(exec) => execution_at(self@, id@) == Some(*exec),
                None => execution_at(self@, id@) is None,
            },
    {
        self.execs.get(id)
    }

    /// Mutable access to an execution.
    pub fn get_mut(&mut self, id: &str) -> (r: Option<&mut FlowExecution>)
        requires
            old(self).wf(),
        ensures
            final(self).wf(),
            match r {
                Some(exec) => old(self)@.contains_key(id@) && *exec == old(self)@[id@]
                    && final(self)@ == old(self)@.insert(id@, *final(exec)),
                None => !old(self)@.contains_key(id@) && final(self)@ == old(self)@,
            },
    {
        self.execs.get_mut(id)
    }

    /// Advance an execution from the email screen to the password screen,
    /// recording the login_id the user submitted. No-op if the id is unknown.
    pub fn advance_to_password(&mut self, id: &str, login_id: String)
        requires
            old(self).wf(),
        ensures
            final(self).wf(),
            if old(self)@.contains_key(id@) {
                advanced(old(self)@[id@], final(self)@[id@], login_id) && final(self)@ == old(
                    self,
                )@.insert(id@, final(self)@[id@])
            } else {
                final(self)@ == old(self)@
            },
            advance_is(old(self)@, final(self)@, id@, login_id),
    {
        if let Some(exec) = self.get_mut(id) {
            exec.step = 2;
            exec.screen_id = "signInPassword".to_owned();
            exec.login_id = Some(login_id);
            exec.status = FlowStatus::Waiting;
        }
    }

    /// Mark an execution completed. No-op if the id is unknown.
    pub fn complete(&mut self, id: &str)
        requires
            old(self).wf(),
        ensures
            final(self).wf(),
            final(self)@ == with_status(old(self)@, id@, FlowStatus::Completed),
            finish_is(old(self)@, final(self)@, id@, true),
    {
        if let Some(exec) = self.get_mut(id) {
            exec.status = FlowStatus::Completed;
        }
    }

    /// Mark an execution failed. No-op if the id is unknown.
    pub fn fail(&mut self, id: &str)
        requires
            old(self).wf(),
        ensures
            final(self).wf(),
            final(self)@ == with_status(old(self)@, id@, FlowStatus::Failed),
            finish_is(old(self)@, final(self)@, id@, false),
    {
        if let Some(exec) = self.get_mut(id) {
            exec.status = FlowStatus::Failed;
        }
    }

    /// Clear all executions.
    pub fn reset(&mut self)
        ensures
            final(self).wf(),
            final(self)@ == Map::<Seq<char>, FlowExecution>::empty(),
            final(self)@ == no_executions(),
    {
        *self = FlowStore::new();
    }

    /// Drop executions older than the TTL relative to `now`.
    pub fn sweep_expired(&mut self, now: u64)
        requires
            old(self).wf(),
        ensures
            final(self).wf(),
            final(self)@ == living(old(self)@, now),
    {
        let ghost all = self.execs@;
        let mut rest = TextMap::new();
        std::mem::swap(&mut rest, &mut self.execs);
        let mut kept: TextMap<FlowExecution> = TextMap::new();
        loop
            invariant
                rest.wf(),
                kept.wf(),
                rest@.submap_of(all),
                kept@.submap_of(living(all, now)),
                forall|id: Seq<char>| #[trigger]
                    kept@.contains_key(id) ==> !rest@.contains_key(id),
                forall|id: Seq<char>|
                    living(all, now).contains_key(id) ==> #[trigger] kept@.contains_key(id)
                        || rest@.contains_key(id),
            ensures
                rest@ == Map::<Seq<char>, FlowExecution>::empty(),
            decreases rest.size(),
        {
            let ghost before = rest@;
            match rest.take_one() {
                Some((id, exec)) => {
                    assert(before.contains_key(id@));
                    assert(all.contains_key(id@));
                    if now.saturating_sub(exec.created_at) < FLOW_TTL_SECS {
                        assert(living(all, now).contains_key(id@));
                        kept.add_new(id, exec);
                    }
                },
                None => {
                    break;
                },
            }
        }
        assert(kept@ =~= living(all, now));
        self.execs = kept;
    }
}

/// The execution with this id, where there is one.
pub open spec fn execution_at(flows: Map<Seq<char>, FlowExecution>, id: Seq<char>) -> Option<
    FlowExecution,
> {
    if flows.contains_key(id) {
        Some(flows[id])
    } else {
        None
    }
}

/// `flows` with this execution under its id.
pub open spec fn with_execution(
    flows: Map<Seq<char>, FlowExecution>,
    exec: FlowExecution,
) -> Map<Seq<char>, FlowExecution> {
    flows.insert(exec.execution_id@, exec)
}

/// No executions.
pub open spec fn no_executions() -> Map<Seq<char>, FlowExecution> {
    Map::empty()
}

/// Whether `after` is `flows` with one execution moved on to the password screen, where it is
/// there.
pub open spec fn advance_is(
    flows: Map<Seq<char>, FlowExecution>,
    after: Map<Seq<char>, FlowExecution>,
    id: Seq<char>,
    login_id: String,
) -> bool {
    if flows.contains_key(id) {
        advanced(flows[id], after[id], login_id) && after == flows.insert(id, after[id])
    } else {
        after == flows
    }
}

/// `flows` with the status of one execution changed; unchanged where there is no such execution.
pub open spec fn with_status(
    flows: Map<Seq<char>, FlowExecution>,
    id: Seq<char>,
    status: FlowStatus,
) -> Map<Seq<char>, FlowExecution> {
    if flows.contains_key(id) {
        flows.insert(id, FlowExecution { status, ..flows[id] })
    } else {
        flows
    }
}

/// Whether `after` is `flows` with one execution completed, or failed, where it is there.
pub open spec fn finish_is(
    flows: Map<Seq<char>, FlowExecution>,
    after: Map<Seq<char>, FlowExecution>,
    id: Seq<char>,
    well: bool,
) -> bool {
    after == with_status(
        flows,
        id,
        if well {
            FlowStatus::Completed
        } else {
            FlowStatus::Failed
        },
    )
}

/// A swept store holds no execution that has expired, and sweeping it again at the same time
/// changes nothing.
pub proof fn law_sweep_is_complete(flows: Map<Seq<char>, FlowExecution>, now: u64)
    ensures
        forall|id: Seq<char>|
            living(flows, now).contains_key(id) ==> alive(
                (#[trigger] living(flows, now)[id]).created_at,
                now,
            ),
        living(living(flows, now), now) == living(flows, now),
{
    assert(living(living(flows, now), now) =~= living(flows, now));
}

/// Sweeping now and again later leaves what one sweep at the later time leaves.
pub proof fn law_sweeps_add_up(flows: Map<Seq<char>, FlowExecution>, now: u64, later: u64)
    requires
        now <= later,
    ensures
        living(living(flows, now), later) == living(flows, later),
{
    assert(living(living(flows, now), later) =~= living(flows, later));
}

/// An execution that has just been created survives every sweep for as long as its time to live.
pub proof fn law_fresh_executions_survive(
    flows: Map<Seq<char>, FlowExecution>,
    id: Seq<char>,
    now: u64,
)
    requires
        flows.contains_key(id),
        now < flows[id].created_at + FLOW_TTL_SECS,
    ensures
        living(flows, now).contains_key(id),
        living(flows, now)[id] == flows[id],
{
}

/// Completing or failing an execution changes nothing but its status, and no other execution.
pub proof fn law_status_changes_alone(
    flows: Map<Seq<char>, FlowExecution>,
    id: Seq<char>,
    status: FlowStatus,
    other: Seq<char>,
)
    ensures
        with_status(flows, id, status).dom() == flows.dom(),
        other != id && flows.contains_key(other) ==> with_status(flows, id, status)[other]
            == flows[other],
        flows.contains_key(id) ==> with_status(flows, id, status)[id].status == status
            && with_status(flows, id, status)[id].step == flows[id].step
            && with_status(flows, id, status)[id].screen_id == flows[id].screen_id
            && with_status(flows, id, status)[id].login_id == flows[id].login_id
            && with_status(flows, id, status)[id].created_at == flows[id].created_at
            && with_status(flows, id, status)[id].flow_id == flows[id].flow_id
            && with_status(flows, id, status)[id].execution_id == flows[id].execution_id,
{
    assert(with_status(flows, id, status).dom() =~= flows.dom());
}

/// Of all executions, a sweep keeps exactly those that were created less than ten minutes before,
/// or after, and keeps them as they are.
pub proof fn law_sweep_goes_by_age(
    flows: Map<Seq<char>, FlowExecution>,
    now: u64,
    id: Seq<char>,
)
    ensures
        living(flows, now).contains_key(id) <==> flows.contains_key(id) && now
            < flows[id].created_at + 600,
        living(flows, now).contains_key(id) ==> living(flows, now)[id] == flows[id],
{
}

/// Moving an execution on to the password screen records the login id, and changes nothing else of
/// it and no other execution; where there is no such execution, nothing changes.
pub proof fn law_advance_changes_one_execution(
    flows: Map<Seq<char>, FlowExecution>,
    after: Map<Seq<char>, FlowExecution>,
    id: Seq<char>,
    login_id: String,
    other: Seq<char>,
)
    requires
        advance_is(flows, after, id, login_id),
    ensures
        other != id ==> (after.contains_key(other) <==> flows.contains_key(other)),
        other != id && flows.contains_key(other) ==> after[other] == flows[other],
        after.contains_key(id) <==> flows.contains_key(id),
        flows.contains_key(id) ==> {
            &&& after[id].step == 2
            &&& after[id].screen_id@ == "signInPassword"@
            &&& after[id].login_id == Some(login_id)
            &&& after[id].status == FlowStatus::Waiting
            &&& after[id].created_at == flows[id].created_at
            &&& after[id].flow_id == flows[id].flow_id
            &&& after[id].execution_id == flows[id].execution_id
        },
        !flows.contains_key(id) ==> after == flows,
{
}

/// Completing an execution completes it whatever its status was, failing it fails it, and either
/// changes nothing else of it and no other execution; where there is none, nothing changes.
pub proof fn law_finish_changes_one_status(
    flows: Map<Seq<char>, FlowExecution>,
    after: Map<Seq<char>, FlowExecution>,
    id: Seq<char>,
    well: bool,
    other: Seq<char>,
)
    requires
        finish_is(flows, after, id, well),
    ensures
        flows.contains_key(id) && well ==> after[id] == (FlowExecution {
            status: FlowStatus::Completed,
            ..flows[id]
        }),
        flows.contains_key(id) && !well ==> after[id] == (FlowExecution {
            status: FlowStatus::Failed,
            ..flows[id]
        }),
        after.contains_key(other) <==> flows.contains_key(other),
        other != id && flows.contains_key(other) ==> after[other] == flows[other],
        !flows.contains_key(id) ==> after == flows,
{
}

/// An execution that was stored is read back as it was, whatever its status and whatever was there
/// before; every other one is read as before; and after a reset there is none.
pub proof fn law_stored_execution_is_read_back(
    flows: Map<Seq<char>, FlowExecution>,
    exec: FlowExecution,
    id: Seq<char>,
)
    ensures
        execution_at(with_execution(flows, exec), exec.execution_id@) == Some(exec),
        id != exec.execution_id@ ==> execution_at(with_execution(flows, exec), id) == execution_at(
            flows,
            id,
        ),
        execution_at(no_executions(), id) is None,
        execution_at(flows, id) is Some <==> flows.contains_key(id),
        flows.contains_key(id) ==> execution_at(flows, id) == Some(flows[id]),
{
}

} // verus!
