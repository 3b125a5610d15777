//! Provisioning the seed's agents: a machine that walks the seed entries
//! and says, after each outcome (a stored row looked up, a remote check, an
//! agent created, a row stored), what to do next, and which capabilities
//! ended up provisioned.

use vstd::prelude::*;
use crate::registry::{
    has_real_hashes, has_real_hashes_spec, provision_action, provision_action_spec, row_view, ProvisionAction,
    RowView, StarflaskAgent,
};
use crate::seed::{seeds_view, strings_view, AgentSeed, SeedView};
use crate::text::owned;

verus! {

/// Where provisioning stands.
#[derive(Clone, Copy, Debug, PartialEq, Eq, Structural)]
pub enum ProvisionStage {
    Start,
    /// Waiting for the stored row of the current entry's capability.
    LookingUp,
    /// Waiting to hear whether the stored row's agent still exists remotely.
    CheckingRemote,
    /// Waiting for a new agent to be created.
    Creating,
    /// Waiting for a new agent to be set up and its row stored.
    Storing,
    /// Waiting for the pack install on an existing agent to be done.
    Installing,
    /// Waiting for a provisioned agent to be announced.
    Announcing,
    Done,
}

/// What happened last.
pub enum ProvisionEvent {
    /// Go on: at the start, and once an install or announcement is done.
    Next,
    /// The stored row of the current capability, if any.
    RowLooked(Option<StarflaskAgent>),
    /// Whether the stored row's agent still exists remotely (`false` also
    /// when its id is not a UUID).
    RemoteChecked(bool),
    /// The id of the new agent, or `None` when it could not be created.
    Created(Option<String>),
    /// Whether the new agent's row could be stored.
    Stored(bool),
}

/// What to do next.
#[derive(Debug)]
pub enum ProvisionStep {
    /// Look up the stored row of this capability.
    Lookup { capability: String },
    /// Ask whether this agent still exists remotely.
    CheckRemote { agent_id: String },
    /// Delete the stored row of `delete_row` when given, then create an
    /// agent with this name.
    Create { delete_row: Option<String>, name: String },
    /// Install the pack on the existing agent (failures only warned of),
    /// set its description when one is given, store `row` and announce it
    /// as provisioned; then go on.
    InstallOnExisting {
        agent_id: String,
        capability: String,
        pack_hash: String,
        new_description: Option<String>,
        row: StarflaskAgent,
    },
    /// Assign the new agent to the project when there is one, set its
    /// description, install the pack (failures only warned of), then store
    /// `row` and tell whether that worked.
    SetUpNew {
        agent_id: String,
        project: Option<String>,
        capability: String,
        description: String,
        pack_hash: String,
        row: StarflaskAgent,
    },
    /// Announce the agent as provisioned under the capability; then go on.
    Announce { capability: String, agent_id: String, name: String },
    /// Done: the capabilities provisioned, in order.
    Finish(Vec<String>),
}

/// `ProvisionStep` with texts as character sequences.
pub enum ProvisionStepView {
    Lookup(Seq<char>),
    CheckRemote(Seq<char>),
    Create { delete_row: Option<Seq<char>>, name: Seq<char> },
    InstallOnExisting {
        agent_id: Seq<char>,
        capability: Seq<char>,
        pack_hash: Seq<char>,
        new_description: Option<Seq<char>>,
        row: RowView,
    },
    SetUpNew {
        agent_id: Seq<char>,
        project: Option<Seq<char>>,
        capability: Seq<char>,
        description: Seq<char>,
        pack_hash: Seq<char>,
        row: RowView,
    },
    Announce { capability: Seq<char>, agent_id: Seq<char>, name: Seq<char> },
    Finish(Seq<Seq<char>>),
}

/// The text of an optional string.
pub open spec fn opt_view(o: Option<String>) -> Option<Seq<char>> {
    match o {
        Some(s) => Some(s@),
        None => None,
    }
}

impl View for ProvisionStep {
    type V = ProvisionStepView;

    open spec fn view(&self) -> ProvisionStepView {
        match self {
            ProvisionStep::Lookup { capability } => ProvisionStepView::Lookup(capability@),
            ProvisionStep::CheckRemote { agent_id } => ProvisionStepView::CheckRemote(agent_id@),
            ProvisionStep::Create { delete_row, name } => ProvisionStepView::Create {
                delete_row: opt_view(*delete_row),
                name: name@,
            },
            ProvisionStep::InstallOnExisting { agent_id, capability, pack_hash, new_description, row } =>
                ProvisionStepView::InstallOnExisting {
                agent_id: agent_id@,
                capability: capability@,
                pack_hash: pack_hash@,
                new_description: opt_view(*new_description),
                row: row_view(*row),
            },
            ProvisionStep::SetUpNew { agent_id, project, capability, description, pack_hash, row } =>
                ProvisionStepView::SetUpNew {
                agent_id: agent_id@,
                project: opt_view(*project),
                capability: capability@,
                description: description@,
                pack_hash: pack_hash@,
                row: row_view(*row),
            },
            ProvisionStep::Announce { capability, agent_id, name } => ProvisionStepView::Announce {
                capability: capability@,
                agent_id: agent_id@,
                name: name@,
            },
            ProvisionStep::Finish(caps) => ProvisionStepView::Finish(strings_view(caps@)),
        }
    }
}

/// The row stored for a seed entry provisioned on an agent.
pub open spec fn provisioned_row(e: SeedView, agent_id: Seq<char>) -> RowView {
    RowView {
        capability: e.capability,
        agent_id,
        name: e.name,
        description: e.description,
        pack_hashes: seq![e.pack_hash],
        status: "provisioned"@,
    }
}

/// The state of a provisioning run over the seed's entries.
pub struct SeedProvisioning {
    pub seed: Vec<AgentSeed>,
    /// The project new agents are assigned to, when there is one.
    pub project: Option<String>,
    pub stage: ProvisionStage,
    /// The entry under way.
    pub index: usize,
    /// The stored row of the entry under way (while checking it remotely),
    /// or the row of the new agent (while storing it).
    pub row: Option<StarflaskAgent>,
    /// The capabilities provisioned so far, in order.
    pub provisioned: Vec<String>,
}

/// Events that can occur at a stage.
pub open spec fn provision_event_fits(stage: ProvisionStage, event: ProvisionEvent) -> bool {
    match stage {
        ProvisionStage::Start | ProvisionStage::Installing | ProvisionStage::Announcing => event is Next,
        ProvisionStage::LookingUp => event is RowLooked,
        ProvisionStage::CheckingRemote => event is RemoteChecked,
        ProvisionStage::Creating => event is Created,
        ProvisionStage::Storing => event is Stored,
        ProvisionStage::Done => false,
    }
}

impl SeedProvisioning {
    /// The run is coherent: an entry is under way at every stage but the
    /// first and the last, with its row where the stage needs one.
    pub open spec fn wf(&self) -> bool {
        &&& (self.stage != ProvisionStage::Start && self.stage != ProvisionStage::Done) ==> self.index
            < self.seed@.len()
        &&& (self.stage == ProvisionStage::CheckingRemote || self.stage == ProvisionStage::Storing)
            ==> self.row is Some
    }

    /// Goes on with entry `j`, or finishes after the last one.
    pub open spec fn resumed_at(&self, old_seed: Seq<AgentSeed>, j: int, step: ProvisionStepView) -> bool {
        if j >= old_seed.len() {
            self.stage == ProvisionStage::Done && step == ProvisionStepView::Finish(strings_view(self.provisioned@))
        } else {
            &&& self.stage == ProvisionStage::LookingUp
            &&& self.index == j
            &&& step == ProvisionStepView::Lookup(old_seed[j].capability@)
        }
    }

    /// A run over the seed's entries that has not started.
    pub fn new(seed: Vec<AgentSeed>, project: Option<String>) -> (r: SeedProvisioning)
        ensures
            r.wf(),
            r.seed@ == seed@,
            r.project == project,
            r.stage == ProvisionStage::Start,
            r.provisioned@.len() == 0,
    {
        SeedProvisioning { seed, project, stage: ProvisionStage::Start, index: 0, row: None, provisioned: Vec::new() }
    }

    /// Starts entry `j`, or finishes after the last one.
    fn resume(&mut self, j: usize) -> (step: ProvisionStep)
        requires
            j <= old(self).seed@.len(),
        ensures
            final(self).seed == old(self).seed,
            final(self).project == old(self).project,
            final(self).provisioned == old(self).provisioned,
            final(self).row == old(self).row,
            final(self).wf(),
            final(self).resumed_at(old(self).seed@, j as int, step@),
    {
        if j < self.seed.len() {
            self.stage = ProvisionStage::LookingUp;
            self.index = j;
            ProvisionStep::Lookup { capability: self.seed[j].capability.clone() }
        } else {
            self.stage = ProvisionStage::Done;
            let mut caps: Vec<String> = Vec::new();
            let mut k: usize = 0;
            while k < self.provisioned.len()
                invariant
                    k <= self.provisioned@.len(),
                    caps@ == self.provisioned@.take(k as int),
                decreases self.provisioned@.len() - k,
            {
                caps.push(self.provisioned[k].clone());
                assert(caps@ =~= self.provisioned@.take(k + 1));
                k = k + 1;
            }
            assert(caps@ =~= self.provisioned@);
            ProvisionStep::Finish(caps)
        }
    }

    /// Takes the outcome of the last step and says what to do next.
    pub fn next(&mut self, event: ProvisionEvent) -> (step: ProvisionStep)
        requires
            old(self).wf(),
            provision_event_fits(old(self).stage, event),
        ensures
            final(self).wf(),
            final(self).seed == old(self).seed,
            final(self).project == old(self).project,
            ({
                let seed = old(self).seed@;
                let i = old(self).index as int;
                let e = seeds_view(seed)[i];
                let prov = strings_view(old(self).provisioned@);
                let now = strings_view(final(self).provisioned@);
                match (old(self).stage, event) {
                    (ProvisionStage::Start, ProvisionEvent::Next) => now == prov && if has_real_hashes_spec(
                        seeds_view(seed),
                    ) {
                        final(self).resumed_at(seed, 0, step@)
                    } else {
                        final(self).stage == ProvisionStage::Done && step@ == ProvisionStepView::Finish(prov)
                    },
                    (ProvisionStage::LookingUp, ProvisionEvent::RowLooked(found)) => now == prov && match found {
                        Some(r) => {
                            &&& final(self).stage == ProvisionStage::CheckingRemote
                            &&& final(self).index == old(self).index
                            &&& final(self).row == Some(r)
                            &&& step@ == ProvisionStepView::CheckRemote(r.agent_id@)
                        },
                        None => {
                            &&& final(self).stage == ProvisionStage::Creating
                            &&& final(self).index == old(self).index
                            &&& step@ == ProvisionStepView::Create { delete_row: None, name: e.name }
                        },
                    },
                    (ProvisionStage::CheckingRemote, ProvisionEvent::RemoteChecked(exists)) => {
                        let r = old(self).row->Some_0;
                        match provision_action_spec(Some(r), exists) {
                            ProvisionAction::Skip => now == prov && final(self).resumed_at(seed, i + 1, step@),
                            ProvisionAction::ReplaceGhost => {
                                &&& now == prov
                                &&& final(self).stage == ProvisionStage::Creating
                                &&& final(self).index == old(self).index
                                &&& step@ == ProvisionStepView::Create {
                                    delete_row: Some(e.capability),
                                    name: e.name,
                                }
                            },
                            ProvisionAction::InstallOnExisting { set_description } => {
                                &&& now == prov.push(e.capability)
                                &&& final(self).stage == ProvisionStage::Installing
                                &&& final(self).index == old(self).index
                                &&& step@ == ProvisionStepView::InstallOnExisting {
                                    agent_id: r.agent_id@,
                                    capability: e.capability,
                                    pack_hash: e.pack_hash,
                                    new_description: if set_description {
                                        Some(e.description)
                                    } else {
                                        None
                                    },
                                    row: provisioned_row(e, r.agent_id@),
                                }
                            },
                            ProvisionAction::Create => false,
                        }
                    },
                    (ProvisionStage::Creating, ProvisionEvent::Created(id)) => now == prov && match id {
                        Some(a) => {
                            &&& final(self).stage == ProvisionStage::Storing
                            &&& final(self).index == old(self).index
                            &&& final(self).row is Some
                            &&& row_view(final(self).row->Some_0) == provisioned_row(e, a@)
                            &&& step@ == ProvisionStepView::SetUpNew {
                                agent_id: a@,
                                project: opt_view(old(self).project),
                                capability: e.capability,
                                description: e.description,
                                pack_hash: e.pack_hash,
                                row: provisioned_row(e, a@),
                            }
                        },
                        None => final(self).resumed_at(seed, i + 1, step@),
                    },
                    (ProvisionStage::Storing, ProvisionEvent::Stored(ok)) => if ok {
                        let a = old(self).row->Some_0.agent_id@;
                        &&& now == prov.push(e.capability)
                        &&& final(self).stage == ProvisionStage::Announcing
                        &&& final(self).index == old(self).index
                        &&& step@ == ProvisionStepView::Announce { capability: e.capability, agent_id: a, name: e.name }
                    } else {
                        now == prov && final(self).resumed_at(seed, i + 1, step@)
                    },
                    (ProvisionStage::Installing, ProvisionEvent::Next) | (
                        ProvisionStage::Announcing,
                        ProvisionEvent::Next,
                    ) => now == prov && final(self).resumed_at(seed, i + 1, step@),
                    _ => false,
                }
            }),
    {
        let ghost prov0 = self.provisioned@;
        match event {
            ProvisionEvent::Next => {
                if self.stage == ProvisionStage::Start {
                    if has_real_hashes(&self.seed) {
                        self.resume(0)
                    } else {
                        let n = self.seed.len();
                        self.resume(n)
                    }
                } else {
                    let n = self.seed.len();
                    assert(self.index < n);
                    let j = self.index + 1;
                    self.resume(j)
                }
            },
            ProvisionEvent::RowLooked(found) => {
                let i = self.index;
                match found {
                    Some(r) => {
                        let id = r.agent_id.clone();
                        self.stage = ProvisionStage::CheckingRemote;
                        self.row = Some(r);
                        ProvisionStep::CheckRemote { agent_id: id }
                    },
                    None => {
                        self.stage = ProvisionStage::Creating;
                        ProvisionStep::Create { delete_row: None, name: self.seed[i].name.clone() }
                    },
                }
            },
            ProvisionEvent::RemoteChecked(exists) => {
                let i = self.index;
                let n = self.seed.len();
                assert(i < n);
                let ghost e = seeds_view(self.seed@)[i as int];
                assert(e == self.seed@[i as int]@);
                let action = match &self.row {
                    Some(r) => provision_action(Some(r), exists),
                    None => ProvisionAction::Create,
                };
                match action {
                    ProvisionAction::Skip => self.resume(i + 1),
                    ProvisionAction::ReplaceGhost => {
                        self.stage = ProvisionStage::Creating;
                        ProvisionStep::Create {
                            delete_row: Some(self.seed[i].capability.clone()),
                            name: self.seed[i].name.clone(),
                        }
                    },
                    ProvisionAction::InstallOnExisting { set_description } => {
                        let agent_id = match &self.row {
                            Some(r) => r.agent_id.clone(),
                            None => String::new(),
                        };
                        let row = self.seed_row(i, agent_id.clone());
                        self.provisioned.push(self.seed[i].capability.clone());
                        proof {
                            assert(strings_view(self.provisioned@) =~= strings_view(prov0).push(e.capability));
                        }
                        self.stage = ProvisionStage::Installing;
                        let new_description = if set_description {
                            Some(self.seed[i].description.clone())
                        } else {
                            None
                        };
                        ProvisionStep::InstallOnExisting {
                            agent_id,
                            capability: self.seed[i].capability.clone(),
                            pack_hash: self.seed[i].pack_hash.clone(),
                            new_description,
                            row,
                        }
                    },
                    ProvisionAction::Create => {
                        self.stage = ProvisionStage::Creating;
                        ProvisionStep::Create { delete_row: None, name: self.seed[i].name.clone() }
                    },
                }
            },
            ProvisionEvent::Created(id) => {
                let i = self.index;
                let n = self.seed.len();
                assert(i < n);
                match id {
                    Some(a) => {
                        let row = self.seed_row(i, a.clone());
                        let step_row = self.seed_row(i, a.clone());
                        self.stage = ProvisionStage::Storing;
                        self.row = Some(row);
                        let project = match &self.project {
                            Some(p) => Some(p.clone()),
                            None => None,
                        };
                        ProvisionStep::SetUpNew {
                            agent_id: a,
                            project,
                            capability: self.seed[i].capability.clone(),
                            description: self.seed[i].description.clone(),
                            pack_hash: self.seed[i].pack_hash.clone(),
                            row: step_row,
                        }
                    },
                    None => self.resume(i + 1),
                }
            },
            ProvisionEvent::Stored(ok) => {
                let i = self.index;
                let n = self.seed.len();
                assert(i < n);
                if ok {
                    let ghost e = seeds_view(self.seed@)[i as int];
                    assert(e == self.seed@[i as int]@);
                    self.provisioned.push(self.seed[i].capability.clone());
                    proof {
                        assert(strings_view(self.provisioned@) =~= strings_view(prov0).push(e.capability));
                    }
                    self.stage = ProvisionStage::Announcing;
                    let agent_id = match &self.row {
                        Some(r) => r.agent_id.clone(),
                        None => String::new(),
                    };
                    ProvisionStep::Announce {
                        capability: self.seed[i].capability.clone(),
                        agent_id,
                        name: self.seed[i].name.clone(),
                    }
                } else {
                    self.resume(i + 1)
                }
            },
        }
    }

    /// The row stored for entry `i` provisioned on `agent_id`.
    fn seed_row(&self, i: usize, agent_id: String) -> (r: StarflaskAgent)
        requires
            i < self.seed@.len(),
        ensures
            row_view(r) == provisioned_row(self.seed@[i as int]@, agent_id@),
    {
        let mut hashes: Vec<String> = Vec::new();
        hashes.push(self.seed[i].pack_hash.clone());
        let r = StarflaskAgent {
            capability: self.seed[i].capability.clone(),
            agent_id,
            name: self.seed[i].name.clone(),
            description: self.seed[i].description.clone(),
            pack_hashes: hashes,
            status: owned("provisioned"),
        };
        assert(strings_view(r.pack_hashes@) =~= seq![self.seed@[i as int].pack_hash@]);
        r
    }
}

} // verus!
