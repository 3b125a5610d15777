//! The restore of a cloud backup on a fresh instance: a machine that says,
//! after each outcome, what to do next (check, fetch with back-off,
//! decrypt, restore) and what to record and announce when it ends.

use vstd::prelude::*;
use crate::json::{json_get_str, json_keys, lemma_assoc_get_distinct, Json};
use crate::protocol::{utc_now_rfc3339, GatewayEvent};
use crate::text::{chars_of, contains_seq, owned, push_str, str_contains, string_from};

verus! {

/// How many times the backup is fetched before giving up.
pub const MAX_RETRIES: u32 = 3;

/// The wait before the first retry, in seconds; it doubles each retry.
pub const INITIAL_BACKOFF_SECS: u64 = 2;

/// The wait before fetch attempt `attempt` (counting from 0).
pub open spec fn backoff_secs(attempt: u32) -> u64 {
    if attempt == 0 {
        0
    } else if attempt == 1 {
        2
    } else {
        4
    }
}

/// Where the restore stands.
#[derive(Clone, Copy, Debug, PartialEq, Eq, Structural)]
pub enum KeystoreStage {
    Begin,
    CheckingRetrieved,
    CheckingLocal,
    Fetching,
    AwaitingKey,
    Decrypting,
    Restoring,
    Done,
}

/// What happened last.
pub enum KeystoreEvent {
    /// The restore is started.
    Start,
    /// Whether this wallet's backup was already retrieved (`None`: the
    /// check failed).
    RetrievedChecked(Option<bool>),
    /// Whether local API keys exist.
    LocalChecked(bool),
    /// The fetch failed with this error.
    FetchFailed(String),
    /// The keystore answered with backup data.
    FetchedData,
    /// The keystore answered success without data.
    FetchedEmpty,
    /// The keystore refused, with its error when it gave one.
    FetchRefused(Option<String>),
    /// Whether the encryption key could be obtained.
    KeyObtained(bool),
    /// Whether the backup could be decrypted.
    Decrypted(bool),
    /// The restore succeeded: its summary and the number of API keys.
    Restored { summary: String, api_keys: usize },
    /// The restore failed with this error.
    RestoreFailed(String),
}

/// One thing to do when the restore ends.
#[derive(Debug)]
pub enum KeystoreAction {
    /// Mark the wallet's backup as retrieved.
    Mark,
    /// Record the auto-sync result.
    Record { status: String, message: String, api_keys: Option<i32> },
    /// Announce `system.keystore_<status>` with the message.
    Emit { status: String, message: String },
}

/// What to do next.
#[derive(Debug)]
pub enum KeystoreStep {
    CheckRetrieved,
    CheckLocal,
    /// Do these, wait this many seconds, then fetch the backup.
    Fetch { announce: Vec<KeystoreAction>, wait_secs: u64 },
    GetKey,
    Decrypt,
    Restore,
    /// Stop after doing these, in order.
    Finish(Vec<KeystoreAction>),
}

/// `KeystoreAction` with texts as character sequences.
pub enum ActionView {
    Mark,
    Record(Seq<char>, Seq<char>, Option<i32>),
    Emit(Seq<char>, Seq<char>),
}

/// `KeystoreStep` with texts as character sequences.
pub enum StepView {
    CheckRetrieved,
    CheckLocal,
    Fetch(Seq<ActionView>, u64),
    GetKey,
    Decrypt,
    Restore,
    Finish(Seq<ActionView>),
}

impl View for KeystoreAction {
    type V = ActionView;

    open spec fn view(&self) -> ActionView {
        match self {
            KeystoreAction::Mark => ActionView::Mark,
            KeystoreAction::Record { status, message, api_keys } => ActionView::Record(status@, message@, *api_keys),
            KeystoreAction::Emit { status, message } => ActionView::Emit(status@, message@),
        }
    }
}

impl View for KeystoreStep {
    type V = StepView;

    open spec fn view(&self) -> StepView {
        match self {
            KeystoreStep::CheckRetrieved => StepView::CheckRetrieved,
            KeystoreStep::CheckLocal => StepView::CheckLocal,
            KeystoreStep::Fetch { announce, wait_secs } => StepView::Fetch(
                announce@.map_values(|x: KeystoreAction| x@),
                *wait_secs,
            ),
            KeystoreStep::GetKey => StepView::GetKey,
            KeystoreStep::Decrypt => StepView::Decrypt,
            KeystoreStep::Restore => StepView::Restore,
            KeystoreStep::Finish(a) => StepView::Finish(a@.map_values(|x: KeystoreAction| x@)),
        }
    }
}

/// The state of a restore.
pub struct KeystoreRestore {
    pub stage: KeystoreStage,
    /// The fetch attempt under way (from 0).
    pub attempt: u32,
    /// The error of the last failed fetch.
    pub last_error: String,
}

/// Events that can occur at a stage.
pub open spec fn keystore_event_fits(stage: KeystoreStage, event: KeystoreEvent) -> bool {
    match stage {
        KeystoreStage::Begin => event is Start,
        KeystoreStage::CheckingRetrieved => event is RetrievedChecked,
        KeystoreStage::CheckingLocal => event is LocalChecked,
        KeystoreStage::Fetching => event is FetchFailed || event is FetchedData || event is FetchedEmpty
            || event is FetchRefused,
        KeystoreStage::AwaitingKey => event is KeyObtained,
        KeystoreStage::Decrypting => event is Decrypted,
        KeystoreStage::Restoring => event is Restored || event is RestoreFailed,
        KeystoreStage::Done => false,
    }
}

/// Mark, record and announce one outcome.
pub open spec fn mark_record_emit(status: Seq<char>, record: Seq<char>, emit: Seq<char>) -> Seq<ActionView> {
    seq![ActionView::Mark, ActionView::Record(status, record, None), ActionView::Emit(status, emit)]
}

/// The end after the last fetch attempt failed.
pub open spec fn gave_up(last_error: Seq<char>) -> Seq<ActionView> {
    mark_record_emit("error"@, "Auto-sync failed: "@ + last_error, "Auto-sync failed after 3 attempts"@)
}

/// The announcement that a fresh instance goes to fetch its backup.
pub open spec fn started() -> Seq<ActionView> {
    seq![ActionView::Emit("started"@, "Fresh instance detected, attempting cloud backup restore..."@)]
}

/// The keystore's refusal that means there is no backup at all.
pub open spec fn means_no_backup(e: Seq<char>) -> bool {
    contains_seq(e, "No backup found"@)
}

fn action_record(status: &str, message: String, api_keys: Option<i32>) -> (r: KeystoreAction)
    ensures
        r@ == ActionView::Record(status@, message@, api_keys),
{
    KeystoreAction::Record { status: owned(status), message, api_keys }
}

fn action_emit(status: &str, message: String) -> (r: KeystoreAction)
    ensures
        r@ == ActionView::Emit(status@, message@),
{
    KeystoreAction::Emit { status: owned(status), message }
}

fn finish3(status: &str, record: String, emit: String) -> (r: KeystoreStep)
    ensures
        r@ == StepView::Finish(mark_record_emit(status@, record@, emit@)),
{
    let mut v: Vec<KeystoreAction> = Vec::new();
    v.push(KeystoreAction::Mark);
    v.push(action_record(status, record, None));
    v.push(action_emit(status, emit));
    assert(v@.map_values(|x: KeystoreAction| x@) =~= mark_record_emit(status@, record@, emit@));
    KeystoreStep::Finish(v)
}

fn text_cat(a: &str, b: &str) -> (r: String)
    ensures
        r@ == a@ + b@,
{
    let mut v = chars_of(a);
    push_str(&mut v, b);
    string_from(v.as_slice())
}

impl KeystoreRestore {
    /// A restore that has not started.
    pub fn new() -> (r: KeystoreRestore)
        ensures
            r.stage == KeystoreStage::Begin,
            r.attempt == 0,
            r.last_error@.len() == 0,
    {
        KeystoreRestore { stage: KeystoreStage::Begin, attempt: 0, last_error: String::new() }
    }

    /// The next fetch, or giving up after the last attempt.
    fn retry(&mut self) -> (step: KeystoreStep)
        requires
            old(self).stage == KeystoreStage::Fetching,
            old(self).attempt < MAX_RETRIES,
        ensures
            final(self).last_error == old(self).last_error,
            if old(self).attempt + 1 < MAX_RETRIES {
                &&& final(self).stage == KeystoreStage::Fetching
                &&& final(self).attempt == old(self).attempt + 1
                &&& step@ == StepView::Fetch(Seq::empty(), backoff_secs((old(self).attempt + 1) as u32))
            } else {
                &&& final(self).stage == KeystoreStage::Done
                &&& final(self).attempt == old(self).attempt
                &&& step@ == StepView::Finish(gave_up(old(self).last_error@))
            },
    {
        if self.attempt + 1 < MAX_RETRIES {
            self.attempt = self.attempt + 1;
            let sh: u64 = (self.attempt - 1) as u64;
            let base: u64 = 1u64 << sh;
            proof {
                if sh == 0 {
                    assert((1u64 << 0u64) == 1) by (bit_vector);
                } else {
                    assert(sh == 1);
                    assert((1u64 << 1u64) == 2) by (bit_vector);
                }
            }
            let wait: u64 = INITIAL_BACKOFF_SECS * base;
            let announce: Vec<KeystoreAction> = Vec::new();
            assert(announce@.map_values(|x: KeystoreAction| x@) =~= Seq::<ActionView>::empty());
            KeystoreStep::Fetch { announce, wait_secs: wait }
        } else {
            self.stage = KeystoreStage::Done;
            let record = text_cat("Auto-sync failed: ", self.last_error.as_str());
            finish3("error", record, owned("Auto-sync failed after 3 attempts"))
        }
    }

    /// Takes the outcome of the last step and says what to do next.
    pub fn next(&mut self, event: KeystoreEvent) -> (step: KeystoreStep)
        requires
            keystore_event_fits(old(self).stage, event),
            old(self).stage == KeystoreStage::Fetching ==> old(self).attempt < MAX_RETRIES,
        ensures
            final(self).stage == KeystoreStage::Fetching ==> final(self).attempt < MAX_RETRIES,
            match (old(self).stage, event) {
                (KeystoreStage::Begin, KeystoreEvent::Start) => final(self).stage == KeystoreStage::CheckingRetrieved
                    && step@ == StepView::CheckRetrieved,
                (KeystoreStage::CheckingRetrieved, KeystoreEvent::RetrievedChecked(done)) => if done == Some(false) {
                    final(self).stage == KeystoreStage::CheckingLocal && step@ == StepView::CheckLocal
                } else {
                    final(self).stage == KeystoreStage::Done && step@ == StepView::Finish(Seq::empty())
                },
                (KeystoreStage::CheckingLocal, KeystoreEvent::LocalChecked(has_keys)) => if has_keys {
                    final(self).stage == KeystoreStage::Done && step@ == StepView::Finish(
                        mark_record_emit(
                            "skipped"@,
                            "Local state already exists"@,
                            "Local state already exists, skipping cloud restore"@,
                        ),
                    )
                } else {
                    final(self).stage == KeystoreStage::Fetching && final(self).attempt == 0 && step@
                        == StepView::Fetch(started(), 0)
                },
                (KeystoreStage::Fetching, KeystoreEvent::FetchedData) => final(self).stage == KeystoreStage::AwaitingKey
                    && step@ == StepView::GetKey,
                (KeystoreStage::Fetching, KeystoreEvent::FetchedEmpty) => final(self).stage == KeystoreStage::Done
                    && step@ == StepView::Finish(
                    mark_record_emit("no_backup"@, "No backup data found"@, "No cloud backup data found"@),
                ),
                (KeystoreStage::Fetching, _) => {
                    let err = match event {
                        KeystoreEvent::FetchFailed(e) => e@,
                        KeystoreEvent::FetchRefused(Some(e)) => e@,
                        _ => old(self).last_error@,
                    };
                    let no_backup = match event {
                        KeystoreEvent::FetchRefused(Some(e)) => means_no_backup(e@),
                        _ => false,
                    };
                    if no_backup {
                        final(self).stage == KeystoreStage::Done && step@ == StepView::Finish(
                            mark_record_emit("no_backup"@, "No cloud backup found"@, "No cloud backup found"@),
                        )
                    } else {
                        &&& final(self).last_error@ == err
                        &&& if old(self).attempt + 1 < MAX_RETRIES {
                            &&& final(self).stage == KeystoreStage::Fetching
                            &&& final(self).attempt == old(self).attempt + 1
                            &&& step@ == StepView::Fetch(Seq::empty(), backoff_secs((old(self).attempt + 1) as u32))
                        } else {
                            final(self).stage == KeystoreStage::Done && step@ == StepView::Finish(gave_up(err))
                        }
                    }
                },
                (KeystoreStage::AwaitingKey, KeystoreEvent::KeyObtained(ok)) => if ok {
                    final(self).stage == KeystoreStage::Decrypting && step@ == StepView::Decrypt
                } else {
                    final(self).stage == KeystoreStage::Done && step@ == StepView::Finish(seq![ActionView::Mark])
                },
                (KeystoreStage::Decrypting, KeystoreEvent::Decrypted(ok)) => if ok {
                    final(self).stage == KeystoreStage::Restoring && step@ == StepView::Restore
                } else {
                    final(self).stage == KeystoreStage::Done && step@ == StepView::Finish(seq![ActionView::Mark])
                },
                (KeystoreStage::Restoring, KeystoreEvent::Restored { summary, api_keys }) => final(self).stage
                    == KeystoreStage::Done && step@ == StepView::Finish(
                    seq![
                        ActionView::Record("success"@, summary@, Some(api_keys as i32)),
                        ActionView::Emit("success"@, "Cloud backup restored: "@ + summary@),
                        ActionView::Mark,
                    ],
                ),
                (KeystoreStage::Restoring, KeystoreEvent::RestoreFailed(e)) => final(self).stage
                    == KeystoreStage::Done && step@ == StepView::Finish(
                    seq![
                        ActionView::Record("error"@, "Restore failed: "@ + e@, None),
                        ActionView::Emit("error"@, "Restore failed: "@ + e@),
                        ActionView::Mark,
                    ],
                ),
                _ => false,
            },
    {
        match event {
            KeystoreEvent::Start => {
                self.stage = KeystoreStage::CheckingRetrieved;
                KeystoreStep::CheckRetrieved
            },
            KeystoreEvent::RetrievedChecked(done) => {
                if done == Some(false) {
                    self.stage = KeystoreStage::CheckingLocal;
                    KeystoreStep::CheckLocal
                } else {
                    self.stage = KeystoreStage::Done;
                    let v: Vec<KeystoreAction> = Vec::new();
                    assert(v@.map_values(|x: KeystoreAction| x@) =~= Seq::<ActionView>::empty());
                    KeystoreStep::Finish(v)
                }
            },
            KeystoreEvent::LocalChecked(has_keys) => {
                if has_keys {
                    self.stage = KeystoreStage::Done;
                    finish3(
                        "skipped",
                        owned("Local state already exists"),
                        owned("Local state already exists, skipping cloud restore"),
                    )
                } else {
                    self.stage = KeystoreStage::Fetching;
                    self.attempt = 0;
                    let mut announce: Vec<KeystoreAction> = Vec::new();
                    announce.push(
                        action_emit("started", owned("Fresh instance detected, attempting cloud backup restore...")),
                    );
                    assert(announce@.map_values(|x: KeystoreAction| x@) =~= started());
                    KeystoreStep::Fetch { announce, wait_secs: 0 }
                }
            },
            KeystoreEvent::FetchedData => {
                self.stage = KeystoreStage::AwaitingKey;
                KeystoreStep::GetKey
            },
            KeystoreEvent::FetchedEmpty => {
                self.stage = KeystoreStage::Done;
                finish3("no_backup", owned("No backup data found"), owned("No cloud backup data found"))
            },
            KeystoreEvent::FetchRefused(Some(e)) => {
                if str_contains(e.as_str(), "No backup found") {
                    self.stage = KeystoreStage::Done;
                    finish3("no_backup", owned("No cloud backup found"), owned("No cloud backup found"))
                } else {
                    self.last_error = e;
                    self.retry()
                }
            },
            KeystoreEvent::FetchRefused(None) => self.retry(),
            KeystoreEvent::FetchFailed(e) => {
                self.last_error = e;
                self.retry()
            },
            KeystoreEvent::KeyObtained(ok) => {
                if ok {
                    self.stage = KeystoreStage::Decrypting;
                    KeystoreStep::Decrypt
                } else {
                    self.stage = KeystoreStage::Done;
                    let mut v: Vec<KeystoreAction> = Vec::new();
                    v.push(KeystoreAction::Mark);
                    assert(v@.map_values(|x: KeystoreAction| x@) =~= seq![ActionView::Mark]);
                    KeystoreStep::Finish(v)
                }
            },
            KeystoreEvent::Decrypted(ok) => {
                if ok {
                    self.stage = KeystoreStage::Restoring;
                    KeystoreStep::Restore
                } else {
                    self.stage = KeystoreStage::Done;
                    let mut v: Vec<KeystoreAction> = Vec::new();
                    v.push(KeystoreAction::Mark);
                    assert(v@.map_values(|x: KeystoreAction| x@) =~= seq![ActionView::Mark]);
                    KeystoreStep::Finish(v)
                }
            },
            KeystoreEvent::Restored { summary, api_keys } => {
                self.stage = KeystoreStage::Done;
                let emit = text_cat("Cloud backup restored: ", summary.as_str());
                let mut v: Vec<KeystoreAction> = Vec::new();
                v.push(action_record("success", summary, Some(api_keys as i32)));
                v.push(action_emit("success", emit));
                v.push(KeystoreAction::Mark);
                assert(v@.map_values(|x: KeystoreAction| x@) =~= seq![
                    ActionView::Record("success"@, summary@, Some(api_keys as i32)),
                    ActionView::Emit("success"@, "Cloud backup restored: "@ + summary@),
                    ActionView::Mark,
                ]);
                KeystoreStep::Finish(v)
            },
            KeystoreEvent::RestoreFailed(e) => {
                self.stage = KeystoreStage::Done;
                let msg = text_cat("Restore failed: ", e.as_str());
                let msg2 = text_cat("Restore failed: ", e.as_str());
                let mut v: Vec<KeystoreAction> = Vec::new();
                v.push(action_record("error", msg, None));
                v.push(action_emit("error", msg2));
                v.push(KeystoreAction::Mark);
                assert(v@.map_values(|x: KeystoreAction| x@) =~= seq![
                    ActionView::Record("error"@, "Restore failed: "@ + e@, None),
                    ActionView::Emit("error"@, "Restore failed: "@ + e@),
                    ActionView::Mark,
                ]);
                KeystoreStep::Finish(v)
            },
        }
    }
}

/// Whether the auto-sync setting leaves the restore on: anything but
/// `false` or `0` (and an unset setting) keeps it on.
pub fn auto_sync_enabled(setting: Option<&str>) -> (r: bool)
    ensures
        r == match setting {
            Some(v) => v@ != "false"@ && v@ != "0"@,
            None => true,
        },
{
    match setting {
        Some(v) => !crate::text::same_text(v, "false") && !crate::text::same_text(v, "0"),
        None => true,
    }
}

/// The keys of a keystore announcement's data.
pub open spec fn keystore_event_keys() -> Seq<Seq<char>> {
    seq!["status"@, "message"@, "wallet"@, "timestamp"@]
}

/// The announcement `system.keystore_<status>` with the status, message,
/// wallet and the current time.
pub fn keystore_event(status: &str, message: &str, wallet: &str) -> (r: GatewayEvent)
    ensures
        r.event@ == "system.keystore_"@ + status@,
        json_keys(r.data) == keystore_event_keys(),
        json_get_str(r.data, "status"@) == Some(status@),
        json_get_str(r.data, "message"@) == Some(message@),
        json_get_str(r.data, "wallet"@) == Some(wallet@),
        json_get_str(r.data, "timestamp"@) is Some,
{
    let mut fields: Vec<(String, Json)> = Vec::new();
    fields.push((owned("status"), Json::string(status)));
    fields.push((owned("message"), Json::string(message)));
    fields.push((owned("wallet"), Json::string(wallet)));
    fields.push((owned("timestamp"), Json::Str(utc_now_rfc3339())));
    proof {
        reveal_strlit("status");
        reveal_strlit("message");
        reveal_strlit("wallet");
        reveal_strlit("timestamp");
        let f = fields@;
        assert(f[0].0@.len() == 6 && f[1].0@.len() == 7 && f[2].0@.len() == 6 && f[3].0@.len() == 9);
        assert(f[0].0@[0] != f[2].0@[0]);
        lemma_assoc_get_distinct(f);
        assert(crate::json::assoc_get(f, f[0].0@) == Some(f[0].1));
        assert(crate::json::assoc_get(f, f[1].0@) == Some(f[1].1));
        assert(crate::json::assoc_get(f, f[2].0@) == Some(f[2].1));
        assert(crate::json::assoc_get(f, f[3].0@) == Some(f[3].1));
        assert(json_keys(Json::Object(fields)) =~= keystore_event_keys());
    }
    let name = text_cat("system.keystore_", status);
    GatewayEvent::new(name, Json::Object(fields))
}

} // verus!
