//! The course of an update: after each piece of outside work (looking up the release,
//! downloading, installing, running commands, writing files) the flow decides the next one.
//! The active installation is only replaced by a verified download, and a failed signature or
//! health check puts the previous release back.
use vstd::prelude::*;
use crate::config::{in_language, tr, Config, Language};
use crate::features::{signature_scan, verify_authenticode_tree, ExeStatus};
use crate::history::HistoryEntry;
use crate::plan::UpdatePlan;
use crate::state::State;
use crate::text::{trim, trim_str};
use crate::update::{
    cancelled_message, completion_message, download_name, early_stop, health_check_failed,
    installed_state, outcome_views, stop_before_download,
};
use vstd::string::StringExecFns;

verus! {

/// Where an update stands.
#[derive(Clone, Copy, PartialEq, Eq, Structural)]
pub enum Stage {
    Planning,
    Space,
    Backup,
    Download,
    Checksum,
    Hashing,
    Installing,
    Signatures,
    RestoringAfterSignature,
    RemovingInstalled,
    Restarting,
    Health,
    RestoringAfterHealth,
    RecordingFailure,
    LoadingState,
    Saving,
    Pruning,
    Recording,
    Cleaning,
    Notifying,
    Finished,
}

/// The outside work to do next.
pub enum Work {
    /// Look up the release and plan the update.
    Plan,
    /// Check that this many bytes are free in the install folder.
    CheckSpace(u64),
    /// Back up the configured files.
    Backup,
    /// Download the plan's asset into the downloads folder under this file name.
    Download(String),
    /// Verify the download against the plan's checksum file.
    VerifyChecksum,
    /// Hash the download.
    Hash,
    /// Install the download as the plan's release and activate it.
    Install,
    /// Ask the signature status of every executable of the installed release.
    CheckSignatures,
    /// Run the restart command.
    Restart,
    /// Run the health check.
    HealthCheck,
    /// Activate this previous release again (and run the restart command).
    RestorePrevious(String),
    /// Remove the folder of the release just installed.
    RemoveInstalled,
    /// Read the saved state.
    LoadState,
    /// Write this state.
    SaveState(State),
    /// Apply the retention policy, keeping the new release.
    Prune,
    /// Add this entry to the history.
    Record(HistoryEntry),
    /// Remove the download.
    RemoveDownload,
    /// Show this desktop notification.
    Notify(String),
    /// The update is over, with this message or error.
    Finish(Result<String, String>),
}

/// What the outside work gave.
pub enum Event {
    /// The plan of the update.
    Planned(UpdatePlan),
    /// The work was done.
    Done,
    /// The work failed with this error.
    Failed(String),
    /// There is room; the required size as shown to the user.
    SpaceAvailable(String),
    /// The backup was made (in this folder) or there was nothing to back up.
    BackedUp(Option<String>),
    /// The download is complete; whether it resumed a partial one.
    Downloaded(bool),
    /// The user cancelled the download.
    Cancelled,
    /// The SHA-256 of the download.
    Hashed(String),
    /// The release was installed in this folder.
    Installed(String),
    /// The signature statuses of the installed executables.
    Signatures(Vec<ExeStatus>),
    /// The saved state, if any.
    StateLoaded(Option<State>),
    /// The releases the retention policy removed.
    Pruned(Vec<String>),
}

/// The course of one update.
pub struct UpdateFlow {
    pub stage: Stage,
    pub language: Language,
    pub allow_downgrade: bool,
    pub restart: bool,
    pub health: bool,
    pub authenticode: bool,
    pub plan: Option<UpdatePlan>,
    pub old: String,
    pub size_text: String,
    pub backup: Option<String>,
    pub resumed: bool,
    pub verified: bool,
    pub sha256: String,
    pub installed: String,
    pub rollback_attempted: bool,
    pub failure: String,
    pub history_result: String,
    pub deleted: Vec<String>,
}

/// The stages at which the flow holds a plan.
pub open spec fn planned(stage: Stage) -> bool {
    stage != Stage::Planning && stage != Stage::Finished
}

/// The stages that come after a successful checksum verification (or after a download that
/// has no checksum file to be verified against).
pub open spec fn past_verification(stage: Stage) -> bool {
    !(stage == Stage::Planning || stage == Stage::Space || stage == Stage::Backup || stage
        == Stage::Download || stage == Stage::Checksum || stage == Stage::Finished)
}

/// The event that the work of a stage gives.
pub open spec fn fits(stage: Stage, event: Event) -> bool {
    match event {
        Event::Failed(_) => true,
        Event::Done => stage == Stage::Checksum || stage == Stage::RestoringAfterSignature || stage
            == Stage::RemovingInstalled || stage == Stage::Restarting || stage == Stage::Health
            || stage == Stage::RestoringAfterHealth || stage == Stage::RecordingFailure || stage
            == Stage::Saving || stage == Stage::Recording || stage == Stage::Cleaning || stage
            == Stage::Notifying,
        Event::Planned(_) => stage == Stage::Planning,
        Event::SpaceAvailable(_) => stage == Stage::Space,
        Event::BackedUp(_) => stage == Stage::Backup,
        Event::Downloaded(_) | Event::Cancelled => stage == Stage::Download,
        Event::Hashed(_) => stage == Stage::Hashing,
        Event::Installed(_) => stage == Stage::Installing,
        Event::Signatures(_) => stage == Stage::Signatures,
        Event::StateLoaded(_) => stage == Stage::LoadingState,
        Event::Pruned(_) => stage == Stage::Pruning,
    }
}

/// A blank-free command is set.
pub open spec fn command_set(command: Seq<char>) -> bool {
    trim(command).len() > 0
}

impl UpdateFlow {
    /// The flow is consistent: a plan from the planning on, and nothing installed before the
    /// download was verified.
    pub open spec fn wf(&self) -> bool {
        &&& planned(self.stage) ==> self.plan is Some
        &&& past_verification(self.stage) ==> (self.verified || (self.plan matches Some(p)
            && p.checksum is None))
        &&& self.stage == Stage::RecordingFailure ==> (self.rollback_attempted || self.old@.len() == 0)
        &&& self.stage == Stage::RemovingInstalled ==> (self.rollback_attempted || self.old@.len() == 0)
    }

    /// The stage after the signatures were accepted.
    pub open spec fn after_signatures(&self) -> Stage {
        if self.restart {
            Stage::Restarting
        } else if self.health {
            Stage::Health
        } else {
            Stage::LoadingState
        }
    }

    /// The stage after the restart command ran.
    pub open spec fn after_restart(&self) -> Stage {
        if self.health {
            Stage::Health
        } else {
            Stage::LoadingState
        }
    }

    /// The work that starts a stage reached after the installation.
    pub open spec fn starts(stage: Stage, w: Work) -> bool {
        match stage {
            Stage::Restarting => w is Restart,
            Stage::Health => w is HealthCheck,
            Stage::LoadingState => w is LoadState,
            _ => false,
        }
    }

    /// The history entry of this update with the given result.
    pub open spec fn entry_of(&self, e: HistoryEntry, result: Seq<char>, now: u64) -> bool {
        let p = self.plan->Some_0;
        &&& e.timestamp_unix == now
        &&& e.action@ == "update"@
        &&& e.from_version@ == self.old@
        &&& e.to_version@ == p.release.tag_name@
        &&& e.asset@ == p.asset.name@
        &&& e.sha256@ == self.sha256@
        &&& e.result@ == result
    }

    /// An update with the settings `config`; its first work is [`Work::Plan`].
    pub fn new(config: &Config) -> (f: UpdateFlow)
        ensures
            f.stage == Stage::Planning,
            f.language == config.language,
            f.allow_downgrade == config.allow_downgrade,
            f.restart == command_set(config.restart_command@),
            f.health == command_set(config.health_check_command@),
            f.authenticode == config.verify_authenticode,
            f.plan is None,
            !f.verified && !f.rollback_attempted,
            f.wf(),
    {
        let restart = trim_str(config.restart_command.as_str());
        let health = trim_str(config.health_check_command.as_str());
        UpdateFlow {
            stage: Stage::Planning,
            language: config.language,
            allow_downgrade: config.allow_downgrade,
            restart: restart.as_str().unicode_len() > 0,
            health: health.as_str().unicode_len() > 0,
            authenticode: config.verify_authenticode,
            plan: None,
            old: String::new(),
            size_text: String::new(),
            backup: None,
            resumed: false,
            verified: false,
            sha256: String::new(),
            installed: String::new(),
            rollback_attempted: false,
            failure: String::new(),
            history_result: String::new(),
            deleted: Vec::new(),
        }
    }

    fn finish_err(&mut self, e: String) -> (w: Work)
        ensures
            final(self).stage == Stage::Finished,
            w matches Work::Finish(Err(m)) && m@ == e@,
            final(self).plan == old(self).plan,
            final(self).old == old(self).old,
    {
        self.stage = Stage::Finished;
        Work::Finish(Err(e))
    }

    fn next_after(&mut self, stage: Stage) -> (w: Work)
        requires
            stage == Stage::Restarting || stage == Stage::Health || stage == Stage::LoadingState,
        ensures
            final(self).stage == stage,
            Self::starts(stage, w),
            final(self).plan == old(self).plan,
            final(self).verified == old(self).verified,
            final(self).rollback_attempted == old(self).rollback_attempted,
            final(self).old == old(self).old,
    {
        self.stage = stage;
        if stage == Stage::Restarting {
            Work::Restart
        } else if stage == Stage::Health {
            Work::HealthCheck
        } else {
            Work::LoadState
        }
    }

    fn history_entry(&self, result: &str, now: u64) -> (e: HistoryEntry)
        requires
            self.plan is Some,
        ensures
            self.entry_of(e, result@, now),
    {
        let p = self.plan.as_ref().unwrap();
        HistoryEntry::new(
            "update",
            self.old.as_str(),
            p.release.tag_name.as_str(),
            p.asset.name.as_str(),
            self.sha256.as_str(),
            result,
            now,
        )
    }

    /// Takes the outcome of the last work, done at time `now`, and gives the next work.
    pub fn step(&mut self, event: Event, now: u64) -> (w: Work)
        requires
            old(self).wf(),
            old(self).stage != Stage::Finished,
            fits(old(self).stage, event),
        ensures
            final(self).wf(),
            // A failed work before the installation, or one that leaves it intact, ends the update
            // with its error.
            event matches Event::Failed(e) ==> ((old(self).stage == Stage::Planning || old(self).stage
                == Stage::Space || old(self).stage == Stage::Backup || old(self).stage
                == Stage::Download || old(self).stage == Stage::Checksum || old(self).stage
                == Stage::Hashing || old(self).stage == Stage::Installing || old(self).stage
                == Stage::Restarting || old(self).stage == Stage::LoadingState || old(self).stage
                == Stage::Saving || old(self).stage == Stage::Pruning)) ==> (w matches Work::Finish(
                Err(m),
            ) && m@ == e@ && final(self).stage == Stage::Finished),
            // Planning: stop early, or check the space the download needs.
            old(self).stage == Stage::Planning ==> (event matches Event::Planned(p) ==> {
                &&& final(self).plan == Some(p)
                &&& final(self).old@ == (match p.current {
                    Some(c) => c@,
                    None => Seq::<char>::empty(),
                })
                &&& match early_stop(old(self).language, old(self).allow_downgrade, p) {
                    Some(Ok(m)) => w matches Work::Finish(Ok(x)) && x@ == m && final(self).stage
                        == Stage::Finished,
                    Some(Err(m)) => w matches Work::Finish(Err(x)) && x@ == m && final(self).stage
                        == Stage::Finished,
                    None => (w matches Work::CheckSpace(n) && n == crate::features::required_bytes(
                        p.asset,
                    )) && final(self).stage == Stage::Space,
                }
            }),
            old(self).stage == Stage::Space ==> (event matches Event::SpaceAvailable(t) ==> (w is Backup
                && final(self).stage == Stage::Backup && final(self).size_text@ == t@)),
            old(self).stage == Stage::Backup ==> (event matches Event::BackedUp(b) ==> {
                let p = old(self).plan->Some_0;
                &&& w matches Work::Download(n) && n@ == crate::update::safe_name_of(p.release.tag_name@)
                    + "-"@ + crate::update::safe_name_of(p.asset.name@)
                &&& final(self).stage == Stage::Download
                &&& final(self).backup == b
            }),
            old(self).stage == Stage::Download ==> (event matches Event::Downloaded(resumed) ==> {
                let p = old(self).plan->Some_0;
                &&& final(self).resumed == resumed
                &&& p.checksum is Some ==> w is VerifyChecksum && final(self).stage == Stage::Checksum
                &&& p.checksum is None ==> w is Hash && final(self).stage == Stage::Hashing
            }),
            (old(self).stage == Stage::Download && event is Cancelled) ==> (w matches Work::Finish(
                Err(m),
            ) && m@ == in_language(
                old(self).language,
                "Download cancelado. A instalação atual permaneceu intacta."@,
                "Download cancelled. The current installation was left intact."@,
            ) && final(self).stage == Stage::Finished),
            (old(self).stage == Stage::Checksum && event is Done) ==> (w is Hash && final(self).stage
                == Stage::Hashing && final(self).verified),
            old(self).stage == Stage::Hashing ==> (event matches Event::Hashed(h) ==> (w is Install
                && final(self).stage == Stage::Installing && final(self).sha256@ == h@)),
            old(self).stage == Stage::Installing ==> (event matches Event::Installed(d) ==> (w is CheckSignatures
                && final(self).stage == Stage::Signatures && final(self).installed@ == d@)),
            // Signatures: go on, or put the previous release back and remove the new one.
            (old(self).stage == Stage::Signatures && (event is Signatures || event is Failed)) ==> {
                let verdict = match event {
                    Event::Signatures(s) => if old(self).authenticode {
                        match signature_scan(s@, 0, 0) {
                            Ok(_) => None,
                            Err(e) => Some(e),
                        }
                    } else {
                        None
                    },
                    Event::Failed(e) => Some(e@),
                    _ => None,
                };
                match verdict {
                    None => final(self).stage == old(self).after_signatures() && Self::starts(
                        final(self).stage,
                        w,
                    ),
                    Some(e) => {
                        &&& final(self).failure@ == e
                        &&& old(self).old@.len() > 0 ==> (w matches Work::RestorePrevious(t) && t@
                            == old(self).old@ && final(self).stage == Stage::RestoringAfterSignature)
                        &&& old(self).old@.len() == 0 ==> (w is RemoveInstalled && final(self).stage
                            == Stage::RemovingInstalled)
                    },
                }
            },
            (old(self).stage == Stage::RestoringAfterSignature) ==> (w is RemoveInstalled
                && final(self).stage == Stage::RemovingInstalled && final(self).rollback_attempted),
            (old(self).stage == Stage::RemovingInstalled) ==> (w matches Work::Finish(Err(m)) && m@
                == old(self).failure@ && final(self).stage == Stage::Finished),
            (old(self).stage == Stage::Restarting && event is Done) ==> (final(self).stage == old(
                self,
            ).after_restart() && Self::starts(final(self).stage, w)),
            // Health check: go on, or put the previous release back and record the failure.
            (old(self).stage == Stage::Health && event is Done) ==> (w is LoadState && final(self).stage
                == Stage::LoadingState),
            old(self).stage == Stage::Health ==> (event matches Event::Failed(h) ==> {
                &&& final(self).failure@ == in_language(
                    old(self).language,
                    "A verificação de saúde falhou"@,
                    "Health check failed"@,
                ) + ": "@ + h@ + ". "@ + in_language(
                    old(self).language,
                    "Versão anterior"@,
                    "Previous version"@,
                ) + ": "@ + (if old(self).old@.len() > 0 {
                    old(self).old@
                } else {
                    "-"@
                })
                &&& final(self).history_result@ == (if old(self).old@.len() > 0 {
                    "health-check-failed; automatic-rollback-attempted"@
                } else {
                    "health-check-failed; no-previous-release"@
                })
                &&& old(self).old@.len() > 0 ==> (w matches Work::RestorePrevious(t) && t@ == old(
                    self,
                ).old@ && final(self).stage == Stage::RestoringAfterHealth)
                &&& old(self).old@.len() == 0 ==> (w matches Work::Record(e) && final(self).entry_of(
                    e,
                    final(self).history_result@,
                    now,
                ) && final(self).stage == Stage::RecordingFailure)
            }),
            (old(self).stage == Stage::RestoringAfterHealth) ==> (w matches Work::Record(e)
                && final(self).entry_of(e, old(self).history_result@, now) && final(self).stage
                == Stage::RecordingFailure && final(self).rollback_attempted),
            (old(self).stage == Stage::RecordingFailure) ==> (w matches Work::Finish(Err(m)) && m@
                == old(self).failure@ && final(self).stage == Stage::Finished),
            // Success: save the state, prune, record, clean up, notify and report.
            old(self).stage == Stage::LoadingState ==> (event matches Event::StateLoaded(existing) ==> {
                let p = old(self).plan->Some_0;
                &&& final(self).stage == Stage::Saving
                &&& w matches Work::SaveState(s) && s.latest_tag@ == p.release.tag_name@
                    && s.installed_at_unix == now && s.etag@ == (if p.validators.etag@.len() > 0 {
                    p.validators.etag@
                } else {
                    match existing {
                        Some(e) => e.etag@,
                        None => Seq::<char>::empty(),
                    }
                }) && s.last_modified@ == (if p.validators.last_modified@.len() > 0 {
                    p.validators.last_modified@
                } else {
                    match existing {
                        Some(e) => e.last_modified@,
                        None => Seq::<char>::empty(),
                    }
                })
            }),
            (old(self).stage == Stage::Saving && event is Done) ==> (w is Prune && final(self).stage
                == Stage::Pruning),
            old(self).stage == Stage::Pruning ==> (event matches Event::Pruned(d) ==> (w matches Work::Record(
                e,
            ) && final(self).entry_of(e, "success"@, now) && final(self).stage == Stage::Recording
                && final(self).deleted == d)),
            (old(self).stage == Stage::Recording) ==> (w is RemoveDownload && final(self).stage
                == Stage::Cleaning),
            (old(self).stage == Stage::Cleaning) ==> (w matches Work::Notify(n) && n@ == in_language(
                old(self).language,
                "Atualização concluída"@,
                "Update completed"@,
            ) + " "@ + old(self).plan->Some_0.release.tag_name@ && final(self).stage
                == Stage::Notifying),
            (old(self).stage == Stage::Notifying) ==> {
                let p = old(self).plan->Some_0;
                &&& final(self).stage == Stage::Finished
                &&& w matches Work::Finish(Ok(m)) && m@ == crate::update::completion_head(
                    old(self).language,
                    p.release.tag_name@,
                    old(self).installed@,
                    old(self).sha256@,
                    old(self).size_text@,
                ) + crate::update::backup_line(
                    old(self).language,
                    match old(self).backup {
                        Some(b) => Some(b@),
                        None => None,
                    },
                ) + crate::update::resumed_line(old(self).language, old(self).resumed)
                    + crate::update::removed_line(old(self).language, crate::text::views(old(self).deleted@))
            },
            // An update ended by a failed signature or health check first tried to put the previous
            // release back, when there was one.
            (w is Finish && (old(self).stage == Stage::RemovingInstalled || old(self).stage
                == Stage::RecordingFailure)) ==> (old(self).rollback_attempted || old(self).old@.len()
                == 0),
            // The plan and the release active before the update stay as planned.
            old(self).stage != Stage::Planning ==> final(self).plan == old(self).plan && final(self).old
                == old(self).old,
            // Only a verified download is installed.
            w is Install ==> (final(self).verified || final(self).plan->Some_0.checksum is None),
    {
        let stage = self.stage;
        match event {
            Event::Failed(e) => {
                if stage == Stage::Signatures {
                    self.failure = e;
                    return self.after_bad_signature();
                } else if stage == Stage::Health {
                    return self.after_failed_health(e.as_str(), now);
                } else if stage == Stage::RestoringAfterSignature {
                    self.rollback_attempted = true;
                    self.stage = Stage::RemovingInstalled;
                    return Work::RemoveInstalled;
                } else if stage == Stage::RemovingInstalled || stage == Stage::RecordingFailure {
                    let f = self.failure.clone();
                    return self.finish_err(f);
                } else if stage == Stage::RestoringAfterHealth {
                    return self.record_failure(now);
                } else if stage == Stage::Recording {
                    self.stage = Stage::Cleaning;
                    return Work::RemoveDownload;
                } else if stage == Stage::Cleaning {
                    return self.notify();
                } else if stage == Stage::Notifying {
                    return self.complete();
                } else {
                    return self.finish_err(e);
                }
            },
            Event::Planned(p) => {
                let stop = stop_before_download(self.language, self.allow_downgrade, &p);
                self.old = match &p.current {
                    Some(c) => c.clone(),
                    None => String::new(),
                };
                let required = crate::features::estimated_required_bytes(&p.asset);
                self.plan = Some(p);
                match stop {
                    Some(Ok(m)) => {
                        self.stage = Stage::Finished;
                        Work::Finish(Ok(m))
                    },
                    Some(Err(m)) => self.finish_err(m),
                    None => {
                        self.stage = Stage::Space;
                        Work::CheckSpace(required)
                    },
                }
            },
            Event::SpaceAvailable(t) => {
                self.size_text = t;
                self.stage = Stage::Backup;
                Work::Backup
            },
            Event::BackedUp(b) => {
                self.backup = b;
                let p = self.plan.as_ref().unwrap();
                let n = download_name(p.release.tag_name.as_str(), p.asset.name.as_str());
                self.stage = Stage::Download;
                Work::Download(n)
            },
            Event::Downloaded(resumed) => {
                self.resumed = resumed;
                if self.plan.as_ref().unwrap().checksum.is_some() {
                    self.stage = Stage::Checksum;
                    Work::VerifyChecksum
                } else {
                    self.stage = Stage::Hashing;
                    Work::Hash
                }
            },
            Event::Cancelled => {
                let m = cancelled_message(self.language);
                self.finish_err(m)
            },
            Event::Hashed(h) => {
                self.sha256 = h;
                self.stage = Stage::Installing;
                Work::Install
            },
            Event::Installed(d) => {
                self.installed = d;
                self.stage = Stage::Signatures;
                Work::CheckSignatures
            },
            Event::Signatures(s) => {
                match verify_authenticode_tree(self.authenticode, s.as_slice()) {
                    Ok(_) => {
                        let next = if self.restart {
                            Stage::Restarting
                        } else if self.health {
                            Stage::Health
                        } else {
                            Stage::LoadingState
                        };
                        self.next_after(next)
                    },
                    Err(e) => {
                        self.failure = e;
                        self.after_bad_signature()
                    },
                }
            },
            Event::StateLoaded(existing) => {
                let p = self.plan.as_ref().unwrap();
                let s = installed_state(existing, p.release.tag_name.as_str(), &p.validators, now);
                self.stage = Stage::Saving;
                Work::SaveState(s)
            },
            Event::Pruned(d) => {
                self.deleted = d;
                let e = self.history_entry("success", now);
                self.stage = Stage::Recording;
                Work::Record(e)
            },
            Event::Done => {
                if stage == Stage::Checksum {
                    self.verified = true;
                    self.stage = Stage::Hashing;
                    Work::Hash
                } else if stage == Stage::RestoringAfterSignature {
                    self.rollback_attempted = true;
                    self.stage = Stage::RemovingInstalled;
                    Work::RemoveInstalled
                } else if stage == Stage::RemovingInstalled || stage == Stage::RecordingFailure {
                    let f = self.failure.clone();
                    self.finish_err(f)
                } else if stage == Stage::Restarting {
                    let next = if self.health {
                        Stage::Health
                    } else {
                        Stage::LoadingState
                    };
                    self.next_after(next)
                } else if stage == Stage::Health {
                    self.stage = Stage::LoadingState;
                    Work::LoadState
                } else if stage == Stage::RestoringAfterHealth {
                    self.record_failure(now)
                } else if stage == Stage::Saving {
                    self.stage = Stage::Pruning;
                    Work::Prune
                } else if stage == Stage::Recording {
                    self.stage = Stage::Cleaning;
                    Work::RemoveDownload
                } else if stage == Stage::Cleaning {
                    self.notify()
                } else if stage == Stage::Notifying {
                    self.complete()
                } else {
                    self.finish_err(String::new())
                }
            },
        }
    }

    fn after_bad_signature(&mut self) -> (w: Work)
        requires
            old(self).wf(),
            old(self).stage == Stage::Signatures,
        ensures
            final(self).wf(),
            final(self).failure == old(self).failure,
            final(self).plan == old(self).plan,
            final(self).old == old(self).old,
            old(self).old@.len() > 0 ==> (w matches Work::RestorePrevious(t) && t@ == old(self).old@
                && final(self).stage == Stage::RestoringAfterSignature),
            old(self).old@.len() == 0 ==> (w is RemoveInstalled && final(self).stage
                == Stage::RemovingInstalled),
    {
        if self.old.as_str().unicode_len() > 0 {
            self.stage = Stage::RestoringAfterSignature;
            Work::RestorePrevious(self.old.clone())
        } else {
            self.stage = Stage::RemovingInstalled;
            Work::RemoveInstalled
        }
    }

    fn after_failed_health(&mut self, error: &str, now: u64) -> (w: Work)
        requires
            old(self).wf(),
            old(self).stage == Stage::Health,
        ensures
            final(self).wf(),
            final(self).plan == old(self).plan,
            final(self).old == old(self).old,
            final(self).sha256 == old(self).sha256,
            final(self).failure@ == in_language(
                old(self).language,
                "A verificação de saúde falhou"@,
                "Health check failed"@,
            ) + ": "@ + error@ + ". "@ + in_language(
                old(self).language,
                "Versão anterior"@,
                "Previous version"@,
            ) + ": "@ + (if old(self).old@.len() > 0 {
                old(self).old@
            } else {
                "-"@
            }),
            final(self).history_result@ == (if old(self).old@.len() > 0 {
                "health-check-failed; automatic-rollback-attempted"@
            } else {
                "health-check-failed; no-previous-release"@
            }),
            old(self).old@.len() > 0 ==> (w matches Work::RestorePrevious(t) && t@ == old(self).old@
                && final(self).stage == Stage::RestoringAfterHealth),
            old(self).old@.len() == 0 ==> (w matches Work::Record(e) && final(self).entry_of(
                e,
                final(self).history_result@,
                now,
            ) && final(self).stage == Stage::RecordingFailure),
    {
        let failure = health_check_failed(self.language, self.old.as_str(), error);
        self.failure = failure.message;
        self.history_result = failure.history_result;
        if self.old.as_str().unicode_len() > 0 {
            self.stage = Stage::RestoringAfterHealth;
            Work::RestorePrevious(self.old.clone())
        } else {
            self.record_failure(now)
        }
    }

    fn record_failure(&mut self, now: u64) -> (w: Work)
        requires
            old(self).wf(),
            old(self).stage == Stage::RestoringAfterHealth || (old(self).stage == Stage::Health
                && old(self).old@.len() == 0),
        ensures
            final(self).wf(),
            final(self).stage == Stage::RecordingFailure,
            final(self).plan == old(self).plan,
            final(self).old == old(self).old,
            final(self).failure == old(self).failure,
            final(self).history_result == old(self).history_result,
            final(self).sha256 == old(self).sha256,
            old(self).stage == Stage::RestoringAfterHealth ==> final(self).rollback_attempted,
            w matches Work::Record(e) && final(self).entry_of(e, old(self).history_result@, now),
    {
        if self.stage == Stage::RestoringAfterHealth {
            self.rollback_attempted = true;
        }
        let r = self.history_result.clone();
        let e = self.history_entry(r.as_str(), now);
        self.stage = Stage::RecordingFailure;
        Work::Record(e)
    }

    fn notify(&mut self) -> (w: Work)
        requires
            old(self).wf(),
            old(self).stage == Stage::Cleaning,
        ensures
            final(self).wf(),
            final(self).stage == Stage::Notifying,
            final(self).plan == old(self).plan,
            final(self).old == old(self).old,
            w matches Work::Notify(n) && n@ == in_language(
                old(self).language,
                "Atualização concluída"@,
                "Update completed"@,
            ) + " "@ + old(self).plan->Some_0.release.tag_name@,
    {
        let p = self.plan.as_ref().unwrap();
        let mut n = String::from_str(tr(self.language, "Atualização concluída", "Update completed"));
        n.append(" ");
        n.append(p.release.tag_name.as_str());
        self.stage = Stage::Notifying;
        Work::Notify(n)
    }

    fn complete(&mut self) -> (w: Work)
        requires
            old(self).wf(),
            old(self).stage == Stage::Notifying,
        ensures
            final(self).wf(),
            final(self).stage == Stage::Finished,
            final(self).plan == old(self).plan,
            final(self).old == old(self).old,
            w matches Work::Finish(Ok(m)) && m@ == crate::update::completion_head(
                old(self).language,
                old(self).plan->Some_0.release.tag_name@,
                old(self).installed@,
                old(self).sha256@,
                old(self).size_text@,
            ) + crate::update::backup_line(
                old(self).language,
                match old(self).backup {
                    Some(b) => Some(b@),
                    None => None,
                },
            ) + crate::update::resumed_line(old(self).language, old(self).resumed)
                + crate::update::removed_line(old(self).language, crate::text::views(old(self).deleted@)),
    {
        let p = self.plan.as_ref().unwrap();
        let backup = match &self.backup {
            Some(b) => Some(b.as_str()),
            None => None,
        };
        let m = completion_message(
            self.language,
            p.release.tag_name.as_str(),
            self.installed.as_str(),
            self.sha256.as_str(),
            self.size_text.as_str(),
            backup,
            self.resumed,
            self.deleted.as_slice(),
        );
        self.stage = Stage::Finished;
        Work::Finish(Ok(m))
    }
}

} // verus!
