use vstd::prelude::*;
use crate::family::{Family, LabelKey};
use crate::labels::{
    concurrency_key, concurrency_labels, daemon_key, instigation_key, workspace_key,
    DaemonStatusLabel, InstigationLabel, WorkspaceLocationLabel,
};
use crate::metrics::Metrics;
use crate::snapshot::{
    ConcurrencyLimit, DaemonStatus, LocationEntry, LocationOrLoadError, Repository, Schedule, Sensor,
    WorkspaceOrError,
};

verus! {

/// The update-time samples of a workspace: one per entry, a later entry
/// overwriting an earlier one with the same labels.
pub open spec fn workspace_samples(es: Seq<LocationEntry>) -> Map<LabelKey, int>
    decreases es.len(),
{
    if es.len() == 0 {
        Map::empty()
    } else {
        workspace_samples(es.drop_last()).insert(
            workspace_key(es.last()),
            es.last().updated_timestamp as int,
        )
    }
}

/// The instigation type of a sensor.
pub open spec fn sensor_type_value(s: Sensor) -> Seq<char> {
    "sensor_"@ + s.sensor_type@
}

/// The instigation type of a schedule.
pub open spec fn schedule_type_value(s: Schedule) -> Seq<char> {
    "schedule_"@ + s.mode@
}

/// `m` after the run counts of the sensors `ss` of location `l` in entry `w`.
pub open spec fn fold_sensors(m: Map<LabelKey, int>, ss: Seq<Sensor>, w: Seq<char>, l: Seq<char>) -> Map<
    LabelKey,
    int,
>
    decreases ss.len(),
{
    if ss.len() == 0 {
        m
    } else {
        let s = ss.last();
        fold_sensors(m, ss.drop_last(), w, l).insert(
            instigation_key(w, l, s.name@, sensor_type_value(s)),
            s.runs_count as int,
        )
    }
}

/// `m` after the run counts of the schedules `ss` of location `l` in entry `w`.
pub open spec fn fold_schedules(m: Map<LabelKey, int>, ss: Seq<Schedule>, w: Seq<char>, l: Seq<char>) -> Map<
    LabelKey,
    int,
>
    decreases ss.len(),
{
    if ss.len() == 0 {
        m
    } else {
        let s = ss.last();
        fold_schedules(m, ss.drop_last(), w, l).insert(
            instigation_key(w, l, s.name@, schedule_type_value(s)),
            s.runs_count as int,
        )
    }
}

/// `m` after the instigators of the repositories `rs`: for each, its sensors,
/// then its schedules.
pub open spec fn fold_repositories(
    m: Map<LabelKey, int>,
    rs: Seq<Repository>,
    w: Seq<char>,
    l: Seq<char>,
) -> Map<LabelKey, int>
    decreases rs.len(),
{
    if rs.len() == 0 {
        m
    } else {
        let r = rs.last();
        fold_schedules(
            fold_sensors(fold_repositories(m, rs.drop_last(), w, l), r.sensors@, w, l),
            r.schedules@,
            w,
            l,
        )
    }
}

/// The instigator samples of a workspace. An entry whose location failed to
/// load contributes none, and the entries after it are still read.
pub open spec fn instigation_samples(es: Seq<LocationEntry>) -> Map<LabelKey, int>
    decreases es.len(),
{
    if es.len() == 0 {
        Map::empty()
    } else {
        let e = es.last();
        let m = instigation_samples(es.drop_last());
        match e.location_or_load_error {
            Some(LocationOrLoadError::RepositoryLocation(loc)) => fold_repositories(
                m,
                loc.repositories@,
                e.name@,
                loc.name@,
            ),
            _ => m,
        }
    }
}

/// The heartbeat samples of the daemons `ds`: one per daemon that reported a
/// heartbeat.
pub open spec fn daemon_samples(ds: Seq<DaemonStatus>) -> Map<LabelKey, int>
    decreases ds.len(),
{
    if ds.len() == 0 {
        Map::empty()
    } else {
        let d = ds.last();
        let m = daemon_samples(ds.drop_last());
        match d.last_heartbeat_time {
            Some(h) => m.insert(daemon_key(d), h as int),
            None => m,
        }
    }
}

/// Which count of a concurrency key a family exports.
pub open spec fn concurrency_samples(cs: Seq<ConcurrencyLimit>, which: int) -> Map<LabelKey, int>
    decreases cs.len(),
{
    if cs.len() == 0 {
        Map::empty()
    } else {
        let c = cs.last();
        concurrency_samples(cs.drop_last(), which).insert(
            concurrency_key(c.concurrency_key@),
            if which == 0 {
                c.slot_count as int
            } else if which == 1 {
                c.active_slot_count as int
            } else if which == 2 {
                c.pending_step_count as int
            } else {
                c.assigned_step_count as int
            },
        )
    }
}

fn copy_daemon(d: &DaemonStatus) -> (r: DaemonStatus)
    ensures
        r == *d,
{
    DaemonStatus {
        id: d.id.clone(),
        daemon_type: d.daemon_type.clone(),
        required: d.required,
        healthy: d.healthy,
        last_heartbeat_time: d.last_heartbeat_time,
    }
}

fn set_sensors(fam: &mut Family, ss: &Vec<Sensor>, w: &String, l: &String)
    requires
        old(fam).wf(),
    ensures
        final(fam).wf(),
        final(fam)@ == fold_sensors(old(fam)@, ss@, w@, l@),
{
    let ghost f0 = fam@;
    let mut i: usize = 0;
    while i < ss.len()
        invariant
            i <= ss@.len(),
            fam.wf(),
            fam@ == fold_sensors(f0, ss@.take(i as int), w@, l@),
        decreases ss@.len() - i,
    {
        assert(ss@.take(i + 1).drop_last() =~= ss@.take(i as int));
        let s = &ss[i];
        let t = String::from_str("sensor_").concat(s.sensor_type.as_str());
        let label = InstigationLabel::new(w.clone(), l.clone(), s.name.clone(), t);
        fam.set(&label.labels(), s.runs_count);
        i = i + 1;
    }
    assert(ss@.take(ss@.len() as int) =~= ss@);
}

fn set_schedules(fam: &mut Family, ss: &Vec<Schedule>, w: &String, l: &String)
    requires
        old(fam).wf(),
    ensures
        final(fam).wf(),
        final(fam)@ == fold_schedules(old(fam)@, ss@, w@, l@),
{
    let ghost f0 = fam@;
    let mut i: usize = 0;
    while i < ss.len()
        invariant
            i <= ss@.len(),
            fam.wf(),
            fam@ == fold_schedules(f0, ss@.take(i as int), w@, l@),
        decreases ss@.len() - i,
    {
        assert(ss@.take(i + 1).drop_last() =~= ss@.take(i as int));
        let s = &ss[i];
        let t = String::from_str("schedule_").concat(s.mode.as_str());
        let label = InstigationLabel::new(w.clone(), l.clone(), s.name.clone(), t);
        fam.set(&label.labels(), s.runs_count);
        i = i + 1;
    }
    assert(ss@.take(ss@.len() as int) =~= ss@);
}

fn set_repositories(fam: &mut Family, rs: &Vec<Repository>, w: &String, l: &String)
    requires
        old(fam).wf(),
    ensures
        final(fam).wf(),
        final(fam)@ == fold_repositories(old(fam)@, rs@, w@, l@),
{
    let ghost f0 = fam@;
    let mut i: usize = 0;
    while i < rs.len()
        invariant
            i <= rs@.len(),
            fam.wf(),
            fam@ == fold_repositories(f0, rs@.take(i as int), w@, l@),
        decreases rs@.len() - i,
    {
        assert(rs@.take(i + 1).drop_last() =~= rs@.take(i as int));
        set_sensors(fam, &rs[i].sensors, w, l);
        set_schedules(fam, &rs[i].schedules, w, l);
        i = i + 1;
    }
    assert(rs@.take(rs@.len() as int) =~= rs@);
}

impl Metrics {
    /// Replaces the workspace group with what the snapshot holds: the update
    /// time of each entry, and the run count of each sensor and schedule of
    /// each location that loaded. An error in place of the group leaves the
    /// state as it was.
    pub fn set_workspace_metrics(&mut self, workspaces: WorkspaceOrError)
        requires
            old(self).wf(),
        ensures
            final(self).wf(),
            final(self).run_model() == old(self).run_model(),
            final(self).daemon_last_heartbeat_seconds@ == old(self).daemon_last_heartbeat_seconds@,
            final(self).concurrency_slots@ == old(self).concurrency_slots@,
            final(self).concurrency_active_slots@ == old(self).concurrency_active_slots@,
            final(self).concurrency_pending_steps@ == old(self).concurrency_pending_steps@,
            final(self).concurrency_assigned_steps@ == old(self).concurrency_assigned_steps@,
            match workspaces {
                WorkspaceOrError::Workspace(es) => {
                    &&& final(self).workspace_location_last_update_seconds@ == workspace_samples(es@)
                    &&& final(self).runs_by_instigation_total@ == instigation_samples(es@)
                },
                WorkspaceOrError::Error => {
                    &&& final(self).workspace_location_last_update_seconds@ == old(
                        self,
                    ).workspace_location_last_update_seconds@
                    &&& final(self).runs_by_instigation_total@ == old(self).runs_by_instigation_total@
                },
            },
    {
        match workspaces {
            WorkspaceOrError::Workspace(es) => {
                self.workspace_location_last_update_seconds.clear();
                self.runs_by_instigation_total.clear();
                let mut i: usize = 0;
                while i < es.len()
                    invariant
                        i <= es@.len(),
                        self.wf(),
                        self.run_model() == old(self).run_model(),
                        self.daemon_last_heartbeat_seconds@ == old(self).daemon_last_heartbeat_seconds@,
                        self.concurrency_slots@ == old(self).concurrency_slots@,
                        self.concurrency_active_slots@ == old(self).concurrency_active_slots@,
                        self.concurrency_pending_steps@ == old(self).concurrency_pending_steps@,
                        self.concurrency_assigned_steps@ == old(self).concurrency_assigned_steps@,
                        self.workspace_location_last_update_seconds@ == workspace_samples(
                            es@.take(i as int),
                        ),
                        self.runs_by_instigation_total@ == instigation_samples(es@.take(i as int)),
                    decreases es@.len() - i,
                {
                    assert(es@.take(i + 1).drop_last() =~= es@.take(i as int));
                    let e = &es[i];
                    let label = WorkspaceLocationLabel::new(e);
                    self.workspace_location_last_update_seconds.set(
                        &label.labels(),
                        e.updated_timestamp,
                    );
                    match &e.location_or_load_error {
                        Some(LocationOrLoadError::RepositoryLocation(loc)) => {
                            set_repositories(
                                &mut self.runs_by_instigation_total,
                                &loc.repositories,
                                &e.name,
                                &loc.name,
                            );
                        },
                        _ => {},
                    }
                    i = i + 1;
                }
                assert(es@.take(es@.len() as int) =~= es@);
            },
            WorkspaceOrError::Error => {},
        }
    }

    /// Replaces the daemon group: one heartbeat sample per daemon that
    /// reported one.
    pub fn set_daemon_metrics(&mut self, daemons: Vec<DaemonStatus>)
        requires
            old(self).wf(),
        ensures
            final(self).wf(),
            final(self).run_model() == old(self).run_model(),
            final(self).daemon_last_heartbeat_seconds@ == daemon_samples(daemons@),
            final(self).runs_by_instigation_total@ == old(self).runs_by_instigation_total@,
            final(self).workspace_location_last_update_seconds@ == old(
                self,
            ).workspace_location_last_update_seconds@,
            final(self).concurrency_slots@ == old(self).concurrency_slots@,
            final(self).concurrency_active_slots@ == old(self).concurrency_active_slots@,
            final(self).concurrency_pending_steps@ == old(self).concurrency_pending_steps@,
            final(self).concurrency_assigned_steps@ == old(self).concurrency_assigned_steps@,
    {
        self.daemon_last_heartbeat_seconds.clear();
        let mut i: usize = 0;
        while i < daemons.len()
            invariant
                i <= daemons@.len(),
                self.wf(),
                self.run_model() == old(self).run_model(),
                self.runs_by_instigation_total@ == old(self).runs_by_instigation_total@,
                self.workspace_location_last_update_seconds@ == old(
                    self,
                ).workspace_location_last_update_seconds@,
                self.concurrency_slots@ == old(self).concurrency_slots@,
                self.concurrency_active_slots@ == old(self).concurrency_active_slots@,
                self.concurrency_pending_steps@ == old(self).concurrency_pending_steps@,
                self.concurrency_assigned_steps@ == old(self).concurrency_assigned_steps@,
                self.daemon_last_heartbeat_seconds@ == daemon_samples(daemons@.take(i as int)),
            decreases daemons@.len() - i,
        {
            assert(daemons@.take(i + 1).drop_last() =~= daemons@.take(i as int));
            let d = &daemons[i];
            if let Some(h) = d.last_heartbeat_time {
                let label = DaemonStatusLabel::new(copy_daemon(d));
                self.daemon_last_heartbeat_seconds.set(&label.labels(), h);
            }
            i = i + 1;
        }
        assert(daemons@.take(daemons@.len() as int) =~= daemons@);
    }

    /// Replaces the concurrency group: the slot and step counts of each key.
    pub fn set_concurrency_metrics(&mut self, concurrency: Vec<ConcurrencyLimit>)
        requires
            old(self).wf(),
        ensures
            final(self).wf(),
            final(self).run_model() == old(self).run_model(),
            final(self).concurrency_slots@ == concurrency_samples(concurrency@, 0),
            final(self).concurrency_active_slots@ == concurrency_samples(concurrency@, 1),
            final(self).concurrency_pending_steps@ == concurrency_samples(concurrency@, 2),
            final(self).concurrency_assigned_steps@ == concurrency_samples(concurrency@, 3),
            final(self).runs_by_instigation_total@ == old(self).runs_by_instigation_total@,
            final(self).workspace_location_last_update_seconds@ == old(
                self,
            ).workspace_location_last_update_seconds@,
            final(self).daemon_last_heartbeat_seconds@ == old(self).daemon_last_heartbeat_seconds@,
    {
        self.concurrency_slots.clear();
        self.concurrency_active_slots.clear();
        self.concurrency_pending_steps.clear();
        self.concurrency_assigned_steps.clear();
        let mut i: usize = 0;
        while i < concurrency.len()
            invariant
                i <= concurrency@.len(),
                self.wf(),
                self.run_model() == old(self).run_model(),
                self.runs_by_instigation_total@ == old(self).runs_by_instigation_total@,
                self.workspace_location_last_update_seconds@ == old(
                    self,
                ).workspace_location_last_update_seconds@,
                self.daemon_last_heartbeat_seconds@ == old(self).daemon_last_heartbeat_seconds@,
                self.concurrency_slots@ == concurrency_samples(concurrency@.take(i as int), 0),
                self.concurrency_active_slots@ == concurrency_samples(concurrency@.take(i as int), 1),
                self.concurrency_pending_steps@ == concurrency_samples(concurrency@.take(i as int), 2),
                self.concurrency_assigned_steps@ == concurrency_samples(
                    concurrency@.take(i as int),
                    3,
                ),
            decreases concurrency@.len() - i,
        {
            assert(concurrency@.take(i + 1).drop_last() =~= concurrency@.take(i as int));
            let c = &concurrency[i];
            let label = concurrency_labels(&c.concurrency_key);
            self.concurrency_slots.set(&label, c.slot_count);
            self.concurrency_active_slots.set(&label, c.active_slot_count);
            self.concurrency_pending_steps.set(&label, c.pending_step_count);
            self.concurrency_assigned_steps.set(&label, c.assigned_step_count);
            i = i + 1;
        }
        assert(concurrency@.take(concurrency@.len() as int) =~= concurrency@);
    }
}

} // verus!
