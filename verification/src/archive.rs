//! The archive / verify / delete pipeline.
//!
//! The archiver is a state machine. The application owns the state, performs
//! the filesystem action the machine asks for, and hands the outcome back as
//! the next event; the machine alone decides what happens next. Its central
//! guarantee: originals may be deleted only after the freshly written
//! container was reopened and every candidate's base name was found among
//! its entries, and a dry run never asks for any mutation at all.

use vstd::prelude::*;
use crate::paths::{spec_base_name, base_name, str_eq};

verus! {

/// The timestamp with every `:` replaced by `_`, so it can stand in a file
/// name.
pub open spec fn spec_clean_timestamp(ts: Seq<char>) -> Seq<char> {
    ts.map_values(|c: char| if c == ':' { '_' } else { c })
}

/// The name of the container: `event_logs_<cleaned timestamp>.tar.xz`.
pub open spec fn spec_archive_file_name(ts: Seq<char>) -> Seq<char> {
    "event_logs_"@ + spec_clean_timestamp(ts) + ".tar.xz"@
}

/// Computes the container name for one run from the UTC timestamp.
pub fn archive_file_name(timestamp: &str) -> (r: String)
    ensures
        r@ == spec_archive_file_name(timestamp@),
{
    let mut r = "event_logs_".to_owned();
    let n = timestamp.unicode_len();
    let mut i: usize = 0;
    proof {
        assert(timestamp@.take(0) =~= Seq::<char>::empty());
        assert(r@ =~= "event_logs_"@ + spec_clean_timestamp(timestamp@.take(0)));
    }
    while i < n
        invariant
            0 <= i <= n == timestamp@.len(),
            r@ == "event_logs_"@ + spec_clean_timestamp(timestamp@.take(i as int)),
        decreases n - i,
    {
        let c = timestamp.get_char(i);
        if c == ':' {
            r.append("_");
            proof {
                reveal_strlit("_");
                assert("_"@ =~= seq!['_']);
            }
        } else {
            r.append(timestamp.substring_char(i, i + 1));
            proof {
                assert(timestamp@.subrange(i as int, i as int + 1) =~= seq![timestamp@[i as int]]);
            }
        }
        proof {
            let f = |ch: char| if ch == ':' { '_' } else { ch };
            assert(timestamp@.take(i as int + 1) =~= timestamp@.take(i as int).push(
                timestamp@[i as int],
            ));
            assert(spec_clean_timestamp(timestamp@.take(i as int + 1)) =~= spec_clean_timestamp(
                timestamp@.take(i as int),
            ).push(f(timestamp@[i as int])));
            assert(r@ =~= "event_logs_"@ + spec_clean_timestamp(timestamp@.take(i as int + 1)));
        }
        i += 1;
    }
    r.append(".tar.xz");
    proof {
        assert(timestamp@.take(n as int) =~= timestamp@);
        assert(r@ =~= spec_archive_file_name(timestamp@));
    }
    r
}

/// Whether some entry of the container carries the base name `name`.
pub open spec fn spec_entry_has_name(entries: Seq<Seq<char>>, name: Seq<char>) -> bool {
    exists|k: int| 0 <= k < entries.len() && spec_base_name(entries[k]) == name
}

/// The candidates whose base name is absent from the container's entries,
/// in candidate order.
pub open spec fn spec_missing_files(originals: Seq<Seq<char>>, entries: Seq<Seq<char>>) -> Seq<
    Seq<char>,
>
    decreases originals.len(),
{
    if originals.len() == 0 {
        Seq::empty()
    } else {
        spec_missing_files(originals.drop_last(), entries) + if !spec_entry_has_name(
            entries,
            spec_base_name(originals.last()),
        ) {
            seq![originals.last()]
        } else {
            Seq::empty()
        }
    }
}

/// The missing set is empty exactly when every candidate's base name is
/// present among the entries.
pub proof fn lemma_missing_empty_iff_all_present(originals: Seq<Seq<char>>, entries: Seq<Seq<char>>)
    ensures
        spec_missing_files(originals, entries).len() == 0 <==> (forall|k: int|
            0 <= k < originals.len() ==> spec_entry_has_name(
                entries,
                spec_base_name(originals[k]),
            )),
    decreases originals.len(),
{
    if originals.len() > 0 {
        lemma_missing_empty_iff_all_present(originals.drop_last(), entries);
        if spec_missing_files(originals, entries).len() == 0 {
            assert forall|k: int| 0 <= k < originals.len() implies spec_entry_has_name(
                entries,
                spec_base_name(originals[k]),
            ) by {
                if k < originals.len() - 1 {
                    assert(originals.drop_last()[k] == originals[k]);
                }
            }
        }
        if forall|k: int|
            0 <= k < originals.len() ==> spec_entry_has_name(
                entries,
                spec_base_name(originals[k]),
            ) {
            assert forall|k: int| 0 <= k < originals.drop_last().len() implies spec_entry_has_name(
                entries,
                spec_base_name(originals.drop_last()[k]),
            ) by {
                assert(originals.drop_last()[k] == originals[k]);
            }
            assert(spec_entry_has_name(entries, spec_base_name(originals.last())));
        }
    }
}

/// Tests whether `name` is among the base names of the container's entries.
fn entry_has_name(entries: &Vec<String>, name: &str) -> (r: bool)
    ensures
        r == spec_entry_has_name(entries.deep_view(), name@),
{
    let n = entries.len();
    let mut k: usize = 0;
    while k < n
        invariant
            0 <= k <= n == entries@.len(),
            forall|j: int| 0 <= j < k ==> spec_base_name(entries@[j]@) != name@,
        decreases n - k,
    {
        if str_eq(base_name(entries[k].as_str()), name) {
            proof {
                assert(entries.deep_view()[k as int] == entries@[k as int]@);
            }
            return true;
        }
        k += 1;
    }
    proof {
        assert forall|j: int| 0 <= j < entries.deep_view().len() implies spec_base_name(
            entries.deep_view()[j],
        ) != name@ by {
            assert(entries.deep_view()[j] == entries@[j]@);
        }
    }
    false
}

/// Checks the freshly listed container entries against the candidates and
/// returns the candidates whose base name is absent. An empty result means
/// the container conclusively holds every candidate.
pub fn verify_archive_contents(original_files: &Vec<String>, entries: &Vec<String>) -> (missing:
    Vec<String>)
    ensures
        missing.deep_view() == spec_missing_files(original_files.deep_view(), entries.deep_view()),
        missing@.len() == 0 <==> (forall|k: int|
            0 <= k < original_files@.len() ==> spec_entry_has_name(
                entries.deep_view(),
                spec_base_name(original_files@[k]@),
            )),
{
    let n = original_files.len();
    let mut missing: Vec<String> = Vec::new();
    let mut j: usize = 0;
    proof {
        assert(original_files.deep_view().take(0) =~= Seq::<Seq<char>>::empty());
        assert(missing.deep_view() =~= spec_missing_files(
            original_files.deep_view().take(0),
            entries.deep_view(),
        ));
    }
    while j < n
        invariant
            0 <= j <= n == original_files@.len(),
            n == original_files.deep_view().len(),
            missing.deep_view() == spec_missing_files(
                original_files.deep_view().take(j as int),
                entries.deep_view(),
            ),
        decreases n - j,
    {
        let ghost dv = original_files.deep_view();
        proof {
            assert(dv.take(j as int + 1).drop_last() =~= dv.take(j as int));
            assert(dv.take(j as int + 1).last() == dv[j as int]);
            assert(dv[j as int] == original_files@[j as int]@);
        }
        let orig = &original_files[j];
        if !entry_has_name(entries, base_name(orig.as_str())) {
            missing.push(orig.as_str().to_owned());
        }
        proof {
            assert(missing.deep_view() =~= spec_missing_files(
                dv.take(j as int + 1),
                entries.deep_view(),
            ));
        }
        j += 1;
    }
    proof {
        let dv = original_files.deep_view();
        let ev = entries.deep_view();
        assert(dv.take(n as int) =~= dv);
        lemma_missing_empty_iff_all_present(dv, ev);
        assert(missing@.len() == missing.deep_view().len());
        if missing.deep_view().len() == 0 {
            assert forall|k: int| 0 <= k < original_files@.len() implies spec_entry_has_name(
                ev,
                spec_base_name(original_files@[k]@),
            ) by {
                assert(dv[k] == original_files@[k]@);
                assert(spec_entry_has_name(ev, spec_base_name(dv[k])));
            }
        } else {
            if forall|k: int|
                0 <= k < original_files@.len() ==> spec_entry_has_name(
                    ev,
                    spec_base_name(original_files@[k]@),
                ) {
                assert forall|k: int| 0 <= k < dv.len() implies spec_entry_has_name(
                    ev,
                    spec_base_name(dv[k]),
                ) by {
                    assert(dv[k] == original_files@[k]@);
                    assert(spec_entry_has_name(ev, spec_base_name(original_files@[k]@)));
                }
                assert(spec_missing_files(dv, ev).len() == 0);
                assert(false);
            }
        }
    }
    missing
}

/// Where one archive run stands.
pub enum ArchiveState {
    /// Before anything happened.
    Init { dry_run: bool },
    /// The output directory is being created.
    Preparing { dry_run: bool, archive_name: String },
    /// The input directory is being scanned for candidates.
    Discovering { dry_run: bool, archive_name: String },
    /// Terminal: the planned work was reported and nothing was touched.
    DryRunReport { archive_name: String, candidates: Vec<String> },
    /// The container is being written.
    Building { archive_name: String, candidates: Vec<String> },
    /// The freshly written container is being reopened and listed.
    Verifying { archive_name: String, candidates: Vec<String> },
    /// Terminal: the container could not be written; originals preserved.
    BuildFailed,
    /// Terminal: verification succeeded; the originals in `files` go away.
    Deleting { files: Vec<String> },
    /// Terminal: verification failed; originals preserved, `missing` reported.
    Aborted { missing: Vec<String> },
}

/// The outcome of the last action, handed back by the application.
pub enum ArchiveEvent {
    /// The run begins; `timestamp` is the UTC time now at second precision.
    Start { timestamp: String },
    /// The output directory exists.
    Prepared,
    /// The scan handed back the candidate paths, in enumeration order.
    Discovered { candidates: Vec<String> },
    /// Container construction finished (`ok`) or failed.
    Built { ok: bool },
    /// The entry names listed from the reopened container, or nothing when
    /// it could not be reopened.
    Listed { entries: Option<Vec<String>> },
}

/// What the application must do next. The data it needs sits in the state
/// the machine hands back along with the action.
#[derive(Clone, Copy, PartialEq, Eq, Structural, Debug)]
pub enum ArchiveAction {
    /// Create the output directory, parents included.
    EnsureOutputDir,
    /// Enumerate the input directory and classify its entries.
    Scan,
    /// Print the planned container name and candidate list; touch nothing.
    ReportPlan,
    /// Write the container: the candidates, in order, under their base names.
    BuildContainer,
    /// Reopen the container and list its entry names.
    ListContainer,
    /// Delete every original file.
    DeleteOriginals,
    /// Report the verification failure and keep every original.
    PreserveOriginals,
    /// Report the failed construction and keep every original.
    ReportBuildFailure,
}

/// Which events a state is waiting for.
pub open spec fn spec_accepts(s: ArchiveState, e: ArchiveEvent) -> bool {
    match (s, e) {
        (ArchiveState::Init { .. }, ArchiveEvent::Start { .. }) => true,
        (ArchiveState::Preparing { .. }, ArchiveEvent::Prepared) => true,
        (ArchiveState::Discovering { .. }, ArchiveEvent::Discovered { .. }) => true,
        (ArchiveState::Building { .. }, ArchiveEvent::Built { .. }) => true,
        (ArchiveState::Verifying { .. }, ArchiveEvent::Listed { .. }) => true,
        _ => false,
    }
}

/// The transition relation of the archiver, in full.
pub open spec fn spec_step(
    s: ArchiveState,
    e: ArchiveEvent,
    s2: ArchiveState,
    a: ArchiveAction,
) -> bool {
    match (s, e) {
        (ArchiveState::Init { dry_run }, ArchiveEvent::Start { timestamp }) => {
            if dry_run {
                &&& s2 matches ArchiveState::Discovering { dry_run: d2, archive_name: n2 } && d2
                    == true && n2@ == spec_archive_file_name(timestamp@)
                &&& a == ArchiveAction::Scan
            } else {
                &&& s2 matches ArchiveState::Preparing { dry_run: d2, archive_name: n2 } && d2
                    == false && n2@ == spec_archive_file_name(timestamp@)
                &&& a == ArchiveAction::EnsureOutputDir
            }
        },
        (ArchiveState::Preparing { dry_run, archive_name }, ArchiveEvent::Prepared) => {
            &&& s2 matches ArchiveState::Discovering { dry_run: d2, archive_name: n2 } && d2
                == dry_run && n2@ == archive_name@
            &&& a == ArchiveAction::Scan
        },
        (
            ArchiveState::Discovering { dry_run, archive_name },
            ArchiveEvent::Discovered { candidates },
        ) => {
            if dry_run {
                &&& s2 matches ArchiveState::DryRunReport { archive_name: n2, candidates: c2 }
                    && n2@ == archive_name@ && c2.deep_view() == candidates.deep_view()
                &&& a == ArchiveAction::ReportPlan
            } else {
                &&& s2 matches ArchiveState::Building { archive_name: n2, candidates: c2 } && n2@
                    == archive_name@ && c2.deep_view() == candidates.deep_view()
                &&& a == ArchiveAction::BuildContainer
            }
        },
        (ArchiveState::Building { archive_name, candidates }, ArchiveEvent::Built { ok }) => {
            if ok {
                &&& s2 matches ArchiveState::Verifying { archive_name: n2, candidates: c2 } && n2@
                    == archive_name@ && c2.deep_view() == candidates.deep_view()
                &&& a == ArchiveAction::ListContainer
            } else {
                &&& s2 is BuildFailed
                &&& a == ArchiveAction::ReportBuildFailure
            }
        },
        (ArchiveState::Verifying { archive_name, candidates }, ArchiveEvent::Listed { entries }) => {
            match entries {
                Option::Some(ent) => {
                    if spec_missing_files(candidates.deep_view(), ent.deep_view()).len() == 0 {
                        &&& s2 matches ArchiveState::Deleting { files } && files.deep_view()
                            == candidates.deep_view()
                        &&& a == ArchiveAction::DeleteOriginals
                    } else {
                        &&& s2 matches ArchiveState::Aborted { missing } && missing.deep_view()
                            == spec_missing_files(candidates.deep_view(), ent.deep_view())
                        &&& a == ArchiveAction::PreserveOriginals
                    }
                },
                Option::None => {
                    &&& s2 matches ArchiveState::Aborted { missing } && missing@.len() == 0
                    &&& a == ArchiveAction::PreserveOriginals
                },
            }
        },
        _ => false,
    }
}

/// The states that belong to a dry run, in which nothing may be mutated.
pub open spec fn spec_state_dry(s: ArchiveState) -> bool {
    match s {
        ArchiveState::Init { dry_run } => dry_run,
        ArchiveState::Preparing { dry_run, .. } => dry_run,
        ArchiveState::Discovering { dry_run, .. } => dry_run,
        ArchiveState::DryRunReport { .. } => true,
        _ => false,
    }
}

/// The actions that change the filesystem.
pub open spec fn spec_action_mutates(a: ArchiveAction) -> bool {
    match a {
        ArchiveAction::EnsureOutputDir => true,
        ArchiveAction::BuildContainer => true,
        ArchiveAction::DeleteOriginals => true,
        _ => false,
    }
}

/// The state one archive run starts in.
pub fn archive_init(dry_run: bool) -> (r: ArchiveState)
    ensures
        r == (ArchiveState::Init { dry_run }),
{
    ArchiveState::Init { dry_run }
}

/// One step of the archiver: takes the outcome of the last action and
/// decides the next state and the next action. Deletion is asked for only
/// when the reopened container held every candidate's base name; any
/// verification shortfall preserves every original; and a dry run never
/// asks for a mutating action.
pub fn archive_event_logs(state: ArchiveState, event: ArchiveEvent) -> (r: (
    ArchiveState,
    ArchiveAction,
))
    requires
        spec_accepts(state, event),
    ensures
        spec_step(state, event, r.0, r.1),
        spec_state_dry(state) ==> !spec_action_mutates(r.1) && spec_state_dry(r.0),
{
    match (state, event) {
        (ArchiveState::Init { dry_run }, ArchiveEvent::Start { timestamp }) => {
            let name = archive_file_name(timestamp.as_str());
            if dry_run {
                (
                    ArchiveState::Discovering { dry_run: true, archive_name: name },
                    ArchiveAction::Scan,
                )
            } else {
                (
                    ArchiveState::Preparing { dry_run: false, archive_name: name },
                    ArchiveAction::EnsureOutputDir,
                )
            }
        },
        (ArchiveState::Preparing { dry_run, archive_name }, ArchiveEvent::Prepared) => {
            (ArchiveState::Discovering { dry_run, archive_name }, ArchiveAction::Scan)
        },
        (
            ArchiveState::Discovering { dry_run, archive_name },
            ArchiveEvent::Discovered { candidates },
        ) => {
            if dry_run {
                (
                    ArchiveState::DryRunReport { archive_name, candidates },
                    ArchiveAction::ReportPlan,
                )
            } else {
                (
                    ArchiveState::Building { archive_name, candidates },
                    ArchiveAction::BuildContainer,
                )
            }
        },
        (ArchiveState::Building { archive_name, candidates }, ArchiveEvent::Built { ok }) => {
            if ok {
                (
                    ArchiveState::Verifying { archive_name, candidates },
                    ArchiveAction::ListContainer,
                )
            } else {
                (ArchiveState::BuildFailed, ArchiveAction::ReportBuildFailure)
            }
        },
        (ArchiveState::Verifying { candidates, .. }, ArchiveEvent::Listed { entries }) => {
            match entries {
                Option::Some(ent) => {
                    let missing = verify_archive_contents(&candidates, &ent);
                    if missing.len() == 0 {
                        (
                            ArchiveState::Deleting { files: candidates },
                            ArchiveAction::DeleteOriginals,
                        )
                    } else {
                        (ArchiveState::Aborted { missing }, ArchiveAction::PreserveOriginals)
                    }
                },
                Option::None => {
                    (
                        ArchiveState::Aborted { missing: Vec::new() },
                        ArchiveAction::PreserveOriginals,
                    )
                },
            }
        },
        _ => {
            proof {
                assert(false);
            }
            (ArchiveState::BuildFailed, ArchiveAction::Scan)
        },
    }
}

/// A dry run never mutates: from any dry-run state, a step asks only for
/// read-only or reporting actions and lands again in a dry-run state.
pub proof fn lemma_dry_run_purity(
    s: ArchiveState,
    e: ArchiveEvent,
    s2: ArchiveState,
    a: ArchiveAction,
)
    requires
        spec_step(s, e, s2, a),
        spec_state_dry(s),
    ensures
        !spec_action_mutates(a),
        spec_state_dry(s2),
{
}

/// Deleting originals can only be asked for right after a verification in
/// which no candidate's base name was missing from the container, and what
/// is deleted is exactly the candidate set that was verified.
pub proof fn lemma_no_unverified_deletion(
    s: ArchiveState,
    e: ArchiveEvent,
    s2: ArchiveState,
    a: ArchiveAction,
)
    requires
        spec_step(s, e, s2, a),
        a == ArchiveAction::DeleteOriginals,
    ensures
        s is Verifying,
        ({
            &&& e matches ArchiveEvent::Listed { entries }
            &&& entries matches Some(ent)
            &&& s matches ArchiveState::Verifying { candidates, .. }
            &&& spec_missing_files(candidates.deep_view(), ent.deep_view()).len() == 0
            &&& s2 matches ArchiveState::Deleting { files }
            &&& files.deep_view() == candidates.deep_view()
        }),
{
}

} // verus!
