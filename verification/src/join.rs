//! Planning a group join: redirect each member zone's audio transport to the
//! master zone's first speaker, so they play in sync.
//!
//! The caller performs the planned control calls and reports each call's
//! result back; every decision — which speaker is the target, what transport
//! address each member is given, how each result is classified — is made and
//! verified here.

use vstd::prelude::*;
use vstd::string::StringExecFns;
use crate::directory::Directory;

verus! {

/// The transport-redirect address for a master with that unique identifier:
/// the vendor scheme prefix followed by the identifier.
pub open spec fn transport_uri_spec(master_uuid: Seq<char>) -> Seq<char> {
    "x-rincon:"@ + master_uuid
}

/// Builds the transport-redirect address embedding the master's unique
/// identifier.
pub fn transport_uri(master_uuid: &String) -> (r: String)
    ensures
        r@ == transport_uri_spec(master_uuid@),
{
    let s = String::from_str("x-rincon:");
    s.concat(master_uuid.as_str())
}

/// The planned action for one member zone, in the order the member names
/// were given.
pub enum JoinStep {
    /// Issue the transport-redirect control call on the device with this
    /// handle, with this transport address and an empty metadata payload.
    Redirect { member_handle: usize, uri: String },
    /// The member name is absent from the directory: report an unknown-zone
    /// error for this pairing and make no call for it.
    UnknownZone,
}

/// The mathematical model of a [`JoinStep`].
#[verifier::ext_equal]
pub ghost enum JoinStepView {
    Redirect { member_handle: nat, uri: Seq<char> },
    UnknownZone,
}

impl View for JoinStep {
    type V = JoinStepView;

    open spec fn view(&self) -> JoinStepView {
        match self {
            JoinStep::Redirect { member_handle, uri } => JoinStepView::Redirect {
                member_handle: *member_handle as nat,
                uri: uri@,
            },
            JoinStep::UnknownZone => JoinStepView::UnknownZone,
        }
    }
}

impl DeepView for JoinStep {
    type V = JoinStepView;

    open spec fn deep_view(&self) -> JoinStepView {
        self.view()
    }
}

/// The step planned for one member name: a redirect of the member zone's
/// first-listed speaker to the master's transport when the name is present,
/// an unknown-zone report when it is not.
pub open spec fn spec_step(dir: Directory, member: Seq<char>, master_uuid: Seq<char>) -> JoinStepView {
    if dir.contains_name(member) {
        JoinStepView::Redirect {
            member_handle: dir.members_of(member)[0].handle,
            uri: transport_uri_spec(master_uuid),
        }
    } else {
        JoinStepView::UnknownZone
    }
}

/// The whole plan for a member-name list: one step per member, each a
/// function of that member's name, the directory and the master's identifier
/// alone.
pub open spec fn spec_steps(
    dir: Directory,
    members: Seq<Seq<char>>,
    master_uuid: Seq<char>,
) -> Seq<JoinStepView> {
    members.map_values(|m: Seq<char>| spec_step(dir, m, master_uuid))
}

/// A join plan: the master's resolved unique identifier and one step per
/// member name, in the order given.
pub struct JoinPlan {
    pub master_uuid: String,
    pub steps: Vec<JoinStep>,
}

/// A fatal planning error: the join cannot proceed at all.
#[derive(Debug)]
pub enum JoinError {
    /// The master zone name is absent from the directory.
    UnknownMasterZone,
}

/// Plans a join: resolves the master zone to its first-listed speaker and
/// plans one step per member name, in the order given.
///
/// Fails exactly when the master name is absent from the directory; an
/// absent member name costs only that member its step, never the others.
pub fn plan_join(master: &String, members: &Vec<String>, dir: &Directory) -> (r: Result<
    JoinPlan,
    JoinError,
>)
    requires
        dir.wf(),
    ensures
        r is Err <==> !dir.contains_name(master@),
        r matches Err(e) ==> e == JoinError::UnknownMasterZone,
        r matches Ok(plan) ==> {
            &&& plan.master_uuid@ == dir.members_of(master@)[0].uuid
            &&& plan.steps.deep_view() == spec_steps(*dir, members.deep_view(), plan.master_uuid@)
        },
{
    let master_entry = match dir.get_zone(master) {
        Some(e) => e,
        None => {
            return Err(JoinError::UnknownMasterZone);
        },
    };
    proof {
        assert(master_entry@.members.len() > 0);
    }
    let master_uuid: String = master_entry.members[0].uuid.clone();
    proof {
        assert(master_entry@.members[0] == master_entry.members[0]@);
        assert(master_uuid@ == dir.members_of(master@)[0].uuid);
    }
    let mut steps: Vec<JoinStep> = Vec::new();
    let n = members.len();
    let mut i: usize = 0;
    while i < n
        invariant
            n == members.deep_view().len(),
            i <= n,
            dir.wf(),
            steps.deep_view().len() == i,
            forall|k: int|
                0 <= k < i ==> #[trigger] steps.deep_view()[k]
                    == spec_step(*dir, members.deep_view()[k], master_uuid@),
        decreases n - i,
    {
        let step: JoinStep;
        match dir.get_zone(&members[i]) {
            Some(e) => {
                proof {
                    assert(e@.members.len() > 0);
                }
                let uri = transport_uri(&master_uuid);
                let handle = e.members[0].handle;
                proof {
                    assert(e@.members[0] == e.members[0]@);
                }
                step = JoinStep::Redirect { member_handle: handle, uri };
            },
            None => {
                step = JoinStep::UnknownZone;
            },
        }
        proof {
            assert(members.deep_view()[i as int] == members@[i as int]@);
            assert(step@ == spec_step(*dir, members.deep_view()[i as int], master_uuid@));
        }
        let ghost prev = steps.deep_view();
        steps.push(step);
        proof {
            assert(steps.deep_view() =~= prev.push(step@));
        }
        i = i + 1;
    }
    proof {
        assert(steps.deep_view() =~= spec_steps(*dir, members.deep_view(), master_uuid@));
    }
    Ok(JoinPlan { master_uuid, steps })
}

/// What one transport-redirect control call came to, as the caller saw it.
pub enum ControlResult {
    /// The call succeeded: the member now plays from the master's transport.
    Success,
    /// The device answered with a negative acknowledgement: the target was
    /// not found on the network (it vanished after discovery).
    NotFound,
    /// The call failed in transport: a network or control error, with the
    /// caller's description of it.
    TransportError(String),
}

/// The reported outcome of one member's join.
pub enum JoinOutcome {
    /// The member was joined to the master.
    Joined,
    /// Soft failure: the target zone was not found on the network.
    TargetNotFound,
    /// Hard failure: the control call failed in transport.
    TransportFailed(String),
}

/// How one control result is classified: success, soft failure, or hard
/// failure, each reported distinctly.
pub open spec fn spec_outcome(ev: ControlResult) -> JoinOutcome {
    match ev {
        ControlResult::Success => JoinOutcome::Joined,
        ControlResult::NotFound => JoinOutcome::TargetNotFound,
        ControlResult::TransportError(m) => JoinOutcome::TransportFailed(m),
    }
}

/// Classifies one member's control result. The outcome depends on that
/// member's own call alone, so one member's failure never changes what is
/// reported for another.
pub fn join_outcome(ev: ControlResult) -> (r: JoinOutcome)
    ensures
        r == spec_outcome(ev),
{
    match ev {
        ControlResult::Success => JoinOutcome::Joined,
        ControlResult::NotFound => JoinOutcome::TargetNotFound,
        ControlResult::TransportError(m) => JoinOutcome::TransportFailed(m),
    }
}

/// Law: the plan treats members independently. Each member's step is decided
/// by its own name, the directory and the master's identifier alone — in two
/// commands whose member lists agree at a position, the steps at that
/// position agree, whatever the other members are and however their control
/// calls end.
pub proof fn lemma_member_steps_independent(
    dir: Directory,
    members_a: Seq<Seq<char>>,
    members_b: Seq<Seq<char>>,
    master_uuid: Seq<char>,
    i: int,
)
    requires
        0 <= i < members_a.len(),
        0 <= i < members_b.len(),
        members_a[i] == members_b[i],
    ensures
        spec_steps(dir, members_a, master_uuid)[i] == spec_steps(dir, members_b, master_uuid)[i],
        spec_steps(dir, members_a, master_uuid)[i] == spec_step(dir, members_a[i], master_uuid),
{
}

/// Law: every redirect planned for one join command targets the same master.
/// A planned step for a member name present in the directory is a redirect of
/// that zone's first-listed speaker, and its transport address embeds the
/// master's unique identifier.
pub proof fn lemma_redirects_share_target(dir: Directory, member: Seq<char>, master_uuid: Seq<char>)
    requires
        dir.contains_name(member),
    ensures
        spec_step(dir, member, master_uuid) == (JoinStepView::Redirect {
            member_handle: dir.members_of(member)[0].handle,
            uri: transport_uri_spec(master_uuid),
        }),
{
}

} // verus!
