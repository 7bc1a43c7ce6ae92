//! Managing an installation: scheduling a trial boot, enabling or disabling
//! the addon in the persistent boot order, and repairing that order.
//!
//! The procedure reads the installation record and the firmware listing,
//! refuses when the recorded entry is not (only) the addon's, checks the
//! addon image's checksum unless disabling, and then edits the firmware
//! settings: `test` schedules the addon for the next boot only and leaves
//! a one-time boot of another entry alone; `enable` and `disable` record
//! the choice and rewrite the boot order; `repair` rewrites it when enabled.

use vstd::prelude::*;
use vstd::string::*;
use crate::bootmgr::{
    boot_next, boot_order, desired, desired_order, find_entry, listed_boot_next,
    listed_boot_order, listed_entry, without,
};
use crate::cli::ManageAction;
use crate::digest::{hash, hex_lower, sha256};
use crate::error::Error;
use crate::procedure::{Answer, AnswerView, Place, PlaceView, Request, RequestView, State, StateView, request_views};
use crate::text::{ascii_lower, chars_of, eq_ignore_case, owned, same_strings, string_views};

verus! {

broadcast use vstd::string::group_string_axioms;

/// The items of `items` separated by commas (`join(",")`).
pub open spec fn comma_list(items: Seq<Seq<char>>) -> Seq<char>
    decreases items.len(),
{
    if items.len() == 0 {
        Seq::<char>::empty()
    } else if items.len() == 1 {
        items[0]
    } else {
        comma_list(items.drop_last()) + seq![','] + items.last()
    }
}

/// The line printed after a trial boot was scheduled.
pub open spec fn trial_message(entry: Seq<char>) -> Seq<char> {
    "next boot uses "@ + entry + " once; normal boot order is unchanged"@
}

/// The line printed after the persistent selection was handled.
pub open spec fn selection_message(enabled: bool) -> Seq<char> {
    "persistent addon selection: "@ + (if enabled {
        "true"@
    } else {
        "false"@
    }) + "; official target exists"@
}

/// Whether `next`, the entry scheduled for the next boot, is `entry`.
pub open spec fn is_scheduled(next: Option<Seq<char>>, entry: Seq<char>) -> bool {
    next matches Some(n) && ascii_lower(n) == ascii_lower(entry)
}

/// The record after `action`: `enable` and `disable` record the choice.
pub open spec fn recorded(action: ManageAction, state: StateView) -> StateView {
    StateView {
        enabled: if action == ManageAction::Repair {
            state.enabled
        } else {
            action == ManageAction::Enable
        },
        ..state
    }
}

/// The end of a management action other than `test`: clear the addon's own
/// pending trial when disabling, report the selection, and succeed.
pub open spec fn closing(action: ManageAction, entry: Seq<char>, enabled: bool, listing: Seq<char>) -> Seq<RequestView> {
    (if action == ManageAction::Disable && is_scheduled(listed_boot_next(listing), entry) {
        seq![RequestView::Run(seq!["efibootmgr"@, "--delete-bootnext"@])]
    } else {
        Seq::<RequestView>::empty()
    }) + seq![
        RequestView::Print(selection_message(enabled)),
        RequestView::Finish(Ok(())),
    ]
}

/// The boot order edit of a management action other than `test`, for the
/// addon's entry `entry` and the selection `enabled` as recorded after the
/// action.
pub open spec fn order_edit(action: ManageAction, entry: Seq<char>, enabled: bool, listing: Seq<char>) -> Seq<RequestView> {
    match listed_boot_order(listing) {
        Err(e) => seq![RequestView::Finish(Err(e))],
        Ok(order) => if enabled || action == ManageAction::Disable {
            let wanted = desired(order, entry, enabled);
            if wanted.len() == 0 {
                seq![RequestView::Finish(Err(Error::EmptyBootOrder))]
            } else if wanted != order {
                seq![RequestView::Run(seq!["efibootmgr"@, "--bootorder"@, comma_list(wanted)])]
                    + closing(action, entry, enabled, listing)
            } else {
                closing(action, entry, enabled, listing)
            }
        } else {
            closing(action, entry, enabled, listing)
        },
    }
}

/// The work that remains once the record, the listing and (unless
/// disabling) the addon image have been checked.
pub open spec fn plan(action: ManageAction, state: StateView, listing: Seq<char>) -> Seq<RequestView> {
    if action == ManageAction::Test {
        let next = listed_boot_next(listing);
        if next is Some && !is_scheduled(next, state.entry) {
            seq![RequestView::Finish(Err(Error::OtherBootNext))]
        } else {
            seq![
                RequestView::Run(seq!["efibootmgr"@, "--bootnext"@, state.entry]),
                RequestView::Print(trial_message(state.entry)),
                RequestView::Finish(Ok(())),
            ]
        }
    } else if action == ManageAction::Repair {
        order_edit(action, state.entry, state.enabled, listing)
    } else {
        seq![RequestView::SaveState(recorded(action, state))] + order_edit(
            action,
            state.entry,
            recorded(action, state).enabled,
            listing,
        )
    }
}

/// The remaining work always ends with the procedure's outcome.
pub proof fn lemma_plan_nonempty(action: ManageAction, state: StateView, listing: Seq<char>)
    ensures
        plan(action, state, listing).len() > 0,
{
    let entry = state.entry;
    let enabled = recorded(action, state).enabled;
    assert(closing(action, entry, enabled, listing).len() >= 2);
    assert(closing(action, entry, state.enabled, listing).len() >= 2);
    assert(order_edit(action, entry, enabled, listing).len() >= 1);
    assert(order_edit(action, entry, state.enabled, listing).len() >= 1);
}

proof fn lemma_commands_differ()
    ensures
        "--bootnext"@ != "--bootorder"@,
        "--bootnext"@ != "--delete-bootnext"@,
        "--bootorder"@ != "--delete-bootnext"@,
{
    reveal_strlit("--bootnext");
    reveal_strlit("--bootorder");
    reveal_strlit("--delete-bootnext");
    assert("--bootnext"@.len() != "--bootorder"@.len());
    assert("--bootnext"@.len() != "--delete-bootnext"@.len());
    assert("--bootorder"@.len() != "--delete-bootnext"@.len());
}

/// The commands that the end of a non-trial action runs: at most the
/// clearing of the addon's own pending trial, when disabling.
proof fn lemma_closing_commands(action: ManageAction, entry: Seq<char>, enabled: bool, listing: Seq<char>)
    ensures
        forall|i: int|
            0 <= i < closing(action, entry, enabled, listing).len() ==> {
                let r = #[trigger] closing(action, entry, enabled, listing)[i];
                &&& !(r is SaveState)
                &&& r is Run ==> r->Run_0 == seq!["efibootmgr"@, "--delete-bootnext"@]
                    && action == ManageAction::Disable && is_scheduled(listed_boot_next(listing), entry)
            },
{
}

/// The commands of a boot order edit: a write of the order the addon's
/// selection calls for, when it differs from the current order and is not
/// empty, then the end of the action.
proof fn lemma_order_edit_commands(action: ManageAction, entry: Seq<char>, enabled: bool, listing: Seq<char>)
    ensures
        forall|i: int|
            0 <= i < order_edit(action, entry, enabled, listing).len() ==> {
                let r = #[trigger] order_edit(action, entry, enabled, listing)[i];
                &&& !(r is SaveState)
                &&& r is Run ==> (r->Run_0 == seq!["efibootmgr"@, "--delete-bootnext"@]
                    && action == ManageAction::Disable && is_scheduled(listed_boot_next(listing), entry))
                    || (listed_boot_order(listing) is Ok && {
                    let order = listed_boot_order(listing)->Ok_0;
                    let wanted = desired(order, entry, enabled);
                    &&& r->Run_0 == seq!["efibootmgr"@, "--bootorder"@, comma_list(wanted)]
                    &&& wanted.len() > 0
                    &&& wanted != order
                })
            },
{
    lemma_closing_commands(action, entry, enabled, listing);
    match listed_boot_order(listing) {
        Err(e) => {},
        Ok(order) => {
            if enabled || action == ManageAction::Disable {
                let wanted = desired(order, entry, enabled);
                if wanted.len() != 0 && wanted != order {
                    let c = closing(action, entry, enabled, listing);
                    let first = seq![RequestView::Run(seq!["efibootmgr"@, "--bootorder"@, comma_list(wanted)])];
                    assert forall|i: int| 0 <= i < (first + c).len() implies (first + c)[i] == if i == 0 {
                        first[0]
                    } else {
                        c[i - 1]
                    } by {}
                }
            }
        },
    }
}

/// A trial boot never replaces a one-time boot of another entry, and
/// never touches the recorded selection or the persistent boot order: the
/// only command it runs schedules the addon's entry for the next boot, and
/// only when no other entry is scheduled.
pub proof fn lemma_trial_keeps_settings(state: StateView, listing: Seq<char>)
    ensures
        forall|i: int|
            0 <= i < plan(ManageAction::Test, state, listing).len() ==> {
                let r = #[trigger] plan(ManageAction::Test, state, listing)[i];
                &&& !(r is SaveState)
                &&& r is Run ==> r->Run_0 == seq!["efibootmgr"@, "--bootnext"@, state.entry]
                    && (listed_boot_next(listing) is None || is_scheduled(
                    listed_boot_next(listing),
                    state.entry,
                ))
            },
{
}

/// Only disabling clears a pending trial, and only the addon's own.
pub proof fn lemma_only_own_trial_cleared(action: ManageAction, state: StateView, listing: Seq<char>)
    ensures
        forall|i: int|
            0 <= i < plan(action, state, listing).len() && #[trigger] plan(action, state, listing)[i]
                == RequestView::Run(seq!["efibootmgr"@, "--delete-bootnext"@]) ==> action
                == ManageAction::Disable && is_scheduled(listed_boot_next(listing), state.entry),
{
    lemma_commands_differ();
    if action != ManageAction::Test {
        let enabled = recorded(action, state).enabled;
        lemma_order_edit_commands(action, state.entry, enabled, listing);
        lemma_order_edit_commands(action, state.entry, state.enabled, listing);
        let edit = order_edit(action, state.entry, enabled, listing);
        if action != ManageAction::Repair {
            let first = seq![RequestView::SaveState(recorded(action, state))];
            assert forall|i: int| 0 < i < (first + edit).len() implies (first + edit)[i] == edit[i - 1] by {}
        }
        assert forall|i: int|
            0 <= i < plan(action, state, listing).len() && #[trigger] plan(action, state, listing)[i]
                == RequestView::Run(seq!["efibootmgr"@, "--delete-bootnext"@]) implies action
                == ManageAction::Disable && is_scheduled(listed_boot_next(listing), state.entry) by {
            if action != ManageAction::Repair {
                assert(i > 0);
                let r = edit[i - 1];
                assert(seq!["efibootmgr"@, "--delete-bootnext"@][1] != seq!["efibootmgr"@, "--bootorder"@, comma_list(desired(listed_boot_order(listing)->Ok_0, state.entry, enabled))][1]);
            } else {
                let r = edit[i];
                assert(seq!["efibootmgr"@, "--delete-bootnext"@][1] != seq!["efibootmgr"@, "--bootorder"@, comma_list(desired(listed_boot_order(listing)->Ok_0, state.entry, state.enabled))][1]);
            }
        }
    } else {
        assert forall|i: int|
            0 <= i < plan(action, state, listing).len() && #[trigger] plan(action, state, listing)[i]
                == RequestView::Run(seq!["efibootmgr"@, "--delete-bootnext"@]) implies false by {
            let r = plan(action, state, listing)[i];
            assert(r->Run_0[1] == "--delete-bootnext"@);
        }
    }
}

/// A boot order is only written when it differs from the current one and
/// is not empty, and it always keeps every entry other than the addon's in
/// its previous order, the addon's entry first when it is enabled.
pub proof fn lemma_written_orders_keep_others(action: ManageAction, state: StateView, listing: Seq<char>)
    ensures
        forall|i: int|
            0 <= i < plan(action, state, listing).len() ==> {
                let r = #[trigger] plan(action, state, listing)[i];
                r is Run && r->Run_0.len() == 3 && r->Run_0[1] == "--bootorder"@ ==> {
                    &&& listed_boot_order(listing) is Ok
                    &&& exists|wanted: Seq<Seq<char>>| {
                        &&& r->Run_0[2] == comma_list(wanted)
                        &&& wanted.len() > 0
                        &&& wanted != listed_boot_order(listing)->Ok_0
                        &&& without(wanted, state.entry) == without(listed_boot_order(listing)->Ok_0, state.entry)
                        &&& wanted == desired(listed_boot_order(listing)->Ok_0, state.entry, recorded(action, state).enabled)
                    }
                }
            },
{
    lemma_commands_differ();
    if action != ManageAction::Test {
        let enabled = recorded(action, state).enabled;
        lemma_order_edit_commands(action, state.entry, enabled, listing);
        let edit = order_edit(action, state.entry, enabled, listing);
        if action != ManageAction::Repair {
            let first = seq![RequestView::SaveState(recorded(action, state))];
            assert forall|i: int| 0 < i < (first + edit).len() implies (first + edit)[i] == edit[i - 1] by {}
        }
        assert forall|i: int|
            0 <= i < plan(action, state, listing).len() implies {
                let r = #[trigger] plan(action, state, listing)[i];
                r is Run && r->Run_0.len() == 3 && r->Run_0[1] == "--bootorder"@ ==> {
                    &&& listed_boot_order(listing) is Ok
                    &&& exists|wanted: Seq<Seq<char>>| {
                        &&& r->Run_0[2] == comma_list(wanted)
                        &&& wanted.len() > 0
                        &&& wanted != listed_boot_order(listing)->Ok_0
                        &&& without(wanted, state.entry) == without(listed_boot_order(listing)->Ok_0, state.entry)
                        &&& wanted == desired(listed_boot_order(listing)->Ok_0, state.entry, recorded(action, state).enabled)
                    }
                }
            } by {
            let r = plan(action, state, listing)[i];
            if r is Run && r->Run_0.len() == 3 && r->Run_0[1] == "--bootorder"@ {
                let e = if action != ManageAction::Repair { edit[i - 1] } else { edit[i] };
                assert(e == r);
                assert(r->Run_0 != seq!["efibootmgr"@, "--delete-bootnext"@]);
                let order = listed_boot_order(listing)->Ok_0;
                let wanted = desired(order, state.entry, enabled);
                crate::bootmgr::lemma_other_choices_preserved(order, state.entry, enabled);
                assert(r->Run_0[2] == comma_list(wanted));
            }
        }
    } else {
        assert forall|i: int|
            0 <= i < plan(action, state, listing).len() implies {
                let r = #[trigger] plan(action, state, listing)[i];
                !(r is Run && r->Run_0.len() == 3 && r->Run_0[1] == "--bootorder"@)
            } by {
            let r = plan(action, state, listing)[i];
            if r is Run {
                assert(r->Run_0[1] == "--bootnext"@);
            }
        }
    }
}

/// An action other than `disable` never goes on with an addon image whose
/// checksum differs from the one recorded: reading such an image ends the
/// procedure with `ImageChanged`, before any boot setting is touched.
pub proof fn lemma_changed_image_stops(action: ManageAction, state: StateView, listing: Seq<char>, data: Seq<u8>)
    requires
        action != ManageAction::Disable,
        hex_lower(sha256(data)) != state.image_sha256,
    ensures
        manage_step(
            ManagementView { action, stage: ManageStageView::ReadingImage(state, listing) },
            AnswerView::Bytes(data),
        ) == (
            ManagementView { action, stage: ManageStageView::Finished },
            RequestView::Finish(Err(Error::ImageChanged)),
        ),
{
}

/// Until the addon image has been read, an action other than `disable`
/// runs no command but the firmware listing (`efibootmgr -v`), saves
/// nothing and has no boot setting queued: it reads the record, then the
/// listing, then the official Limine image, then the addon image of the
/// recorded ESP, unless it stops first.
pub proof fn lemma_image_read_before_changes(m: ManagementView, answer: AnswerView)
    requires
        m.action != ManageAction::Disable,
        takes(m, answer),
        m.stage is LoadingState || m.stage is Listing || m.stage is ReadingOfficial,
    ensures
        manage_step(m, answer).1 is Run ==> manage_step(m, answer).1 == RequestView::Run(
            seq!["efibootmgr"@, "-v"@],
        ),
        !(manage_step(m, answer).1 is SaveState),
        !(manage_step(m, answer).0.stage is Draining),
        m.stage matches ManageStageView::Listing(state) ==> (manage_step(m, answer).1 is Finish
            || manage_step(m, answer).1 == RequestView::Read(PlaceView::OfficialLoader(state.esp))),
        m.stage matches ManageStageView::ReadingOfficial(state, listing) ==> manage_step(m, answer)
            == (
            ManagementView { action: m.action, stage: ManageStageView::ReadingImage(state, listing) },
            RequestView::Read(PlaceView::AddonImage(state.esp)),
        ),
{
}

/// Management never writes a file: its only outside changes are the
/// installation record and the firmware settings it edits by command.
pub proof fn lemma_manage_writes_no_file(m: ManagementView, answer: AnswerView)
    requires
        takes(m, answer),
        m.stage matches ManageStageView::Draining(q) ==> forall|i: int|
            0 <= i < q.len() ==> !(#[trigger] q[i] is Write),
    ensures
        !(manage_step(m, answer).1 is Write),
        manage_step(m, answer).0.stage matches ManageStageView::Draining(q) ==> forall|i: int|
            0 <= i < q.len() ==> !(#[trigger] q[i] is Write),
{
    match m.stage {
        ManageStageView::Listing(state) => {
            lemma_plan_writes_nothing(m.action, state, answer->Output_0);
        },
        ManageStageView::ReadingImage(state, listing) => {
            lemma_plan_writes_nothing(m.action, state, listing);
        },
        _ => {},
    }
}

proof fn lemma_plan_writes_nothing(action: ManageAction, state: StateView, listing: Seq<char>)
    ensures
        forall|i: int| 0 <= i < plan(action, state, listing).len() ==> !(#[trigger] plan(action, state, listing)[i] is Write),
{
    if action != ManageAction::Test {
        let enabled = recorded(action, state).enabled;
        lemma_order_edit_commands(action, state.entry, enabled, listing);
        lemma_order_edit_commands(action, state.entry, state.enabled, listing);
        let edit = order_edit(action, state.entry, enabled, listing);
        assert forall|i: int| 0 <= i < edit.len() implies !(#[trigger] edit[i] is Write) by {
            let r = edit[i];
            if r is Write {
                assert(!(r is Run));
            }
        }
        if action != ManageAction::Repair {
            let first = seq![RequestView::SaveState(recorded(action, state))];
            assert forall|i: int| 0 < i < (first + edit).len() implies (first + edit)[i] == edit[i - 1] by {}
        }
    }
}

/// Where a management procedure stands.
#[derive(Debug)]
pub enum ManageStage {
    /// Waiting for the installation record.
    LoadingState,
    /// Waiting for the firmware listing.
    Listing(State),
    /// Waiting for the official Limine image to be read.
    ReadingOfficial(State, String),
    /// Waiting for the addon image.
    ReadingImage(State, String),
    /// Handing out the remaining requests, in order.
    Draining(Vec<Request>),
    /// Over.
    Finished,
}

/// The contents of a `ManageStage`.
pub enum ManageStageView {
    LoadingState,
    Listing(StateView),
    ReadingOfficial(StateView, Seq<char>),
    ReadingImage(StateView, Seq<char>),
    Draining(Seq<RequestView>),
    Finished,
}

/// A management procedure in progress.
#[derive(Debug)]
pub struct Management {
    action: ManageAction,
    stage: ManageStage,
}

/// The contents of a `Management`.
pub struct ManagementView {
    pub action: ManageAction,
    pub stage: ManageStageView,
}

impl View for Management {
    type V = ManagementView;

    closed spec fn view(&self) -> ManagementView {
        ManagementView {
            action: self.action,
            stage: match &self.stage {
                ManageStage::LoadingState => ManageStageView::LoadingState,
                ManageStage::Listing(s) => ManageStageView::Listing(s@),
                ManageStage::ReadingOfficial(s, l) => ManageStageView::ReadingOfficial(s@, l@),
                ManageStage::ReadingImage(s, l) => ManageStageView::ReadingImage(s@, l@),
                ManageStage::Draining(q) => ManageStageView::Draining(request_views(q@)),
                ManageStage::Finished => ManageStageView::Finished,
            },
        }
    }
}

/// Hands out the first of `queue`, which is not empty.
pub open spec fn drain(action: ManageAction, queue: Seq<RequestView>) -> (ManagementView, RequestView) {
    let first = queue[0];
    let stage = if first is Finish || queue.len() == 1 {
        ManageStageView::Finished
    } else {
        ManageStageView::Draining(queue.drop_first())
    };
    (ManagementView { action, stage }, first)
}

/// What follows the firmware listing `listing` for the record `state`.
pub open spec fn after_listing(action: ManageAction, state: StateView, listing: Seq<char>) -> (ManagementView, RequestView) {
    match listed_entry(listing) {
        Err(e) => (
            ManagementView { action, stage: ManageStageView::Finished },
            RequestView::Finish(Err(e)),
        ),
        Ok(found) => if found != Some(state.entry) {
            (
                ManagementView { action, stage: ManageStageView::Finished },
                RequestView::Finish(Err(Error::EntryChanged)),
            )
        } else if action != ManageAction::Disable {
            (
                ManagementView { action, stage: ManageStageView::ReadingOfficial(state, listing) },
                RequestView::Read(PlaceView::OfficialLoader(state.esp)),
            )
        } else {
            drain(action, plan(action, state, listing))
        },
    }
}

/// Whether a procedure standing at `m` takes `answer` next.
pub open spec fn takes(m: ManagementView, answer: AnswerView) -> bool {
    match m.stage {
        ManageStageView::LoadingState => answer is Loaded,
        ManageStageView::Listing(_) => answer is Output,
        ManageStageView::ReadingOfficial(_, _) => answer is Bytes,
        ManageStageView::ReadingImage(_, _) => answer is Bytes,
        ManageStageView::Draining(q) => q.len() > 0,
        ManageStageView::Finished => false,
    }
}

/// One step of a management procedure: where it goes and what it asks
/// for, given the answer to its previous request.
pub open spec fn manage_step(m: ManagementView, answer: AnswerView) -> (ManagementView, RequestView) {
    let action = m.action;
    match m.stage {
        ManageStageView::LoadingState => {
            let state = answer->Loaded_0;
            (
                ManagementView { action, stage: ManageStageView::Listing(state) },
                RequestView::Run(seq!["efibootmgr"@, "-v"@]),
            )
        },
        ManageStageView::Listing(state) => after_listing(action, state, answer->Output_0),
        ManageStageView::ReadingOfficial(state, listing) => (
            ManagementView { action, stage: ManageStageView::ReadingImage(state, listing) },
            RequestView::Read(PlaceView::AddonImage(state.esp)),
        ),
        ManageStageView::ReadingImage(state, listing) => if hex_lower(sha256(answer->Bytes_0))
            != state.image_sha256 {
            (
                ManagementView { action, stage: ManageStageView::Finished },
                RequestView::Finish(Err(Error::ImageChanged)),
            )
        } else {
            drain(action, plan(action, state, listing))
        },
        ManageStageView::Draining(queue) => drain(action, queue),
        ManageStageView::Finished => (m, RequestView::Finish(Ok(()))),
    }
}

/// The command line `program first`.
fn command2(program: &str, first: &str) -> (args: Vec<String>)
    ensures
        string_views(args@) == seq![program@, first@],
{
    let mut args: Vec<String> = Vec::new();
    args.push(owned(program));
    args.push(owned(first));
    assert(string_views(args@) =~= seq![program@, first@]);
    args
}

/// The command line `program first second`.
fn command3(program: &str, first: &str, second: String) -> (args: Vec<String>)
    ensures
        string_views(args@) == seq![program@, first@, second@],
{
    let mut args: Vec<String> = Vec::new();
    args.push(owned(program));
    args.push(owned(first));
    args.push(second);
    assert(string_views(args@) =~= seq![program@, first@, second@]);
    args
}

/// The strings of `items` separated by commas.
pub fn comma_joined(items: &[String]) -> (text: String)
    ensures
        text@ == comma_list(string_views(items@)),
{
    let ghost all = string_views(items@);
    let mut text = String::new();
    let mut i: usize = 0;
    while i < items.len()
        invariant
            i <= items.len(),
            all == string_views(items@),
            text@ == comma_list(all.take(i as int)),
        decreases items.len() - i,
    {
        assert(all.take(i + 1).drop_last() =~= all.take(i as int));
        if i > 0 {
            text.append(",");
        }
        text.append(items[i].as_str());
        i = i + 1;
        proof {
            reveal_strlit(",");
            if i == 1 {
                assert(text@ =~= comma_list(all.take(1)));
            } else {
                assert(text@ =~= comma_list(all.take(i as int)));
            }
        }
    }
    assert(all.take(i as int) =~= all);
    text
}

fn selection_line(enabled: bool) -> (line: String)
    ensures
        line@ == selection_message(enabled),
{
    let mut line = owned("persistent addon selection: ");
    if enabled {
        line.append("true");
    } else {
        line.append("false");
    }
    line.append("; official target exists");
    line
}

fn closing_requests(action: ManageAction, entry: &String, enabled: bool, listing: &str) -> (out: Vec<Request>)
    ensures
        request_views(out@) == closing(action, entry@, enabled, listing@),
{
    let mut out: Vec<Request> = Vec::new();
    if action == ManageAction::Disable {
        let scheduled = match boot_next(listing) {
            Some(next) => eq_ignore_case(&next, &chars_of(entry.as_str())),
            None => false,
        };
        if scheduled {
            out.push(Request::Run(command2("efibootmgr", "--delete-bootnext")));
        }
    }
    out.push(Request::Print(selection_line(enabled)));
    out.push(Request::Finish(Ok(())));
    assert(request_views(out@) =~= closing(action, entry@, enabled, listing@));
    out
}

fn finish_with(outcome: Result<(), Error>) -> (out: Vec<Request>)
    ensures
        request_views(out@) == seq![RequestView::Finish(outcome)],
{
    let mut out: Vec<Request> = Vec::new();
    out.push(Request::Finish(outcome));
    assert(request_views(out@) =~= seq![RequestView::Finish(outcome)]);
    out
}

fn order_edit_requests(action: ManageAction, entry: &String, enabled: bool, listing: &str) -> (out: Vec<Request>)
    ensures
        request_views(out@) == order_edit(action, entry@, enabled, listing@),
{
    let order = match boot_order(listing) {
        Err(e) => return finish_with(Err(e)),
        Ok(o) => o,
    };
    if enabled || action == ManageAction::Disable {
        let wanted = desired_order(&order, entry.as_str(), enabled);
        if wanted.len() == 0 {
            return finish_with(Err(Error::EmptyBootOrder));
        }
        let mut rest = closing_requests(action, entry, enabled, listing);
        if !same_strings(&wanted, &order) {
            let mut out: Vec<Request> = Vec::new();
            out.push(Request::Run(command3("efibootmgr", "--bootorder", comma_joined(&wanted))));
            let ghost first = out@;
            let ghost tail = rest@;
            out.append(&mut rest);
            assert(request_views(out@) =~= request_views(first) + request_views(tail));
            out
        } else {
            rest
        }
    } else {
        closing_requests(action, entry, enabled, listing)
    }
}

fn trial_line(entry: &String) -> (line: String)
    ensures
        line@ == trial_message(entry@),
{
    let mut line = owned("next boot uses ");
    line.append(entry.as_str());
    line.append(" once; normal boot order is unchanged");
    line
}

/// The work that remains once the checks passed.
fn plan_requests(action: ManageAction, state: State, listing: &str) -> (out: Vec<Request>)
    ensures
        request_views(out@) == plan(action, state@, listing@),
{
    if action == ManageAction::Test {
        let clear = match boot_next(listing) {
            None => true,
            Some(next) => eq_ignore_case(&next, &chars_of(state.entry.as_str())),
        };
        if !clear {
            return finish_with(Err(Error::OtherBootNext));
        }
        let mut out: Vec<Request> = Vec::new();
        out.push(Request::Run(command3("efibootmgr", "--bootnext", state.entry.clone())));
        out.push(Request::Print(trial_line(&state.entry)));
        out.push(Request::Finish(Ok(())));
        assert(request_views(out@) =~= plan(action, state@, listing@));
        out
    } else if action == ManageAction::Repair {
        order_edit_requests(action, &state.entry, state.enabled, listing)
    } else {
        let ghost before = state@;
        let enabled = action == ManageAction::Enable;
        let entry = state.entry.clone();
        let record = State {
            esp: state.esp,
            enabled,
            original_order: state.original_order,
            entry: state.entry,
            image_sha256: state.image_sha256,
        };
        assert(record@ == recorded(action, before));
        let mut out: Vec<Request> = Vec::new();
        out.push(Request::SaveState(record));
        let ghost first = out@;
        let mut rest = order_edit_requests(action, &entry, enabled, listing);
        let ghost tail = rest@;
        out.append(&mut rest);
        assert(request_views(out@) =~= request_views(first) + request_views(tail));
        assert(request_views(first) =~= seq![RequestView::SaveState(recorded(action, before))]);
        out
    }
}

impl Management {
    /// Starts `action`: the installation record is read first.
    pub fn new(action: ManageAction) -> (started: (Self, Request))
        ensures
            started.0@ == (ManagementView { action, stage: ManageStageView::LoadingState }),
            started.1@ == RequestView::LoadState,
    {
        (Management { action, stage: ManageStage::LoadingState }, Request::LoadState)
    }

    /// Hands out the first of `queue`.
    fn drain_queue(action: ManageAction, queue: Vec<Request>) -> (next: (Self, Request))
        requires
            queue@.len() > 0,
        ensures
            (next.0@, next.1@) == drain(action, request_views(queue@)),
    {
        let mut queue = queue;
        let ghost all = queue@;
        let first = queue.remove(0);
        assert(request_views(queue@) =~= request_views(all).drop_first());
        let over = match &first {
            Request::Finish(_) => true,
            _ => queue.len() == 0,
        };
        let stage = if over {
            ManageStage::Finished
        } else {
            ManageStage::Draining(queue)
        };
        (Management { action, stage }, first)
    }

    /// Whether the procedure takes `answer` next.
    pub fn accepts(&self, answer: &Answer) -> (ok: bool)
        ensures
            ok == takes(self@, answer@),
    {
        match &self.stage {
            ManageStage::LoadingState => matches!(answer, Answer::Loaded(_)),
            ManageStage::Listing(_) => matches!(answer, Answer::Output(_)),
            ManageStage::ReadingOfficial(_, _) => matches!(answer, Answer::Bytes(_)),
            ManageStage::ReadingImage(_, _) => matches!(answer, Answer::Bytes(_)),
            ManageStage::Draining(queue) => queue.len() > 0,
            ManageStage::Finished => false,
        }
    }

    /// Takes the answer to the previous request and hands out the next one.
    pub fn resume(self, answer: Answer) -> (next: (Self, Request))
        requires
            takes(self@, answer@),
        ensures
            (next.0@, next.1@) == manage_step(self@, answer@),
    {
        let action = self.action;
        match self.stage {
            ManageStage::LoadingState => {
                let state = match answer {
                    Answer::Loaded(state) => state,
                    _ => {
                        assert(false);
                        return (Management { action, stage: ManageStage::Finished }, Request::Finish(Ok(())));
                    },
                };
                (
                    Management { action, stage: ManageStage::Listing(state) },
                    Request::Run(command2("efibootmgr", "-v")),
                )
            },
            ManageStage::Listing(state) => {
                let listing = match answer {
                    Answer::Output(text) => text,
                    _ => {
                        assert(false);
                        return (Management { action, stage: ManageStage::Finished }, Request::Finish(Ok(())));
                    },
                };
                Self::after_listing(action, state, listing)
            },
            ManageStage::ReadingOfficial(state, listing) => {
                let esp = state.esp.clone();
                (
                    Management { action, stage: ManageStage::ReadingImage(state, listing) },
                    Request::Read(Place::AddonImage(esp)),
                )
            },
            ManageStage::ReadingImage(state, listing) => {
                let data = match answer {
                    Answer::Bytes(data) => data,
                    _ => {
                        assert(false);
                        return (Management { action, stage: ManageStage::Finished }, Request::Finish(Ok(())));
                    },
                };
                let checksum = hash(&data);
                if checksum != state.image_sha256 {
                    return (
                        Management { action, stage: ManageStage::Finished },
                        Request::Finish(Err(Error::ImageChanged)),
                    );
                }
                let ghost before = state@;
                let queue = plan_requests(action, state, listing.as_str());
                proof {
                    lemma_plan_nonempty(action, before, listing@);
                }
                Self::drain_queue(action, queue)
            },
            ManageStage::Draining(queue) => Self::drain_queue(action, queue),
            ManageStage::Finished => (Management { action, stage: ManageStage::Finished }, Request::Finish(Ok(()))),
        }
    }

    fn after_listing(action: ManageAction, state: State, listing: String) -> (next: (Self, Request))
        ensures
            (next.0@, next.1@) == after_listing(action, state@, listing@),
    {
        let found = match find_entry(listing.as_str()) {
            Err(e) => {
                return (Management { action, stage: ManageStage::Finished }, Request::Finish(Err(e)));
            },
            Ok(found) => found,
        };
        let recorded_entry = match &found {
            Some(f) => *f == state.entry,
            None => false,
        };
        if !recorded_entry {
            return (
                Management { action, stage: ManageStage::Finished },
                Request::Finish(Err(Error::EntryChanged)),
            );
        }
        if action != ManageAction::Disable {
            let esp = state.esp.clone();
            (
                Management { action, stage: ManageStage::ReadingOfficial(state, listing) },
                Request::Read(Place::OfficialLoader(esp)),
            )
        } else {
            let ghost before = state@;
            let queue = plan_requests(action, state, listing.as_str());
            proof {
                lemma_plan_nonempty(action, before, listing@);
            }
            Self::drain_queue(action, queue)
        }
    }
}

} // verus!
