//! The decisions the startup app takes about firmware display hardware.
//!
//! The app only reads PCI configuration (one byte, the base class), the
//! firmware's record of who opened a controller, and device paths. It
//! connects a display controller that has no graphics interface at or below
//! its device path, whether a driver is bound to it or not, and leaves it
//! alone when its ownership or the paths cannot be read unambiguously. It
//! starts a graphics interface that reports it has not been started.
//! Graphics modes already running are left alone, and display errors never
//! stop the boot from going on.

use vstd::prelude::*;

verus! {

/// The PCI base class of display controllers.
pub const PCI_CLASS_DISPLAY: u8 = 0x03;

/// `EFI_OPEN_PROTOCOL_BY_DRIVER`: a driver manages the controller.
pub const OPEN_BY_DRIVER: u32 = 0x08;

/// `EFI_OPEN_PROTOCOL_EXCLUSIVE`: someone holds the controller exclusively.
pub const OPEN_EXCLUSIVE: u32 = 0x10;

/// The largest opener count that is believed; more is taken as corrupt.
pub const MAX_OPEN_ENTRIES: usize = 4096;

/// Whether a PCI device is a display controller, given whether the
/// one-byte read of its base class succeeded and the byte it read.
pub fn is_display_controller(read_succeeded: bool, base_class: u8) -> (display: bool)
    ensures
        display == (read_succeeded && base_class == PCI_CLASS_DISPLAY),
{
    read_succeeded && base_class == PCI_CLASS_DISPLAY
}

/// What the firmware's list of a controller's openers allows.
#[derive(Debug, Clone, Copy, PartialEq, Eq, Structural)]
pub enum OpenerList {
    /// Nobody opened the controller: no driver holds it.
    Empty,
    /// The count or the buffer cannot be trusted; the list is not read.
    Untrusted,
    /// The list may be read: this many entries.
    Readable(usize),
}

/// Classifies the list the firmware returned (its entry count, and whether
/// its buffer pointer is non-null) before anything in it is read.
pub fn classify_openers(count: usize, buffer_present: bool) -> (list: OpenerList)
    ensures
        count == 0 ==> list == OpenerList::Empty,
        count != 0 && (count > MAX_OPEN_ENTRIES || !buffer_present) ==> list
            == OpenerList::Untrusted,
        count != 0 && count <= MAX_OPEN_ENTRIES && buffer_present ==> list == OpenerList::Readable(
            count,
        ),
{
    if count == 0 {
        OpenerList::Empty
    } else if count > MAX_OPEN_ENTRIES || !buffer_present {
        OpenerList::Untrusted
    } else {
        OpenerList::Readable(count)
    }
}

/// Whether an opener with these attributes holds the controller for a driver.
pub open spec fn holds_controller(attributes: u32) -> bool {
    attributes & (OPEN_BY_DRIVER | OPEN_EXCLUSIVE) != 0
}

/// Whether any of the openers' attributes show a driver holding the controller.
pub fn driver_holds(attributes: &[u32]) -> (held: bool)
    ensures
        held == exists|i: int| 0 <= i < attributes@.len() && holds_controller(#[trigger] attributes@[i]),
{
    let mut i: usize = 0;
    while i < attributes.len()
        invariant
            i <= attributes.len(),
            forall|j: int| 0 <= j < i ==> !holds_controller(#[trigger] attributes@[j]),
        decreases attributes.len() - i,
    {
        if attributes[i] & (OPEN_BY_DRIVER | OPEN_EXCLUSIVE) != 0 {
            assert(holds_controller(attributes@[i as int]));
            return true;
        }
        i = i + 1;
    }
    false
}

/// The node that ends an entire device path in its binary form.
pub open spec fn end_of_path() -> Seq<u8> {
    seq![0x7fu8, 0xffu8, 0x04u8, 0x00u8]
}

/// The nodes of a device path in its binary form, without the node that
/// ends it; `None` when the path does not end with that node.
pub open spec fn path_nodes(path: Seq<u8>) -> Option<Seq<u8>> {
    if path.len() >= 4 && path.skip(path.len() - 4) == end_of_path() {
        Some(path.take(path.len() - 4))
    } else {
        None
    }
}

/// Whether the device at `path` is the device at `parent` or one below it:
/// its nodes begin with all of the parent's nodes.
pub open spec fn at_or_below(parent: Seq<u8>, path: Seq<u8>) -> bool {
    parent.len() <= path.len() && path.take(parent.len() as int) == parent
}

/// The views of a sequence of byte vectors.
pub open spec fn byte_views(v: Seq<Vec<u8>>) -> Seq<Seq<u8>> {
    v.map_values(|x: Vec<u8>| x@)
}

/// Whether every one of `paths` is a well-formed device path.
pub open spec fn all_well_formed(paths: Seq<Seq<u8>>) -> bool {
    forall|i: int| 0 <= i < paths.len() ==> #[trigger] path_nodes(paths[i]) is Some
}

/// Whether a display controller at the device path `controller` has a
/// graphics interface, given the device paths of all graphics interfaces:
/// `Some(true)` when one of them is at or below the controller, `Some(false)`
/// when none is, and `None` when a path is malformed, so that the answer
/// would be a guess.
pub open spec fn graphics_below(controller: Seq<u8>, graphics: Seq<Seq<u8>>) -> Option<bool> {
    match path_nodes(controller) {
        None => None,
        Some(c) => if !all_well_formed(graphics) {
            None
        } else {
            Some(
                exists|i: int|
                    0 <= i < graphics.len() && at_or_below(c, #[trigger] path_nodes(graphics[i])->0),
            )
        },
    }
}

/// The nodes of the device path `path`, without its end node.
fn nodes_of(path: &[u8]) -> (nodes: Option<Vec<u8>>)
    ensures
        match nodes {
            Some(n) => path_nodes(path@) == Some(n@),
            None => path_nodes(path@) is None,
        },
{
    let n = path.len();
    if n >= 4 && path[n - 4] == 0x7f && path[n - 3] == 0xff && path[n - 2] == 0x04
        && path[n - 1] == 0x00 {
        assert(path@.skip(n - 4) =~= end_of_path());
        let mut out: Vec<u8> = Vec::new();
        let mut i: usize = 0;
        while i < n - 4
            invariant
                n == path.len(),
                n >= 4,
                i <= n - 4,
                out@ == path@.take(i as int),
            decreases n - 4 - i,
        {
            out.push(path[i]);
            i = i + 1;
            assert(out@ =~= path@.take(i as int));
        }
        Some(out)
    } else {
        proof {
            if path@.len() >= 4 && path@.skip(n - 4) == end_of_path() {
                assert(path@.skip(n - 4)[0] == path@[n - 4]);
                assert(path@.skip(n - 4)[1] == path@[n - 3]);
                assert(path@.skip(n - 4)[2] == path@[n - 2]);
                assert(path@.skip(n - 4)[3] == path@[n - 1]);
            }
        }
        None
    }
}

/// Whether the nodes `path` begin with the nodes `parent`.
fn begins_with(parent: &[u8], path: &[u8]) -> (below: bool)
    ensures
        below == at_or_below(parent@, path@),
{
    if parent.len() > path.len() {
        return false;
    }
    let mut i: usize = 0;
    while i < parent.len()
        invariant
            parent.len() <= path.len(),
            i <= parent.len(),
            forall|j: int| 0 <= j < i ==> path@[j] == parent@[j],
        decreases parent.len() - i,
    {
        if path[i] != parent[i] {
            assert(path@.take(parent@.len() as int)[i as int] != parent@[i as int]);
            return false;
        }
        i = i + 1;
    }
    assert(path@.take(parent@.len() as int) =~= parent@);
    true
}

/// Whether the display controller at the device path `controller` already
/// has a graphics interface, given the device paths of the graphics
/// interfaces; `None` when a path is malformed.
pub fn graphics_child(controller: &[u8], graphics: &[Vec<u8>]) -> (child: Option<bool>)
    ensures
        child == graphics_below(controller@, byte_views(graphics@)),
{
    let ghost all = byte_views(graphics@);
    let parent = match nodes_of(controller) {
        None => return None,
        Some(c) => c,
    };
    let mut found = false;
    let mut i: usize = 0;
    while i < graphics.len()
        invariant
            i <= graphics.len(),
            all == byte_views(graphics@),
            path_nodes(controller@) == Some(parent@),
            forall|j: int| 0 <= j < i ==> #[trigger] path_nodes(all[j]) is Some,
            found == exists|j: int|
                0 <= j < i && at_or_below(parent@, #[trigger] path_nodes(all[j])->0),
        decreases graphics.len() - i,
    {
        assert(all[i as int] == graphics@[i as int]@);
        match nodes_of(graphics[i].as_slice()) {
            None => {
                assert(!all_well_formed(all));
                return None;
            },
            Some(nodes) => {
                let below = begins_with(parent.as_slice(), nodes.as_slice());
                found = found || below;
            },
        }
        i = i + 1;
    }
    assert(all_well_formed(all));
    Some(found)
}

/// Whether a controller is connected: it is known to be a display
/// controller (`display == Some(true)`), who owns it could be read
/// (`owner` is `Some`, whether a driver is bound or not), and it is known
/// to have no graphics interface (`graphics == Some(false)`). A failed
/// probe or an ambiguous ownership or path (`None`) leaves it alone.
pub fn should_connect(display: Option<bool>, owner: Option<bool>, graphics: Option<bool>) -> (connect: bool)
    ensures
        connect == (display == Some(true) && owner is Some && graphics == Some(false)),
{
    match (display, owner, graphics) {
        (Some(true), Some(_), Some(false)) => true,
        _ => false,
    }
}

/// What a graphics interface answered when asked about mode zero.
#[derive(Debug, Clone, Copy, PartialEq, Eq, Structural)]
pub enum ModeQuery {
    /// The query succeeded; whether it returned an information buffer.
    Answered { info_returned: bool },
    /// The interface has not been started.
    NotStarted,
    /// Any other failure.
    Failed,
}

/// What the app does with a graphics interface.
#[derive(Debug, Clone, Copy, PartialEq, Eq, Structural)]
pub enum GraphicsStep {
    /// The interface runs: leave its mode alone; free the information
    /// buffer the query returned, if any.
    Leave { free_info: bool },
    /// Start the interface in mode zero and report that call's status.
    StartModeZero,
    /// Report the query's failure and do nothing else.
    ReportFailure,
}

/// The step taken for a graphics interface, given its answer to the query.
pub fn graphics_step(query: ModeQuery) -> (step: GraphicsStep)
    ensures
        match query {
            ModeQuery::Answered { info_returned } => step == GraphicsStep::Leave {
                free_info: info_returned,
            },
            ModeQuery::NotStarted => step == GraphicsStep::StartModeZero,
            ModeQuery::Failed => step == GraphicsStep::ReportFailure,
        },
{
    match query {
        ModeQuery::Answered { info_returned } => GraphicsStep::Leave { free_info: info_returned },
        ModeQuery::NotStarted => GraphicsStep::StartModeZero,
        ModeQuery::Failed => GraphicsStep::ReportFailure,
    }
}

} // verus!
