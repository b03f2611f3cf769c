//! Per-frame compositing: decide when a capture is owed, and fan one capture
//! buffer out into one blit command per registered target.

use vstd::prelude::*;

use crate::capture::CaptureBuffer;
use crate::provision::RenderTarget;
use crate::viewport::{spec_crop_height, spec_crop_width};

verus! {

/// A single surface write: the cropped sub-image `pixels` of size
/// `width * height` pixels, to be blitted onto the surface of the target at
/// `target_index` at origin `(0, 0)`, replacing its contents.
#[derive(Debug)]
pub struct BlitCommand {
    pub target_index: usize,
    pub width: u32,
    pub height: u32,
    pub pixels: Vec<u8>,
}

/// Whether a capture is owed this frame: at least one target has a
/// provisioned surface to composite onto.
pub fn should_request_capture(targets: &Vec<RenderTarget>) -> (r: bool)
    ensures
        r <==> exists|i: int| 0 <= i < targets@.len() && targets@[i].is_provisioned(),
{
    let n = targets.len();
    let mut i: usize = 0;
    while i < n
        invariant
            n == targets@.len(),
            0 <= i <= n,
            forall|p: int| 0 <= p < i ==> !targets@[p].is_provisioned(),
        decreases n - i,
    {
        if targets[i].provisioned_flag() {
            return true;
        }
        i = i + 1;
    }
    false
}

/// A compositing pass considers target `i` when it carries a viewport and
/// its surface resolved this frame; targets without a viewport and targets
/// whose surface has gone are skipped, never an error.
pub open spec fn spec_blit_eligible(
    targets: Seq<RenderTarget>,
    resolved: Seq<bool>,
    i: int,
) -> bool {
    targets[i].viewport is Some && resolved[i]
}

/// What one command of a compositing pass of `cap` over `targets` must hold:
/// it names a registered target carrying a viewport, its size is that
/// viewport's crop extent against the capture bounds, and its pixels are
/// exactly the sub-image the crop extracts.
pub open spec fn blit_command_ok(c: BlitCommand, cap: CaptureBuffer, targets: Seq<RenderTarget>) -> bool {
    let vp = targets[c.target_index as int].viewport->Some_0;
    &&& (c.target_index as int) < targets.len()
    &&& targets[c.target_index as int].viewport is Some
    &&& c.width == spec_crop_width(vp, cap.width)
    &&& c.height == spec_crop_height(vp, cap.height)
    &&& c.pixels@ == cap.spec_extract(vp)
}

/// Fans one capture buffer out to the registered targets: one blit command
/// per eligible target, in increasing target order, each carrying the crop
/// of that target's viewport. A degenerate crop still yields its command,
/// with an empty pixel buffer, so the surface is sized to nothing rather
/// than left stale.
pub fn composite_frame(
    cap: &CaptureBuffer,
    targets: &Vec<RenderTarget>,
    resolved: &Vec<bool>,
) -> (cmds: Vec<BlitCommand>)
    requires
        cap.wf(),
        resolved@.len() == targets@.len(),
    ensures
        forall|j: int|
            0 <= j < cmds@.len() ==> blit_command_ok(#[trigger] cmds@[j], *cap, targets@)
                && resolved@[cmds@[j].target_index as int],
        forall|j1: int, j2: int|
            0 <= j1 < j2 < cmds@.len() ==> (#[trigger] cmds@[j1]).target_index
                < (#[trigger] cmds@[j2]).target_index,
        forall|i: int|
            0 <= i < targets@.len() && #[trigger] spec_blit_eligible(targets@, resolved@, i)
                ==> exists|j: int| 0 <= j < cmds@.len() && (#[trigger] cmds@[j]).target_index == i,
{
    let n = targets.len();
    let mut cmds: Vec<BlitCommand> = Vec::new();
    let mut i: usize = 0;
    while i < n
        invariant
            cap.wf(),
            n == targets@.len(),
            resolved@.len() == n,
            0 <= i <= n,
            forall|j: int|
                0 <= j < cmds@.len() ==> blit_command_ok(#[trigger] cmds@[j], *cap, targets@)
                    && resolved@[cmds@[j].target_index as int]
                    && (cmds@[j].target_index as int) < i,
            forall|j1: int, j2: int|
                0 <= j1 < j2 < cmds@.len() ==> (#[trigger] cmds@[j1]).target_index
                    < (#[trigger] cmds@[j2]).target_index,
            forall|p: int|
                0 <= p < i && #[trigger] spec_blit_eligible(targets@, resolved@, p) ==> exists|
                    j: int,
                |
                    0 <= j < cmds@.len() && (#[trigger] cmds@[j]).target_index == p,
        decreases n - i,
    {
        if resolved[i] {
            match targets[i].viewport {
                Option::Some(vp) => {
                    let width = vp.crop_width(cap.width);
                    let height = vp.crop_height(cap.height);
                    let pixels = cap.extract_region(&vp);
                    let ghost prev = cmds@;
                    cmds.push(BlitCommand { target_index: i, width, height, pixels });
                    proof {
                        assert forall|p: int|
                            0 <= p < i + 1 && #[trigger] spec_blit_eligible(
                                targets@,
                                resolved@,
                                p,
                            ) implies exists|j: int|
                            0 <= j < cmds@.len() && (#[trigger] cmds@[j]).target_index == p by {
                            if p < i {
                                let j = choose|j: int|
                                    0 <= j < prev.len() && (#[trigger] prev[j]).target_index == p;
                                assert(cmds@[j].target_index == p);
                            } else {
                                assert(cmds@[cmds@.len() - 1].target_index == i);
                            }
                        }
                    }
                },
                Option::None => {},
            }
        }
        i = i + 1;
    }
    cmds
}

/// Fan-out independence: the commands of one compositing pass name pairwise
/// distinct targets, so each write touches only its own target surface.
pub proof fn lemma_blit_targets_distinct(cmds: Seq<BlitCommand>)
    requires
        forall|j1: int, j2: int|
            0 <= j1 < j2 < cmds.len() ==> (#[trigger] cmds[j1]).target_index
                < (#[trigger] cmds[j2]).target_index,
    ensures
        forall|j1: int, j2: int|
            0 <= j1 < cmds.len() && 0 <= j2 < cmds.len() && j1 != j2
                ==> (#[trigger] cmds[j1]).target_index != (#[trigger] cmds[j2]).target_index,
{
}

} // verus!
