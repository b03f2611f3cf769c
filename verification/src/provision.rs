//! One-time sizing of target surfaces: for each render target whose surface
//! has not yet been configured, compute the backing pixel size and the
//! scale-corrected display size its surface must take, and mark the target
//! provisioned.

use vstd::prelude::*;

use crate::viewport::Viewport;

verus! {

/// Ratio between physical (device) pixels and logical (CSS) pixels, kept as
/// an exact rational `num / den` so that display sizes need no rounding.
#[derive(Clone, Copy, PartialEq, Eq, Structural, Debug)]
pub struct ScaleFactor {
    pub num: u32,
    pub den: u32,
}

/// An exact rational number of logical pixels, `num / den`.
#[derive(Clone, Copy, PartialEq, Eq, Structural, Debug)]
pub struct LogicalLength {
    pub num: u64,
    pub den: u64,
}

impl ScaleFactor {
    /// A scale factor is a positive ratio.
    pub open spec fn wf(self) -> bool {
        self.num >= 1 && self.den >= 1
    }

    /// Accepts `num / den` exactly when both parts are positive.
    pub fn new(num: u32, den: u32) -> (r: Option<ScaleFactor>)
        ensures
            r is Some <==> num >= 1 && den >= 1,
            r is Some ==> r->Some_0 == (ScaleFactor { num, den }) && r->Some_0.wf(),
    {
        if num >= 1 && den >= 1 {
            Some(ScaleFactor { num, den })
        } else {
            None
        }
    }
}

impl LogicalLength {
    /// `self` equals `physical` device pixels divided by the scale factor
    /// `s`, as exact rationals: `self == physical * s.den / s.num`.
    pub open spec fn is_physical_scaled_down(self, physical: int, s: ScaleFactor) -> bool {
        self.den >= 1 && s.wf() && self.num * s.num as int == physical * s.den as int
            * self.den as int
    }
}

/// What Provisioning tells a surface to become: the backing pixel buffer
/// takes the viewport's physical size exactly, and the CSS display size is
/// the physical size divided by the scale factor.
#[derive(Clone, Copy, PartialEq, Eq, Structural, Debug)]
pub struct SurfaceConfig {
    pub backing_width: u32,
    pub backing_height: u32,
    pub display_width: LogicalLength,
    pub display_height: LogicalLength,
}

/// The surface configuration a viewport demands under a scale factor.
pub open spec fn spec_surface_config(vp: Viewport, s: ScaleFactor) -> SurfaceConfig {
    SurfaceConfig {
        backing_width: vp.width,
        backing_height: vp.height,
        display_width: LogicalLength {
            num: (vp.width as int * s.den as int) as u64,
            den: s.num as u64,
        },
        display_height: LogicalLength {
            num: (vp.height as int * s.den as int) as u64,
            den: s.num as u64,
        },
    }
}

/// The product of two 32-bit values fits in 64 bits.
proof fn lemma_u32_product_fits_u64(a: u32, b: u32)
    ensures
        0 <= a as int * b as int <= 0xffff_ffff_0000_0001,
{
    assert(0 <= a as int * b as int <= 0xffff_ffff * 0xffff_ffff) by (nonlinear_arith)
        requires
            0 <= a <= 0xffff_ffffu32,
            0 <= b <= 0xffff_ffffu32,
    ;
}

/// Computes the surface configuration for a viewport: backing pixel size
/// equal to the viewport's physical size, display size equal to the physical
/// size divided by the scale factor, both exactly.
pub fn plan_surface_config(vp: &Viewport, s: &ScaleFactor) -> (cfg: SurfaceConfig)
    requires
        s.wf(),
    ensures
        cfg == spec_surface_config(*vp, *s),
        cfg.backing_width == vp.width,
        cfg.backing_height == vp.height,
        cfg.display_width.is_physical_scaled_down(vp.width as int, *s),
        cfg.display_height.is_physical_scaled_down(vp.height as int, *s),
{
    proof {
        lemma_u32_product_fits_u64(vp.width, s.den);
        lemma_u32_product_fits_u64(vp.height, s.den);
    }
    let cfg = SurfaceConfig {
        backing_width: vp.width,
        backing_height: vp.height,
        display_width: LogicalLength { num: vp.width as u64 * s.den as u64, den: s.num as u64 },
        display_height: LogicalLength { num: vp.height as u64 * s.den as u64, den: s.num as u64 },
    };
    proof {
        lemma_surface_config_scaled(*vp, *s);
    }
    cfg
}

/// Scale-factor correctness: for a viewport of physical size `(w, h)` under
/// scale factor `s`, the planned backing pixel size is `(w, h)` exactly and
/// the planned display size is `(w / s, h / s)` exactly, as rationals.
pub proof fn lemma_surface_config_scaled(vp: Viewport, s: ScaleFactor)
    requires
        s.wf(),
    ensures
        spec_surface_config(vp, s).backing_width == vp.width,
        spec_surface_config(vp, s).backing_height == vp.height,
        spec_surface_config(vp, s).display_width.is_physical_scaled_down(vp.width as int, s),
        spec_surface_config(vp, s).display_height.is_physical_scaled_down(vp.height as int, s),
{
    lemma_u32_product_fits_u64(vp.width, s.den);
    lemma_u32_product_fits_u64(vp.height, s.den);
    assert(spec_surface_config(vp, s).display_width.num == vp.width as int * s.den as int);
    assert(spec_surface_config(vp, s).display_height.num == vp.height as int * s.den as int);
}

/// Whether a surface, once sized, is sized again when its camera's viewport
/// size later changes. Sizing exactly once mirrors the permanent provisioned
/// mark; re-sizing on change is offered as an explicit choice.
#[derive(Clone, Copy, PartialEq, Eq, Structural, Debug)]
pub enum ProvisionPolicy {
    /// A provisioned target is never sized again.
    Once,
    /// A provisioned target is sized again when its viewport's physical size
    /// no longer matches the size its surface was given.
    OnViewportChange,
}

/// Association between one camera viewport and one externally-addressed
/// canvas surface, identified by a stable string key. `provisioned` holds
/// the physical size the surface was last sized to; `None` until
/// Provisioning first succeeds.
#[derive(Debug)]
pub struct RenderTarget {
    pub canvas_id: String,
    pub viewport: Option<Viewport>,
    pub provisioned: Option<(u32, u32)>,
}

impl RenderTarget {
    /// A freshly registered target: not yet provisioned.
    pub fn new(canvas_id: String, viewport: Option<Viewport>) -> (t: RenderTarget)
        ensures
            t.canvas_id == canvas_id,
            t.viewport == viewport,
            t.provisioned is None,
    {
        RenderTarget { canvas_id, viewport, provisioned: None }
    }

    /// A target is provisioned once its surface has been sized.
    pub open spec fn is_provisioned(self) -> bool {
        self.provisioned is Some
    }

    /// Whether this target's surface has been sized.
    pub fn provisioned_flag(&self) -> (r: bool)
        ensures
            r == self.is_provisioned(),
    {
        match self.provisioned {
            Option::Some(_) => true,
            Option::None => false,
        }
    }
}

/// Whether Provisioning owes `t` a surface sizing under `policy`: the target
/// must carry a viewport, and be either unprovisioned or — under re-sizing —
/// provisioned at a size its viewport has since left.
pub open spec fn spec_needs_provision(t: RenderTarget, policy: ProvisionPolicy) -> bool {
    match t.viewport {
        Option::None => false,
        Option::Some(vp) => match t.provisioned {
            Option::None => true,
            Option::Some(ext) => policy == ProvisionPolicy::OnViewportChange && ext != (
            vp.width,
            vp.height,
            ),
        },
    }
}

/// One Provisioning step on one target: when the surface resolved and a
/// sizing is owed, the target is marked provisioned at its viewport's size
/// and the surface configuration is issued; otherwise nothing changes.
pub open spec fn spec_provision_step(
    t: RenderTarget,
    s: ScaleFactor,
    policy: ProvisionPolicy,
    resolved: bool,
) -> (RenderTarget, Option<SurfaceConfig>) {
    if resolved && spec_needs_provision(t, policy) {
        let vp = t.viewport->Some_0;
        (
            RenderTarget {
                canvas_id: t.canvas_id,
                viewport: t.viewport,
                provisioned: Option::Some((vp.width, vp.height)),
            },
            Option::Some(spec_surface_config(vp, s)),
        )
    } else {
        (t, Option::None)
    }
}

/// Runs one Provisioning step on `t`. `resolved` says whether the target's
/// identifier led to a live surface this frame; when it did not, the target
/// is skipped unchanged and retried on a later frame.
pub fn provision_target(
    t: &mut RenderTarget,
    s: &ScaleFactor,
    policy: ProvisionPolicy,
    resolved: bool,
) -> (r: Option<SurfaceConfig>)
    requires
        s.wf(),
    ensures
        *final(t) == spec_provision_step(*old(t), *s, policy, resolved).0,
        r == spec_provision_step(*old(t), *s, policy, resolved).1,
        r is Some <==> resolved && spec_needs_provision(*old(t), policy),
        r is None ==> *final(t) == *old(t),
        r is Some ==> r->Some_0 == spec_surface_config(old(t).viewport->Some_0, *s)
            && final(t).canvas_id == old(t).canvas_id && final(t).viewport == old(t).viewport
            && final(t).is_provisioned(),
{
    if !resolved {
        return None;
    }
    match t.viewport {
        Option::None => None,
        Option::Some(vp) => {
            let owed = match t.provisioned {
                Option::None => true,
                Option::Some(ext) => match policy {
                    ProvisionPolicy::Once => false,
                    ProvisionPolicy::OnViewportChange => !(ext.0 == vp.width && ext.1
                        == vp.height),
                },
            };
            if owed {
                let cfg = plan_surface_config(&vp, s);
                t.provisioned = Some((vp.width, vp.height));
                Some(cfg)
            } else {
                None
            }
        },
    }
}

/// Whether one Provisioning step on `t` issues a sizing command.
pub open spec fn spec_provision_emits(
    t: RenderTarget,
    policy: ProvisionPolicy,
    resolved: bool,
) -> bool {
    resolved && spec_needs_provision(t, policy)
}

/// Runs Provisioning over the whole registry, one step per target in order.
/// `resolved[i]` says whether target `i`'s identifier led to a live surface
/// this frame. Returns every sizing command issued, tagged with its target's
/// index: one command per target owed a sizing, in increasing index order,
/// and the registry is updated step by step.
pub fn provision_frame(
    targets: &mut Vec<RenderTarget>,
    s: &ScaleFactor,
    policy: ProvisionPolicy,
    resolved: &Vec<bool>,
) -> (cmds: Vec<(usize, SurfaceConfig)>)
    requires
        s.wf(),
        resolved@.len() == old(targets)@.len(),
    ensures
        final(targets)@.len() == old(targets)@.len(),
        forall|i: int|
            0 <= i < old(targets)@.len() ==> #[trigger] final(targets)@[i] == spec_provision_step(
                old(targets)@[i],
                *s,
                policy,
                resolved@[i],
            ).0,
        forall|j: int|
            0 <= j < cmds@.len() ==> (#[trigger] cmds@[j]).0 < old(targets)@.len()
                && Option::Some(cmds@[j].1) == spec_provision_step(
                old(targets)@[cmds@[j].0 as int],
                *s,
                policy,
                resolved@[cmds@[j].0 as int],
            ).1,
        forall|j1: int, j2: int|
            0 <= j1 < j2 < cmds@.len() ==> (#[trigger] cmds@[j1]).0 < (#[trigger] cmds@[j2]).0,
        forall|i: int|
            0 <= i < old(targets)@.len() && #[trigger] spec_provision_emits(
                old(targets)@[i],
                policy,
                resolved@[i],
            ) ==> exists|j: int| 0 <= j < cmds@.len() && (#[trigger] cmds@[j]).0 == i,
{
    let ghost orig = targets@;
    let n = targets.len();
    let mut cmds: Vec<(usize, SurfaceConfig)> = Vec::new();
    let mut i: usize = 0;
    while i < n
        invariant
            s.wf(),
            n == orig.len(),
            resolved@.len() == n,
            targets@.len() == n,
            0 <= i <= n,
            forall|p: int| i <= p < n ==> targets@[p] == orig[p],
            forall|p: int|
                0 <= p < i ==> #[trigger] targets@[p] == spec_provision_step(
                    orig[p],
                    *s,
                    policy,
                    resolved@[p],
                ).0,
            forall|j: int|
                0 <= j < cmds@.len() ==> (#[trigger] cmds@[j]).0 < i && Option::Some(cmds@[j].1)
                    == spec_provision_step(
                    orig[cmds@[j].0 as int],
                    *s,
                    policy,
                    resolved@[cmds@[j].0 as int],
                ).1,
            forall|j1: int, j2: int|
                0 <= j1 < j2 < cmds@.len() ==> (#[trigger] cmds@[j1]).0 < (#[trigger] cmds@[j2]).0,
            forall|p: int|
                0 <= p < i && #[trigger] spec_provision_emits(orig[p], policy, resolved@[p])
                    ==> exists|j: int| 0 <= j < cmds@.len() && (#[trigger] cmds@[j]).0 == p,
        decreases n - i,
    {
        let res = resolved[i];
        let r = provision_target(&mut targets[i], s, policy, res);
        match r {
            Option::Some(cfg) => {
                let ghost prev = cmds@;
                cmds.push((i, cfg));
                proof {
                    assert forall|p: int|
                        0 <= p < i + 1 && #[trigger] spec_provision_emits(
                            orig[p],
                            policy,
                            resolved@[p],
                        ) implies exists|j: int|
                        0 <= j < cmds@.len() && (#[trigger] cmds@[j]).0 == p by {
                        if p < i {
                            let j = choose|j: int| 0 <= j < prev.len() && (#[trigger] prev[j]).0
                                == p;
                            assert(cmds@[j].0 == p);
                        } else {
                            assert(cmds@[cmds@.len() - 1].0 == i);
                        }
                    }
                }
            },
            Option::None => {},
        }
        i = i + 1;
    }
    cmds
}

/// Idempotence of Provisioning: once a step has sized a target's surface, an
/// immediately repeated step issues no further sizing and leaves the target
/// as it is, under either policy.
pub proof fn lemma_provision_idempotent(
    t: RenderTarget,
    s: ScaleFactor,
    policy: ProvisionPolicy,
    resolved_first: bool,
    resolved_second: bool,
)
    ensures
        ({
            let (t1, cmd1) = spec_provision_step(t, s, policy, resolved_first);
            let (t2, cmd2) = spec_provision_step(t1, s, policy, resolved_second);
            cmd1 is Some ==> cmd2 is None && t2 == t1
        }),
{
}

} // verus!
