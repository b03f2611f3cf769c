use split_canvas::capture::CaptureBuffer;
use split_canvas::compositor::{composite_frame, should_request_capture, BlitCommand};
use split_canvas::provision::{
    plan_surface_config, provision_frame, provision_target, ProvisionPolicy, RenderTarget,
    ScaleFactor,
};
use split_canvas::viewport::Viewport;

/// A capture buffer whose byte at pixel `(x, y)`, channel `k`, is a value
/// that distinguishes neighbouring pixels.
fn patterned_capture(width: u32, height: u32) -> CaptureBuffer {
    let mut data = Vec::with_capacity((width as usize) * (height as usize) * 4);
    for y in 0..height as usize {
        for x in 0..width as usize {
            for k in 0..4usize {
                data.push(pattern_byte(x, y, k));
            }
        }
    }
    CaptureBuffer::new(width, height, data).expect("length matches dimensions")
}

fn pattern_byte(x: usize, y: usize, k: usize) -> u8 {
    ((x.wrapping_mul(7) + y.wrapping_mul(131) + k.wrapping_mul(53)) % 251) as u8
}

fn vp(x: u32, y: u32, width: u32, height: u32) -> Viewport {
    Viewport { x, y, width, height }
}

#[test]
fn capture_new_accepts_exact_length_only() {
    let data = vec![0u8; 4 * 2 * 3];
    assert!(CaptureBuffer::new(2, 3, data.clone()).is_some());
    assert!(CaptureBuffer::new(3, 2, data.clone()).is_some());
    assert!(CaptureBuffer::new(2, 2, data.clone()).is_none());
    assert!(CaptureBuffer::new(0, 0, data).is_none());
    assert!(CaptureBuffer::new(0, 0, Vec::new()).is_some());
}

#[test]
fn crop_extent_inside_keeps_viewport_size() {
    let v = vp(10, 20, 100, 50);
    assert_eq!(v.crop_width(500), 100);
    assert_eq!(v.crop_height(500), 50);
}

#[test]
fn crop_extent_clamps_to_capture_bounds() {
    // Rectangle exceeds the right and bottom edges: the extent shrinks to
    // what remains past the position, never beyond it.
    let v = vp(450, 480, 100, 50);
    assert_eq!(v.crop_width(500), 50);
    assert_eq!(v.crop_height(500), 20);
    assert!(v.crop_width(500) <= 500 - 450);
    assert!(v.crop_height(500) <= 500 - 480);
}

#[test]
fn crop_extent_degenerate_outside() {
    // Position at or beyond the capture edge: nothing to crop.
    let v = vp(500, 600, 100, 50);
    assert_eq!(v.crop_width(500), 0);
    assert_eq!(v.crop_height(500), 0);
}

#[test]
fn extract_inside_reads_back_every_pixel() {
    // Every pixel (i, j) of the sub-image equals the capture's pixel at
    // (x + i, y + j).
    let cap = patterned_capture(40, 30);
    let v = vp(5, 7, 12, 9);
    let out = cap.extract_region(&v);
    assert_eq!(out.len(), 12 * 9 * 4);
    for j in 0..9usize {
        for i in 0..12usize {
            for k in 0..4usize {
                assert_eq!(out[(j * 12 + i) * 4 + k], pattern_byte(5 + i, 7 + j, k));
            }
        }
    }
}

#[test]
fn extract_clamped_reads_only_the_corner() {
    // Viewport at (400, 400) of size 250x250 against a 500x500 capture:
    // the crop is the bottom-right 100x100 corner only.
    let cap = patterned_capture(500, 500);
    let v = vp(400, 400, 250, 250);
    assert_eq!(v.crop_width(500), 100);
    assert_eq!(v.crop_height(500), 100);
    let out = cap.extract_region(&v);
    assert_eq!(out.len(), 100 * 100 * 4);
    for j in 0..100usize {
        for i in 0..100usize {
            for k in 0..4usize {
                assert_eq!(out[(j * 100 + i) * 4 + k], pattern_byte(400 + i, 400 + j, k));
            }
        }
    }
}

#[test]
fn extract_fully_outside_is_empty() {
    let cap = patterned_capture(16, 16);
    let out = cap.extract_region(&vp(16, 0, 4, 4));
    assert!(out.is_empty());
    let out = cap.extract_region(&vp(0, 200, 4, 4));
    assert!(out.is_empty());
}

#[test]
fn four_quadrants_cover_without_overlap_or_gap() {
    // Capture 500x500, four viewports of 250x250 at (0,0), (250,0), (0,250)
    // and (250,250): four 250x250 crops, disjoint quadrants, together
    // covering the full area with zero overlap and zero gaps.
    let cap = patterned_capture(500, 500);
    let quads = [(0u32, 0u32), (250, 0), (0, 250), (250, 250)];
    let mut crops: Vec<Vec<u8>> = Vec::new();
    for &(qx, qy) in quads.iter() {
        let v = vp(qx, qy, 250, 250);
        assert_eq!(v.crop_width(500), 250);
        assert_eq!(v.crop_height(500), 250);
        let out = cap.extract_region(&v);
        assert_eq!(out.len(), 250 * 250 * 4);
        crops.push(out);
    }
    // Every capture pixel lands in exactly one quadrant's crop, at the
    // position the quadrant origin dictates, with the value it had.
    for y in 0..500usize {
        for x in 0..500usize {
            let q = (y / 250) * 2 + (x / 250);
            let (i, j) = (x % 250, y % 250);
            for k in 0..4usize {
                assert_eq!(crops[q][(j * 250 + i) * 4 + k], pattern_byte(x, y, k));
            }
        }
    }
}

#[test]
fn surface_config_is_exact_under_scale() {
    // Physical size (w, h) under scale factor s: backing pixel size equals
    // (w, h) exactly, display size equals (w / s, h / s) exactly.
    let s = ScaleFactor::new(2, 1).unwrap();
    let cfg = plan_surface_config(&vp(0, 0, 250, 130), &s);
    assert_eq!(cfg.backing_width, 250);
    assert_eq!(cfg.backing_height, 130);
    // 250 / 2 = 125, 130 / 2 = 65, as exact rationals 250/2 and 130/2.
    assert_eq!(cfg.display_width.num, 250);
    assert_eq!(cfg.display_width.den, 2);
    assert_eq!(cfg.display_height.num, 130);
    assert_eq!(cfg.display_height.den, 2);
}

#[test]
fn surface_config_fractional_scale_stays_exact() {
    // Scale factor 3/2 on physical width 100: display width is 200/3 of a
    // logical pixel, kept exact instead of rounded.
    let s = ScaleFactor::new(3, 2).unwrap();
    let cfg = plan_surface_config(&vp(0, 0, 100, 60), &s);
    assert_eq!(cfg.display_width.num, 200);
    assert_eq!(cfg.display_width.den, 3);
    assert_eq!(cfg.display_height.num, 120);
    assert_eq!(cfg.display_height.den, 3);
    // Cross-multiplied: num / den == physical * s.den / s.num.
    assert_eq!(cfg.display_width.num * 3, 100 * 2 * cfg.display_width.den);
}

#[test]
fn scale_factor_rejects_zero_parts() {
    assert!(ScaleFactor::new(0, 1).is_none());
    assert!(ScaleFactor::new(1, 0).is_none());
    assert!(ScaleFactor::new(1, 1).is_some());
}

#[test]
fn provisioning_skips_unresolved_and_viewportless() {
    let s = ScaleFactor::new(1, 1).unwrap();
    let mut t = RenderTarget::new("canvas1".to_string(), Some(vp(0, 0, 250, 250)));
    // Surface not found yet: skip, unchanged, retried later.
    assert!(provision_target(&mut t, &s, ProvisionPolicy::Once, false).is_none());
    assert!(!t.provisioned_flag());
    // No viewport: never provisioned.
    let mut bare = RenderTarget::new("canvas2".to_string(), None);
    assert!(provision_target(&mut bare, &s, ProvisionPolicy::Once, true).is_none());
    assert!(!bare.provisioned_flag());
}

#[test]
fn provisioning_twice_mutates_once() {
    // Idempotence: a second pass over an already-provisioned target issues
    // no further surface sizing.
    let s = ScaleFactor::new(2, 1).unwrap();
    let mut t = RenderTarget::new("canvas1".to_string(), Some(vp(0, 0, 250, 250)));
    let first = provision_target(&mut t, &s, ProvisionPolicy::Once, true);
    let cfg = first.expect("first pass sizes the surface");
    assert_eq!(cfg.backing_width, 250);
    assert_eq!(cfg.backing_height, 250);
    assert!(t.provisioned_flag());
    let second = provision_target(&mut t, &s, ProvisionPolicy::Once, true);
    assert!(second.is_none());
    assert!(t.provisioned_flag());
}

#[test]
fn provisioning_policy_controls_resizing() {
    let s = ScaleFactor::new(1, 1).unwrap();
    // Under Once, a later viewport change is not re-applied.
    let mut t = RenderTarget::new("canvas1".to_string(), Some(vp(0, 0, 100, 100)));
    provision_target(&mut t, &s, ProvisionPolicy::Once, true).expect("sized");
    t.viewport = Some(vp(0, 0, 300, 200));
    assert!(provision_target(&mut t, &s, ProvisionPolicy::Once, true).is_none());
    // Under OnViewportChange, the same change is applied once more.
    let mut u = RenderTarget::new("canvas2".to_string(), Some(vp(0, 0, 100, 100)));
    provision_target(&mut u, &s, ProvisionPolicy::OnViewportChange, true).expect("sized");
    u.viewport = Some(vp(0, 0, 300, 200));
    let again = provision_target(&mut u, &s, ProvisionPolicy::OnViewportChange, true);
    let cfg = again.expect("re-sized after the viewport changed");
    assert_eq!(cfg.backing_width, 300);
    assert_eq!(cfg.backing_height, 200);
    assert!(provision_target(&mut u, &s, ProvisionPolicy::OnViewportChange, true).is_none());
}

#[test]
fn provision_frame_walks_the_registry() {
    let s = ScaleFactor::new(1, 1).unwrap();
    let mut targets = vec![
        RenderTarget::new("a".to_string(), Some(vp(0, 0, 10, 10))),
        RenderTarget::new("b".to_string(), None),
        RenderTarget::new("c".to_string(), Some(vp(10, 0, 20, 10))),
        RenderTarget::new("d".to_string(), Some(vp(0, 10, 30, 10))),
    ];
    // "c"'s surface is absent this frame.
    let resolved = vec![true, true, false, true];
    let cmds = provision_frame(&mut targets, &s, ProvisionPolicy::Once, &resolved);
    let indices: Vec<usize> = cmds.iter().map(|c| c.0).collect();
    assert_eq!(indices, vec![0, 3]);
    assert_eq!(cmds[0].1.backing_width, 10);
    assert_eq!(cmds[1].1.backing_width, 30);
    assert!(targets[0].provisioned_flag());
    assert!(!targets[1].provisioned_flag());
    assert!(!targets[2].provisioned_flag());
    assert!(targets[3].provisioned_flag());
    // "c" resolves on a later frame and is picked up then.
    let resolved = vec![true, true, true, true];
    let cmds = provision_frame(&mut targets, &s, ProvisionPolicy::Once, &resolved);
    assert_eq!(cmds.len(), 1);
    assert_eq!(cmds[0].0, 2);
    assert!(targets[2].provisioned_flag());
    // A third frame owes nothing.
    let cmds = provision_frame(&mut targets, &s, ProvisionPolicy::Once, &resolved);
    assert!(cmds.is_empty());
}

#[test]
fn capture_requested_only_with_a_provisioned_target() {
    let s = ScaleFactor::new(1, 1).unwrap();
    let mut targets: Vec<RenderTarget> = Vec::new();
    assert!(!should_request_capture(&targets));
    targets.push(RenderTarget::new("a".to_string(), Some(vp(0, 0, 10, 10))));
    assert!(!should_request_capture(&targets));
    provision_target(&mut targets[0], &s, ProvisionPolicy::Once, true).expect("sized");
    assert!(should_request_capture(&targets));
}

#[test]
fn composite_frame_fans_out_one_command_per_eligible_target() {
    let cap = patterned_capture(500, 500);
    let targets = vec![
        RenderTarget::new("a".to_string(), Some(vp(0, 0, 250, 250))),
        RenderTarget::new("gone".to_string(), Some(vp(250, 0, 250, 250))),
        RenderTarget::new("bare".to_string(), None),
        RenderTarget::new("d".to_string(), Some(vp(250, 250, 250, 250))),
    ];
    // One surface has left the page; one target has no viewport.
    let resolved = vec![true, false, true, true];
    let cmds = composite_frame(&cap, &targets, &resolved);
    assert_eq!(cmds.len(), 2);
    assert_eq!(cmds[0].target_index, 0);
    assert_eq!(cmds[1].target_index, 3);
    for c in cmds.iter() {
        assert_eq!(c.width, 250);
        assert_eq!(c.height, 250);
        assert_eq!(c.pixels.len(), 250 * 250 * 4);
    }
    // Each command carries its own target's crop.
    assert_eq!(cmds[0].pixels[0], pattern_byte(0, 0, 0));
    assert_eq!(cmds[1].pixels[0], pattern_byte(250, 250, 0));
}

#[test]
fn composite_frame_emits_degenerate_commands() {
    // A viewport fully outside the capture still yields its command, sized
    // to nothing, so the surface is cleared rather than left stale.
    let cap = patterned_capture(100, 100);
    let targets = vec![RenderTarget::new("a".to_string(), Some(vp(100, 100, 50, 50)))];
    let resolved = vec![true];
    let cmds = composite_frame(&cap, &targets, &resolved);
    assert_eq!(cmds.len(), 1);
    assert_eq!(cmds[0].width, 0);
    assert_eq!(cmds[0].height, 0);
    assert!(cmds[0].pixels.is_empty());
}

#[test]
fn blit_command_fields_travel_whole() {
    let c = BlitCommand { target_index: 3, width: 2, height: 1, pixels: vec![9u8; 8] };
    assert_eq!(c.target_index, 3);
    assert_eq!(c.width, 2);
    assert_eq!(c.height, 1);
    assert_eq!(c.pixels.len(), 8);
}
