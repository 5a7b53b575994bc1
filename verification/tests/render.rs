use cosmic_comp::clip::{
    clip_for_uncropped, clip_rects, needs_clipping, opaque_regions, relative_corners,
    will_clip_precomputed, ClipChoice, OpaqueParts,
};
use cosmic_comp::color::{ImageDescription, Luminances};
use cosmic_comp::elements::{
    push_render_elements_from_surface_tree, scrgb_reference_scale, uniform_change, DrawnSurface,
    ElementKind, HdrSurfaceContent, PushedElement, ReferenceScale, UniformChange,
};
use cosmic_comp::geometry::{Point, Rectangle, Size, Transform};
use cosmic_comp::shadow::{
    corner_index, local_damage, nine_patch_quads, shadow_identity, shadow_kind, AxisSpan,
    NinePatchMargins, ShadowIdentity, ShadowKind, ShadowMeasures,
};
use cosmic_comp::shadow_cache::{
    CachedNinePatch, CornerRadii, NinePatchCache, NinePatchKey, PixelShadows, ShadowParameters,
    WindowShadows,
};

fn rect(x: i32, y: i32, w: i32, h: i32) -> Rectangle {
    Rectangle::new(Point { x, y }, Size { w, h })
}

#[test]
fn test_nine_patch_quad_coverage() {
    // Ensure that 8 quads + center hole completely and without gaps tile the destination geometry
    let dst_x = 100;
    let dst_y = 150;
    let dst_w = 800;
    let dst_h = 600;
    let margins = NinePatchMargins {
        left: 51,
        right: 51,
        top: 46,
        bottom: 56,
    };
    let texture = Size { w: 103, h: 103 };
    let quads = nine_patch_quads(rect(dst_x, dst_y, dst_w, dst_h), texture, margins);
    assert_eq!(quads.len(), 8);

    let (ml, mr, mt, mb) = (51, 51, 46, 56);
    let edge_w = quads[1].dst.size.w;
    let edge_h = quads[3].dst.size.h;

    // Check horizontal continuity
    assert_eq!(ml + edge_w + mr, dst_w);
    // Check vertical continuity
    assert_eq!(mt + edge_h + mb, dst_h);

    let x0 = dst_x;
    let x1 = dst_x + ml;
    let x2 = dst_x + dst_w - mr;
    let x3 = dst_x + dst_w;

    let y0 = dst_y;
    let y1 = dst_y + mt;
    let y2 = dst_y + dst_h - mb;
    let y3 = dst_y + dst_h;

    // Top-left quad
    assert_eq!(quads[0].dst, rect(x0, y0, x1 - x0, y1 - y0));
    // Top edge quad
    assert_eq!(quads[1].dst, rect(x1, y0, x2 - x1, y1 - y0));
    // Top-right quad
    assert_eq!(quads[2].dst, rect(x2, y0, x3 - x2, y1 - y0));
    // Left and right edge quads
    assert_eq!(quads[3].dst, rect(x0, y1, x1 - x0, y2 - y1));
    assert_eq!(quads[4].dst, rect(x2, y1, x3 - x2, y2 - y1));
    // Bottom quads
    assert_eq!(quads[5].dst, rect(x0, y2, x1 - x0, y3 - y2));
    assert_eq!(quads[6].dst, rect(x1, y2, x2 - x1, y3 - y2));
    assert_eq!(quads[7].dst, rect(x2, y2, x3 - x2, y3 - y2));

    // Center hole (unrendered window interior)
    assert_eq!(x2 - x1, edge_w);
    assert_eq!(y2 - y1, edge_h);

    // Sources: corners keep their size, edges are one pixel wide
    assert_eq!(quads[0].src, rect(0, 0, 51, 46));
    assert_eq!(quads[1].src, rect(51, 0, 1, 46));
    assert_eq!(quads[2].src, rect(52, 0, 51, 46));
    assert_eq!(quads[4].src, rect(52, 46, 51, 1));
    assert_eq!(quads[7].src, rect(52, 47, 51, 56));
}

#[test]
fn small_windows_have_no_edges() {
    let margins = NinePatchMargins {
        left: 51,
        right: 51,
        top: 46,
        bottom: 56,
    };
    let quads = nine_patch_quads(rect(0, 0, 61, 41), Size { w: 103, h: 103 }, margins);
    assert_eq!(quads.len(), 4);
    assert_eq!(quads[0].dst, rect(0, 0, 30, 20));
    assert_eq!(quads[1].dst, rect(30, 0, 31, 20));
    assert_eq!(quads[2].dst, rect(0, 20, 30, 21));
    assert_eq!(quads[3].dst, rect(30, 20, 31, 21));
    let covered: i32 = quads.iter().map(|quad| quad.dst.size.w * quad.dst.size.h).sum();
    assert_eq!(covered, 61 * 41);
}

#[test]
fn test_nine_patch_damage_culling_and_translation() {
    let dst = rect(100, 100, 800, 600);
    let ml = 51;
    let mr = 51;
    let mt = 46;
    let edge_w = 800 - ml - mr; // 698

    // Define top-left and top-edge quad destinations
    let quad_tl_dst = Rectangle::new(dst.loc, Size { w: ml, h: mt });
    let quad_top_dst = rect(dst.loc.x + ml, dst.loc.y, edge_w, mt);

    // Scenario 1: Damage in top-left corner (0, 0, 30, 30) relative to dst.loc
    let damage1 = vec![rect(0, 0, 30, 30)];
    let tl_dmg1 = local_damage(quad_tl_dst, dst, &damage1);
    let top_dmg1 = local_damage(quad_top_dst, dst, &damage1);

    assert_eq!(tl_dmg1.len(), 1);
    assert_eq!(tl_dmg1[0], rect(0, 0, 30, 30));
    assert!(
        top_dmg1.is_empty(),
        "Top edge quad should cull damage outside its bounds"
    );

    // Scenario 2: Damage on top edge at (200, 10, 40, 20) relative to dst.loc
    let damage2 = vec![rect(200, 10, 40, 20)];
    let tl_dmg2 = local_damage(quad_tl_dst, dst, &damage2);
    let top_dmg2 = local_damage(quad_top_dst, dst, &damage2);

    assert!(
        tl_dmg2.is_empty(),
        "Top-left quad should cull damage on top edge"
    );
    assert_eq!(top_dmg2.len(), 1);
    // Translation: 200 - ml (51) = 149
    assert_eq!(top_dmg2[0], rect(149, 10, 40, 20));
}

/// What a shadow's layout follows from, in pixels at a scale.
fn measures(radius: [u8; 4], scale: f64) -> ShadowMeasures {
    ShadowMeasures {
        blur_padding: (12.5 * scale * 3.0).ceil() as i32,
        spread: (5.0 * scale).round() as i32,
        offset_y: (5.0 * scale).round() as i32,
        radii: radius.map(|r| (r as f64 * scale).round() as i32),
    }
}

#[test]
fn test_nine_patch_ssd_corners() {
    // Window with SSD: top corners rounded, bottom corners square
    let (margins, size) = measures([12, 12, 0, 0], 1.0).layout();

    assert_eq!(size.w, margins.left + 1 + margins.right);
    assert_eq!(size.h, margins.top + 1 + margins.bottom);

    // Top corner margin should have room for max_r (12)
    assert_eq!(margins.top, 38 + 12);
    // Bottom corner margin should also have room for max_r (12) for layout symmetry
    assert_eq!(margins.bottom, 38 + 10 + 12);
}

#[test]
fn test_nine_patch_hidpi_scaling() {
    // HiDPI scale 2.0
    let (margins, size) = measures([8, 8, 8, 8], 2.0).layout();

    assert_eq!(size.w, margins.left + 1 + margins.right);
    assert_eq!(size.h, margins.top + 1 + margins.bottom);

    // At scale 2.0:
    // sigma = 12.5 * 2 = 25.0, blur_padding = ceil(25 * 3) = 75
    // spread_phys = 10, offset_y_phys = 10, max_r = 16
    assert_eq!(margins.left, 101);
    assert_eq!(margins.right, 101);
    assert_eq!(margins.top, 91);
    assert_eq!(margins.bottom, 111);
    assert_eq!(size.w, 101 + 1 + 101);
    assert_eq!(size.h, 91 + 1 + 111);
}

#[test]
fn test_nine_patch_square_corners() {
    let square = measures([0, 0, 0, 0], 1.0);
    let (margins, size) = square.layout();

    assert_eq!(margins.left, 43);
    assert_eq!(margins.right, 43);
    assert_eq!(margins.top, 38);
    assert_eq!(margins.bottom, 48);
    assert_eq!(size.w, 43 + 1 + 43);
    assert_eq!(size.h, 38 + 1 + 48);
    assert_eq!(size.w * size.h * 4, 87 * 87 * 4);

    // The center pixel lies within the window, which is cut out
    let center = square.pixel_frame(margins.left, margins.top);
    assert!(center.window_x.lower <= margins.left && margins.left < center.window_x.upper);
    assert!(center.window_y.lower <= margins.top && margins.top < center.window_y.upper);
}

#[test]
fn shadow_textures_have_room_for_blur_and_corners() {
    // scale 2: the blur reaches 75 pixels, spread and offset are 10
    let hidpi = ShadowMeasures {
        blur_padding: 75,
        spread: 10,
        offset_y: 10,
        radii: [16, 16, 16, 16],
    };
    let (margins, size) = hidpi.layout();
    assert_eq!(
        margins,
        NinePatchMargins { left: 101, right: 101, top: 91, bottom: 111 }
    );
    assert_eq!(size, Size { w: 101 + 1 + 101, h: 91 + 1 + 111 });

    // square corners at scale 1
    let square = ShadowMeasures {
        blur_padding: 38,
        spread: 5,
        offset_y: 5,
        radii: [0, 0, 0, 0],
    };
    let (margins, size) = square.layout();
    assert_eq!(
        margins,
        NinePatchMargins { left: 43, right: 43, top: 38, bottom: 48 }
    );
    assert_eq!(size, Size { w: 87, h: 87 });
    assert_eq!(ShadowMeasures { radii: [3, 12, 7, 1], ..square }.largest_radius(), 12);
}

#[test]
fn shadow_pixels_belong_to_a_corner() {
    let measures = ShadowMeasures {
        blur_padding: 38,
        spread: 5,
        offset_y: 5,
        radii: [12, 12, 0, 0],
    };
    let (margins, size) = measures.layout();
    assert_eq!(margins, NinePatchMargins { left: 55, right: 55, top: 50, bottom: 60 });

    let near = measures.pixel_frame(margins.left, margins.top);
    assert_eq!(near.corner, 0);
    assert_eq!(near.box_radius, 17);
    assert_eq!(near.box_x, AxisSpan { lower: 38, upper: 838 });
    assert_eq!(near.window_x, AxisSpan { lower: 43, upper: 843 });
    assert_eq!(near.window_y, AxisSpan { lower: 38, upper: 838 });

    let far = measures.pixel_frame(size.w - 1, size.h - 1);
    assert_eq!(far.corner, 2);
    assert_eq!(far.box_radius, 0);
    assert_eq!(far.box_x, AxisSpan { lower: 73 - 800, upper: 73 });
    assert_eq!(far.window_y, AxisSpan { lower: 63 - 800, upper: 63 });
    assert_eq!(corner_index(true, false), 1);
    assert_eq!(corner_index(false, true), 3);
}

#[test]
fn shadows_keep_their_identity() {
    let first = shadow_identity(None, true, 7);
    assert_eq!(first, ShadowIdentity { id: 7, commit: 0 });
    assert_eq!(shadow_identity(Some(first), false, 8), first);
    assert_eq!(
        shadow_identity(Some(first), true, 8),
        ShadowIdentity { id: 7, commit: 1 }
    );
    assert_eq!(shadow_kind(true, false, false), ShadowKind::Pixel);
    assert_eq!(shadow_kind(true, true, false), ShadowKind::NinePatch);
    assert_eq!(shadow_kind(false, false, false), ShadowKind::NinePatch);
    assert_eq!(shadow_kind(false, false, true), ShadowKind::Pixel);
}

fn corners() -> [Rectangle; 4] {
    [
        rect(200, 400, 32, 32),
        rect(1768, 400, 32, 32),
        rect(1768, 1568, 32, 32),
        rect(200, 1568, 32, 32),
    ]
}

/// A rectangle of logical coordinates in pixels, each edge converted by `round`.
fn physical(rect: [f64; 4], scale: f64, round: fn(f64) -> f64) -> Rectangle {
    let [x, y, w, h] = rect.map(|edge| round(edge * scale) as i32);
    Rectangle::new(Point { x, y }, Size { w, h })
}

#[test]
fn test_physical_corners_and_clipping() {
    let geo = [100.0, 200.0, 800.0, 600.0];
    let radius = 16.0;
    let scale = 2.0;
    let physical_corners = [
        [geo[0], geo[1], radius, radius],
        [geo[0] + geo[2] - radius, geo[1], radius, radius],
        [geo[0] + geo[2] - radius, geo[1] + geo[3] - radius, radius, radius],
        [geo[0], geo[1] + geo[3] - radius, radius, radius],
    ]
    .map(|corner| physical(corner, scale, f64::ceil));
    let physical_geo = physical(geo, scale, f64::round);

    assert_eq!(physical_geo.loc, Point { x: 200, y: 400 });
    assert_eq!(physical_geo.size, Size { w: 1600, h: 1200 });

    assert_eq!(physical_corners[0].loc, Point { x: 200, y: 400 });
    assert_eq!(physical_corners[0].size, Size { w: 32, h: 32 });
    assert_eq!(physical_corners, corners());

    // Test inner rect that overlaps corner
    let corner_elem_geo = rect(200, 400, 16, 16);
    assert!(physical_corners
        .iter()
        .any(|c| !c.is_empty() && c.overlaps(corner_elem_geo)));
    assert!(will_clip_precomputed(corner_elem_geo, physical_geo, &physical_corners));

    // Test inner rect that is purely in the center (does not overlap any corner)
    let center_elem_geo = rect(300, 500, 100, 100);
    assert!(!physical_corners
        .iter()
        .any(|c| !c.is_empty() && c.overlaps(center_elem_geo)));
    assert!(physical_geo.contains_rect(center_elem_geo));
    assert!(!will_clip_precomputed(center_elem_geo, physical_geo, &physical_corners));

    // Test rect extending outside bounds
    let outside_elem_geo = rect(150, 400, 100, 100);
    assert!(!physical_geo.contains_rect(outside_elem_geo));
    assert!(will_clip_precomputed(outside_elem_geo, physical_geo, &physical_corners));
}

#[test]
fn corners_and_overhang_are_clipped() {
    let geo = rect(200, 400, 1600, 1200);
    // overlaps a corner
    assert!(will_clip_precomputed(rect(200, 400, 16, 16), geo, &corners()));
    // purely in the center
    assert!(!will_clip_precomputed(rect(300, 500, 100, 100), geo, &corners()));
    // extends outside
    assert!(will_clip_precomputed(rect(150, 400, 100, 100), geo, &corners()));
    // touches a corner's edge only
    assert!(!will_clip_precomputed(rect(232, 400, 16, 16), geo, &corners()));
    // square corners do not clip
    let square = [rect(200, 400, 0, 0); 4];
    assert!(!will_clip_precomputed(rect(200, 400, 16, 16), geo, &square));

    assert!(needs_clipping(&[0, 16, 0, 0], true, rect(150, 400, 100, 100), geo, &corners()));
    assert!(!needs_clipping(&[0, 0, 0, 0], true, rect(150, 400, 100, 100), geo, &corners()));
    assert!(!needs_clipping(&[0, 16, 0, 0], false, rect(150, 400, 100, 100), geo, &corners()));
}

#[test]
fn clipped_damage_stays_in_the_window() {
    let geo = rect(200, 400, 1600, 1200);
    let elem_loc = Point { x: 150, y: 400 };
    let damage = vec![rect(0, 0, 100, 100), rect(0, 0, 50, 50)];
    assert_eq!(clip_rects(&damage, geo, elem_loc), vec![rect(50, 0, 50, 100)]);
    assert_eq!(relative_corners(&corners(), elem_loc)[0], rect(50, 0, 32, 32));
    assert_eq!(
        opaque_regions(&damage, geo, &corners(), elem_loc),
        OpaqueParts {
            regions: vec![rect(50, 0, 50, 100)],
            cut_out: [
                rect(50, 0, 32, 32),
                rect(1618, 0, 32, 32),
                rect(1618, 1168, 32, 32),
                rect(50, 1168, 32, 32),
            ],
        }
    );
}

#[test]
fn test_clip_for_uncropped_no_false_edge_rounding() {
    let physical_geo = rect(-150, 150, 1200, 900);
    let inner_geo = physical_geo;

    // When recovered uncropped destination matches the true window position:
    let uncropped_dst = physical_geo;

    // Clip rectangle remains at the true window position, NOT at the screen edge (x = 0)
    assert_eq!(
        clip_for_uncropped(physical_geo, inner_geo, uncropped_dst),
        ClipChoice::Window
    );

    // Test subsurface within the window:
    let subsurface_geo = rect(-50, 200, 400, 300);
    // Subsurface clip still covers the entire window bounding box:
    assert_eq!(
        clip_for_uncropped(physical_geo, subsurface_geo, subsurface_geo),
        ClipChoice::Window
    );

    // A scaled element scales its clip, an empty one does not
    assert_eq!(
        clip_for_uncropped(physical_geo, subsurface_geo, rect(0, 0, 200, 150)),
        ClipChoice::Scaled
    );
    assert_eq!(
        clip_for_uncropped(physical_geo, rect(0, 0, 0, 10), rect(0, 0, 200, 150)),
        ClipChoice::Window
    );
}

fn surface(surface: u64, blurs: bool) -> DrawnSurface {
    DrawnSurface {
        surface,
        has_view: true,
        imported: true,
        clips: false,
        blurs,
    }
}

#[test]
fn later_surfaces_go_below_the_main_one() {
    let tree = vec![
        surface(1, false),
        DrawnSurface { clips: true, ..surface(2, true) },
        surface(3, true),
        DrawnSurface { has_view: false, ..surface(4, true) },
        DrawnSurface { imported: false, ..surface(5, true) },
    ];
    let pushed = |surface, kind, below| PushedElement { surface, kind, below };
    assert_eq!(
        push_render_elements_from_surface_tree(&tree, 2, true),
        vec![
            pushed(1, ElementKind::Wayland, false),
            pushed(2, ElementKind::Clipped, false),
            pushed(2, ElementKind::Blur, true),
            pushed(3, ElementKind::Wayland, true),
            pushed(3, ElementKind::Blur, true),
        ]
    );
    assert!(push_render_elements_from_surface_tree(&tree, 2, false)
        .iter()
        .all(|element| !element.below));
}

#[test]
fn scrgb_reference_scale_matches_windows_conventions() {
    let scale = scrgb_reference_scale(&ImageDescription::windows_scrgb());
    let scale = scale.numerator as f32 / scale.denominator as f32;
    assert!((scale - 80.0 / 203.0).abs() < 1e-6);
}

#[test]
fn scrgb_scale_follows_stated_luminances() {
    let mut description = ImageDescription::windows_scrgb();
    description.luminances = Some(Luminances {
        min: 0,
        max: 100,
        reference_white: 250,
    });
    assert_eq!(
        scrgb_reference_scale(&description),
        ReferenceScale { numerator: 100, denominator: 250 }
    );
    description.luminances = Some(Luminances {
        min: 0,
        max: 100,
        reference_white: 0,
    });
    assert_eq!(
        scrgb_reference_scale(&description),
        ReferenceScale { numerator: 1, denominator: 1 }
    );
}

#[test]
fn content_kinds_change_their_own_parameters() {
    let pq = HdrSurfaceContent::PqPassthrough;
    assert_eq!(uniform_change(pq, "hdr_input_pq"), UniformChange::One);
    assert_eq!(uniform_change(pq, "hdr_content_reference"), UniformChange::ContentReference);
    assert_eq!(uniform_change(pq, "hdr_sdr_gamma"), UniformChange::Keep);
    let scrgb = HdrSurfaceContent::ScrgbLinear;
    assert_eq!(uniform_change(scrgb, "hdr_sdr_gamma"), UniformChange::One);
    assert_eq!(uniform_change(scrgb, "hdr_gamut_stretch"), UniformChange::Zero);
    assert_eq!(uniform_change(scrgb, "hdr_reference_white"), UniformChange::ScaleByReference);
    assert_eq!(uniform_change(scrgb, "hdr_input_pq"), UniformChange::Keep);
}

#[test]
fn rectangles_intersect_and_merge() {
    let a = rect(0, 0, 10, 10);
    assert_eq!(a.intersection(rect(5, 5, 10, 10)), Some(rect(5, 5, 5, 5)));
    assert_eq!(a.intersection(rect(10, 0, 5, 5)), None);
    assert!(a.contains_rect(rect(0, 0, 10, 10)));
    assert!(!a.contains_rect(rect(1, 1, 10, 1)));
    assert!(a.contains(Point { x: 9, y: 0 }) && !a.contains(Point { x: 10, y: 0 }));
    assert_eq!(a.merge(rect(-5, 20, 1, 1)), rect(-5, 0, 15, 21));
    assert!(rect(3, 3, 0, 5).is_empty());
    assert_eq!(Rectangle::from_size(Size { w: 2, h: 3 }), rect(0, 0, 2, 3));
    // edges saturate
    let wide = rect(i32::MAX - 1, 0, 10, 10);
    assert!(wide.overlaps(rect(i32::MAX - 5, 0, 5, 1)));
    assert_eq!(wide.intersection(rect(0, 0, i32::MAX, 10)), Some(rect(i32::MAX - 1, 0, 1, 10)));
}

#[test]
fn transforms_undo_their_inverse() {
    let area = Size { w: 100, h: 50 };
    let r = rect(10, 20, 30, 5);
    for transform in [
        Transform::Normal,
        Transform::_90,
        Transform::_180,
        Transform::_270,
        Transform::Flipped,
        Transform::Flipped180,
    ] {
        let placed = transform.transform_rect_in(r, area);
        let back = transform
            .invert()
            .transform_rect_in(placed, transform.transform_size(area));
        assert_eq!(back, r, "{transform:?}");
    }
    assert_eq!(Transform::_90.transform_rect_in(r, area), rect(25, 10, 5, 30));
    assert_eq!(Transform::_270.transform_rect_in(r, area), rect(20, 60, 5, 30));
    assert_eq!(Transform::_180.transform_rect_in(r, area), rect(60, 25, 30, 5));
    assert_eq!(Transform::Flipped.transform_rect_in(r, area), rect(60, 20, 30, 5));
    assert_eq!(Transform::Flipped90.transform_rect_in(r, area), rect(25, 60, 5, 30));
    assert_eq!(Transform::Flipped180.transform_rect_in(r, area), rect(10, 25, 30, 5));
    assert_eq!(Transform::Flipped270.transform_rect_in(r, area), rect(20, 10, 5, 30));
}

#[test]
fn nine_patches_are_made_once() {
    let key = NinePatchKey {
        context: 1,
        radius: radii(8),
        scale_bits: 1.5f64.to_bits(),
        dark_mode: true,
    };
    let cached = CachedNinePatch {
        texture: 9,
        texture_kind: 0,
        size: Size { w: 103, h: 103 },
        margins: NinePatchMargins { left: 51, right: 51, top: 46, bottom: 56 },
    };
    let mut cache = NinePatchCache::new();
    assert_eq!(cache.get(key, 0), None);
    cache.insert(key, cached);
    assert_eq!(cache.get(key, 0), Some(cached));
    assert_eq!(cache.get(key, 1), None);
    assert_eq!(cache.get(NinePatchKey { dark_mode: false, ..key }, 0), None);
    let newer = CachedNinePatch { texture: 10, texture_kind: 1, ..cached };
    cache.insert(key, newer);
    assert_eq!(cache.get(key, 1), Some(newer));
    assert_eq!(cache.get(key, 0), None);
}

fn radii(radius: u8) -> CornerRadii {
    CornerRadii {
        top_left: radius,
        top_right: radius,
        bottom_right: radius,
        bottom_left: radius,
    }
}

#[test]
fn pixel_shadows_are_built_again_only_on_changes() {
    let params = ShadowParameters {
        geo: rect(0, 0, 100, 100),
        radius: radii(8),
        dark_mode: false,
    };
    let moved = ShadowParameters { geo: rect(5, 0, 100, 100), ..params };
    let mut shadows = PixelShadows::new();
    assert!(shadows.update(&vec![1, 2], 1, params, false));
    assert!(shadows.update(&vec![1, 2], 2, params, false));
    assert!(!shadows.update(&vec![1, 2], 1, params, false));
    assert!(shadows.update(&vec![1, 2], 1, moved, false));
    assert!(!shadows.update(&vec![1, 2], 1, moved, false));
    assert!(shadows.update(&vec![1, 2], 1, moved, true));
    // once a window was gone, its shadow is built anew
    assert!(!shadows.update(&vec![2], 2, params, false));
    assert!(shadows.update(&vec![1, 2], 1, moved, false));
}

#[test]
fn shadows_of_closed_windows_are_forgotten() {
    let params = ShadowParameters {
        geo: rect(0, 0, 100, 100),
        radius: radii(8),
        dark_mode: false,
    };
    let mut shadows = WindowShadows::new();
    let first = shadows.update(&vec![1], 1, params, false, 70);
    assert_eq!(first, ShadowIdentity { id: 70, commit: 0 });
    assert_eq!(shadows.update(&vec![1], 1, params, false, 71), first);
    let moved = ShadowParameters { geo: rect(5, 0, 100, 100), ..params };
    assert_eq!(
        shadows.update(&vec![1, 2], 1, moved, false, 72),
        ShadowIdentity { id: 70, commit: 1 }
    );
    assert_eq!(
        shadows.update(&vec![1, 2], 1, moved, true, 73),
        ShadowIdentity { id: 70, commit: 2 }
    );
    assert_eq!(
        shadows.update(&vec![1, 2], 2, params, false, 74),
        ShadowIdentity { id: 74, commit: 0 }
    );
    // once the first window was gone, it starts over
    let _ = shadows.update(&vec![2], 2, params, false, 75);
    assert_eq!(
        shadows.update(&vec![1, 2], 1, moved, false, 76),
        ShadowIdentity { id: 76, commit: 0 }
    );
}
