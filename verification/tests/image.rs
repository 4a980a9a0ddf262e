use tray_guardian::bitmap_load::{
    can_load, load_ask, load_start, load_step, make_square_dib, Dib, LoadEffect, LoadQuery, LoadReply,
    LoadStage,
};
use tray_guardian::image::{
    apply_mask, crop_square, downsample, is_renderable, scale_channel, Crop,
};
use tray_guardian::mask::{circle_mask, mask_level, mask_rendering};
use tray_guardian::precision::{root_single, round_double, round_single};

/// The level of a mask pixel in single precision.
fn single_precision_level(size: usize, x: usize, y: usize) -> u8 {
    let render_size = 2 * size;
    let center = render_size as f32 / 2.0;
    let radius = center - 1.0;
    let edge = 2.0f32;
    let dx = x as f32 + 0.5 - center;
    let dy = y as f32 + 0.5 - center;
    let dist = (dx * dx + dy * dy).sqrt();
    let coverage = ((radius + edge * 0.5 - dist) / edge).clamp(0.0, 1.0);
    (coverage * 255.0).round() as u8
}

#[test]
fn bubble_mask_matches_single_precision() {
    let mask = circle_mask(46);
    assert_eq!(mask.len(), 92 * 92);
    for y in 0..92 {
        for x in 0..92 {
            assert_eq!(mask[y * 92 + x], single_precision_level(46, x, y), "at {}, {}", x, y);
        }
    }
}

fn compare_levels(size: usize, x: usize, y: usize) {
    assert_eq!(
        mask_level(size, x, y),
        single_precision_level(size, x, y),
        "size {} at {}, {}",
        size,
        x,
        y
    );
}

#[test]
fn small_masks_match_single_precision() {
    for size in 1..=150 {
        for y in 0..2 * size {
            for x in 0..=y {
                compare_levels(size, x, y);
            }
        }
    }
}

#[test]
fn edges_of_large_masks_match_single_precision() {
    for size in [175usize, 252, 574, 1339, 1448, 1449, 1999, 2048, 2049, 5792, 5793, 9999, 11585] {
        for y in 0..size {
            let dy = size as f64 - y as f64 - 0.5;
            let half = ((size * size) as f64 - dy * dy).sqrt();
            let edge = (size as f64 - half) as usize;
            for x in edge.saturating_sub(3)..(edge + 8).min(2 * size) {
                compare_levels(size, x, y);
                compare_levels(size, y, x);
            }
        }
        compare_levels(size, 0, 0);
        compare_levels(size, size, size);
        compare_levels(size, 2 * size - 1, 0);
    }
}

#[test]
fn rounding_matches_single_precision() {
    let mut n: u64 = 1;
    for i in 0..20_000u64 {
        n = n.wrapping_mul(6364136223846793005).wrapping_add(1442695040888963407);
        let value = (n >> 5) >> (i % 59);
        assert_eq!(round_single(value), value as f32 as u64, "{}", value);
    }
    for value in [0, 0xff_ffff, 0x100_0000, 0x100_0001, 0x100_0003, 0x1ff_ffff, 0x200_0002] {
        assert_eq!(round_single(value), value as f32 as u64, "{}", value);
    }
}

#[test]
fn rounding_matches_double_precision() {
    let top = 1u128 << 53;
    for value in [0, 7, top - 1, top, top + 1, top + 3, 2 * top - 1, 4 * top + 2, 4 * top + 6] {
        assert_eq!(round_double(value), value as f64 as u128, "{}", value);
    }
}

#[test]
fn roots_match_single_precision() {
    for s in (1..20_000u64).chain([16_777_216, 536_870_912, 1_073_676_290, 2_147_483_520]) {
        let root = (s as f32).sqrt();
        if s as f32 as u64 == s {
            assert_eq!(root_single(s) as f32, root * 8_388_608.0, "{}", s);
        }
    }
}

#[test]
fn mask_is_round_and_symmetric() {
    let mask = circle_mask(46);
    let at = |x: usize, y: usize| mask[y * 92 + x];
    assert_eq!(at(0, 0), 0);
    assert_eq!(at(91, 91), 0);
    assert_eq!(at(46, 46), 255);
    assert_eq!(at(46, 2), 255);
    assert_eq!(at(46, 0), 63);
    for y in 0..92 {
        for x in 0..92 {
            assert_eq!(at(x, y), at(91 - x, y));
            assert_eq!(at(x, y), at(y, x));
        }
    }
}

#[test]
fn empty_mask() {
    assert!(circle_mask(0).is_empty());
}

#[test]
fn crops() {
    assert_eq!(crop_square(100, 92), Some(Crop { x: 4, y: 0, side: 92 }));
    assert_eq!(crop_square(92, 101), Some(Crop { x: 0, y: 4, side: 92 }));
    assert_eq!(crop_square(64, 64), Some(Crop { x: 0, y: 0, side: 64 }));
    assert_eq!(crop_square(0, 10), None);
    assert_eq!(crop_square(10, 0), None);
    assert_eq!(crop_square(u32::MAX, 1), Some(Crop { x: i32::MAX, y: 0, side: 1 }));
    assert_eq!(crop_square(u32::MAX, u32::MAX), Some(Crop { x: 0, y: 0, side: -1 }));
}

#[test]
fn channels_are_scaled_down() {
    assert_eq!(scale_channel(200, 128), 100);
    assert_eq!(scale_channel(255, 77), 77);
    assert_eq!(scale_channel(77, 255), 77);
    assert_eq!(scale_channel(1, 254), 0);
    assert_eq!(scale_channel(255, 0), 0);
}

#[test]
fn masking_premultiplies() {
    let mut pixels = vec![10, 100, 200, 7, 10, 100, 200, 7, 10, 100, 200, 7];
    apply_mask(&mut pixels, &vec![0, 128, 255]);
    assert_eq!(pixels, vec![0, 0, 0, 0, 5, 50, 100, 128, 10, 100, 200, 255]);
}

#[test]
fn halving_takes_the_mean_of_each_block() {
    let pixels = vec![
        0, 10, 20, 255, 2, 10, 21, 255, //
        4, 10, 22, 255, 7, 10, 24, 254,
    ];
    assert_eq!(downsample(&pixels, 1), vec![3, 10, 21, 254]);
}

#[test]
fn halving_keeps_blocks_apart() {
    let size = 3;
    let mut pixels = Vec::new();
    for y in 0..2 * size {
        for x in 0..2 * size {
            for c in 0..4 {
                pixels.push((10 * (y / 2) + 2 * (x / 2) + 50 * c) as u8);
            }
        }
    }
    let half = downsample(&pixels, size);
    for y in 0..size {
        for x in 0..size {
            for c in 0..4 {
                assert_eq!(half[(y * size + x) * 4 + c], (10 * y + 2 * x + 50 * c) as u8);
            }
        }
    }
}

#[test]
fn baked_bubble_is_premultiplied_and_round() {
    let size = 46;
    let mut pixels: Vec<u8> = (0..92 * 92 * 4).map(|i| (i * 31 % 256) as u8).collect();
    apply_mask(&mut pixels, &circle_mask(size));
    let bubble = downsample(&pixels, size);
    assert_eq!(bubble.len(), 46 * 46 * 4);
    for pixel in bubble.chunks(4) {
        assert!(pixel[..3].iter().all(|c| *c <= pixel[3]));
    }
    assert_eq!(&bubble[..4], &[0, 0, 0, 0]);
    assert_eq!(bubble[(23 * 46 + 23) * 4 + 3], 255);
}

#[test]
fn rendering_is_masked_with_the_circle_of_its_size() {
    for size in [0usize, 1, 5, 46] {
        let rendering: Vec<u8> = (0..16 * size * size).map(|i| (i * 37 % 256) as u8).collect();
        let mut masked = rendering.clone();
        mask_rendering(&mut masked, size);
        for (i, (before, after)) in rendering.chunks(4).zip(masked.chunks(4)).enumerate() {
            let alpha = single_precision_level(size, i % (2 * size), i / (2 * size)) as u32;
            for c in 0..3 {
                assert_eq!(after[c] as u32, before[c] as u32 * alpha / 255);
            }
            assert_eq!(after[3] as u32, alpha);
        }
    }
}

#[test]
fn inside_of_the_bubble_shows_the_icon() {
    let size = 46;
    let rendering: Vec<u8> = (0..16 * size * size).map(|i| (i * 37 % 251) as u8).collect();
    let plain = downsample(&rendering, size);
    let mut masked = rendering;
    mask_rendering(&mut masked, size);
    let bubble = downsample(&masked, size);
    for y in 0..size {
        for x in 0..size {
            let spans = [2 * x, 2 * x + 1].map(|px| [2 * y, 2 * y + 1].map(|py| {
                let (a, b) = (2 * px as i64 - 91, 2 * py as i64 - 91);
                a * a + b * b
            }));
            let at = (y * size + x) * 4;
            if spans.iter().flatten().all(|n| *n <= 88 * 88) {
                assert_eq!(bubble[at..at + 3], plain[at..at + 3]);
                assert_eq!(bubble[at + 3], 255);
            }
            if spans.iter().flatten().all(|n| *n >= 92 * 92) {
                assert_eq!(bubble[at..at + 4], [0, 0, 0, 0]);
            }
        }
    }
}

#[test]
fn large_circles_are_opaque_inside_and_clear_outside() {
    for size in [1448usize, 1449, 4097, 11585] {
        let side = 2 * size as i64;
        for y in (0..size).step_by(7) {
            for x in (0..size).step_by(11) {
                let (a, b) = (2 * x as i64 + 1 - side, 2 * y as i64 + 1 - side);
                let n = a * a + b * b;
                if n <= (side - 4) * (side - 4) && n > (side - 40) * (side - 40) {
                    assert_eq!(mask_level(size, x, y), 255);
                }
                if n >= side * side && n < (side + 40) * (side + 40) {
                    assert_eq!(mask_level(size, x, y), 0);
                }
            }
        }
    }
}

#[test]
fn levels_fall_outwards() {
    for (size, outermost) in [(46usize, 63), (1449, 64)] {
        let row: Vec<u8> = (size..2 * size).map(|x| mask_level(size, x, size)).collect();
        assert!(row.windows(2).all(|pair| pair[0] >= pair[1]));
        assert_eq!((row[0], row[size - 1]), (255, outermost));
    }
    // Two pixels at the same distance whose squares are rounded apart.
    assert_eq!((2 * 588 + 1 - 4162i64).pow(2) + (2 * 633 + 1 - 4162i64).pow(2), 17_291_250);
    assert_eq!((2 * 27 + 1 - 4162i64).pow(2) + (2 * 1755 + 1 - 4162i64).pow(2), 17_291_250);
    assert_eq!(mask_level(2081, 588, 633), 237);
    assert_eq!(mask_level(2081, 27, 1755), 238);
}

#[test]
fn loads_of_sizes_that_cannot_be_rendered() {
    let (made, failed) = (LoadReply::Made(true), LoadReply::Made(false));
    for size in [-1, -46, 11586, 0x3fff_ffff, -0x3fff_ffff] {
        let mut stage = load_start();
        for reply in [made, made, LoadReply::Dimensions(8, 8), failed] {
            assert!(can_load(stage, size));
            if let LoadStage::Rendering(_) = stage {
                assert_eq!(
                    load_ask(stage, size),
                    LoadQuery::CreateRender(make_square_dib(2 * size))
                );
            }
            stage = load_step(stage, reply, size).0;
        }
        assert_eq!(stage, LoadStage::Done(false));
    }
    assert!(can_load(LoadStage::Opening, i32::MAX));
    assert_eq!(load_step(LoadStage::Opening, failed, i32::MAX).0, LoadStage::Done(false));
    for size in [0x4000_0000, -0x4000_0000, i32::MIN] {
        assert!(!can_load(LoadStage::Finishing, size));
    }
}

#[test]
fn renderable_sizes() {
    assert!(is_renderable(0));
    assert!(is_renderable(46));
    assert!(is_renderable(11585));
    assert!(!is_renderable(11586));
    assert!(!is_renderable(-1));
}

/// Runs a load over some replies: every query, every effect, and the last stage.
fn run(replies: &[LoadReply]) -> (Vec<LoadQuery>, Vec<LoadEffect>, LoadStage) {
    let mut stage = load_start();
    let mut queries = Vec::new();
    let mut effects = Vec::new();
    for reply in replies {
        queries.push(load_ask(stage, 46));
        let (next, script) = load_step(stage, *reply, 46);
        effects.extend(script);
        stage = next;
    }
    (queries, effects, stage)
}

#[test]
fn load_that_succeeds() {
    let made = LoadReply::Made(true);
    let (queries, effects, stage) =
        run(&[made, made, LoadReply::Dimensions(100, 92), made, made, made]);
    let big = Dib { width: 92, height: -92, planes: 1, bit_count: 32 };
    let small = Dib { width: 46, height: -46, planes: 1, bit_count: 32 };
    assert_eq!(
        queries,
        vec![
            LoadQuery::OpenStream,
            LoadQuery::DecodeImage,
            LoadQuery::ReadDimensions,
            LoadQuery::CreateRender(big),
            LoadQuery::CreateGraphics,
            LoadQuery::CreateFinal(small),
        ]
    );
    assert_eq!(
        effects,
        vec![
            LoadEffect::AcquireScreen,
            LoadEffect::CreateMemory,
            LoadEffect::SelectRender,
            LoadEffect::Draw(Crop { x: 4, y: 0, side: 92 }, 92),
            LoadEffect::DeleteGraphics,
            LoadEffect::DisposeImage,
            LoadEffect::ApplyMask,
            LoadEffect::Downsample,
            LoadEffect::RestoreSelection,
            LoadEffect::DeleteMemory,
            LoadEffect::DeleteRender,
            LoadEffect::ReleaseScreen,
        ]
    );
    assert_eq!(stage, LoadStage::Done(true));
    assert_eq!(load_ask(stage, 46), LoadQuery::Nothing);
}

#[test]
fn load_that_fails_early() {
    let (made, failed) = (LoadReply::Made(true), LoadReply::Made(false));
    assert_eq!(run(&[failed]).2, LoadStage::Done(false));
    assert_eq!(run(&[made, failed]).2, LoadStage::Done(false));
    assert!(run(&[made, failed]).1.is_empty());
    let (_, effects, stage) = run(&[made, made, LoadReply::Dimensions(0, 92)]);
    assert_eq!(effects, vec![LoadEffect::DisposeImage]);
    assert_eq!(stage, LoadStage::Done(false));
}

#[test]
fn load_that_fails_late_gives_everything_back() {
    let (made, failed) = (LoadReply::Made(true), LoadReply::Made(false));
    let size = LoadReply::Dimensions(64, 64);
    let (_, effects, stage) = run(&[made, made, size, failed]);
    assert_eq!(
        effects,
        vec![LoadEffect::AcquireScreen, LoadEffect::ReleaseScreen, LoadEffect::DisposeImage]
    );
    assert_eq!(stage, LoadStage::Done(false));
    let (_, effects, stage) = run(&[made, made, size, made, made, failed]);
    assert!(!effects.contains(&LoadEffect::Downsample));
    assert_eq!(
        effects[effects.len() - 4..],
        [
            LoadEffect::RestoreSelection,
            LoadEffect::DeleteMemory,
            LoadEffect::DeleteRender,
            LoadEffect::ReleaseScreen,
        ]
    );
    assert_eq!(stage, LoadStage::Done(false));
}

#[test]
fn load_goes_on_without_a_drawing_surface() {
    let (made, failed) = (LoadReply::Made(true), LoadReply::Made(false));
    let (_, effects, stage) =
        run(&[made, made, LoadReply::Dimensions(64, 64), made, failed, made]);
    assert_eq!(effects[3..5], [LoadEffect::DisposeImage, LoadEffect::ApplyMask]);
    assert_eq!(stage, LoadStage::Done(true));
}

#[test]
fn load_passes_over_replies_to_other_questions() {
    let (next, script) = load_step(LoadStage::Opening, LoadReply::Dimensions(1, 1), 46);
    assert_eq!(next, LoadStage::Opening);
    assert!(script.is_empty());
    let (next, script) = load_step(LoadStage::Done(true), LoadReply::Made(false), 46);
    assert_eq!(next, LoadStage::Done(true));
    assert!(script.is_empty());
}

#[test]
fn bitmaps_are_top_down() {
    assert_eq!(make_square_dib(46), Dib { width: 46, height: -46, planes: 1, bit_count: 32 });
}
