use thumbnailer::channel::Channel;
use thumbnailer::error::ResizeError;
use thumbnailer::kernel::{Kernel, KernelShape};
use thumbnailer::raster::Raster;
use thumbnailer::resize::{addressable, derived_height, resize, resize_to_width, resize_with};
use thumbnailer::sampler::{horizontal_sample, vertical_sample};
use thumbnailer::window::{center_numerator, sample_window};

fn gray(width: u32, height: u32, samples: Vec<u8>) -> Raster<u8> {
    Raster::new(width, height, 1, samples).unwrap()
}

fn error_of<S: Channel>(r: Result<Raster<S>, ResizeError>) -> ResizeError {
    match r {
        Ok(_) => panic!("expected a failure"),
        Err(e) => e,
    }
}

#[test]
fn four_by_one_to_width_two() {
    let source = gray(4, 1, vec![0, 0, 255, 255]);
    let out = horizontal_sample(&source, 2, &Kernel::triangle()).unwrap();
    assert_eq!(out.width(), 2);
    assert_eq!(out.height(), 1);
    assert_eq!(out.channels(), 1);
    assert_eq!(out.samples(), &vec![0u8, 255]);
    let out = resize(&source, 2, 1).unwrap();
    assert_eq!(out.samples(), &vec![0u8, 255]);
}

#[test]
fn identity_resize_returns_the_source() {
    let samples: Vec<u8> = (0..60u32).map(|i| ((i * 37 + 11) % 256) as u8).collect();
    let source = Raster::new(5, 4, 3, samples.clone()).unwrap();
    let out = resize(&source, 5, 4).unwrap();
    assert_eq!(out.width(), 5);
    assert_eq!(out.height(), 4);
    assert_eq!(out.channels(), 3);
    assert_eq!(out.samples(), &samples);
}

#[test]
fn identity_resize_of_sixteen_bit_samples() {
    let samples: Vec<u16> = vec![0, 65535, 1, 65534, 40000, 12345];
    let source = Raster::new(3, 2, 1, samples.clone()).unwrap();
    let out = resize(&source, 3, 2).unwrap();
    assert_eq!(out.into_raw(), samples);
}

#[test]
fn upscale_interpolates_linearly() {
    let source = gray(2, 1, vec![0, 100]);
    let out = horizontal_sample(&source, 4, &Kernel::triangle()).unwrap();
    assert_eq!(out.samples(), &vec![0u8, 25, 75, 100]);
}

#[test]
fn vertical_pass_changes_only_the_height() {
    let source = gray(2, 2, vec![0, 40, 100, 240]);
    let out = vertical_sample(&source, 4, &Kernel::triangle()).unwrap();
    assert_eq!(out.width(), 2);
    assert_eq!(out.height(), 4);
    assert_eq!(out.samples(), &vec![0u8, 40, 25, 90, 75, 190, 100, 240]);
}

#[test]
fn halving_averages_blocks_rounding_down_twice() {
    let source = gray(4, 2, vec![1, 3, 10, 20, 0, 0, 30, 41]);
    let out = resize(&source, 2, 1).unwrap();
    // columns first: (1+0)/2 = 0, (3+0)/2 = 1, (10+30)/2 = 20, (20+41)/2 = 30;
    // then rows: (0+1)/2 = 0, (20+30)/2 = 25.
    assert_eq!(out.samples(), &vec![0u8, 25]);
}

#[test]
fn halving_stays_within_one_of_the_block_mean() {
    let samples: Vec<u8> = (0..64u32).map(|i| ((i * 53 + 7) % 256) as u8).collect();
    let source = gray(8, 8, samples.clone());
    let out = resize(&source, 4, 4).unwrap();
    for y in 0..4u32 {
        for x in 0..4u32 {
            let at = |dx: u32, dy: u32| samples[((2 * y + dy) * 8 + 2 * x + dx) as usize] as f64;
            let mean = (at(0, 0) + at(1, 0) + at(0, 1) + at(1, 1)) / 4.0;
            let got = out.get(x, y, 0).unwrap() as f64;
            assert!(got <= mean && mean - got <= 1.0, "({}, {}): {} vs {}", x, y, got, mean);
        }
    }
}

#[test]
fn channels_are_resampled_independently() {
    let source = Raster::new(2, 1, 4, vec![0u8, 255, 10, 200, 100, 55, 30, 100]).unwrap();
    let out = resize(&source, 1, 1).unwrap();
    assert_eq!(out.channels(), 4);
    assert_eq!(out.samples(), &vec![50u8, 155, 20, 150]);
}

#[test]
fn every_output_sample_is_in_range() {
    let samples: Vec<u16> = (0..35u32).map(|i| ((i * 7919) % 65536) as u16).collect();
    let source = Raster::new(7, 5, 1, samples).unwrap();
    for (w, h) in [(1u32, 1u32), (3, 9), (14, 2), (7, 5), (20, 20)] {
        let out = resize(&source, w, h).unwrap();
        assert_eq!(out.samples().len(), (w * h) as usize);
        let lo = *out.samples().iter().min().unwrap();
        let hi = *out.samples().iter().max().unwrap();
        let src_lo = *source.samples().iter().min().unwrap();
        let src_hi = *source.samples().iter().max().unwrap();
        assert!(src_lo <= lo && hi <= src_hi);
    }
}

#[test]
fn narrow_support_gives_a_degenerate_window() {
    let source = gray(2, 1, vec![10, 20]);
    let narrow = Kernel::new(KernelShape::Triangle, 1, 4).unwrap();
    assert_eq!(sample_window(&narrow, 0, 2, 1), (1, 0));
    assert_eq!(error_of(horizontal_sample(&source, 1, &narrow)), ResizeError::DegenerateWindow);
    assert_eq!(error_of(resize_with(&source, 1, 1, &narrow)), ResizeError::DegenerateWindow);
    let tall = gray(1, 2, vec![10, 20]);
    assert_eq!(error_of(vertical_sample(&tall, 1, &narrow)), ResizeError::DegenerateWindow);
}

#[test]
fn narrow_support_is_fine_where_centers_fall_on_samples() {
    let source = gray(3, 1, vec![10, 20, 30]);
    let narrow = Kernel::new(KernelShape::Triangle, 1, 4).unwrap();
    let out = horizontal_sample(&source, 3, &narrow).unwrap();
    assert_eq!(out.samples(), &vec![10u8, 20, 30]);
}

#[test]
fn boxcar_picks_the_nearest_sample() {
    let source = gray(4, 1, vec![10, 20, 30, 40]);
    let out = horizontal_sample(&source, 2, &Kernel::boxcar()).unwrap();
    // centers 0.5 and 2.5: a bound that falls on a sample belongs to the one below
    assert_eq!(out.samples(), &vec![10u8, 30]);
    let out = horizontal_sample(&source, 8, &Kernel::boxcar()).unwrap();
    assert_eq!(out.samples(), &vec![10u8, 10, 20, 20, 30, 30, 40, 40]);
}

#[test]
fn zero_targets_are_invalid() {
    let source = gray(2, 2, vec![1, 2, 3, 4]);
    assert_eq!(error_of(resize(&source, 0, 2)), ResizeError::InvalidDimension);
    assert_eq!(error_of(resize(&source, 2, 0)), ResizeError::InvalidDimension);
    assert_eq!(error_of(resize(&source, 0, 0)), ResizeError::InvalidDimension);
    assert_eq!(
        error_of(horizontal_sample(&source, 0, &Kernel::triangle())),
        ResizeError::InvalidDimension
    );
    assert_eq!(
        error_of(vertical_sample(&source, 0, &Kernel::triangle())),
        ResizeError::InvalidDimension
    );
    assert_eq!(error_of(resize_to_width(&source, 0)), ResizeError::InvalidDimension);
}

#[test]
fn raster_construction_is_validated() {
    assert_eq!(error_of(Raster::<u8>::new(0, 1, 1, vec![])), ResizeError::InvalidDimension);
    assert_eq!(error_of(Raster::<u8>::new(1, 0, 1, vec![])), ResizeError::InvalidDimension);
    assert_eq!(error_of(Raster::new(1, 1, 0, vec![1u8])), ResizeError::UnsupportedPixelFormat);
    assert_eq!(
        error_of(Raster::new(1, 1, 5, vec![1u8, 2, 3, 4, 5])),
        ResizeError::UnsupportedPixelFormat
    );
    assert_eq!(error_of(Raster::new(2, 2, 1, vec![1u8, 2, 3])), ResizeError::InvalidDimension);
    assert_eq!(error_of(Raster::new(0, 0, 0, vec![1u8])), ResizeError::InvalidDimension);
    let ok = Raster::new(2, 1, 2, vec![1u8, 2, 3, 4]).unwrap();
    assert_eq!(ok.get(1, 0, 1), Some(4));
    assert_eq!(ok.get(0, 0, 1), Some(2));
    assert_eq!(ok.get(2, 0, 0), None);
    assert_eq!(ok.get(0, 1, 0), None);
    assert_eq!(ok.get(0, 0, 2), None);
}

#[test]
fn aspect_lock_downscale() {
    let source = Raster::new(1000, 500, 1, vec![7u8; 500_000]).unwrap();
    assert_eq!(derived_height(&source, 180), 90);
    let out = resize_to_width(&source, 180).unwrap();
    assert_eq!((out.width(), out.height()), (180, 90));
    let ratio = out.height() as f64 / out.width() as f64;
    assert!((ratio - 0.5).abs() <= 1.0 / out.height() as f64);
    assert!(out.samples().iter().all(|&s| s == 7));
}

#[test]
fn aspect_lock_upscale_has_a_positive_height() {
    let source = gray(4, 3, vec![9; 12]);
    let out = resize_to_width(&source, 10).unwrap();
    assert_eq!((out.width(), out.height()), (10, 7));
    let ratio = out.height() as f64 / out.width() as f64;
    assert!((ratio - 0.75).abs() <= 1.0 / out.height() as f64);
    let out = resize_to_width(&source, 400).unwrap();
    assert_eq!((out.width(), out.height()), (400, 300));
}

#[test]
fn aspect_lock_rejects_a_vanishing_height() {
    let source = gray(10, 1, vec![1; 10]);
    assert_eq!(derived_height(&source, 5), 0);
    assert_eq!(error_of(resize_to_width(&source, 5)), ResizeError::InvalidDimension);
}

#[test]
fn window_of_the_triangle_kernel() {
    let k = Kernel::triangle();
    // 4 -> 2: centers 0.5 and 2.5
    assert_eq!(center_numerator(0, 4, 2), 2);
    assert_eq!(center_numerator(1, 4, 2), 10);
    assert_eq!(sample_window(&k, 0, 4, 2), (0, 1));
    assert_eq!(sample_window(&k, 1, 4, 2), (2, 3));
    // 3 -> 3: centers fall on samples, the bound on the right is left out
    assert_eq!(sample_window(&k, 0, 3, 3), (0, 0));
    assert_eq!(sample_window(&k, 1, 3, 3), (0, 1));
    assert_eq!(sample_window(&k, 2, 3, 3), (1, 2));
    // 2 -> 4: the first center lies before the line, the last beyond its last sample
    assert_eq!(center_numerator(0, 2, 4), -2);
    assert_eq!(sample_window(&k, 0, 2, 4), (0, 0));
    assert_eq!(sample_window(&k, 3, 2, 4), (1, 1));
}

#[test]
fn kernel_weights() {
    let t = Kernel::triangle();
    assert_eq!(t.weight(0, 4), 4);
    assert_eq!(t.weight(1, 4), 3);
    assert_eq!(t.weight(-3, 4), 1);
    assert_eq!(t.weight(4, 4), 0);
    assert_eq!(t.weight(-9, 4), 0);
    let b = Kernel::boxcar();
    assert_eq!(b.weight(2, 4), 4);
    assert_eq!(b.weight(-2, 4), 4);
    assert_eq!(b.weight(3, 4), 0);
    assert_eq!(b.weight(1, 3), 3);
    assert_eq!(b.weight(2, 3), 0);
    assert_eq!(t.support(), (1, 1));
    assert_eq!(b.support(), (1, 2));
    assert_eq!(t.shape(), KernelShape::Triangle);
    assert!(Kernel::new(KernelShape::Boxcar, 0, 1).is_none());
    assert!(Kernel::new(KernelShape::Boxcar, 1, 0).is_none());
    assert_eq!(Kernel::new(KernelShape::Boxcar, 3, 2).unwrap().support(), (3, 2));
}

#[test]
fn channel_conversions_clamp_before_narrowing() {
    assert_eq!(<u8 as Channel>::from_working(300), 255);
    assert_eq!(<u8 as Channel>::from_working(-1), 0);
    assert_eq!(<u8 as Channel>::from_working(256), 255);
    assert_eq!(<u8 as Channel>::from_working(200), 200);
    assert_eq!(<u16 as Channel>::from_working(70000), 65535);
    assert_eq!(<u16 as Channel>::from_working(-70000), 0);
    assert_eq!(<u16 as Channel>::from_working(300), 300);
    assert_eq!(200u8.to_working(), 200);
    assert_eq!(60000u16.to_working(), 60000);
    assert_eq!(<u8 as Channel>::max_value(), 255);
    assert_eq!(<u16 as Channel>::max_value(), 65535);
}

#[test]
fn addressable_buffers() {
    assert!(addressable(1000, 1000, 4));
    assert!(addressable(0, u32::MAX, 255));
    assert!(!addressable(u32::MAX, u32::MAX, 255));
}

#[test]
fn error_descriptions() {
    assert_eq!(ResizeError::InvalidDimension.describe(), "invalid dimension");
    assert_eq!(ResizeError::DegenerateWindow.describe(), "degenerate sample window");
    assert_eq!(ResizeError::UnsupportedPixelFormat.describe(), "unsupported pixel format");
}

#[test]
fn clone_copies_the_samples() {
    let source = Raster::new(2, 1, 2, vec![1u16, 2, 3, 4]).unwrap();
    let copy = source.clone();
    assert_eq!((copy.width(), copy.height(), copy.channels()), (2, 1, 2));
    assert_eq!(copy.samples(), source.samples());
}

#[test]
fn boxcar_resize_never_fails() {
    let samples: Vec<u8> = (0..21u32).map(|i| (i * 12) as u8).collect();
    let source = gray(7, 3, samples);
    for (w, h) in [(1u32, 1u32), (2, 5), (7, 3), (30, 1), (13, 13)] {
        let out = resize_with(&source, w, h, &Kernel::boxcar()).unwrap();
        assert_eq!((out.width(), out.height()), (w, h));
        assert!(out.samples().iter().all(|s| source.samples().contains(s)));
    }
}

#[test]
fn triangle_resize_by_three_takes_the_middle_sample() {
    let source = gray(3, 3, vec![0, 0, 0, 0, 255, 0, 0, 0, 0]);
    let out = resize(&source, 1, 1).unwrap();
    assert_eq!(out.samples(), &vec![255u8]);
}

#[test]
fn tall_results_may_miss_the_proportions_by_more_than_one_over_the_height() {
    let source = gray(3, 11, vec![5; 33]);
    let out = resize_to_width(&source, 1).unwrap();
    assert_eq!((out.width(), out.height()), (1, 3));
    let off = (out.height() as f64 / out.width() as f64 - 11.0 / 3.0).abs();
    assert!(off < 1.0 / out.width() as f64);
    assert!(off > 1.0 / out.height() as f64);
}

#[test]
fn whole_factor_downscale_stays_within_each_block() {
    let samples: Vec<u8> = (0..144u32).map(|i| ((i * 97 + 13) % 256) as u8).collect();
    let source = gray(12, 12, samples.clone());
    for f in [1u32, 2, 3, 4, 6, 12] {
        let side = 12 / f;
        let out = resize(&source, side, side).unwrap();
        for y in 0..side {
            for x in 0..side {
                let mut least = u8::MAX;
                let mut greatest = u8::MIN;
                for j in f * y..f * y + f {
                    for i in f * x..f * x + f {
                        let s = samples[(j * 12 + i) as usize];
                        least = least.min(s);
                        greatest = greatest.max(s);
                    }
                }
                let got = out.get(x, y, 0).unwrap();
                assert!(least <= got && got <= greatest, "f = {}, ({}, {})", f, x, y);
            }
        }
    }
}
