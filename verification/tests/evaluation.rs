use wow_hardware_fishbot::evaluation::{
    evaluation_setup, is_hit, is_present, region_best, region_of, representation, target_window,
    ImageStage, RegionCandidate, RegionName, Representation, UsageError, MINUS_TWO_KEY,
};
use wow_hardware_fishbot::geometry::{overlap_areas, Rect};

fn key(x: f64) -> i64 {
    let bits = (x + 0.0).to_bits() as i64;
    if bits < 0 {
        -(bits & i64::MAX)
    } else {
        bits
    }
}

#[test]
fn default_run_compares_three_modes_in_two_regions() {
    let setup = evaluation_setup(2, None).unwrap();
    assert!(!setup.diagnose);
    assert_eq!(setup.modes, vec![Representation::Edges, Representation::Gray, Representation::Color]);
    assert_eq!(setup.regions, vec![RegionName::Full, RegionName::Central]);
}

#[test]
fn diagnose_and_smooth_runs_use_the_central_region() {
    let diagnose = evaluation_setup(3, Some(b"--diagnose")).unwrap();
    assert!(diagnose.diagnose);
    assert_eq!(
        diagnose.modes,
        vec![Representation::Color, Representation::Contrast, Representation::Chroma, Representation::EdgesLow]
    );
    assert_eq!(diagnose.regions, vec![RegionName::Central]);
    let smooth = evaluation_setup(3, Some(b"--smooth")).unwrap();
    assert!(smooth.diagnose);
    assert_eq!(smooth.modes, vec![Representation::ColorSmooth, Representation::ChromaSmooth]);
    assert_eq!(smooth.regions, vec![RegionName::Central]);
}

#[test]
fn bad_command_lines_are_refused() {
    assert_eq!(evaluation_setup(0, None), Err(UsageError));
    assert_eq!(evaluation_setup(1, None), Err(UsageError));
    assert_eq!(evaluation_setup(3, Some(b"--fast")), Err(UsageError));
    assert_eq!(evaluation_setup(4, Some(b"--smooth")), Err(UsageError));
}

#[test]
fn regions_are_the_documented_rectangles() {
    assert_eq!(region_of(RegionName::Full), Rect::new(0, 0, 1920, 1080));
    assert_eq!(region_of(RegionName::Central), Rect::new(350, 150, 1250, 400));
}

#[test]
fn representations_are_pipelines() {
    assert_eq!(representation(Representation::Edges), vec![ImageStage::Gray, ImageStage::Canny { low: 50, high: 100 }]);
    assert_eq!(representation(Representation::EdgesLow), vec![ImageStage::Gray, ImageStage::Canny { low: 10, high: 25 }]);
    assert_eq!(representation(Representation::Gray), vec![ImageStage::Gray]);
    assert_eq!(representation(Representation::Color), vec![ImageStage::Copy]);
    assert_eq!(representation(Representation::Chroma), vec![ImageStage::LabChroma]);
    assert_eq!(representation(Representation::Contrast), vec![ImageStage::RemoveLocalContrast]);
    assert_eq!(representation(Representation::ColorSmooth), vec![ImageStage::Smooth, ImageStage::Copy]);
    assert_eq!(representation(Representation::ChromaSmooth), vec![ImageStage::Smooth, ImageStage::LabChroma]);
}

#[test]
fn hits_need_presence_and_the_center_inside() {
    let target = Rect::new(100, 100, 40, 40);
    assert!(is_present(b"1"));
    assert!(!is_present(b"0"));
    assert!(!is_present(b"11"));
    assert!(is_hit(b"1", target, Rect::new(90, 90, 30, 30)));
    assert!(!is_hit(b"0", target, Rect::new(90, 90, 30, 30)));
    // center (140, 110) is on the right edge, which is outside
    assert!(!is_hit(b"1", target, Rect::new(130, 100, 20, 20)));
    assert!(is_hit(b"1", target, Rect::new(129, 100, 20, 20)));
}

#[test]
fn overlap_areas_give_intersection_and_union() {
    let a = Rect::new(0, 0, 10, 10);
    let b = Rect::new(5, 5, 10, 10);
    assert_eq!(overlap_areas(a, b), (25, 175));
    assert_eq!(overlap_areas(b, a), (25, 175));
    assert_eq!(overlap_areas(a, Rect::new(20, 20, 5, 5)), (0, 125));
    assert_eq!(overlap_areas(a, a), (100, 100));
}

#[test]
fn target_window_in_score_coordinates() {
    let target = Rect::new(800, 300, 40, 30);
    let region = Rect::new(350, 150, 1250, 400);
    // template 20x10: x0 = 800-350-10 = 440, x1 = 840-350-10 = 480,
    // y0 = 300-150-5 = 145, y1 = 330-150-5 = 175
    assert_eq!(target_window(target, region, 20, 10, 1231, 391), Some(Rect::new(440, 145, 40, 30)));
    // clipped by the score map
    assert_eq!(target_window(target, region, 20, 10, 460, 391), Some(Rect::new(440, 145, 20, 30)));
    // outside the score map
    assert_eq!(target_window(target, region, 20, 10, 400, 391), None);
    assert_eq!(target_window(Rect::new(0, 0, 0, 0), region, 20, 10, 1231, 391), None);
}

fn candidate(score: f64, x: i32, target: Option<f64>) -> RegionCandidate {
    RegionCandidate { score: key(score), x, y: 7, cols: 20, rows: 10, target_peak: target.map(key) }
}

#[test]
fn region_best_takes_the_first_highest_score() {
    assert_eq!(MINUS_TWO_KEY, key(-2.0));
    let region = Rect::new(350, 150, 1250, 400);
    let cands = vec![
        candidate(0.4, 1, None),
        candidate(0.9, 2, Some(0.3)),
        candidate(f64::NAN, 3, Some(f64::NAN)),
        candidate(0.9, 4, Some(0.7)),
        candidate(-0.5, 5, Some(0.7)),
    ];
    let (best, target) = region_best(&cands, region);
    assert_eq!(best, Some((1, Rect::new(352, 157, 20, 10))));
    assert_eq!(target, Some(3));
    assert_eq!(region_best(&vec![], region), (None, None));
    assert_eq!(region_best(&vec![candidate(-3.0, 0, Some(-2.5))], region), (None, None));
}
