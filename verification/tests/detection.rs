use wow_hardware_fishbot::geometry::Rect;
use wow_hardware_fishbot::vision::{
    check_edge_input, check_search_request, check_template_edges, check_templates_found,
    is_template_candidate, needs_match, select_detection, template_fits, Found, MatchPeak, TemplateShape,
    VisionError, INFINITY_KEY, ONE_KEY,
};

/// Order key of a double, as the library expects scores.
fn key(x: f64) -> i64 {
    let bits = (x + 0.0).to_bits() as i64;
    if bits < 0 {
        -(bits & i64::MAX)
    } else {
        bits
    }
}

fn peak(score: f64, x: i32, y: i32) -> Option<MatchPeak> {
    Some(MatchPeak { score: key(score), x, y })
}

#[test]
fn score_keys_order_like_doubles() {
    assert_eq!(key(1.0), ONE_KEY);
    assert_eq!(key(f64::INFINITY), INFINITY_KEY);
    assert_eq!(key(-0.0), key(0.0));
    let values = [-1.0, -0.5, -1e-9, 0.0, 1e-9, 0.5, 0.8, 0.999, 1.0];
    for w in values.windows(2) {
        assert!(key(w[0]) < key(w[1]));
    }
    assert!(key(f64::NAN) > INFINITY_KEY);
}

#[test]
fn invalid_thresholds_are_rejected_first() {
    assert_eq!(check_search_request(key(f64::NAN), 0), Err(VisionError::InvalidThreshold));
    assert_eq!(check_search_request(key(1.5), 3), Err(VisionError::InvalidThreshold));
    assert_eq!(check_search_request(key(-0.1), 3), Err(VisionError::InvalidThreshold));
    assert_eq!(check_search_request(key(f64::INFINITY), 3), Err(VisionError::InvalidThreshold));
    assert_eq!(check_search_request(key(0.8), 0), Err(VisionError::NoTemplatesSupplied));
    assert_eq!(check_search_request(key(0.0), 1), Ok(()));
    assert_eq!(check_search_request(key(1.0), 1), Ok(()));
}

#[test]
fn edges_need_nonempty_gray_images() {
    assert_eq!(check_edge_input(true, true), Err(VisionError::NotGrayImage));
    assert_eq!(check_edge_input(false, false), Err(VisionError::NotGrayImage));
    assert_eq!(check_edge_input(false, true), Ok(()));
}

#[test]
fn templates_larger_than_the_frame_do_not_fit() {
    let frame = (120, 100);
    assert!(template_fits(TemplateShape { cols: 40, rows: 40 }, frame.0, frame.1));
    assert!(template_fits(TemplateShape { cols: 120, rows: 100 }, frame.0, frame.1));
    assert!(!template_fits(TemplateShape { cols: 200, rows: 200 }, frame.0, frame.1));
    assert!(!template_fits(TemplateShape { cols: 121, rows: 10 }, frame.0, frame.1));
    assert!(needs_match(TemplateShape { cols: 40, rows: 40 }, frame.0, frame.1, 3));
    assert!(!needs_match(TemplateShape { cols: 40, rows: 40 }, frame.0, frame.1, 0));
    assert!(!needs_match(TemplateShape { cols: 200, rows: 40 }, frame.0, frame.1, 3));
}

#[test]
fn finds_second_template_and_correct_rectangle() {
    // An oversized 200x200 template first, then the 40x40 fixture, whose best
    // match in the 120x100 frame lies at (50, 30).
    let shapes = vec![TemplateShape { cols: 200, rows: 200 }, TemplateShape { cols: 40, rows: 40 }];
    let peaks = vec![None, peak(1.0, 50, 30)];
    let found = select_detection(&shapes, &peaks, 120, 100, 112, key(0.99)).unwrap().expect("fixture should match");
    assert_eq!(found.template, 1);
    assert_eq!(found.rect, Rect::new(50, 30, 40, 40));
}

#[test]
fn rejects_blank_frames_and_invalid_thresholds() {
    let shapes = vec![TemplateShape { cols: 40, rows: 40 }];
    // a blank 100x100 frame has no edges
    assert!(select_detection(&shapes, &vec![None], 100, 100, 0, key(0.8)).unwrap().is_none());
    assert!(check_search_request(key(f64::NAN), 1).is_err());
    assert!(check_search_request(key(0.8), 0).is_err());
}

#[test]
fn rejects_unrelated_edges_and_oversized_templates() {
    // a diagonal line matches the rectangle fixture poorly
    let shapes = vec![TemplateShape { cols: 40, rows: 40 }];
    assert!(select_detection(&shapes, &vec![peak(0.21, 0, 0)], 40, 40, 140, key(0.99)).unwrap().is_none());
    // a 20x20 crop is smaller than the template
    assert!(select_detection(&shapes, &vec![None], 20, 20, 70, key(0.80)).is_err());
}

#[test]
fn oversized_templates_only_is_an_error() {
    let shapes = vec![TemplateShape { cols: 40, rows: 40 }];
    assert_eq!(
        select_detection(&shapes, &vec![None], 20, 20, 55, key(0.8)),
        Err(VisionError::AllTemplatesTooLarge)
    );
}

#[test]
fn scores_below_the_threshold_or_not_finite_are_ignored() {
    let shapes = vec![TemplateShape { cols: 10, rows: 10 }; 3];
    let peaks = vec![peak(0.5, 1, 1), peak(f64::NAN, 2, 2), peak(f64::INFINITY, 3, 3)];
    assert_eq!(select_detection(&shapes, &peaks, 40, 40, 5, key(0.99)), Ok(None));
}

#[test]
fn first_template_with_the_best_score_wins() {
    let shapes = vec![
        TemplateShape { cols: 10, rows: 12 },
        TemplateShape { cols: 11, rows: 13 },
        TemplateShape { cols: 12, rows: 14 },
        TemplateShape { cols: 13, rows: 15 },
    ];
    let peaks = vec![peak(0.85, 0, 0), peak(0.93, 5, 6), peak(0.93, 7, 8), peak(0.80, 9, 9)];
    let found = select_detection(&shapes, &peaks, 40, 40, 5, key(0.80)).unwrap();
    assert_eq!(
        found,
        Some(Found { template: 1, score: key(0.93), rect: Rect::new(5, 6, 11, 13) })
    );
}

#[test]
fn a_score_equal_to_the_threshold_is_accepted() {
    let shapes = vec![TemplateShape { cols: 10, rows: 10 }];
    let found = select_detection(&shapes, &vec![peak(0.8, 4, 4)], 40, 40, 5, key(0.8)).unwrap();
    assert_eq!(found.map(|f| f.template), Some(0));
}

#[test]
fn only_image_files_are_templates() {
    assert!(is_template_candidate(true, b"png"));
    assert!(is_template_candidate(true, b"PNG"));
    assert!(is_template_candidate(true, b"JpEg"));
    assert!(is_template_candidate(true, b"jpg"));
    assert!(is_template_candidate(true, b"bmp"));
    assert!(!is_template_candidate(false, b"png"));
    assert!(!is_template_candidate(true, b"gif"));
    assert!(!is_template_candidate(true, b""));
    assert!(!is_template_candidate(true, b"pngx"));
}

#[test]
fn templates_need_edge_variation() {
    assert_eq!(check_template_edges(0, 40, 40), Err(VisionError::NoEdgeVariation));
    assert_eq!(check_template_edges(1600, 40, 40), Err(VisionError::NoEdgeVariation));
    assert_eq!(check_template_edges(120, 40, 40), Ok(()));
    assert_eq!(check_templates_found(0), Err(VisionError::NoTemplatesFound));
    assert_eq!(check_templates_found(2), Ok(()));
}
