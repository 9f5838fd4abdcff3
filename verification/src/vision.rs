use crate::geometry::Rect;
use vstd::prelude::*;

verus! {

// Match scores are IEEE doubles. They reach this module as order keys: the
// magnitude bits of the double (sign bit cleared), negated for a negative
// double. Keys compare exactly as the doubles do (both zeros share key 0),
// finite doubles have keys strictly between -INFINITY_KEY and INFINITY_KEY,
// and a NaN's key lies outside that interval.

/// Key of positive infinity.
pub const INFINITY_KEY: i64 = 0x7FF0_0000_0000_0000;

/// Key of 1.0.
pub const ONE_KEY: i64 = 0x3FF0_0000_0000_0000;

/// Why a search for the bobber could not be run.
#[derive(Clone, Copy, PartialEq, Eq, Structural, Debug)]
pub enum VisionError {
    /// The threshold is not a finite number between 0 and 1.
    InvalidThreshold,
    /// No templates were supplied.
    NoTemplatesSupplied,
    /// The image to take edges of is empty or not 8-bit grayscale.
    NotGrayImage,
    /// Every template is larger than the frame.
    AllTemplatesTooLarge,
    /// A template's edge image is all black or all white.
    NoEdgeVariation,
    /// A template directory held no usable image.
    NoTemplatesFound,
}

pub open spec fn is_finite_key(key: int) -> bool {
    -INFINITY_KEY < key < INFINITY_KEY
}

/// The threshold is a finite number in `0.0..=1.0`.
pub open spec fn valid_threshold(threshold: int) -> bool {
    is_finite_key(threshold) && 0 <= threshold <= ONE_KEY
}

/// Size of a template's edge image.
#[derive(Clone, Copy, PartialEq, Eq, Structural, Debug)]
pub struct TemplateShape {
    pub cols: i32,
    pub rows: i32,
}

/// The best match of one template in the frame: its score key and the top
/// left corner where it was found.
#[derive(Clone, Copy, PartialEq, Eq, Structural, Debug)]
pub struct MatchPeak {
    pub score: i64,
    pub x: i32,
    pub y: i32,
}

/// The template chosen for the frame, its score key and where it lies.
#[derive(Clone, Copy, PartialEq, Eq, Structural, Debug)]
pub struct Found {
    pub template: usize,
    pub score: i64,
    pub rect: Rect,
}

/// Checks a search request before any image work: first the threshold, then
/// that some template is supplied.
pub fn check_search_request(threshold: i64, template_count: usize) -> (r: Result<(), VisionError>)
    ensures
        r == (if !valid_threshold(threshold as int) {
            Err(VisionError::InvalidThreshold)
        } else if template_count == 0 {
            Err(VisionError::NoTemplatesSupplied)
        } else {
            Ok(())
        }),
{
    if !(-INFINITY_KEY < threshold && threshold < INFINITY_KEY) || !(0 <= threshold && threshold <= ONE_KEY) {
        return Err(VisionError::InvalidThreshold);
    }
    if template_count == 0 {
        return Err(VisionError::NoTemplatesSupplied);
    }
    Ok(())
}

/// Edges are taken only of a nonempty 8-bit grayscale image.
pub fn check_edge_input(empty: bool, gray8: bool) -> (r: Result<(), VisionError>)
    ensures
        r == (if empty || !gray8 { Err(VisionError::NotGrayImage) } else { Ok(()) }),
{
    if empty || !gray8 {
        Err(VisionError::NotGrayImage)
    } else {
        Ok(())
    }
}

pub open spec fn fits(shape: TemplateShape, frame_cols: int, frame_rows: int) -> bool {
    shape.cols <= frame_cols && shape.rows <= frame_rows
}

/// A template is searched for only if it is no wider and no taller than the frame.
pub fn template_fits(shape: TemplateShape, frame_cols: i32, frame_rows: i32) -> (r: bool)
    ensures
        r == fits(shape, frame_cols as int, frame_rows as int),
{
    shape.cols <= frame_cols && shape.rows <= frame_rows
}

/// A template is matched against the frame only when the frame has edges and
/// the template fits it; `select_detection` needs the match of exactly these.
pub fn needs_match(shape: TemplateShape, frame_cols: i32, frame_rows: i32, frame_edge_count: i32) -> (r: bool)
    ensures
        r == (frame_edge_count != 0 && fits(shape, frame_cols as int, frame_rows as int)),
{
    frame_edge_count != 0 && template_fits(shape, frame_cols, frame_rows)
}

/// A fitting template whose score is finite and at least the threshold.
pub open spec fn acceptable(
    shapes: Seq<TemplateShape>,
    peaks: Seq<Option<MatchPeak>>,
    frame_cols: int,
    frame_rows: int,
    threshold: int,
    i: int,
) -> bool {
    &&& fits(shapes[i], frame_cols, frame_rows)
    &&& peaks[i] is Some
    &&& is_finite_key(peaks[i]->0.score as int)
    &&& peaks[i]->0.score >= threshold
}

/// Index of the best acceptable template among the first `n`: a later
/// template replaces the best so far only with a strictly higher score.
pub open spec fn best_among(
    shapes: Seq<TemplateShape>,
    peaks: Seq<Option<MatchPeak>>,
    frame_cols: int,
    frame_rows: int,
    threshold: int,
    n: int,
) -> Option<int>
    decreases n,
{
    if n <= 0 {
        None
    } else {
        let before = best_among(shapes, peaks, frame_cols, frame_rows, threshold, n - 1);
        let i = n - 1;
        if acceptable(shapes, peaks, frame_cols, frame_rows, threshold, i) && (before is None
            || peaks[i]->0.score > peaks[before->0]->0.score) {
            Some(i)
        } else {
            before
        }
    }
}

/// The best template so far is one of the first `n` and is acceptable.
pub proof fn lemma_best_among_acceptable(
    shapes: Seq<TemplateShape>,
    peaks: Seq<Option<MatchPeak>>,
    frame_cols: int,
    frame_rows: int,
    threshold: int,
    n: int,
)
    ensures
        best_among(shapes, peaks, frame_cols, frame_rows, threshold, n) matches Some(b) ==> 0 <= b < n
            && acceptable(shapes, peaks, frame_cols, frame_rows, threshold, b),
    decreases n,
{
    if n > 0 {
        lemma_best_among_acceptable(shapes, peaks, frame_cols, frame_rows, threshold, n - 1);
    }
}

pub open spec fn peak_score(peaks: Seq<Option<MatchPeak>>, i: int) -> int {
    peaks[i]->0.score as int
}

/// The chosen template is the first one with the highest score among the
/// acceptable templates, and none is chosen exactly when none is acceptable.
pub proof fn lemma_best_among_is_first_maximum(
    shapes: Seq<TemplateShape>,
    peaks: Seq<Option<MatchPeak>>,
    frame_cols: int,
    frame_rows: int,
    threshold: int,
    n: int,
)
    ensures
        best_among(shapes, peaks, frame_cols, frame_rows, threshold, n) is None <==> forall|j: int|
            0 <= j < n ==> !#[trigger] acceptable(shapes, peaks, frame_cols, frame_rows, threshold, j),
        best_among(shapes, peaks, frame_cols, frame_rows, threshold, n) matches Some(b) ==> forall|j: int|
            0 <= j < n && #[trigger] acceptable(shapes, peaks, frame_cols, frame_rows, threshold, j)
                ==> peak_score(peaks, j) <= peak_score(peaks, b),
        best_among(shapes, peaks, frame_cols, frame_rows, threshold, n) matches Some(b) ==> forall|j: int|
            0 <= j < b && #[trigger] acceptable(shapes, peaks, frame_cols, frame_rows, threshold, j)
                ==> peak_score(peaks, j) < peak_score(peaks, b),
    decreases n,
{
    lemma_best_among_acceptable(shapes, peaks, frame_cols, frame_rows, threshold, n);
    if n > 0 {
        lemma_best_among_is_first_maximum(shapes, peaks, frame_cols, frame_rows, threshold, n - 1);
        lemma_best_among_acceptable(shapes, peaks, frame_cols, frame_rows, threshold, n - 1);
    }
}

pub open spec fn some_fits(shapes: Seq<TemplateShape>, frame_cols: int, frame_rows: int) -> bool {
    exists|i: int| 0 <= i < shapes.len() && fits(#[trigger] shapes[i], frame_cols, frame_rows)
}

/// What a search with these inputs finds.
pub open spec fn search_result(
    shapes: Seq<TemplateShape>,
    peaks: Seq<Option<MatchPeak>>,
    frame_cols: int,
    frame_rows: int,
    frame_edge_count: int,
    threshold: int,
) -> Result<Option<Found>, VisionError> {
    if frame_edge_count == 0 {
        Ok(None)
    } else if !some_fits(shapes, frame_cols, frame_rows) {
        Err(VisionError::AllTemplatesTooLarge)
    } else {
        match best_among(shapes, peaks, frame_cols, frame_rows, threshold, shapes.len() as int) {
            None => Ok(None),
            Some(i) => Ok(
                Some(
                    Found {
                        template: i as usize,
                        score: peaks[i]->0.score,
                        rect: Rect {
                            x: peaks[i]->0.x,
                            y: peaks[i]->0.y,
                            width: shapes[i].cols,
                            height: shapes[i].rows,
                        },
                    },
                ),
            ),
        }
    }
}

/// What a search finds, stated over the inputs themselves. A frame without
/// edges yields nothing. Otherwise the search fails exactly when every
/// template is wider or taller than the frame, whatever their order; else the
/// chosen template fits the frame, has a finite score at least the threshold,
/// is placed at its match location with its own size, scores at least as high
/// as every other fitting template with a finite score at least the threshold
/// and strictly higher than each earlier one; and nothing is chosen only when
/// no fitting template has a finite score at least the threshold.
pub proof fn lemma_search_result(
    shapes: Seq<TemplateShape>,
    peaks: Seq<Option<MatchPeak>>,
    frame_cols: int,
    frame_rows: int,
    frame_edge_count: int,
    threshold: int,
)
    requires
        peaks.len() == shapes.len(),
        shapes.len() <= usize::MAX,
    ensures
        ({
            let r = search_result(shapes, peaks, frame_cols, frame_rows, frame_edge_count, threshold);
            &&& frame_edge_count == 0 ==> r == Ok::<Option<Found>, VisionError>(None)
            &&& (r == Err::<Option<Found>, VisionError>(VisionError::AllTemplatesTooLarge) <==> (frame_edge_count != 0
                && forall|i: int| 0 <= i < shapes.len() ==> #[trigger] shapes[i].cols > frame_cols || shapes[i].rows > frame_rows))
            &&& (r is Err ==> r == Err::<Option<Found>, VisionError>(VisionError::AllTemplatesTooLarge))
            &&& (r matches Ok(Some(f)) ==> {
                &&& 0 <= f.template < shapes.len()
                &&& shapes[f.template as int].cols <= frame_cols
                &&& shapes[f.template as int].rows <= frame_rows
                &&& peaks[f.template as int] == Some(MatchPeak { score: f.score, x: f.rect.x, y: f.rect.y })
                &&& -INFINITY_KEY < f.score < INFINITY_KEY
                &&& f.score >= threshold
                &&& f.rect.width == shapes[f.template as int].cols
                &&& f.rect.height == shapes[f.template as int].rows
                &&& forall|j: int| 0 <= j < shapes.len() && shapes[j].cols <= frame_cols && shapes[j].rows <= frame_rows
                    && #[trigger] peaks[j] is Some && -INFINITY_KEY < peaks[j]->0.score < INFINITY_KEY
                    && peaks[j]->0.score >= threshold
                    ==> peaks[j]->0.score <= f.score && (j < f.template ==> peaks[j]->0.score < f.score)
            })
            &&& (r == Ok::<Option<Found>, VisionError>(None) && frame_edge_count != 0 ==> forall|j: int|
                0 <= j < shapes.len() && shapes[j].cols <= frame_cols && shapes[j].rows <= frame_rows
                    && #[trigger] peaks[j] is Some ==> !(-INFINITY_KEY < peaks[j]->0.score < INFINITY_KEY
                    && peaks[j]->0.score >= threshold))
        }),
{
    let n = shapes.len() as int;
    lemma_best_among_is_first_maximum(shapes, peaks, frame_cols, frame_rows, threshold, n);
    lemma_best_among_acceptable(shapes, peaks, frame_cols, frame_rows, threshold, n);
    let r = search_result(shapes, peaks, frame_cols, frame_rows, frame_edge_count, threshold);
    if frame_edge_count != 0 {
        if forall|i: int| 0 <= i < shapes.len() ==> #[trigger] shapes[i].cols > frame_cols || shapes[i].rows > frame_rows {
            assert(!some_fits(shapes, frame_cols, frame_rows));
        } else {
            let i = choose|i: int| 0 <= i < shapes.len() && !(#[trigger] shapes[i].cols > frame_cols || shapes[i].rows > frame_rows);
            assert(fits(shapes[i], frame_cols, frame_rows));
            assert(some_fits(shapes, frame_cols, frame_rows));
        }
        if r is Ok && r->Ok_0 is Some {
            let f = r->Ok_0->Some_0;
            let b = best_among(shapes, peaks, frame_cols, frame_rows, threshold, n)->0;
            assert(f.template as int == b);
            assert forall|j: int| 0 <= j < shapes.len() && shapes[j].cols <= frame_cols && shapes[j].rows <= frame_rows
                && #[trigger] peaks[j] is Some && -INFINITY_KEY < peaks[j]->0.score < INFINITY_KEY
                && peaks[j]->0.score >= threshold implies peaks[j]->0.score <= f.score && (j < f.template ==> peaks[j]->0.score < f.score) by {
                assert(acceptable(shapes, peaks, frame_cols, frame_rows, threshold, j));
            }
        }
        if r == Ok::<Option<Found>, VisionError>(None) {
            assert forall|j: int| 0 <= j < shapes.len() && shapes[j].cols <= frame_cols && shapes[j].rows <= frame_rows
                && #[trigger] peaks[j] is Some implies !(-INFINITY_KEY < peaks[j]->0.score < INFINITY_KEY
                && peaks[j]->0.score >= threshold) by {
                if -INFINITY_KEY < peaks[j]->0.score < INFINITY_KEY && peaks[j]->0.score >= threshold {
                    assert(acceptable(shapes, peaks, frame_cols, frame_rows, threshold, j));
                }
            }
        }
    }
}

/// Chooses the template that marks the bobber in a frame, once the request has
/// passed `check_search_request` and the frame's edges have been counted.
/// A frame without edges yields nothing. Otherwise some template must fit the
/// frame, and among the fitting templates with a finite score at least the
/// threshold, the first one with the highest score is chosen. `peaks` holds the
/// match of every fitting template; entries of other templates are ignored.
pub fn select_detection(
    shapes: &Vec<TemplateShape>,
    peaks: &Vec<Option<MatchPeak>>,
    frame_cols: i32,
    frame_rows: i32,
    frame_edge_count: i32,
    threshold: i64,
) -> (r: Result<Option<Found>, VisionError>)
    requires
        peaks.len() == shapes.len(),
        frame_edge_count != 0 ==> forall|i: int|
            0 <= i < shapes.len() && fits(#[trigger] shapes[i], frame_cols as int, frame_rows as int)
                ==> peaks[i] is Some,
    ensures
        r == search_result(shapes@, peaks@, frame_cols as int, frame_rows as int, frame_edge_count as int, threshold as int),
        r == Err::<Option<Found>, VisionError>(VisionError::AllTemplatesTooLarge) <==> (frame_edge_count != 0
            && forall|i: int| 0 <= i < shapes.len() ==> #[trigger] shapes[i].cols > frame_cols || shapes[i].rows > frame_rows),
        r is Err ==> r == Err::<Option<Found>, VisionError>(VisionError::AllTemplatesTooLarge),
        r matches Ok(Some(f)) ==> {
            &&& f.template < shapes.len()
            &&& shapes[f.template as int].cols <= frame_cols
            &&& shapes[f.template as int].rows <= frame_rows
            &&& peaks[f.template as int] == Some(MatchPeak { score: f.score, x: f.rect.x, y: f.rect.y })
            &&& -INFINITY_KEY < f.score < INFINITY_KEY
            &&& f.score >= threshold
            &&& f.rect.width == shapes[f.template as int].cols
            &&& f.rect.height == shapes[f.template as int].rows
            &&& forall|j: int| 0 <= j < shapes.len() && shapes[j].cols <= frame_cols && shapes[j].rows <= frame_rows
                && #[trigger] peaks[j] is Some && -INFINITY_KEY < peaks[j]->0.score < INFINITY_KEY
                && peaks[j]->0.score >= threshold
                ==> peaks[j]->0.score <= f.score && (j < f.template ==> peaks[j]->0.score < f.score)
        },
        r == Ok::<Option<Found>, VisionError>(None) && frame_edge_count != 0 ==> forall|j: int|
            0 <= j < shapes.len() && shapes[j].cols <= frame_cols && shapes[j].rows <= frame_rows
                && #[trigger] peaks[j] is Some ==> !(-INFINITY_KEY < peaks[j]->0.score < INFINITY_KEY
                && peaks[j]->0.score >= threshold),
{
    proof {
        lemma_search_result(shapes@, peaks@, frame_cols as int, frame_rows as int, frame_edge_count as int, threshold as int);
    }
    if frame_edge_count == 0 {
        return Ok(None);
    }
    let ghost fc = frame_cols as int;
    let ghost fr = frame_rows as int;
    let mut best: Option<usize> = None;
    let mut fitting = false;
    let mut i: usize = 0;
    while i < shapes.len()
        invariant
            i <= shapes.len(),
            peaks.len() == shapes.len(),
            forall|j: int|
                0 <= j < shapes.len() && fits(#[trigger] shapes[j], fc, fr) ==> peaks[j] is Some,
            fc == frame_cols,
            fr == frame_rows,
            fitting == exists|j: int| 0 <= j < i && fits(#[trigger] shapes@[j], fc, fr),
            best matches Some(b) ==> best_among(shapes@, peaks@, fc, fr, threshold as int, i as int) == Some(b as int)
                && b < i && acceptable(shapes@, peaks@, fc, fr, threshold as int, b as int),
            best is None ==> best_among(shapes@, peaks@, fc, fr, threshold as int, i as int) is None,
        decreases shapes.len() - i,
    {
        proof {
            lemma_best_among_acceptable(shapes@, peaks@, fc, fr, threshold as int, i as int);
        }
        let shape = shapes[i];
        if template_fits(shape, frame_cols, frame_rows) {
            fitting = true;
            let peak = match &peaks[i] {
                Some(p) => *p,
                None => {
                    assert(false);
                    MatchPeak { score: 0, x: 0, y: 0 }
                },
            };
            let score = peak.score;
            if -INFINITY_KEY < score && score < INFINITY_KEY && score >= threshold {
                let better = match best {
                    None => true,
                    Some(b) => {
                        let current = match &peaks[b] {
                            Some(p) => p.score,
                            None => 0,
                        };
                        score > current
                    },
                };
                if better {
                    best = Some(i);
                }
            }
        }
        i = i + 1;
    }
    if !fitting {
        return Err(VisionError::AllTemplatesTooLarge);
    }
    match best {
        None => Ok(None),
        Some(b) => {
            let peak = match &peaks[b] {
                Some(p) => *p,
                None => MatchPeak { score: 0, x: 0, y: 0 },
            };
            Ok(Some(Found { template: b, score: peak.score, rect: Rect::new(peak.x, peak.y, shapes[b].cols, shapes[b].rows) }))
        },
    }
}

/// ASCII lower case of one byte; other bytes are unchanged.
pub open spec fn ascii_lower(b: u8) -> u8 {
    if 65 <= b <= 90 {
        (b + 32) as u8
    } else {
        b
    }
}

pub open spec fn ascii_lower_seq(s: Seq<u8>) -> Seq<u8> {
    s.map_values(|b: u8| ascii_lower(b))
}

/// The file name extensions, in lower case, of images that can be templates.
pub open spec fn is_image_extension(ext: Seq<u8>) -> bool {
    let e = ascii_lower_seq(ext);
    e == seq![112u8, 110u8, 103u8] || e == seq![106u8, 112u8, 103u8]
        || e == seq![106u8, 112u8, 101u8, 103u8] || e == seq![98u8, 109u8, 112u8]
}

fn lower(b: u8) -> (r: u8)
    ensures
        r == ascii_lower(b),
{
    if 65 <= b && b <= 90 {
        b + 32
    } else {
        b
    }
}

fn lower_equals(ext: &[u8], word: &[u8]) -> (r: bool)
    ensures
        r == (ascii_lower_seq(ext@) == word@),
{
    if ext.len() != word.len() {
        proof {
            assert(ascii_lower_seq(ext@).len() != word@.len());
        }
        return false;
    }
    let mut i: usize = 0;
    while i < ext.len()
        invariant
            i <= ext.len(),
            ext.len() == word.len(),
            forall|j: int| 0 <= j < i ==> ascii_lower(ext@[j]) == word@[j],
        decreases ext.len() - i,
    {
        if lower(ext[i]) != word[i] {
            proof {
                assert(ascii_lower_seq(ext@)[i as int] != word@[i as int]);
            }
            return false;
        }
        i = i + 1;
    }
    proof {
        assert(ascii_lower_seq(ext@) =~= word@);
    }
    true
}

/// A directory entry is loaded as a template when it is a file whose name
/// extension, ignoring ASCII case, is png, jpg, jpeg or bmp. `extension` is
/// empty for a name without one.
pub fn is_template_candidate(is_file: bool, extension: &[u8]) -> (r: bool)
    ensures
        r == (is_file && is_image_extension(extension@)),
{
    let png: [u8; 3] = [112u8, 110u8, 103u8];
    let jpg: [u8; 3] = [106u8, 112u8, 103u8];
    let jpeg: [u8; 4] = [106u8, 112u8, 101u8, 103u8];
    let bmp: [u8; 3] = [98u8, 109u8, 112u8];
    let r = lower_equals(extension, png.as_slice()) || lower_equals(extension, jpg.as_slice())
        || lower_equals(extension, jpeg.as_slice()) || lower_equals(extension, bmp.as_slice());
    proof {
        assert(png@ == seq![112u8, 110u8, 103u8]);
        assert(jpg@ == seq![106u8, 112u8, 103u8]);
        assert(jpeg@ == seq![106u8, 112u8, 101u8, 103u8]);
        assert(bmp@ == seq![98u8, 109u8, 112u8]);
    }
    is_file && r
}

/// A template is usable only if its edge image has both edge and non-edge
/// pixels: `edge_count` nonzero pixels out of `rows * cols`.
pub fn check_template_edges(edge_count: i32, rows: i32, cols: i32) -> (r: Result<(), VisionError>)
    requires
        i32::MIN <= rows * cols <= i32::MAX,
    ensures
        r == (if edge_count == 0 || edge_count == rows * cols {
            Err(VisionError::NoEdgeVariation)
        } else {
            Ok(())
        }),
{
    if edge_count == 0 || edge_count == rows * cols {
        Err(VisionError::NoEdgeVariation)
    } else {
        Ok(())
    }
}

/// A template directory must yield at least one template.
pub fn check_templates_found(count: usize) -> (r: Result<(), VisionError>)
    ensures
        r == (if count == 0 { Err(VisionError::NoTemplatesFound) } else { Ok(()) }),
{
    if count == 0 {
        Err(VisionError::NoTemplatesFound)
    } else {
        Ok(())
    }
}

} // verus!
