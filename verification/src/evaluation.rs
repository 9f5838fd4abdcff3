use crate::geometry::{Rect, center_of, contains_point, corners_fit, fits_i32, half_toward_zero, max_int, min_int};
use crate::vision::{INFINITY_KEY, is_finite_key};
use vstd::prelude::*;

verus! {

// The offline evaluation compares image representations for template
// matching on labelled screenshots. Its image work is done elsewhere; this
// module decides what to run and scores where the matches landed.

/// How an image is turned into the representation that is matched.
#[derive(Clone, Copy, PartialEq, Eq, Structural, Debug)]
pub enum Representation {
    /// Canny edges of the grayscale image, thresholds 50 and 100.
    Edges,
    /// Canny edges of the grayscale image, thresholds 10 and 25.
    EdgesLow,
    /// The grayscale image.
    Gray,
    /// The BGR image itself.
    Color,
    /// The a and b channels of the Lab image.
    Chroma,
    /// The float image minus its Gaussian blur (sigma 3).
    Contrast,
    /// `Color` after a 5x5 Gaussian blur with sigma 1.
    ColorSmooth,
    /// `Chroma` after a 5x5 Gaussian blur with sigma 1.
    ChromaSmooth,
}

/// One image operation of a representation, applied to the result of the
/// previous one (the first to the BGR input).
#[derive(Clone, Copy, PartialEq, Eq, Structural, Debug)]
pub enum ImageStage {
    /// 5x5 Gaussian blur with sigma 1.
    Smooth,
    /// Convert to 32-bit float and subtract a Gaussian blur with sigma 3 and
    /// a kernel size derived from sigma.
    RemoveLocalContrast,
    /// Convert BGR to Lab and keep channels a and b.
    LabChroma,
    /// Copy the image unchanged.
    Copy,
    /// Convert BGR to grayscale.
    Gray,
    /// Canny edges with these hysteresis thresholds, aperture 3, L1 gradient.
    Canny { low: u32, high: u32 },
}

/// The stages of a representation, in order.
pub open spec fn stages_of(mode: Representation) -> Seq<ImageStage> {
    match mode {
        Representation::ColorSmooth => seq![ImageStage::Smooth, ImageStage::Copy],
        Representation::ChromaSmooth => seq![ImageStage::Smooth, ImageStage::LabChroma],
        Representation::Contrast => seq![ImageStage::RemoveLocalContrast],
        Representation::Chroma => seq![ImageStage::LabChroma],
        Representation::Color => seq![ImageStage::Copy],
        Representation::Gray => seq![ImageStage::Gray],
        Representation::EdgesLow => seq![ImageStage::Gray, ImageStage::Canny { low: 10, high: 25 }],
        Representation::Edges => seq![ImageStage::Gray, ImageStage::Canny { low: 50, high: 100 }],
    }
}

/// The image operations that produce a representation.
pub fn representation(mode: Representation) -> (stages: Vec<ImageStage>)
    ensures
        stages@ == stages_of(mode),
{
    let mut stages: Vec<ImageStage> = Vec::new();
    let base = match mode {
        Representation::ColorSmooth => {
            stages.push(ImageStage::Smooth);
            Representation::Color
        },
        Representation::ChromaSmooth => {
            stages.push(ImageStage::Smooth);
            Representation::Chroma
        },
        other => other,
    };
    match base {
        Representation::Contrast => stages.push(ImageStage::RemoveLocalContrast),
        Representation::Chroma => stages.push(ImageStage::LabChroma),
        Representation::Color => stages.push(ImageStage::Copy),
        Representation::Gray => stages.push(ImageStage::Gray),
        Representation::EdgesLow => {
            stages.push(ImageStage::Gray);
            stages.push(ImageStage::Canny { low: 10, high: 25 });
        },
        _ => {
            stages.push(ImageStage::Gray);
            stages.push(ImageStage::Canny { low: 50, high: 100 });
        },
    }
    proof {
        assert(stages@ =~= stages_of(mode));
    }
    stages
}

/// A search region of the 1920x1080 screenshots.
#[derive(Clone, Copy, PartialEq, Eq, Structural, Debug)]
pub enum RegionName {
    /// The whole screenshot.
    Full,
    /// A central band that leaves out most of the game's interface.
    Central,
}

pub open spec fn region_rect(name: RegionName) -> Rect {
    match name {
        RegionName::Full => Rect { x: 0, y: 0, width: 1920, height: 1080 },
        RegionName::Central => Rect { x: 350, y: 150, width: 1250, height: 400 },
    }
}

/// The rectangle of a search region.
pub fn region_of(name: RegionName) -> (r: Rect)
    ensures
        r == region_rect(name),
{
    match name {
        RegionName::Full => Rect::new(0, 0, 1920, 1080),
        RegionName::Central => Rect::new(350, 150, 1250, 400),
    }
}

/// What an evaluation run compares.
#[derive(PartialEq, Eq, Debug)]
pub struct EvaluationSetup {
    /// Whether the run diagnoses missed targets (a third argument was given).
    pub diagnose: bool,
    pub modes: Vec<Representation>,
    pub regions: Vec<RegionName>,
}

/// The command line does not name a manifest and a new output, optionally
/// followed by `--diagnose` or `--smooth`.
#[derive(Clone, Copy, PartialEq, Eq, Structural, Debug)]
pub struct UsageError;

pub open spec fn diagnose_flag() -> Seq<u8> {
    seq![45u8, 45u8, 100u8, 105u8, 97u8, 103u8, 110u8, 111u8, 115u8, 101u8]
}

pub open spec fn smooth_flag() -> Seq<u8> {
    seq![45u8, 45u8, 115u8, 109u8, 111u8, 111u8, 116u8, 104u8]
}

/// The run that a command line of `arg_count` arguments asks for, `third`
/// being its third argument if there is one.
pub open spec fn setup_spec(arg_count: int, third: Option<Seq<u8>>) -> Result<(bool, Seq<Representation>, Seq<RegionName>), UsageError> {
    if !(2 <= arg_count <= 3) || (arg_count == 3 && !(third == Some(diagnose_flag()) || third == Some(smooth_flag()))) {
        Err(UsageError)
    } else {
        let diagnose = arg_count == 3;
        let modes = if third == Some(smooth_flag()) {
            seq![Representation::ColorSmooth, Representation::ChromaSmooth]
        } else if diagnose {
            seq![Representation::Color, Representation::Contrast, Representation::Chroma, Representation::EdgesLow]
        } else {
            seq![Representation::Edges, Representation::Gray, Representation::Color]
        };
        let regions = if diagnose {
            seq![RegionName::Central]
        } else {
            seq![RegionName::Full, RegionName::Central]
        };
        Ok((diagnose, modes, regions))
    }
}

fn bytes_equal(a: &[u8], b: &[u8]) -> (r: bool)
    ensures
        r == (a@ == b@),
{
    if a.len() != b.len() {
        return false;
    }
    let mut i: usize = 0;
    while i < a.len()
        invariant
            i <= a.len(),
            a.len() == b.len(),
            forall|j: int| 0 <= j < i ==> a@[j] == b@[j],
        decreases a.len() - i,
    {
        if a[i] != b[i] {
            return false;
        }
        i = i + 1;
    }
    proof {
        assert(a@ =~= b@);
    }
    true
}

/// Reads the command line of an evaluation run: `arg_count` arguments after
/// the program name, `third` the third one if given.
pub fn evaluation_setup(arg_count: usize, third: Option<&[u8]>) -> (r: Result<EvaluationSetup, UsageError>)
    requires
        third is Some <==> arg_count >= 3,
    ensures
        match setup_spec(arg_count as int, match third { Some(t) => Some(t@), None => None }) {
            Ok((diagnose, modes, regions)) => r matches Ok(s) && s.diagnose == diagnose && s.modes@ == modes
                && s.regions@ == regions,
            Err(e) => r == Err::<EvaluationSetup, UsageError>(e),
        },
{
    let diagnose_word: [u8; 10] = [45u8, 45u8, 100u8, 105u8, 97u8, 103u8, 110u8, 111u8, 115u8, 101u8];
    let smooth_word: [u8; 8] = [45u8, 45u8, 115u8, 109u8, 111u8, 111u8, 116u8, 104u8];
    assert(diagnose_word@ == diagnose_flag());
    assert(smooth_word@ == smooth_flag());
    let (is_diagnose, is_smooth) = match third {
        Some(t) => (bytes_equal(t, diagnose_word.as_slice()), bytes_equal(t, smooth_word.as_slice())),
        None => (false, false),
    };
    if arg_count < 2 || arg_count > 3 || (arg_count == 3 && !is_diagnose && !is_smooth) {
        return Err(UsageError);
    }
    let diagnose = arg_count == 3;
    let mut modes: Vec<Representation> = Vec::new();
    if is_smooth {
        modes.push(Representation::ColorSmooth);
        modes.push(Representation::ChromaSmooth);
    } else if diagnose {
        modes.push(Representation::Color);
        modes.push(Representation::Contrast);
        modes.push(Representation::Chroma);
        modes.push(Representation::EdgesLow);
    } else {
        modes.push(Representation::Edges);
        modes.push(Representation::Gray);
        modes.push(Representation::Color);
    }
    let mut regions: Vec<RegionName> = Vec::new();
    if !diagnose {
        regions.push(RegionName::Full);
    }
    regions.push(RegionName::Central);
    proof {
        let third_view = match third { Some(t) => Some(t@), None => None::<Seq<u8>> };
        assert(is_smooth == (third_view == Some(smooth_flag())));
        assert(is_diagnose == (third_view == Some(diagnose_flag())));
        assert(diagnose_flag() != smooth_flag()) by {
            assert(diagnose_flag().len() != smooth_flag().len());
        }
        let (d, m, g) = setup_spec(arg_count as int, third_view)->Ok_0;
        assert(modes@ =~= m);
        assert(regions@ =~= g);
    }
    Ok(EvaluationSetup { diagnose, modes, regions })
}

/// The manifest marks the bobber as present with the flag `1`.
pub open spec fn present_flag(flag: Seq<u8>) -> bool {
    flag == seq![49u8]
}

pub fn is_present(flag: &[u8]) -> (r: bool)
    ensures
        r == present_flag(flag@),
{
    let one: [u8; 1] = [49u8];
    assert(one@ == seq![49u8]);
    bytes_equal(flag, one.as_slice())
}

/// A prediction is a correct localization when the bobber is present and
/// the center of the predicted rectangle lies in the confirmed one.
pub fn is_hit(present: &[u8], target: Rect, predicted: Rect) -> (r: bool)
    requires
        corners_fit(target),
        fits_i32(center_of(predicted).0),
        fits_i32(center_of(predicted).1),
    ensures
        r == (present_flag(present@) && contains_point(target, center_of(predicted).0, center_of(predicted).1)),
        r == (present@ == seq![49u8] && target.x <= center_of(predicted).0 < target.x + target.width
            && target.y <= center_of(predicted).1 < target.y + target.height),
{
    if !is_present(present) {
        return false;
    }
    let (cx, cy) = predicted.center();
    target.contains(cx, cy)
}

/// Where in a score map (of `score_cols` x `score_rows`, for a template of
/// `template_cols` x `template_rows` searched in `region`) a match would put
/// the template's center inside `target`; `None` when that window is empty.
pub open spec fn target_window_spec(
    target: Rect,
    region: Rect,
    template_cols: int,
    template_rows: int,
    score_cols: int,
    score_rows: int,
) -> Option<Rect> {
    let x0 = max_int(target.x - region.x - half_toward_zero(template_cols), 0);
    let y0 = max_int(target.y - region.y - half_toward_zero(template_rows), 0);
    let x1 = min_int(target.x + target.width - region.x - half_toward_zero(template_cols), score_cols);
    let y1 = min_int(target.y + target.height - region.y - half_toward_zero(template_rows), score_rows);
    if x1 > x0 && y1 > y0 {
        Some(Rect { x: x0 as i32, y: y0 as i32, width: (x1 - x0) as i32, height: (y1 - y0) as i32 })
    } else {
        None
    }
}

/// Every sum and difference that the window is computed from fits in `i32`.
pub open spec fn window_fits(target: Rect, region: Rect, template_cols: int, template_rows: int) -> bool {
    &&& fits_i32(target.x - region.x)
    &&& fits_i32(target.x - region.x - half_toward_zero(template_cols))
    &&& fits_i32(target.y - region.y)
    &&& fits_i32(target.y - region.y - half_toward_zero(template_rows))
    &&& fits_i32(target.x + target.width)
    &&& fits_i32(target.x + target.width - region.x)
    &&& fits_i32(target.x + target.width - region.x - half_toward_zero(template_cols))
    &&& fits_i32(target.y + target.height)
    &&& fits_i32(target.y + target.height - region.y)
    &&& fits_i32(target.y + target.height - region.y - half_toward_zero(template_rows))
}

fn fits64(v: i64) -> (ok: bool)
    ensures
        ok == fits_i32(v as int),
{
    -0x8000_0000 <= v && v <= 0x7FFF_FFFF
}

/// Whether `target_window` can compute the window without overflow.
pub fn check_window(target: Rect, region: Rect, template_cols: i32, template_rows: i32) -> (ok: bool)
    ensures
        ok == window_fits(target, region, template_cols as int, template_rows as int),
{
    let hc = (template_cols / 2) as i64;
    let hr = (template_rows / 2) as i64;
    let dx = target.x as i64 - region.x as i64;
    let dy = target.y as i64 - region.y as i64;
    let ex = target.x as i64 + target.width as i64;
    let ey = target.y as i64 + target.height as i64;
    fits64(dx) && fits64(dx - hc) && fits64(dy) && fits64(dy - hr) && fits64(ex) && fits64(ex - region.x as i64)
        && fits64(ex - region.x as i64 - hc) && fits64(ey) && fits64(ey - region.y as i64) && fits64(
        ey - region.y as i64 - hr,
    )
}

/// A match at score position `(px, py)` lies inside the score map and puts
/// the template's center, `(px + region.x + template_cols / 2, py + region.y +
/// template_rows / 2)`, inside the target.
pub open spec fn centers_in_target(
    target: Rect,
    region: Rect,
    template_cols: int,
    template_rows: int,
    score_cols: int,
    score_rows: int,
    px: int,
    py: int,
) -> bool {
    let cx = px + region.x + half_toward_zero(template_cols);
    let cy = py + region.y + half_toward_zero(template_rows);
    &&& 0 <= px < score_cols
    &&& 0 <= py < score_rows
    &&& target.x <= cx < target.x + target.width
    &&& target.y <= cy < target.y + target.height
}

/// The window is exactly the part of the score map whose match would put the
/// template's center inside the target: a score position `(px, py)` lies in
/// the window when it is inside the `score_cols` x `score_rows` map and
/// `px + region.x + template_cols / 2` lies in the target's columns (and
/// likewise for rows). When no such position exists there is no window; a
/// window always lies inside the score map and is not empty.
pub proof fn lemma_target_window(
    target: Rect,
    region: Rect,
    template_cols: int,
    template_rows: int,
    score_cols: int,
    score_rows: int,
)
    requires
        window_fits(target, region, template_cols, template_rows),
        fits_i32(score_cols),
        fits_i32(score_rows),
    ensures
        ({
            let lo_x = target.x - region.x - half_toward_zero(template_cols);
            let hi_x = target.x + target.width - region.x - half_toward_zero(template_cols);
            let lo_y = target.y - region.y - half_toward_zero(template_rows);
            let hi_y = target.y + target.height - region.y - half_toward_zero(template_rows);
            let w = target_window_spec(target, region, template_cols, template_rows, score_cols, score_rows);
            &&& (w matches Some(win) ==> {
                &&& 0 <= win.x
                &&& 0 <= win.y
                &&& win.width > 0
                &&& win.height > 0
                &&& win.x + win.width <= score_cols
                &&& win.y + win.height <= score_rows
                &&& forall|px: int, py: int| #![trigger contains_point(win, px, py)] contains_point(win, px, py)
                    <==> centers_in_target(target, region, template_cols, template_rows, score_cols, score_rows, px, py)
            })
            &&& (w is None <==> forall|px: int, py: int|
                !#[trigger] centers_in_target(target, region, template_cols, template_rows, score_cols, score_rows, px, py))
        }),
{
    let lo_x = target.x - region.x - half_toward_zero(template_cols);
    let hi_x = target.x + target.width - region.x - half_toward_zero(template_cols);
    let lo_y = target.y - region.y - half_toward_zero(template_rows);
    let hi_y = target.y + target.height - region.y - half_toward_zero(template_rows);
    let x0 = max_int(lo_x, 0);
    let y0 = max_int(lo_y, 0);
    let x1 = min_int(hi_x, score_cols);
    let y1 = min_int(hi_y, score_rows);
    if x1 > x0 && y1 > y0 {
        let win = Rect { x: x0 as i32, y: y0 as i32, width: (x1 - x0) as i32, height: (y1 - y0) as i32 };
        assert(win.x == x0 && win.y == y0 && win.width == x1 - x0 && win.height == y1 - y0);
        assert(centers_in_target(target, region, template_cols, template_rows, score_cols, score_rows, x0, y0));
    } else {
        assert forall|px: int, py: int|
            !#[trigger] centers_in_target(target, region, template_cols, template_rows, score_cols, score_rows, px, py) by {}
    }
}

pub fn target_window(
    target: Rect,
    region: Rect,
    template_cols: i32,
    template_rows: i32,
    score_cols: i32,
    score_rows: i32,
) -> (r: Option<Rect>)
    requires
        window_fits(target, region, template_cols as int, template_rows as int),
    ensures
        r == target_window_spec(target, region, template_cols as int, template_rows as int, score_cols as int, score_rows as int),
        r matches Some(win) ==> {
            &&& 0 <= win.x
            &&& 0 <= win.y
            &&& win.width > 0
            &&& win.height > 0
            &&& win.x + win.width <= score_cols
            &&& win.y + win.height <= score_rows
            &&& forall|px: int, py: int| #![trigger contains_point(win, px, py)] contains_point(win, px, py)
                <==> centers_in_target(target, region, template_cols as int, template_rows as int, score_cols as int, score_rows as int, px, py)
        },
        r is None <==> forall|px: int, py: int|
            !#[trigger] centers_in_target(target, region, template_cols as int, template_rows as int, score_cols as int, score_rows as int, px, py),
{
    proof {
        lemma_target_window(target, region, template_cols as int, template_rows as int, score_cols as int, score_rows as int);
    }
    let left = target.x - region.x - template_cols / 2;
    let top = target.y - region.y - template_rows / 2;
    let right = target.x + target.width - region.x - template_cols / 2;
    let bottom = target.y + target.height - region.y - template_rows / 2;
    let x0 = if left >= 0 { left } else { 0 };
    let y0 = if top >= 0 { top } else { 0 };
    let x1 = if right <= score_cols { right } else { score_cols };
    let y1 = if bottom <= score_rows { bottom } else { score_rows };
    if x1 > x0 && y1 > y0 {
        Some(Rect::new(x0, y0, x1 - x0, y1 - y0))
    } else {
        None
    }
}

/// Key of -2.0, the score that the evaluation starts every comparison from.
pub const MINUS_TWO_KEY: i64 = -0x4000_0000_0000_0000;

/// One template's result in one region: the key of its best score and where
/// it lies in the region, its size, and the key of its best score inside the
/// target window when the bobber is present and the window is not empty.
#[derive(Clone, Copy, PartialEq, Eq, Structural, Debug)]
pub struct RegionCandidate {
    pub score: i64,
    pub x: i32,
    pub y: i32,
    pub cols: i32,
    pub rows: i32,
    pub target_peak: Option<i64>,
}

/// Among the first `n` keys, the first that is finite and higher than the
/// floor and every key before it.
pub open spec fn first_max_above(keys: Seq<Option<i64>>, floor: int, n: int) -> Option<int>
    decreases n,
{
    if n <= 0 {
        None
    } else {
        let before = first_max_above(keys, floor, n - 1);
        let i = n - 1;
        let bar = match before {
            None => floor,
            Some(j) => keys[j]->0 as int,
        };
        if keys[i] is Some && is_finite_key(keys[i]->0 as int) && keys[i]->0 > bar {
            Some(i)
        } else {
            before
        }
    }
}

pub open spec fn score_keys(cands: Seq<RegionCandidate>) -> Seq<Option<i64>> {
    cands.map_values(|c: RegionCandidate| Some(c.score))
}

pub open spec fn target_keys(cands: Seq<RegionCandidate>) -> Seq<Option<i64>> {
    cands.map_values(|c: RegionCandidate| c.target_peak)
}

/// The chosen candidate has a finite key above the floor, no key is higher,
/// and every earlier key is lower; none is chosen exactly when no finite key
/// exceeds the floor.
pub proof fn lemma_first_max_above(keys: Seq<Option<i64>>, floor: int, n: int)
    requires
        n <= keys.len(),
    ensures
        first_max_above(keys, floor, n) is None <==> forall|j: int|
            0 <= j < n && #[trigger] keys[j] is Some && is_finite_key(keys[j]->0 as int) ==> keys[j]->0 <= floor,
        first_max_above(keys, floor, n) matches Some(b) ==> 0 <= b < n && keys[b] is Some
            && is_finite_key(keys[b]->0 as int) && keys[b]->0 > floor,
        first_max_above(keys, floor, n) matches Some(b) ==> forall|j: int|
            0 <= j < n && #[trigger] keys[j] is Some && is_finite_key(keys[j]->0 as int) ==> keys[j]->0 <= keys[b]->0,
        first_max_above(keys, floor, n) matches Some(b) ==> forall|j: int|
            0 <= j < b && #[trigger] keys[j] is Some && is_finite_key(keys[j]->0 as int) ==> keys[j]->0 < keys[b]->0,
    decreases n,
{
    if n > 0 {
        lemma_first_max_above(keys, floor, n - 1);
    }
}

/// Whether every candidate can be placed in screenshot coordinates.
pub fn check_offsets(cands: &Vec<RegionCandidate>, region: Rect) -> (ok: bool)
    ensures
        ok == forall|i: int| #![trigger cands@[i]] 0 <= i < cands.len() ==> fits_i32(cands@[i].x + region.x) && fits_i32(cands@[i].y + region.y),
{
    let mut i: usize = 0;
    while i < cands.len()
        invariant
            i <= cands.len(),
            forall|j: int| #![trigger cands@[j]] 0 <= j < i ==> fits_i32(cands@[j].x + region.x) && fits_i32(cands@[j].y + region.y),
        decreases cands.len() - i,
    {
        if !fits64(cands[i].x as i64 + region.x as i64) || !fits64(cands[i].y as i64 + region.y as i64) {
            return false;
        }
        i = i + 1;
    }
    true
}

/// In terms of the candidates themselves: the target choice is a candidate
/// that has a target window whose finite best score exceeds -2.0, no other
/// candidate's finite target score is higher and every earlier one is lower;
/// there is none exactly when no candidate has a finite target score above
/// -2.0. The match choice is the same over the candidates' overall scores.
pub proof fn lemma_region_choices(cands: Seq<RegionCandidate>)
    ensures
        first_max_above(target_keys(cands), MINUS_TWO_KEY as int, cands.len() as int) matches Some(t) ==> {
            &&& 0 <= t < cands.len()
            &&& cands[t].target_peak is Some
            &&& -INFINITY_KEY < cands[t].target_peak->0 < INFINITY_KEY
            &&& cands[t].target_peak->0 > MINUS_TWO_KEY
            &&& forall|j: int| 0 <= j < cands.len() && #[trigger] cands[j].target_peak is Some
                && -INFINITY_KEY < cands[j].target_peak->0 < INFINITY_KEY ==> cands[j].target_peak->0
                <= cands[t].target_peak->0 && (j < t ==> cands[j].target_peak->0 < cands[t].target_peak->0)
        },
        first_max_above(target_keys(cands), MINUS_TWO_KEY as int, cands.len() as int) is None <==> forall|j: int|
            0 <= j < cands.len() && #[trigger] cands[j].target_peak is Some && -INFINITY_KEY
                < cands[j].target_peak->0 < INFINITY_KEY ==> cands[j].target_peak->0 <= MINUS_TWO_KEY,
        first_max_above(score_keys(cands), MINUS_TWO_KEY as int, cands.len() as int) matches Some(b) ==> {
            &&& 0 <= b < cands.len()
            &&& -INFINITY_KEY < cands[b].score < INFINITY_KEY
            &&& cands[b].score > MINUS_TWO_KEY
            &&& forall|j: int| #![trigger cands[j]] 0 <= j < cands.len() && -INFINITY_KEY < cands[j].score < INFINITY_KEY
                ==> cands[j].score <= cands[b].score && (j < b ==> cands[j].score < cands[b].score)
        },
        first_max_above(score_keys(cands), MINUS_TWO_KEY as int, cands.len() as int) is None <==> forall|j: int|
            #![trigger cands[j]] 0 <= j < cands.len() && -INFINITY_KEY < cands[j].score < INFINITY_KEY ==> cands[j].score
                <= MINUS_TWO_KEY,
{
    let n = cands.len() as int;
    let tk = target_keys(cands);
    let sk = score_keys(cands);
    lemma_first_max_above(tk, MINUS_TWO_KEY as int, n);
    lemma_first_max_above(sk, MINUS_TWO_KEY as int, n);
    assert forall|j: int| 0 <= j < n implies #[trigger] tk[j] == cands[j].target_peak && sk[j] == Some(cands[j].score) by {}
    assert forall|j: int| 0 <= j < n && #[trigger] cands[j].target_peak is Some implies tk[j] is Some && tk[j]->0 == cands[j].target_peak->0 by {
        assert(tk[j] == cands[j].target_peak);
    }
    assert forall|j: int| 0 <= j < n implies #[trigger] sk[j] is Some && sk[j]->0 == cands[j].score by {
        assert(sk[j] == Some(cands[j].score));
    }
    match first_max_above(sk, MINUS_TWO_KEY as int, n) {
        Some(b) => {
            assert forall|j: int| #![trigger cands[j]] 0 <= j < n && -INFINITY_KEY < cands[j].score < INFINITY_KEY
                implies cands[j].score <= cands[b].score && (j < b ==> cands[j].score < cands[b].score) by {
                assert(sk[j] == Some(cands[j].score));
                assert(sk[b] == Some(cands[b].score));
            }
            assert(sk[b] == Some(cands[b].score));
        },
        None => {
            assert forall|j: int| #![trigger cands[j]] 0 <= j < n && -INFINITY_KEY < cands[j].score < INFINITY_KEY
                implies cands[j].score <= MINUS_TWO_KEY by {
                assert(sk[j] == Some(cands[j].score));
            }
        },
    }
    if forall|j: int| #![trigger cands[j]] 0 <= j < n && -INFINITY_KEY < cands[j].score < INFINITY_KEY
        ==> cands[j].score <= MINUS_TWO_KEY {
        assert forall|j: int| 0 <= j < n && #[trigger] sk[j] is Some && is_finite_key(sk[j]->0 as int)
            implies sk[j]->0 <= MINUS_TWO_KEY by {
            assert(sk[j] == Some(cands[j].score));
        }
    }
}

/// The best match in a region, placed in screenshot coordinates, and the
/// candidate with the best score inside the target window. Scores start from
/// -2.0 and a later candidate wins only with a strictly higher finite score.
pub fn region_best(cands: &Vec<RegionCandidate>, region: Rect) -> (r: (Option<(usize, Rect)>, Option<usize>))
    requires
        forall|i: int| #![trigger cands@[i]] 0 <= i < cands.len() ==> fits_i32(cands@[i].x + region.x) && fits_i32(cands@[i].y + region.y),
    ensures
        match first_max_above(score_keys(cands@), MINUS_TWO_KEY as int, cands.len() as int) {
            None => r.0 is None,
            Some(b) => r.0 == Some((b as usize, Rect {
                x: (cands[b].x + region.x) as i32,
                y: (cands[b].y + region.y) as i32,
                width: cands[b].cols,
                height: cands[b].rows,
            })),
        },
        r.1 == match first_max_above(target_keys(cands@), MINUS_TWO_KEY as int, cands.len() as int) {
            None => None,
            Some(t) => Some(t as usize),
        },
        r.1 matches Some(t) ==> {
            &&& t < cands.len()
            &&& cands[t as int].target_peak is Some
            &&& -INFINITY_KEY < cands[t as int].target_peak->0 < INFINITY_KEY
            &&& cands[t as int].target_peak->0 > MINUS_TWO_KEY
            &&& forall|j: int| 0 <= j < cands.len() && #[trigger] cands[j].target_peak is Some
                && -INFINITY_KEY < cands[j].target_peak->0 < INFINITY_KEY ==> cands[j].target_peak->0
                <= cands[t as int].target_peak->0 && (j < t ==> cands[j].target_peak->0 < cands[t as int].target_peak->0)
        },
        r.1 is None <==> forall|j: int|
            0 <= j < cands.len() && #[trigger] cands[j].target_peak is Some && -INFINITY_KEY
                < cands[j].target_peak->0 < INFINITY_KEY ==> cands[j].target_peak->0 <= MINUS_TWO_KEY,
        r.0 matches Some((b, placed)) ==> {
            &&& b < cands.len()
            &&& -INFINITY_KEY < cands[b as int].score < INFINITY_KEY
            &&& cands[b as int].score > MINUS_TWO_KEY
            &&& placed == (Rect {
                x: (cands[b as int].x + region.x) as i32,
                y: (cands[b as int].y + region.y) as i32,
                width: cands[b as int].cols,
                height: cands[b as int].rows,
            })
            &&& forall|j: int| #![trigger cands[j]] 0 <= j < cands.len() && -INFINITY_KEY < cands[j].score < INFINITY_KEY
                ==> cands[j].score <= cands[b as int].score && (j < b ==> cands[j].score < cands[b as int].score)
        },
        r.0 is None <==> forall|j: int|
            #![trigger cands[j]] 0 <= j < cands.len() && -INFINITY_KEY < cands[j].score < INFINITY_KEY ==> cands[j].score
                <= MINUS_TWO_KEY,
{
    proof {
        lemma_region_choices(cands@);
    }
    let ghost sk = score_keys(cands@);
    let ghost tk = target_keys(cands@);
    let mut best: Option<usize> = None;
    let mut best_score: i64 = MINUS_TWO_KEY;
    let mut best_target: Option<usize> = None;
    let mut target_score: i64 = MINUS_TWO_KEY;
    let mut i: usize = 0;
    while i < cands.len()
        invariant
            i <= cands.len(),
            sk == score_keys(cands@),
            tk == target_keys(cands@),
            best == match first_max_above(sk, MINUS_TWO_KEY as int, i as int) {
                None => None,
                Some(b) => Some(b as usize),
            },
            best_score == match first_max_above(sk, MINUS_TWO_KEY as int, i as int) {
                None => MINUS_TWO_KEY as int,
                Some(b) => sk[b]->0 as int,
            },
            best_target == match first_max_above(tk, MINUS_TWO_KEY as int, i as int) {
                None => None,
                Some(b) => Some(b as usize),
            },
            target_score == match first_max_above(tk, MINUS_TWO_KEY as int, i as int) {
                None => MINUS_TWO_KEY as int,
                Some(b) => tk[b]->0 as int,
            },
        decreases cands.len() - i,
    {
        proof {
            lemma_first_max_above(sk, MINUS_TWO_KEY as int, i as int);
            lemma_first_max_above(tk, MINUS_TWO_KEY as int, i as int);
        }
        let c = cands[i];
        assert(sk[i as int] == Some(c.score));
        assert(tk[i as int] == c.target_peak);
        if -INFINITY_KEY < c.score && c.score < INFINITY_KEY && c.score > best_score {
            best = Some(i);
            best_score = c.score;
        }
        match c.target_peak {
            Some(v) => {
                if -INFINITY_KEY < v && v < INFINITY_KEY && v > target_score {
                    best_target = Some(i);
                    target_score = v;
                }
            },
            None => {},
        }
        i = i + 1;
    }
    let placed = match best {
        None => None,
        Some(b) => {
            proof {
                lemma_first_max_above(sk, MINUS_TWO_KEY as int, i as int);
            }
            let c = cands[b];
            Some((b, Rect::new(c.x + region.x, c.y + region.y, c.cols, c.rows)))
        },
    };
    (placed, best_target)
}

} // verus!
