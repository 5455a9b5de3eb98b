use vstd::prelude::*;

use crate::geom::{Point, Region, Size};

verus! {

/// Used to determine if a filter can be executed and interleaved at the pixel level or if the
/// whole filter needs to be evaulated before moving to the next filter
#[derive(Debug, PartialEq, Clone, Copy, Eq, Structural)]
pub enum Schedule {
    /// Allows pixel level composition
    Pixel,
    /// Only allows image level composition
    Image,
}

/// AsyncMode is used to schedule the type of iteration for an `AsyncFilter`
#[derive(Debug, PartialEq, Clone, Copy, Eq, Structural)]
pub enum AsyncMode {
    /// Apply to one pixel at a time
    Pixel,
    /// Apply to a row at a time
    Row,
}

impl Default for AsyncMode {
    fn default() -> (m: AsyncMode)
        ensures
            m == AsyncMode::Row,
    {
        AsyncMode::Row
    }
}

/// Indices below `n` of the filters that need a whole image, in increasing order
pub open spec fn image_indices(s: Seq<Schedule>, n: nat) -> Seq<usize>
    decreases n,
{
    if n == 0 {
        Seq::empty()
    } else if s[n - 1] == Schedule::Image {
        image_indices(s, (n - 1) as nat).push((n - 1) as usize)
    } else {
        image_indices(s, (n - 1) as nat)
    }
}

/// The stage boundaries of a pipeline: the index of every whole-image filter, then the index of
/// the last filter
pub open spec fn schedule_list(s: Seq<Schedule>) -> Seq<usize> {
    image_indices(s, s.len()).push((s.len() - 1) as usize)
}

/// First filter of stage `j`: the one after the previous stage's last filter
pub open spec fn stage_start(list: Seq<usize>, j: int) -> int {
    if j == 0 {
        0
    } else {
        list[j - 1] + 1
    }
}

proof fn lemma_image_indices(s: Seq<Schedule>, n: nat)
    requires
        n <= s.len(),
        n <= usize::MAX,
    ensures
        image_indices(s, n).len() <= n,
        forall|k: int|
            0 <= k < image_indices(s, n).len() ==> #[trigger] image_indices(s, n)[k] < n,
        forall|k: int, l: int|
            0 <= k < l < image_indices(s, n).len() ==> #[trigger] image_indices(s, n)[k]
                < #[trigger] image_indices(s, n)[l],
        forall|k: int|
            0 <= k < image_indices(s, n).len() ==> s[#[trigger] image_indices(s, n)[k] as int]
                == Schedule::Image,
    decreases n,
{
    if n > 0 {
        lemma_image_indices(s, (n - 1) as nat);
        let prev = image_indices(s, (n - 1) as nat);
        let cur = image_indices(s, n);
        if s[n - 1] == Schedule::Image {
            assert(cur == prev.push((n - 1) as usize));
            assert forall|k: int| 0 <= k < cur.len() implies #[trigger] cur[k] < n by {
                if k < prev.len() {
                    assert(cur[k] == prev[k]);
                }
            }
            assert forall|k: int, l: int| 0 <= k < l < cur.len() implies #[trigger] cur[k]
                < #[trigger] cur[l] by {
                assert(cur[k] == prev[k]);
                if l < prev.len() {
                    assert(cur[l] == prev[l]);
                }
            }
            assert forall|k: int| 0 <= k < cur.len() implies s[#[trigger] cur[k] as int]
                == Schedule::Image by {
                if k < prev.len() {
                    assert(cur[k] == prev[k]);
                }
            }
        }
    }
}

/// Stage boundaries of a pipeline whose filters are scheduled as `schedules`: the index of
/// every filter scheduled per image, in order, followed by the index of the last filter
pub fn image_schedule_list(schedules: &[Schedule]) -> (v: Vec<usize>)
    requires
        schedules@.len() > 0,
    ensures
        v@ == schedule_list(schedules@),
{
    let mut dest: Vec<usize> = Vec::new();
    let n = schedules.len();
    let mut i: usize = 0;
    while i < n
        invariant
            n == schedules@.len(),
            i <= n,
            dest@ == image_indices(schedules@, i as nat),
        decreases n - i,
    {
        if schedules[i] == Schedule::Image {
            dest.push(i);
        }
        i = i + 1;
    }
    dest.push(n - 1);
    dest
}

/// The filters run by stage `j` of a pipeline: from `start` up to and including `end`
/// (an empty range when `start == end + 1`)
pub fn stage_filters(list: &[usize], j: usize) -> (r: (usize, usize))
    requires
        j < list@.len(),
        j > 0 ==> list@[j - 1] < usize::MAX,
    ensures
        r.0 == stage_start(list@, j as int),
        r.1 == list@[j as int],
{
    if j == 0 {
        (0, list[0])
    } else {
        (list[j - 1] + 1, list[j])
    }
}

/// Stage `j` of the pipeline with boundaries `list` runs filter `i`
pub open spec fn stage_runs(list: Seq<usize>, j: int, i: int) -> bool {
    0 <= j < list.len() && stage_start(list, j) <= i <= list[j]
}

/// Running the stages of a pipeline one after the other runs every filter exactly once:
/// each filter index belongs to one and only one stage
pub proof fn law_stages_run_each_filter_once(s: Seq<Schedule>, i: int)
    requires
        0 < s.len() <= usize::MAX,
        0 <= i < s.len(),
    ensures
        exists|j: int| stage_runs(schedule_list(s), j, i),
        forall|j1: int, j2: int|
            stage_runs(schedule_list(s), j1, i) && stage_runs(schedule_list(s), j2, i) ==> j1
                == j2,
{
    let list = schedule_list(s);
    lemma_schedule_list_sorted(s);
    let n = list.len();
    // the first stage whose last filter is at or after `i`
    assert(list[n - 1] >= i);
    let j = choose|j: int| 0 <= j < n && list[j] >= i && forall|k: int| 0 <= k < j ==> list[k]
        < i;
    assert(exists|j: int| 0 <= j < n && list[j] >= i && forall|k: int| 0 <= k < j ==> list[k]
        < i) by {
        lemma_first_at_least(list, i, n - 1);
    }
    assert(stage_runs(list, j, i));
    assert forall|j1: int, j2: int| stage_runs(list, j1, i) && stage_runs(list, j2, i) implies j1
        == j2 by {
        if j1 < j2 {
            assert(list[j1] <= list[j2 - 1]);
        } else if j2 < j1 {
            assert(list[j2] <= list[j1 - 1]);
        }
    }
}

proof fn lemma_first_at_least(list: Seq<usize>, i: int, m: int)
    requires
        0 <= m < list.len(),
        list[m] >= i,
    ensures
        exists|j: int| 0 <= j < list.len() && list[j] >= i && forall|k: int| 0 <= k < j ==> list[k]
            < i,
    decreases m,
{
    if m > 0 && list[m - 1] >= i {
        lemma_first_at_least(list, i, m - 1);
    } else if m > 0 {
        if forall|k: int| 0 <= k < m ==> list[k] < i {
            assert(0 <= m < list.len() && list[m] >= i && forall|k: int| 0 <= k < m ==> list[k]
                < i);
        } else {
            let k0 = choose|k: int| 0 <= k < m && !(list[k] < i);
            lemma_first_at_least(list, i, k0);
        }
    } else {
        assert(forall|k: int| 0 <= k < 0 ==> list[k] < i);
    }
}

/// Stage boundaries never decrease, and every one is the index of a filter
proof fn lemma_schedule_list_sorted(s: Seq<Schedule>)
    requires
        0 < s.len() <= usize::MAX,
    ensures
        schedule_list(s).len() > 0,
        schedule_list(s)[schedule_list(s).len() - 1] == s.len() - 1,
        forall|a: int| 0 <= a < schedule_list(s).len() ==> #[trigger] schedule_list(s)[a] < s.len(),
        forall|a: int, b: int|
            0 <= a <= b < schedule_list(s).len() ==> #[trigger] schedule_list(s)[a]
                <= #[trigger] schedule_list(s)[b],
{
    let list = schedule_list(s);
    let ims = image_indices(s, s.len());
    lemma_image_indices(s, s.len());
    assert(list == ims.push((s.len() - 1) as usize));
    let n = list.len();
    assert forall|a: int| 0 <= a < n implies #[trigger] list[a] < s.len() by {
        if a < n - 1 {
            assert(list[a] == ims[a]);
        }
    }
    assert forall|a: int, b: int| 0 <= a <= b < n implies #[trigger] list[a] <= #[trigger] list[b] by {
        if a < b {
            if b < n - 1 {
                assert(ims[a] < ims[b]);
            }
        }
    }
}

/// An async pipeline moves from stage `j` to stage `j + 1` (`next_stage`) until a stage ends
/// with the last filter: a next stage exists whenever one is asked for, and the stages after
/// the first one that ends with the last filter run no filter, so stopping there still runs
/// every filter once
pub proof fn law_async_stages_complete(s: Seq<Schedule>, j: int, k: int, i: int)
    requires
        0 < s.len() <= usize::MAX,
        0 <= j < schedule_list(s).len(),
    ensures
        schedule_list(s)[j] != s.len() - 1 ==> j + 1 < schedule_list(s).len(),
        schedule_list(s)[j] == s.len() - 1 && j < k ==> !stage_runs(schedule_list(s), k, i),
{
    let list = schedule_list(s);
    lemma_schedule_list_sorted(s);
    if list[j] == s.len() - 1 && j < k && 0 <= k < list.len() {
        assert(list[j] <= list[k - 1]);
        assert(list[k] < s.len());
    }
}

/// After running stage `j` of an async pipeline: the next stage and its last filter, or `None`
/// when stage `j` ended with the pipeline's last filter
pub fn next_stage(list: &[usize], j: usize, num_filters: usize) -> (r: Option<(usize, usize)>)
    requires
        j < list@.len(),
        num_filters > 0,
        list@[j as int] != num_filters - 1 ==> j + 1 < list@.len(),
    ensures
        list@[j as int] == num_filters - 1 ==> r is None,
        list@[j as int] != num_filters - 1 ==> r == Some(((j + 1) as usize, list@[j + 1])),
{
    if list[j] != num_filters - 1 {
        Some((j + 1, list[j + 1]))
    } else {
        None
    }
}

/// Whether filter `index`, run by stage `j` of the pipeline with stage boundaries `list`, reads
/// the pixel the filter before it computed (the chained pixel) rather than the stage's input:
/// every filter of a stage but its first does, so the filters of a stage compose
pub fn reads_chained_pixel(list: &[usize], j: usize, index: usize) -> (r: bool)
    requires
        j < list@.len(),
        j > 0 ==> list@[j - 1] < usize::MAX,
    ensures
        r == (index > stage_start(list@, j as int)),
{
    let (start, _end) = stage_filters(list, j);
    index > start
}

/// Every filter index below `s.len()` scheduled per image is a stage boundary
proof fn lemma_image_index_listed(s: Seq<Schedule>, n: nat, i: int)
    requires
        n <= s.len(),
        n <= usize::MAX,
        0 <= i < n,
        s[i] == Schedule::Image,
    ensures
        exists|k: int| 0 <= k < image_indices(s, n).len() && image_indices(s, n)[k] == i,
    decreases n,
{
    let prev = image_indices(s, (n - 1) as nat);
    if i == n - 1 {
        let cur = image_indices(s, n);
        assert(cur == prev.push((n - 1) as usize));
        assert(cur[prev.len() as int] == i);
    } else {
        lemma_image_indices(s, (n - 1) as nat);
        lemma_image_index_listed(s, (n - 1) as nat, i);
        let k = choose|k: int| 0 <= k < prev.len() && prev[k] == i;
        let cur = image_indices(s, n);
        if s[n - 1] == Schedule::Image {
            assert(cur == prev.push((n - 1) as usize));
            assert(cur[k] == i);
        } else {
            assert(cur == prev);
        }
    }
}

/// Filters of a pipeline compose pixel by pixel: in every stage, each filter after the first
/// reads the chained pixel (`reads_chained_pixel`), and the filter before it is a per-pixel
/// filter, which computes exactly that pixel; the first filter of the first stage reads the
/// pipeline's input
pub proof fn law_stage_filters_compose(s: Seq<Schedule>, j: int, i: int)
    requires
        0 < s.len() <= usize::MAX,
        0 <= j < schedule_list(s).len(),
        stage_start(schedule_list(s), j) < i <= schedule_list(s)[j],
    ensures
        s[i - 1] == Schedule::Pixel,
        stage_start(schedule_list(s), 0) == 0,
{
    let list = schedule_list(s);
    let ims = image_indices(s, s.len());
    lemma_schedule_list_sorted(s);
    lemma_image_indices(s, s.len());
    assert(list == ims.push((s.len() - 1) as usize));
    if s[i - 1] == Schedule::Image {
        lemma_image_index_listed(s, s.len(), i - 1);
        let k = choose|k: int| 0 <= k < ims.len() && ims[k] == i - 1;
        assert(list[k] == i - 1);
        if k < j {
            assert(list[k] <= list[j - 1]);
        } else {
            assert(list[j] <= list[k]);
        }
    }
}

/// Whether the output of a stage whose last filter is `index` becomes the input of the next
/// stage: it does unless the stage ended with the pipeline's last filter
pub fn feeds_next_stage(index: usize, num_filters: usize) -> (r: bool)
    requires
        num_filters > 0,
    ensures
        r == (index != num_filters - 1),
{
    index != num_filters - 1
}

/// Whether the intermediate image must be replaced by a new one of size `output` before a stage
/// whose last filter is scheduled `schedule`: only a whole-image filter changes the size, and
/// only when it differs from the intermediate image's
pub fn resizes_intermediate(schedule: Schedule, output: Size, intermediate: Size) -> (r: bool)
    ensures
        r == (schedule == Schedule::Image && output != intermediate),
{
    schedule == Schedule::Image && output != intermediate
}

/// Schedule of a conditional filter: per image when either branch needs the whole image
pub fn if_schedule(then: Schedule, else_: Schedule) -> (r: Schedule)
    ensures
        r == if then == Schedule::Image || else_ == Schedule::Image {
            Schedule::Image
        } else {
            Schedule::Pixel
        },
{
    if then == Schedule::Image || else_ == Schedule::Image {
        return Schedule::Image;
    }
    Schedule::Pixel
}

/// Source point of the crop filter for output point `pt`: `None` when `pt` lies beyond the
/// far corner of `region`, otherwise `pt` moved by the region's position
pub fn crop_source(region: Region, pt: Point) -> (r: Option<Point>)
    requires
        !(pt.x > region.point.x + region.size.width || pt.y > region.point.y
            + region.size.height) ==> pt.x + region.point.x <= usize::MAX && pt.y
            + region.point.y <= usize::MAX,
    ensures
        r is None <==> (pt.x > region.point.x + region.size.width || pt.y > region.point.y
            + region.size.height),
        r matches Some(p) ==> p.x == pt.x + region.point.x && p.y == pt.y + region.point.y,
{
    if (pt.x > region.point.x && pt.x - region.point.x > region.size.width) || (pt.y
        > region.point.y && pt.y - region.point.y > region.size.height) {
        return None;
    }
    Some(Point::new(pt.x + region.point.x, pt.y + region.point.y))
}

/// Which input a filter reads at `pt`: `None` when the chained pixel from the previous filter
/// is used (no image was asked for and the chained pixel sits at `pt`), otherwise the index of
/// the input image, the first one unless another was asked for
pub fn input_source(image_index: Option<usize>, chained: Option<Point>, pt: Point) -> (r: Option<
    usize,
>)
    ensures
        r == match (image_index, chained) {
            (None, Some(p)) if p == pt => None,
            (Some(i), _) => Some(i),
            _ => Some(0usize),
        },
{
    match (image_index, chained) {
        (None, Some(p)) if p == pt => None,
        (Some(i), _) => Some(i),
        _ => Some(0),
    }
}

/// Rank of `(x, y)` in row-major order over rows of `width` points
pub open spec fn rank(width: int, x: int, y: int) -> int {
    y * width + x
}

/// The points of ranks `from..to` in row-major order over rows of `width` points
pub open spec fn row_major(width: int, from: int, to: int) -> Seq<Point> {
    Seq::new(
        (to - from) as nat,
        |k: int| Point { x: ((from + k) % width) as usize, y: ((from + k) / width) as usize },
    )
}

/// Position reached by one poll of an async filter from `(x, y)`
pub open spec fn async_next(mode: AsyncMode, x: int, y: int, width: int) -> (int, int) {
    match mode {
        AsyncMode::Row => (x, y + 1),
        AsyncMode::Pixel => if x + 1 >= width {
            (0, y + 1)
        } else {
            (x + 1, y)
        },
    }
}

/// Points computed by one poll of an async filter from `(x, y)`
pub open spec fn async_points(mode: AsyncMode, x: int, y: int, width: int) -> Seq<Point> {
    match mode {
        AsyncMode::Row => Seq::new(width as nat, |i: int| Point { x: i as usize, y: y as usize }),
        AsyncMode::Pixel => seq![Point { x: x as usize, y: y as usize }],
    }
}

/// One poll of an async filter
#[derive(Debug)]
pub struct AsyncStep {
    /// Points to compute, in order
    pub points: Vec<Point>,
    /// Column to resume from
    pub x: usize,
    /// Row to resume from
    pub y: usize,
    /// True when the filter has finished
    pub ready: bool,
}

/// One poll of an async filter at `(x, y)` over a `width` x `height` output: the points to
/// compute (a whole row, or one pixel), where to resume, and whether the filter is finished
pub fn async_filter_step(mode: AsyncMode, x: usize, y: usize, width: usize, height: usize) -> (r:
    AsyncStep)
    requires
        mode == AsyncMode::Pixel ==> x < width && y < height,
        mode == AsyncMode::Row && width > 0 ==> y < height,
        y < usize::MAX,
    ensures
        r.points@ == async_points(mode, x as int, y as int, width as int),
        (r.x as int, r.y as int) == async_next(mode, x as int, y as int, width as int),
        r.ready == (r.y >= height),
{
    let mut points: Vec<Point> = Vec::new();
    let mut nx = x;
    let mut ny = y;
    match mode {
        AsyncMode::Row => {
            let mut i: usize = 0;
            while i < width
                invariant
                    i <= width,
                    points@ == Seq::new(i as nat, |k: int| Point { x: k as usize, y }),
                decreases width - i,
            {
                points.push(Point::new(i, y));
                i = i + 1;
                assert(points@ =~= Seq::new(i as nat, |k: int| Point { x: k as usize, y }));
            }
            ny = y + 1;
        },
        AsyncMode::Pixel => {
            points.push(Point::new(x, y));
            nx = x + 1;
            if nx >= width {
                nx = 0;
                ny = y + 1;
            }
        },
    }
    assert(points@ =~= async_points(mode, x as int, y as int, width as int));
    AsyncStep { points, x: nx, y: ny, ready: ny >= height }
}

/// Points computed by successive polls of an async filter from `(x, y)` until it is finished
pub open spec fn async_run(mode: AsyncMode, x: int, y: int, width: int, height: int) -> Seq<
    Point,
>
    decreases height - y, width - x,
{
    if y >= height || width <= 0 || x < 0 || x >= width {
        Seq::empty()
    } else {
        let (nx, ny) = async_next(mode, x, y, width);
        async_points(mode, x, y, width) + async_run(mode, nx, ny, width, height)
    }
}

/// An async filter started at the first pixel of a non-empty output computes every pixel of
/// the output exactly once, in row-major order, before it reports being finished
pub proof fn law_async_filter_covers_output(mode: AsyncMode, width: nat, height: nat)
    requires
        width > 0,
    ensures
        async_run(mode, 0, 0, width as int, height as int) == row_major(
            width as int,
            0,
            (width * height) as int,
        ),
{
    lemma_async_run(mode, 0, 0, width as int, height as int);
    assert(rank(width as int, 0, height as int) == width * height) by (nonlinear_arith);
    assert(rank(width as int, 0, 0) == 0);
}

/// Number of polls an async filter takes to finish an output of `width` x `height` pixels: one
/// per row, or one per pixel
pub open spec fn async_poll_count(mode: AsyncMode, width: int, height: int) -> int {
    match mode {
        AsyncMode::Row => height,
        AsyncMode::Pixel => width * height,
    }
}

/// Where an async filter started at `(0, 0)` resumes after `k` polls
pub open spec fn async_position(mode: AsyncMode, width: int, k: int) -> (int, int) {
    match mode {
        AsyncMode::Row => (0, k),
        AsyncMode::Pixel => (k % width, k / width),
    }
}

/// The points computed by poll number `k + 1` of an async filter started at `(0, 0)`: row `k`,
/// or the pixel of rank `k`
pub open spec fn async_poll_points(mode: AsyncMode, width: int, k: int) -> Seq<Point> {
    match mode {
        AsyncMode::Row => row_major(width, k * width, (k + 1) * width),
        AsyncMode::Pixel => row_major(width, k, k + 1),
    }
}

/// The polls of an async filter started at `(0, 0)` on a non-empty `width` x `height` output:
/// there are `async_poll_count` of them (`height` in row mode, `width * height` in pixel mode);
/// poll `k + 1` starts at a point inside the output, computes row `k` (row mode) or the pixel of
/// rank `k` (pixel mode), and reports being finished (`ready`, so `Ready` rather than
/// `Pending`) exactly when it is the last poll
pub proof fn law_async_filter_polls(mode: AsyncMode, width: int, height: int, k: int)
    requires
        width >= 1,
        height >= 1,
        0 <= k < async_poll_count(mode, width, height),
    ensures
        async_position(mode, width, 0) == (0int, 0int),
        0 <= async_position(mode, width, k).0 < width,
        0 <= async_position(mode, width, k).1 < height,
        async_next(mode, async_position(mode, width, k).0, async_position(mode, width, k).1, width)
            == async_position(mode, width, k + 1),
        async_points(mode, async_position(mode, width, k).0, async_position(mode, width, k).1, width)
            == async_poll_points(mode, width, k),
        (async_position(mode, width, k + 1).1 >= height) <==> (k + 1 == async_poll_count(
            mode,
            width,
            height,
        )),
{
    vstd::arithmetic::div_mod::lemma_fundamental_div_mod_converse(0, width, 0, 0);
    match mode {
        AsyncMode::Row => {
            let pts = async_points(mode, 0, k, width);
            let want = async_poll_points(mode, width, k);
            assert((k + 1) * width - k * width == width) by (nonlinear_arith);
            assert(want.len() == width);
            assert forall|i: int| 0 <= i < width implies #[trigger] want[i] == pts[i] by {
                lemma_rank_point(width, i, k);
                assert(want[i] == Point {
                    x: ((k * width + i) % width) as usize,
                    y: ((k * width + i) / width) as usize,
                });
            }
            assert(pts =~= want);
        },
        AsyncMode::Pixel => {
            let x = k % width;
            let y = k / width;
            vstd::arithmetic::div_mod::lemma_fundamental_div_mod(k, width);
            vstd::arithmetic::div_mod::lemma_mod_pos_bound(k, width);
            vstd::arithmetic::div_mod::lemma_div_pos_is_pos(k, width);
            assert(y < height) by (nonlinear_arith)
                requires
                    k == width * y + x,
                    0 <= x,
                    k < width * height,
                    0 < width,
            ;
            assert(k == y * width + x) by (nonlinear_arith)
                requires
                    k == width * y + x,
            ;
            if x + 1 >= width {
                assert(k + 1 == (y + 1) * width + 0) by (nonlinear_arith)
                    requires
                        k == y * width + x,
                        x == width - 1,
                ;
                vstd::arithmetic::div_mod::lemma_fundamental_div_mod_converse(
                    k + 1,
                    width,
                    y + 1,
                    0,
                );
            } else {
                vstd::arithmetic::div_mod::lemma_fundamental_div_mod_converse(
                    k + 1,
                    width,
                    y,
                    x + 1,
                );
            }
            let ny = (k + 1) / width;
            let nx = (k + 1) % width;
            vstd::arithmetic::div_mod::lemma_fundamental_div_mod(k + 1, width);
            vstd::arithmetic::div_mod::lemma_mod_pos_bound(k + 1, width);
            assert(ny >= height <==> k + 1 == width * height) by (nonlinear_arith)
                requires
                    k + 1 == width * ny + nx,
                    0 <= nx < width,
                    k + 1 <= width * height,
                    0 < width,
            ;
            assert(async_points(mode, x, y, width) =~= async_poll_points(mode, width, k));
        },
    }
}

proof fn lemma_row_major_split(width: int, a: int, b: int, c: int)
    requires
        width > 0,
        a <= b <= c,
    ensures
        row_major(width, a, c) == row_major(width, a, b) + row_major(width, b, c),
{
    assert(row_major(width, a, c) =~= row_major(width, a, b) + row_major(width, b, c));
}

proof fn lemma_rank_point(width: int, x: int, y: int)
    requires
        width > 0,
        0 <= x < width,
        0 <= y,
    ensures
        rank(width, x, y) % width == x,
        rank(width, x, y) / width == y,
{
    vstd::arithmetic::div_mod::lemma_fundamental_div_mod_converse(rank(width, x, y), width, y, x);
}

proof fn lemma_async_run(mode: AsyncMode, x: int, y: int, width: int, height: int)
    requires
        width > 0,
        0 <= x < width,
        0 <= y,
        mode == AsyncMode::Row ==> x == 0,
    ensures
        y < height ==> async_run(mode, x, y, width, height) == row_major(
            width,
            rank(width, x, y),
            rank(width, 0, height),
        ),
        y >= height ==> async_run(mode, x, y, width, height) == Seq::<Point>::empty(),
    decreases height - y, width - x,
{
    if y < height {
        let (nx, ny) = async_next(mode, x, y, width);
        lemma_async_run(mode, nx, ny, width, height);
        let r0 = rank(width, x, y);
        let r1 = rank(width, nx, ny);
        let rend = rank(width, 0, height);
        assert(r1 == r0 + (if mode == AsyncMode::Row { width } else { 1 })) by (nonlinear_arith)
            requires
                r0 == y * width + x,
                r1 == ny * width + nx,
                mode == AsyncMode::Row ==> x == 0 && nx == 0 && ny == y + 1,
                mode == AsyncMode::Pixel ==> (x + 1 >= width ==> nx == 0 && ny == y + 1 && x
                    == width - 1),
                mode == AsyncMode::Pixel ==> (x + 1 < width ==> nx == x + 1 && ny == y),
        ;
        assert(r1 <= rend) by (nonlinear_arith)
            requires
                r1 == ny * width + nx,
                rend == height * width,
                ny <= height,
                ny == height ==> nx == 0,
                ny < height ==> nx < width,
                width > 0,
        ;
        assert(async_points(mode, x, y, width) =~= row_major(width, r0, r1)) by {
            assert forall|k: int| 0 <= k < r1 - r0 implies #[trigger] row_major(width, r0, r1)[k]
                == async_points(mode, x, y, width)[k] by {
                match mode {
                    AsyncMode::Row => {
                        lemma_rank_point(width, k, y);
                    },
                    AsyncMode::Pixel => {
                        lemma_rank_point(width, x, y);
                    },
                }
            }
        }
        if ny >= height {
            assert(ny == height);
            assert(r1 == rend) by (nonlinear_arith)
                requires
                    r1 == ny * width + nx,
                    rend == height * width,
                    ny == height,
                    nx == 0,
            ;
            assert(row_major(width, r1, rend) =~= Seq::<Point>::empty());
        }
        lemma_row_major_split(width, r0, r1, rend);
    }
}

} // verus!
