//! The flow view: what is to be drawn for a flow model, as lists of commands
//! in the order in which they are to be carried out.

use vstd::prelude::*;
use vstd::arithmetic::div_mod::{lemma_basic_div, lemma_fundamental_div_mod, lemma_mod_bound};
use vstd::arithmetic::mul::{lemma_mul_inequality, lemma_mul_is_distributive_add_other_way};
use crate::grid::{
    extent_size, in_extent, lemma_empty_extent, lemma_scan_round_trip, sample_point_of, scan_cell, Cell,
    SamplePoint,
};
use crate::model::{Direction, FlowModel, VectorField};

verus! {

/// A stroke from the pixel (`origin_x`, `origin_y`) to the point whose
/// coordinates are those of `toward`, each multiplied by `scale`. The
/// product is a floating-point one and is left to whoever draws.
#[derive(Clone, Copy, Debug, PartialEq, Eq, Structural)]
pub struct LineCommand {
    pub origin_x: u32,
    pub origin_y: u32,
    pub toward: Direction,
    pub scale: u32,
}

/// A rectangle of `width` by `height` pixels at (`x`, `y`), to be filled with
/// black at the opacity `alpha`, a binary32 word.
#[derive(Clone, Copy, Debug, PartialEq, Eq, Structural)]
pub struct FillCommand {
    pub x: u32,
    pub y: u32,
    pub width: u32,
    pub height: u32,
    pub alpha: u32,
}

/// Renders a flow model, as strokes along its field or as a map of the noise
/// over its canvas.
#[derive(Debug)]
pub struct FlowView {
    flow_model: FlowModel,
}

impl FlowView {
    /// The model is a valid one.
    #[verifier::type_invariant]
    pub closed spec fn wf(&self) -> bool {
        self.flow_model.wf()
    }

    pub closed spec fn spec_flow_model(&self) -> FlowModel {
        self.flow_model
    }

    /// The stroke for cell `c` whose direction is `toward`: it starts at the
    /// cell's corner on the canvas, and its end is `toward` on the scale of
    /// the cells.
    pub open spec fn line_of(&self, c: Cell, toward: Direction) -> LineCommand {
        let size = self.spec_flow_model().spec_vector_size();
        LineCommand {
            origin_x: (c.x * size) as u32,
            origin_y: (c.y * size) as u32,
            toward,
            scale: size,
        }
    }

    /// The fill for the pixel `c` at the opacity `alpha`.
    pub open spec fn fill_of(c: Cell, alpha: u32) -> FillCommand {
        FillCommand { x: c.x, y: c.y, width: 1, height: 1, alpha }
    }

    /// `plan` is the list of strokes for this view's field as `sample` can
    /// have produced it: one stroke for each cell, in the order of the scan,
    /// along a direction that is a value of `sample` at the cell's point.
    pub open spec fn strokes_field<F: Fn(SamplePoint) -> Direction>(
        &self,
        sample: F,
        plan: Seq<LineCommand>,
    ) -> bool {
        let width = self.spec_flow_model().spec_field_width();
        let height = self.spec_flow_model().spec_field_height();
        &&& plan.len() == extent_size(width, height)
        &&& forall|i: int|
            0 <= i < plan.len() ==> {
                let c = scan_cell(i, height);
                &&& sample.ensures((sample_point_of(c, width, height),), (#[trigger] plan[i]).toward)
                &&& plan[i] == self.line_of(c, plan[i].toward)
            }
    }

    /// `plan` is the list of fills for this view's canvas as `shade` can have
    /// produced it: one fill of a single pixel for each pixel, in the order
    /// of the scan, at an opacity that is a value of `shade` at the pixel's
    /// point.
    pub open spec fn fills_canvas<F: Fn(SamplePoint) -> u32>(
        &self,
        shade: F,
        plan: Seq<FillCommand>,
    ) -> bool {
        let width = self.spec_flow_model().spec_canvas_width();
        let height = self.spec_flow_model().spec_canvas_height();
        &&& plan.len() == extent_size(width, height)
        &&& forall|i: int|
            0 <= i < plan.len() ==> {
                let c = scan_cell(i, height);
                &&& shade.ensures((sample_point_of(c, width, height),), (#[trigger] plan[i]).alpha)
                &&& plan[i] == Self::fill_of(c, plan[i].alpha)
            }
    }

    /// A vector size above both the canvas's width and its height leaves
    /// nothing to stroke: the list of strokes is empty.
    pub proof fn lemma_oversized_cells_leave_no_stroke<F: Fn(SamplePoint) -> Direction>(
        &self,
        sample: F,
        plan: Seq<LineCommand>,
    )
        requires
            self.wf(),
            self.spec_flow_model().spec_vector_size() > self.spec_flow_model().spec_canvas_width(),
            self.spec_flow_model().spec_vector_size() > self.spec_flow_model().spec_canvas_height(),
            self.strokes_field(sample, plan),
        ensures
            plan == Seq::<LineCommand>::empty(),
    {
        let model = self.spec_flow_model();
        model.lemma_wf();
        lemma_basic_div(model.spec_canvas_width() as int, model.spec_vector_size() as int);
        lemma_basic_div(model.spec_canvas_height() as int, model.spec_vector_size() as int);
        lemma_empty_extent(model.spec_field_width(), model.spec_field_height());
        assert(plan =~= Seq::<LineCommand>::empty());
    }

    /// Makes the view of a model.
    pub fn new(flow_model: FlowModel) -> (view: FlowView)
        ensures
            view.wf(),
            view.spec_flow_model() == flow_model,
    {
        proof {
            use_type_invariant(&flow_model);
        }
        FlowView { flow_model }
    }

    /// The model that is rendered.
    pub fn flow_model(&self) -> (flow_model: &FlowModel)
        ensures
            *flow_model == self.spec_flow_model(),
            flow_model.wf(),
    {
        proof {
            use_type_invariant(self);
        }
        &self.flow_model
    }

    /// Computes the field with `sample` and lists one stroke for each of its
    /// cells, column by column: from the cell's corner, which is the cell's
    /// position times the vector size, along the cell's direction.
    ///
    /// A grid without cells gives no stroke.
    pub fn render_vector_field<F: Fn(SamplePoint) -> Direction>(
        &self,
        sample: F,
    ) -> (plan: Vec<LineCommand>)
        requires
            forall|c: Cell| #[trigger]
                in_extent(
                    c,
                    self.spec_flow_model().spec_field_width(),
                    self.spec_flow_model().spec_field_height(),
                ) ==> sample.requires(
                    (
                        sample_point_of(
                            c,
                            self.spec_flow_model().spec_field_width(),
                            self.spec_flow_model().spec_field_height(),
                        ),
                    ),
                ),
        ensures
            self.strokes_field(sample, plan@),
    {
        proof {
            use_type_invariant(self);
        }
        let size: u32 = self.flow_model.vector_size();
        let canvas_width: u32 = self.flow_model.canvas_width();
        let canvas_height: u32 = self.flow_model.canvas_height();
        let width: u32 = self.flow_model.field_width();
        let height: u32 = self.flow_model.field_height();
        let field: VectorField = self.flow_model.compute_field(sample);
        let mut plan: Vec<LineCommand> = Vec::new();
        let mut x: u32 = 0;
        while x < width
            invariant
                x <= width,
                size > 0,
                size == self.spec_flow_model().spec_vector_size(),
                width == self.spec_flow_model().spec_field_width(),
                height == self.spec_flow_model().spec_field_height(),
                width == canvas_width / size,
                height == canvas_height / size,
                self.spec_flow_model().sampled_by(sample, field),
                plan@.len() == x * height,
                forall|i: int|
                    0 <= i < plan@.len() ==> {
                        let c = scan_cell(i, height);
                        &&& sample.ensures(
                            (sample_point_of(c, width, height),),
                            (#[trigger] plan@[i]).toward,
                        )
                        &&& plan@[i] == self.line_of(c, plan@[i].toward)
                    },
            decreases width - x,
        {
            let mut y: u32 = 0;
            while y < height
                invariant
                    x < width,
                    y <= height,
                    size > 0,
                    size == self.spec_flow_model().spec_vector_size(),
                    width == self.spec_flow_model().spec_field_width(),
                    height == self.spec_flow_model().spec_field_height(),
                    width == canvas_width / size,
                    height == canvas_height / size,
                    self.spec_flow_model().sampled_by(sample, field),
                    plan@.len() == x * height + y,
                    forall|i: int|
                        0 <= i < plan@.len() ==> {
                            let c = scan_cell(i, height);
                            &&& sample.ensures(
                                (sample_point_of(c, width, height),),
                                (#[trigger] plan@[i]).toward,
                            )
                            &&& plan@[i] == self.line_of(c, plan@[i].toward)
                        },
                decreases height - y,
            {
                let ghost here = Cell { x, y };
                proof {
                    assert(in_extent(here, width, height));
                    lemma_scan_round_trip(here, 0, width, height);
                    lemma_cell_on_canvas(x, size, canvas_width);
                    lemma_cell_on_canvas(y, size, canvas_height);
                }
                match field.get(x, y) {
                    Some(toward) => {
                        let origin_x: u32 = x * size;
                        let origin_y: u32 = y * size;
                        plan.push(LineCommand { origin_x, origin_y, toward, scale: size });
                    },
                    None => {},
                }
                y = y + 1;
            }
            proof {
                lemma_mul_is_distributive_add_other_way(height as int, x as int, 1);
            }
            x = x + 1;
        }
        proof {
            assert(plan@.len() == extent_size(width, height)) by (nonlinear_arith)
                requires
                    plan@.len() == x * height,
                    x == width,
            ;
        }
        plan
    }

    /// Lists one fill for each pixel of the canvas, column by column: a
    /// single pixel at the opacity that `shade` returns for the pixel's
    /// position relative to the canvas's width and height. `shade` is called
    /// once for each pixel, in that order.
    ///
    /// A canvas without pixels gives no fill.
    pub fn render_height_map<F: Fn(SamplePoint) -> u32>(
        &self,
        shade: F,
    ) -> (plan: Vec<FillCommand>)
        requires
            forall|c: Cell| #[trigger]
                in_extent(
                    c,
                    self.spec_flow_model().spec_canvas_width(),
                    self.spec_flow_model().spec_canvas_height(),
                ) ==> shade.requires(
                    (
                        sample_point_of(
                            c,
                            self.spec_flow_model().spec_canvas_width(),
                            self.spec_flow_model().spec_canvas_height(),
                        ),
                    ),
                ),
        ensures
            self.fills_canvas(shade, plan@),
    {
        let width: u32 = self.flow_model.canvas_width();
        let height: u32 = self.flow_model.canvas_height();
        let mut plan: Vec<FillCommand> = Vec::new();
        let mut x: u32 = 0;
        while x < width
            invariant
                x <= width,
                width == self.spec_flow_model().spec_canvas_width(),
                height == self.spec_flow_model().spec_canvas_height(),
                forall|c: Cell| #[trigger]
                    in_extent(c, width, height) ==> shade.requires(
                        (sample_point_of(c, width, height),),
                    ),
                plan@.len() == x * height,
                forall|i: int|
                    0 <= i < plan@.len() ==> {
                        let c = scan_cell(i, height);
                        &&& shade.ensures(
                            (sample_point_of(c, width, height),),
                            (#[trigger] plan@[i]).alpha,
                        )
                        &&& plan@[i] == Self::fill_of(c, plan@[i].alpha)
                    },
            decreases width - x,
        {
            let mut y: u32 = 0;
            while y < height
                invariant
                    x < width,
                    y <= height,
                    width == self.spec_flow_model().spec_canvas_width(),
                    height == self.spec_flow_model().spec_canvas_height(),
                    forall|c: Cell| #[trigger]
                        in_extent(c, width, height) ==> shade.requires(
                            (sample_point_of(c, width, height),),
                        ),
                    plan@.len() == x * height + y,
                    forall|i: int|
                        0 <= i < plan@.len() ==> {
                            let c = scan_cell(i, height);
                            &&& shade.ensures(
                                (sample_point_of(c, width, height),),
                                (#[trigger] plan@[i]).alpha,
                            )
                            &&& plan@[i] == Self::fill_of(c, plan@[i].alpha)
                        },
                decreases height - y,
            {
                let ghost here = Cell { x, y };
                proof {
                    assert(in_extent(here, width, height));
                    lemma_scan_round_trip(here, 0, width, height);
                }
                let alpha: u32 = shade(SamplePoint { x, y, width, height });
                plan.push(FillCommand { x, y, width: 1, height: 1, alpha });
                y = y + 1;
            }
            proof {
                lemma_mul_is_distributive_add_other_way(height as int, x as int, 1);
            }
            x = x + 1;
        }
        proof {
            assert(plan@.len() == extent_size(width, height)) by (nonlinear_arith)
                requires
                    plan@.len() == x * height,
                    x == width,
            ;
        }
        plan
    }
}

/// A cell lies on the canvas: in a grid of as many cells of `size` pixels as
/// fit into `canvas` pixels, the cell at position `index` begins at pixel
/// `index * size` and ends at or before the canvas's edge.
pub proof fn lemma_cell_on_canvas(index: u32, size: u32, canvas: u32)
    requires
        size > 0,
        index < canvas / size,
    ensures
        0 <= index * size,
        index * size + size <= canvas,
{
    let count = (canvas / size) as int;
    assert(0 <= index * size) by (nonlinear_arith);
    assert((index + 1) * size <= count * size) by {
        lemma_mul_inequality(index + 1, count, size as int);
    }
    assert((index + 1) * size == index * size + size) by {
        lemma_mul_is_distributive_add_other_way(size as int, index as int, 1);
    }
    assert(count * size <= canvas) by {
        lemma_fundamental_div_mod(canvas as int, size as int);
        lemma_mod_bound(canvas as int, size as int);
        assert(size * count == count * size) by (nonlinear_arith);
    }
}

} // verus!
