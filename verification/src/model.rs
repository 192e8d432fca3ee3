//! The flow model: a canvas divided into square cells, and the field of
//! directions computed over those cells.

use vstd::prelude::*;
use vstd::arithmetic::div_mod::lemma_basic_div;
use vstd::set_lib::lemma_map_size;
use std::collections::HashMap;
use crate::error::ConfigurationError;
use crate::grid::{
    cell_key, cell_of, cells_in, extent_size, in_extent, key_of, lemma_extent_counted,
    lemma_key_round_trip, sample_point_of, Cell, SamplePoint,
};
use crate::noise::NoiseModel;

verus! {

/// A two-component vector of single-precision numbers, each held as its
/// IEEE 754 binary32 word. The library stores and forwards such vectors and
/// never computes with them, so equality of two directions is equality bit
/// for bit.
#[derive(Clone, Copy, Debug, PartialEq, Eq, Structural)]
pub struct Direction {
    pub x: u32,
    pub y: u32,
}

/// One direction for every cell of a rectangle of cells.
#[derive(Debug)]
pub struct VectorField {
    width: u32,
    height: u32,
    cells: HashMap<u64, Direction>,
}

impl View for VectorField {
    type V = Map<Cell, Direction>;

    /// The field as a map from cell to direction.
    closed spec fn view(&self) -> Map<Cell, Direction> {
        Map::new(
            |c: Cell| in_extent(c, self.width, self.height),
            |c: Cell| self.cells@[key_of(c)],
        )
    }
}

impl VectorField {
    /// Exactly the cells of the rectangle are stored.
    #[verifier::type_invariant]
    pub closed spec fn wf(&self) -> bool {
        forall|key: u64|
            self.cells@.contains_key(key) <==> in_extent(
                #[trigger] cell_of(key),
                self.width,
                self.height,
            )
    }

    pub closed spec fn spec_width(&self) -> u32 {
        self.width
    }

    pub closed spec fn spec_height(&self) -> u32 {
        self.height
    }

    /// A field holds one entry for each cell of its rectangle and no other:
    /// `width * height` entries under as many different cells.
    pub proof fn lemma_entries(&self)
        requires
            self.wf(),
        ensures
            self@.dom() == cells_in(self.spec_width(), self.spec_height()),
            self@.dom().finite(),
            self@.len() == extent_size(self.spec_width(), self.spec_height()),
    {
        lemma_extent_counted(self.width, self.height);
        assert(self@.dom() =~= cells_in(self.width, self.height));
    }

    /// The stored keys are as many as the cells.
    proof fn lemma_keys_counted(&self)
        requires
            self.wf(),
        ensures
            self.cells@.len() == extent_size(self.width, self.height),
    {
        let cells = cells_in(self.width, self.height);
        let keys = self.cells@.dom();
        let key = |c: Cell| key_of(c);
        lemma_extent_counted(self.width, self.height);
        assert forall|k: u64| cells.map(key).contains(k) <==> keys.contains(k) by {
            if keys.contains(k) {
                lemma_key_round_trip(cell_of(k), k);
                assert(cells.contains(cell_of(k)));
                assert(key(cell_of(k)) == k);
            }
            if cells.map(key).contains(k) {
                let c = choose|c: Cell| cells.contains(c) && k == key(c);
                lemma_key_round_trip(c, k);
            }
        }
        assert(cells.map(key) =~= keys);
        assert(vstd::relations::injective_on(key, cells)) by {
            assert forall|a: Cell, b: Cell| #[trigger] key(a) == #[trigger] key(b) implies a
                == b by {
                lemma_key_round_trip(a, key_of(b));
                lemma_key_round_trip(b, key_of(a));
            }
        }
        lemma_map_size(cells, keys, key);
    }

    /// The number of columns.
    #[verifier::when_used_as_spec(spec_width)]
    pub fn width(&self) -> (width: u32)
        ensures
            width == self.spec_width(),
    {
        self.width
    }

    /// The number of rows.
    #[verifier::when_used_as_spec(spec_height)]
    pub fn height(&self) -> (height: u32)
        ensures
            height == self.spec_height(),
    {
        self.height
    }

    /// The number of entries: one for each cell.
    pub fn len(&self) -> (len: usize)
        ensures
            len == self@.len(),
            len == extent_size(self.spec_width(), self.spec_height()),
    {
        proof {
            use_type_invariant(self);
            self.lemma_entries();
            self.lemma_keys_counted();
        }
        self.cells.len()
    }

    /// The direction of the cell in column `x` and row `y`, if the field has
    /// that cell.
    pub fn get(&self, x: u32, y: u32) -> (found: Option<Direction>)
        ensures
            found == if in_extent(Cell { x, y }, self.spec_width(), self.spec_height()) {
                Some(self@[Cell { x, y }])
            } else {
                None
            },
    {
        proof {
            use_type_invariant(self);
            lemma_key_round_trip(Cell { x, y }, 0);
        }
        let key: u64 = cell_key(x, y);
        match self.cells.get(&key) {
            Some(direction) => Some(*direction),
            None => None,
        }
    }
}

/// `c` is a cell of a grid with `height` rows that the scan has passed when
/// it stands at column `x` and row `y`.
spec fn scanned(c: Cell, x: u32, y: u32, height: u32) -> bool {
    c.y < height && (c.x < x || (c.x == x && c.y < y))
}

/// A canvas of `canvas_width` by `canvas_height` pixels, divided into square
/// cells of `vector_size` pixels, together with the configuration of the
/// noise that gives each cell its direction.
///
/// The grid has as many columns and rows as whole cells fit into the canvas.
/// Where the cells are larger than the canvas, it has none.
#[derive(Debug)]
pub struct FlowModel {
    vector_size: u32,
    canvas_width: u32,
    canvas_height: u32,
    field_width: u32,
    field_height: u32,
    noise_model: NoiseModel,
}

impl FlowModel {
    /// The cells have an extent, and the grid is as many cells wide and high
    /// as fit into the canvas.
    #[verifier::type_invariant]
    pub closed spec fn wf(&self) -> bool {
        &&& self.vector_size > 0
        &&& self.field_width == self.canvas_width / self.vector_size
        &&& self.field_height == self.canvas_height / self.vector_size
        &&& self.noise_model.wf()
    }

    pub closed spec fn spec_vector_size(&self) -> u32 {
        self.vector_size
    }

    pub closed spec fn spec_canvas_width(&self) -> u32 {
        self.canvas_width
    }

    pub closed spec fn spec_canvas_height(&self) -> u32 {
        self.canvas_height
    }

    pub closed spec fn spec_field_width(&self) -> u32 {
        self.field_width
    }

    pub closed spec fn spec_field_height(&self) -> u32 {
        self.field_height
    }

    pub closed spec fn spec_noise_model(&self) -> NoiseModel {
        self.noise_model
    }

    /// `field` is a field of this model that `sample` can have produced: it
    /// covers the model's grid, and the direction of each cell is a value of
    /// `sample` at that cell's point.
    pub open spec fn sampled_by<F: Fn(SamplePoint) -> Direction>(
        &self,
        sample: F,
        field: VectorField,
    ) -> bool {
        &&& field.wf()
        &&& field.spec_width() == self.spec_field_width()
        &&& field.spec_height() == self.spec_field_height()
        &&& forall|c: Cell| #[trigger]
            in_extent(c, self.spec_field_width(), self.spec_field_height()) ==> sample.ensures(
                (sample_point_of(c, self.spec_field_width(), self.spec_field_height()),),
                field@[c],
            )
    }

    /// What `wf` says, in terms of the dimensions.
    pub proof fn lemma_wf(&self)
        ensures
            self.wf() <==> {
                &&& self.spec_vector_size() > 0
                &&& self.spec_field_width() == self.spec_canvas_width() / self.spec_vector_size()
                &&& self.spec_field_height() == self.spec_canvas_height() / self.spec_vector_size()
                &&& self.spec_noise_model().wf()
            },
    {
    }

    /// A vector size above both the canvas's width and its height leaves the
    /// grid without columns and rows, and the field computed for it is the
    /// empty one.
    pub proof fn lemma_oversized_cells_leave_no_field<F: Fn(SamplePoint) -> Direction>(
        &self,
        sample: F,
        field: VectorField,
    )
        requires
            self.wf(),
            self.spec_vector_size() > self.spec_canvas_width(),
            self.spec_vector_size() > self.spec_canvas_height(),
            self.sampled_by(sample, field),
        ensures
            self.spec_field_width() == 0,
            self.spec_field_height() == 0,
            field@ == Map::<Cell, Direction>::empty(),
            field@.len() == 0,
    {
        lemma_basic_div(self.canvas_width as int, self.vector_size as int);
        lemma_basic_div(self.canvas_height as int, self.vector_size as int);
        assert(field@ =~= Map::<Cell, Direction>::empty());
    }

    /// Computing the field again gives the same field, bit for bit, as long
    /// as the noise source gives one value at each point: two fields of one
    /// model that one such `sample` can have produced are equal.
    pub proof fn lemma_field_determined<F: Fn(SamplePoint) -> Direction>(
        &self,
        sample: F,
        first: VectorField,
        second: VectorField,
    )
        requires
            self.sampled_by(sample, first),
            self.sampled_by(sample, second),
            forall|p: SamplePoint, a: Direction, b: Direction|
                #[trigger] sample.ensures((p,), a) && #[trigger] sample.ensures((p,), b) ==> a == b,
        ensures
            first@ == second@,
    {
        let width = self.spec_field_width();
        let height = self.spec_field_height();
        assert forall|c: Cell| first@.dom().contains(c) implies first@[c] == second@[c] by {
            assert(in_extent(c, width, height));
            let p = sample_point_of(c, width, height);
            assert(sample.ensures((p,), first@[c]));
            assert(sample.ensures((p,), second@[c]));
        }
        assert(first@ =~= second@);
    }

    /// Divides a canvas into cells of `vector_size` pixels.
    ///
    /// A vector size of zero is refused. Every other size is accepted, also
    /// one above the canvas's width or height, which leaves the grid without
    /// columns or rows.
    pub fn new(
        noise_model: NoiseModel,
        vector_size: u32,
        canvas_width: u32,
        canvas_height: u32,
    ) -> (made: Result<FlowModel, ConfigurationError>)
        ensures
            match made {
                Ok(model) => {
                    &&& vector_size > 0
                    &&& model.wf()
                    &&& model.spec_noise_model() == noise_model
                    &&& model.spec_vector_size() == vector_size
                    &&& model.spec_canvas_width() == canvas_width
                    &&& model.spec_canvas_height() == canvas_height
                    &&& model.spec_field_width() == canvas_width / vector_size
                    &&& model.spec_field_height() == canvas_height / vector_size
                },
                Err(e) => vector_size == 0 && e == ConfigurationError::ZeroVectorSize,
            },
    {
        if vector_size == 0 {
            return Err(ConfigurationError::ZeroVectorSize);
        }
        proof {
            use_type_invariant(&noise_model);
        }
        let field_width: u32 = canvas_width / vector_size;
        let field_height: u32 = canvas_height / vector_size;
        Ok(
            FlowModel {
                vector_size,
                canvas_width,
                canvas_height,
                field_width,
                field_height,
                noise_model,
            },
        )
    }

    /// Computes the field: `sample` is called once for each cell of the grid,
    /// column by column, with the cell's position relative to the grid's
    /// width and height, and what it returns becomes the cell's direction.
    ///
    /// A grid without columns or without rows gives the empty field, and
    /// `sample` is not called.
    pub fn compute_field<F: Fn(SamplePoint) -> Direction>(
        &self,
        sample: F,
    ) -> (field: VectorField)
        requires
            forall|c: Cell| #[trigger]
                in_extent(c, self.spec_field_width(), self.spec_field_height())
                    ==> sample.requires(
                    (sample_point_of(c, self.spec_field_width(), self.spec_field_height()),),
                ),
        ensures
            self.sampled_by(sample, field),
            field@.dom() == cells_in(self.spec_field_width(), self.spec_field_height()),
            field@.len() == extent_size(self.spec_field_width(), self.spec_field_height()),
    {
        let width: u32 = self.field_width;
        let height: u32 = self.field_height;
        let mut cells: HashMap<u64, Direction> = HashMap::new();
        let mut x: u32 = 0;
        while x < width
            invariant
                x <= width,
                width == self.spec_field_width(),
                height == self.spec_field_height(),
                forall|c: Cell| #[trigger]
                    in_extent(c, self.spec_field_width(), self.spec_field_height())
                        ==> sample.requires((sample_point_of(c, width, height),)),
                forall|key: u64|
                    cells@.contains_key(key) <==> scanned(#[trigger] cell_of(key), x, 0, height),
                forall|c: Cell| #[trigger]
                    scanned(c, x, 0, height) ==> sample.ensures(
                        (sample_point_of(c, width, height),),
                        cells@[key_of(c)],
                    ),
            decreases width - x,
        {
            let mut y: u32 = 0;
            while y < height
                invariant
                    x < width,
                    y <= height,
                    width == self.spec_field_width(),
                    height == self.spec_field_height(),
                    forall|c: Cell| #[trigger]
                        in_extent(c, self.spec_field_width(), self.spec_field_height())
                            ==> sample.requires((sample_point_of(c, width, height),)),
                    forall|key: u64|
                        cells@.contains_key(key) <==> scanned(
                            #[trigger] cell_of(key),
                            x,
                            y,
                            height,
                        ),
                    forall|c: Cell| #[trigger]
                        scanned(c, x, y, height) ==> sample.ensures(
                            (sample_point_of(c, width, height),),
                            cells@[key_of(c)],
                        ),
                decreases height - y,
            {
                let here = Cell { x, y };
                assert(in_extent(here, self.spec_field_width(), self.spec_field_height()));
                let direction = sample(SamplePoint { x, y, width, height });
                let key: u64 = cell_key(x, y);
                let ghost before = cells@;
                cells.insert(key, direction);
                proof {
                    lemma_key_round_trip(here, key);
                    assert forall|k: u64|
                        cells@.contains_key(k) <==> scanned(
                            #[trigger] cell_of(k),
                            x,
                            (y + 1) as u32,
                            height,
                        ) by {
                        lemma_key_round_trip(here, k);
                        assert(before.contains_key(k) <==> scanned(cell_of(k), x, y, height));
                    }
                    assert forall|c: Cell| #[trigger]
                        scanned(c, x, (y + 1) as u32, height) implies sample.ensures(
                        (sample_point_of(c, width, height),),
                        cells@[key_of(c)],
                    ) by {
                        lemma_key_round_trip(c, key);
                        if c != here {
                            assert(scanned(c, x, y, height));
                        }
                    }
                }
                y = y + 1;
            }
            proof {
                assert forall|k: u64|
                    cells@.contains_key(k) <==> scanned(
                        #[trigger] cell_of(k),
                        (x + 1) as u32,
                        0,
                        height,
                    ) by {
                    assert(cells@.contains_key(k) <==> scanned(cell_of(k), x, y, height));
                }
                assert forall|c: Cell| #[trigger]
                    scanned(c, (x + 1) as u32, 0, height) implies sample.ensures(
                    (sample_point_of(c, width, height),),
                    cells@[key_of(c)],
                ) by {
                    assert(scanned(c, x, y, height));
                }
            }
            x = x + 1;
        }
        proof {
            assert forall|k: u64|
                cells@.contains_key(k) <==> in_extent(#[trigger] cell_of(k), width, height) by {
                assert(cells@.contains_key(k) <==> scanned(cell_of(k), x, 0, height));
            }
        }
        let field = VectorField { width, height, cells };
        proof {
            field.lemma_entries();
            assert forall|c: Cell| #[trigger]
                in_extent(c, width, height) implies sample.ensures(
                (sample_point_of(c, width, height),),
                field@[c],
            ) by {
                assert(scanned(c, x, 0, height));
            }
        }
        field
    }

    /// The edge of a cell, in pixels; it is not zero.
    #[verifier::when_used_as_spec(spec_vector_size)]
    pub fn vector_size(&self) -> (vector_size: u32)
        ensures
            vector_size == self.spec_vector_size(),
            vector_size > 0,
    {
        proof {
            use_type_invariant(self);
        }
        self.vector_size
    }

    /// The width of the canvas, in pixels.
    #[verifier::when_used_as_spec(spec_canvas_width)]
    pub fn canvas_width(&self) -> (canvas_width: u32)
        ensures
            canvas_width == self.spec_canvas_width(),
    {
        self.canvas_width
    }

    /// The height of the canvas, in pixels.
    #[verifier::when_used_as_spec(spec_canvas_height)]
    pub fn canvas_height(&self) -> (canvas_height: u32)
        ensures
            canvas_height == self.spec_canvas_height(),
    {
        self.canvas_height
    }

    /// The number of columns of the grid: the canvas's width divided by the
    /// vector size, rounded down.
    #[verifier::when_used_as_spec(spec_field_width)]
    pub fn field_width(&self) -> (field_width: u32)
        ensures
            field_width == self.spec_field_width(),
            field_width == self.spec_canvas_width() / self.spec_vector_size(),
    {
        proof {
            use_type_invariant(self);
        }
        self.field_width
    }

    /// The number of rows of the grid: the canvas's height divided by the
    /// vector size, rounded down.
    #[verifier::when_used_as_spec(spec_field_height)]
    pub fn field_height(&self) -> (field_height: u32)
        ensures
            field_height == self.spec_field_height(),
            field_height == self.spec_canvas_height() / self.spec_vector_size(),
    {
        proof {
            use_type_invariant(self);
        }
        self.field_height
    }

    /// The configuration of the noise source.
    pub fn noise_model(&self) -> (noise_model: &NoiseModel)
        ensures
            *noise_model == self.spec_noise_model(),
    {
        &self.noise_model
    }
}

} // verus!
