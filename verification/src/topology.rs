//! The fixed shape of the network: three layers of weights that lead from
//! the 784 pixels through 128 and 64 hidden units to the 10 classes.

use crate::image::PIXELS;
use crate::matrix::cell;
use crate::matrix::dimensions;
use crate::matrix::filled;
use crate::matrix::grid;
use crate::matrix::shaped;
use crate::matrix::store;
use crate::scalar::is_nan;
use crate::scalar::nan;
use crate::scalar::ZERO;
use easy_ml::matrices::Matrix;
use vstd::prelude::*;

verus! {

/// The number of weight matrices.
pub const LAYERS: usize = 3;

/// The number of inputs: one for each pixel of an image.
pub const INPUTS: usize = PIXELS;

/// The number of units of the first hidden layer.
pub const FIRST_HIDDEN_LAYER_SIZE: usize = 128;

/// The number of units of the second hidden layer.
pub const SECOND_HIDDEN_LAYER_SIZE: usize = 64;

/// The number of classes, one for each digit.
pub const CLASSES: usize = 10;

/// The number of weights of all layers together.
pub const WEIGHTS: usize = 109184;

/// The number of rows of the weight matrix of `layer`: the units it reads.
pub open spec fn rows_of(layer: int) -> int {
    if layer == 0 {
        784
    } else if layer == 1 {
        128
    } else {
        64
    }
}

/// The number of columns of the weight matrix of `layer`: the units it feeds.
pub open spec fn columns_of(layer: int) -> int {
    if layer == 0 {
        128
    } else if layer == 1 {
        64
    } else {
        10
    }
}

/// The number of weights in the layers before `layer`.
pub open spec fn offset_of(layer: int) -> int {
    if layer <= 0 {
        0
    } else if layer == 1 {
        100352
    } else if layer == 2 {
        108544
    } else {
        109184
    }
}

/// Where the weight at `row` and `column` of `layer` stands when all weights
/// are counted layer by layer and, within a layer, row by row.
pub open spec fn position(layer: int, row: int, column: int) -> int {
    offset_of(layer) + row * columns_of(layer) + column
}

/// Each layer feeds the next: it has a column for every row of the layer
/// after it. The first layer reads the pixels, the last feeds the classes.
pub proof fn lemma_layers_chain(layer: int)
    requires
        0 <= layer < LAYERS - 1,
    ensures
        columns_of(layer) == rows_of(layer + 1),
        rows_of(0) == INPUTS,
        columns_of(LAYERS - 1) == CLASSES,
{
}

/// Counting row by row stays within a layer, and the layers follow one
/// another without a gap.
pub proof fn lemma_position_in_layer(layer: int, row: int, column: int)
    requires
        0 <= layer < LAYERS,
        0 <= row < rows_of(layer),
        0 <= column < columns_of(layer),
    ensures
        offset_of(layer) <= position(layer, row, column) < offset_of(layer + 1),
        offset_of(layer + 1) == offset_of(layer) + rows_of(layer) * columns_of(layer),
        offset_of(LAYERS as int) == WEIGHTS,
{
    let columns = columns_of(layer);
    let rows = rows_of(layer);
    assert(row * columns + column < rows * columns) by (nonlinear_arith)
        requires
            0 <= row < rows,
            0 <= column < columns,
    ;
    assert(0 <= row * columns) by (nonlinear_arith)
        requires
            0 <= row,
            0 <= columns,
    ;
}

/// No two weights share a position.
pub proof fn lemma_position_is_injective(
    layer: int,
    row: int,
    column: int,
    other_layer: int,
    other_row: int,
    other_column: int,
)
    requires
        0 <= layer < LAYERS,
        0 <= row < rows_of(layer),
        0 <= column < columns_of(layer),
        0 <= other_layer < LAYERS,
        0 <= other_row < rows_of(other_layer),
        0 <= other_column < columns_of(other_layer),
        position(layer, row, column) == position(other_layer, other_row, other_column),
    ensures
        layer == other_layer,
        row == other_row,
        column == other_column,
{
    lemma_position_in_layer(layer, row, column);
    lemma_position_in_layer(other_layer, other_row, other_column);
    let columns = columns_of(layer);
    assert(row == other_row && column == other_column) by (nonlinear_arith)
        requires
            0 <= column < columns,
            0 <= other_column < columns,
            row * columns + column == other_row * columns + other_column,
    ;
}

/// The cells of each matrix of a list.
pub open spec fn grids(weights: Seq<Matrix<u64>>) -> Seq<Seq<Seq<u64>>> {
    Seq::new(weights.len(), |layer: int| grid(weights[layer]))
}

/// Three layers of cells, each of the shape that the network gives it.
pub open spec fn well_shaped(cells: Seq<Seq<Seq<u64>>>) -> bool {
    &&& cells.len() == LAYERS
    &&& forall|layer: int|
        0 <= layer < LAYERS ==> shaped(#[trigger] cells[layer], rows_of(layer), columns_of(layer))
}

/// Whether every cell of every layer holds a number.
pub open spec fn numbers(cells: Seq<Seq<Seq<u64>>>) -> bool {
    forall|layer: int, row: int, column: int|
        0 <= layer < cells.len() && 0 <= row < cells[layer].len() && 0 <= column
            < cells[layer][row].len() ==> !nan(#[trigger] cells[layer][row][column])
}

/// The rows and columns of the weight matrix of `layer`.
pub fn shape_of(layer: usize) -> (shape: (usize, usize))
    requires
        layer < LAYERS,
    ensures
        shape.0 == rows_of(layer as int),
        shape.1 == columns_of(layer as int),
{
    if layer == 0 {
        (INPUTS, FIRST_HIDDEN_LAYER_SIZE)
    } else if layer == 1 {
        (FIRST_HIDDEN_LAYER_SIZE, SECOND_HIDDEN_LAYER_SIZE)
    } else {
        (SECOND_HIDDEN_LAYER_SIZE, CLASSES)
    }
}

/// Whether `weights` are three matrices of the network's shapes.
pub fn is_well_shaped(weights: &Vec<Matrix<u64>>) -> (r: bool)
    ensures
        r == well_shaped(grids(weights@)),
{
    if weights.len() != LAYERS {
        return false;
    }
    let mut layer: usize = 0;
    while layer < LAYERS
        invariant
            layer <= LAYERS,
            weights@.len() == LAYERS,
            forall|earlier: int|
                0 <= earlier < layer ==> shaped(
                    #[trigger] grids(weights@)[earlier],
                    rows_of(earlier),
                    columns_of(earlier),
                ),
        decreases LAYERS - layer,
    {
        let found = dimensions(&weights[layer]);
        let expected = shape_of(layer);
        if found.0 != expected.0 || found.1 != expected.1 {
            proof {
                let cells = grids(weights@)[layer as int];
                if shaped(cells, rows_of(layer as int), columns_of(layer as int)) {
                    assert(cells[0].len() == found.1);
                }
            }
            return false;
        }
        layer += 1;
    }
    true
}

/// Whether every weight is a number.
pub fn all_numbers(weights: &Vec<Matrix<u64>>) -> (r: bool)
    ensures
        r == numbers(grids(weights@)),
{
    let mut i: usize = 0;
    while i < weights.len()
        invariant
            i <= weights@.len(),
            forall|layer: int, row: int, column: int|
                0 <= layer < i && 0 <= row < grid(weights@[layer]).len() && 0 <= column < grid(
                    weights@[layer],
                )[row].len() ==> !nan(#[trigger] grid(weights@[layer])[row][column]),
        decreases weights@.len() - i,
    {
        let (rows, columns) = dimensions(&weights[i]);
        let mut j: usize = 0;
        while j < rows
            invariant
                i < weights@.len(),
                j <= rows,
                shaped(grid(weights@[i as int]), rows as int, columns as int),
                forall|row: int, column: int|
                    0 <= row < j && 0 <= column < columns ==> !nan(
                        #[trigger] grid(weights@[i as int])[row][column],
                    ),
            decreases rows - j,
        {
            let mut k: usize = 0;
            while k < columns
                invariant
                    i < weights@.len(),
                    j < rows,
                    k <= columns,
                    shaped(grid(weights@[i as int]), rows as int, columns as int),
                    forall|column: int|
                        0 <= column < k ==> !nan(#[trigger] grid(weights@[i as int])[j as int][column]),
                decreases columns - k,
            {
                if is_nan(cell(&weights[i], j, k)) {
                    assert(nan(grids(weights@)[i as int][j as int][k as int]));
                    return false;
                }
                k += 1;
            }
            j += 1;
        }
        i += 1;
    }
    assert forall|layer: int, row: int, column: int|
        0 <= layer < grids(weights@).len() && 0 <= row < grids(weights@)[layer].len() && 0 <= column
            < grids(weights@)[layer][row].len() implies !nan(
        #[trigger] grids(weights@)[layer][row][column],
    ) by {
        assert(!nan(grid(weights@[layer])[row][column]));
    }
    true
}

/// Three weight matrices of the network's shapes, with zero in every cell.
pub(crate) fn blank() -> (weights: Vec<Matrix<u64>>)
    ensures
        well_shaped(grids(weights@)),
        forall|layer: int, row: int, column: int|
            0 <= layer < LAYERS && 0 <= row < rows_of(layer) && 0 <= column < columns_of(layer)
                ==> #[trigger] grids(weights@)[layer][row][column] == ZERO,
{
    let mut weights: Vec<Matrix<u64>> = Vec::new();
    weights.push(filled(ZERO, INPUTS, FIRST_HIDDEN_LAYER_SIZE));
    weights.push(filled(ZERO, FIRST_HIDDEN_LAYER_SIZE, SECOND_HIDDEN_LAYER_SIZE));
    weights.push(filled(ZERO, SECOND_HIDDEN_LAYER_SIZE, CLASSES));
    weights
}

/// Copies every cell of `source` to the cell of `target` at the same layer,
/// row and column.
pub(crate) fn copy(target: &mut Vec<Matrix<u64>>, source: &Vec<Matrix<u64>>)
    requires
        well_shaped(grids(old(target)@)),
        well_shaped(grids(source@)),
    ensures
        grids(final(target)@) == grids(source@),
{
    let mut i: usize = 0;
    while i < source.len()
        invariant
            i <= LAYERS,
            well_shaped(grids(target@)),
            well_shaped(grids(source@)),
            forall|layer: int| 0 <= layer < i ==> grid(#[trigger] target@[layer]) == grid(source@[layer]),
        decreases LAYERS - i,
    {
        assert(shaped(grids(source@)[i as int], rows_of(i as int), columns_of(i as int)));
        assert(shaped(grids(target@)[i as int], rows_of(i as int), columns_of(i as int)));
        let (rows, columns) = dimensions(&source[i]);
        let ghost before = target@;
        assert(grid(source@[i as int])[0].len() == columns);
        let mut j: usize = 0;
        while j < rows
            invariant
                i < LAYERS,
                j <= rows,
                rows == rows_of(i as int),
                columns == columns_of(i as int),
                target@.len() == LAYERS,
                source@.len() == LAYERS,
                before.len() == LAYERS,
                shaped(grid(source@[i as int]), rows as int, columns as int),
                shaped(grid(target@[i as int]), rows as int, columns as int),
                forall|layer: int| 0 <= layer < LAYERS && layer != i ==> target@[layer] == before[layer],
                forall|row: int|
                    0 <= row < j ==> (#[trigger] grid(target@[i as int])[row]) == grid(source@[i as int])[row],
            decreases rows - j,
        {
            let mut k: usize = 0;
            while k < columns
                invariant
                    i < LAYERS,
                    j < rows,
                    k <= columns,
                    target@.len() == LAYERS,
                    source@.len() == LAYERS,
                    before.len() == LAYERS,
                    shaped(grid(source@[i as int]), rows as int, columns as int),
                    shaped(grid(target@[i as int]), rows as int, columns as int),
                    forall|layer: int|
                        0 <= layer < LAYERS && layer != i ==> target@[layer] == before[layer],
                    forall|row: int|
                        0 <= row < j ==> (#[trigger] grid(target@[i as int])[row]) == grid(
                            source@[i as int],
                        )[row],
                    forall|column: int|
                        0 <= column < k ==> (#[trigger] grid(target@[i as int])[j as int][column])
                            == grid(source@[i as int])[j as int][column],
                decreases columns - k,
            {
                let neuron = cell(&source[i], j, k);
                store(&mut target[i], j, k, neuron);
                k += 1;
            }
            assert(grid(target@[i as int])[j as int] =~= grid(source@[i as int])[j as int]);
            j += 1;
        }
        assert(grid(target@[i as int]) =~= grid(source@[i as int]));
        assert forall|layer: int| 0 <= layer < i implies grid(#[trigger] target@[layer]) == grid(
            source@[layer],
        ) by {
            assert(target@[layer] == before[layer]);
        }
        assert forall|layer: int| 0 <= layer < LAYERS implies shaped(
            #[trigger] grids(target@)[layer],
            rows_of(layer),
            columns_of(layer),
        ) by {
            if layer != i {
                assert(grids(before)[layer] == grid(before[layer]));
            }
        }
        i += 1;
    }
    assert(grids(target@) =~= grids(source@));
}

} // verus!
