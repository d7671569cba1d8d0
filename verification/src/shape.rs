//! The shape of a model's input.

use vstd::prelude::*;

verus! {

/// What a model declares of its first input.
#[derive(Debug)]
pub enum InputType {
    /// A tensor of floats with these dimensions. A negative dimension is not fixed.
    Floats(Vec<i64>),
    /// Anything else, described in words.
    Other(String),
}

/// The mathematical counterpart of [`InputType`].
pub enum DeclaredInput {
    Floats(Seq<i64>),
    Other(Seq<char>),
}

impl View for InputType {
    type V = DeclaredInput;

    open spec fn view(&self) -> DeclaredInput {
        match self {
            InputType::Floats(dimensions) => DeclaredInput::Floats(dimensions@),
            InputType::Other(kind) => DeclaredInput::Other(kind@),
        }
    }
}

/// What a model declares, where it has an input.
pub open spec fn declared(input: Option<InputType>) -> Option<DeclaredInput> {
    match input {
        Some(input) => Some(input@),
        None => None,
    }
}

/// What a model declares of one of its inputs.
#[derive(Debug)]
pub struct InputDeclaration {
    /// For a tensor, the name of its element type and its dimensions.
    pub tensor: Option<(String, Vec<i64>)>,
    /// The declared type in words.
    pub text: String,
}

/// The mathematical counterpart of [`InputDeclaration`].
pub struct DeclarationView {
    pub tensor: Option<(Seq<char>, Seq<i64>)>,
    pub text: Seq<char>,
}

impl View for InputDeclaration {
    type V = DeclarationView;

    open spec fn view(&self) -> DeclarationView {
        DeclarationView {
            tensor: match self.tensor {
                Some((element, dimensions)) => Some((element@, dimensions@)),
                None => None,
            },
            text: self.text@,
        }
    }
}

/// The declarations of all inputs of a model.
pub open spec fn declarations(inputs: Seq<InputDeclaration>) -> Seq<DeclarationView> {
    inputs.map_values(|input: InputDeclaration| input@)
}

/// The service feeds the first input of a model, and takes it for a tensor of floats exactly if
/// it is a tensor whose elements are single-precision floats.
pub open spec fn accepted(inputs: Seq<DeclarationView>) -> Option<DeclaredInput> {
    if inputs.len() == 0 {
        None
    } else {
        match inputs[0].tensor {
            Some((element, dimensions)) => if element == "Float32"@ {
                Some(DeclaredInput::Floats(dimensions))
            } else {
                Some(DeclaredInput::Other(inputs[0].text))
            },
            None => Some(DeclaredInput::Other(inputs[0].text)),
        }
    }
}

/// The input that the service feeds, among the declared ones.
pub fn input_of(inputs: Vec<InputDeclaration>) -> (input: Option<InputType>)
    ensures
        declared(input) == accepted(declarations(inputs@)),
{
    if inputs.len() == 0 {
        return None;
    }
    let mut rest: Vec<InputDeclaration> = inputs;
    let first: InputDeclaration = rest.swap_remove(0);
    match first.tensor {
        Some((element, dimensions)) => {
            let float: String = "Float32".to_owned();
            if element == float {
                Some(InputType::Floats(dimensions))
            } else {
                Some(InputType::Other(first.text))
            }
        },
        None => Some(InputType::Other(first.text)),
    }
}

/// The size of a dimension in the tensors that the service makes: 1 where the model leaves it
/// open.
pub open spec fn dimension_size(dimension: i64) -> usize {
    if dimension < 0 {
        1
    } else {
        dimension as usize
    }
}

/// The shape of the tensors that the service makes for declared `dimensions`.
pub open spec fn tensor_shape(dimensions: Seq<i64>) -> Seq<usize> {
    dimensions.map_values(|dimension: i64| dimension_size(dimension))
}

/// The number of elements of a tensor of this shape.
pub open spec fn element_count(shape: Seq<usize>) -> nat
    decreases shape.len(),
{
    if shape.len() == 0 {
        1
    } else {
        element_count(shape.drop_last()) * shape.last() as nat
    }
}

/// Multiplying the dimensions up from the first, every product is a machine integer.
pub open spec fn count_fits(shape: Seq<usize>) -> bool {
    forall|k: int| 0 <= k <= shape.len() ==> #[trigger] element_count(shape.take(k)) <= usize::MAX
}

/// The shape of the tensors that the service makes for declared `dimensions`.
pub fn shape_of(dimensions: &Vec<i64>) -> (shape: Vec<usize>)
    ensures
        shape@ == tensor_shape(dimensions@),
{
    let mut shape: Vec<usize> = Vec::new();
    let mut i: usize = 0;
    while i < dimensions.len()
        invariant
            i <= dimensions@.len(),
            shape@ == tensor_shape(dimensions@.take(i as int)),
        decreases dimensions.len() - i,
    {
        let dimension: i64 = dimensions[i];
        if dimension < 0 {
            shape.push(1);
        } else {
            shape.push(dimension as usize);
        }
        i += 1;
        assert(shape@ =~= tensor_shape(dimensions@.take(i as int)));
    }
    assert(dimensions@.take(i as int) =~= dimensions@);
    shape
}

/// The number of elements of a tensor of this shape, or `None` where a product on the way to it
/// is no machine integer.
pub fn count_elements(shape: &Vec<usize>) -> (count: Option<usize>)
    ensures
        count is Some <==> count_fits(shape@),
        count matches Some(n) ==> n == element_count(shape@),
{
    let mut count: usize = 1;
    let mut i: usize = 0;
    assert(shape@.take(0) =~= Seq::<usize>::empty());
    while i < shape.len()
        invariant
            i <= shape@.len(),
            count == element_count(shape@.take(i as int)),
            forall|k: int|
                0 <= k <= i ==> #[trigger] element_count(shape@.take(k)) <= usize::MAX,
        decreases shape.len() - i,
    {
        assert(shape@.take(i + 1).drop_last() =~= shape@.take(i as int));
        assert(element_count(shape@.take(i + 1)) == count * shape@[i as int]);
        match count.checked_mul(shape[i]) {
            None => {
                return None;
            },
            Some(product) => {
                count = product;
            },
        }
        i += 1;
    }
    assert(shape@.take(i as int) =~= shape@);
    Some(count)
}

/// The views of declarations show what they hold.
pub proof fn declarations_show_their_fields(inputs: Seq<InputDeclaration>, i: int)
    requires
        0 <= i < inputs.len(),
    ensures
        declarations(inputs).len() == inputs.len(),
        declarations(inputs)[i].text == inputs[i].text@,
        declarations(inputs)[i].tensor is Some <==> inputs[i].tensor is Some,
        inputs[i].tensor matches Some(tensor) ==> declarations(inputs)[i].tensor == Some(
            (tensor.0@, tensor.1@),
        ),
{
}

/// The view of an input shows what it holds.
pub proof fn inputs_show_their_fields(input: Option<InputType>)
    ensures
        input is None <==> declared(input) is None,
        input matches Some(InputType::Floats(dimensions)) ==> declared(input) == Some(
            DeclaredInput::Floats(dimensions@),
        ),
        input matches Some(InputType::Other(kind)) ==> declared(input) == Some(
            DeclaredInput::Other(kind@),
        ),
{
}

/// A model is fed by its first input. It is accepted exactly if that is a tensor of elements
/// `Float32`, whatever its dimensions are, and these are then kept; any other first input is
/// described by its own text. Only a model without inputs has none.
pub proof fn single_precision_inputs_are_accepted(
    inputs: Seq<DeclarationView>,
    dimensions: Seq<i64>,
)
    ensures
        accepted(inputs) is None <==> inputs.len() == 0,
        inputs.len() > 0 ==> (accepted(inputs) == Some(DeclaredInput::Floats(dimensions))
            <==> inputs[0].tensor == Some(("Float32"@, dimensions))),
        inputs.len() > 0 && !(accepted(inputs)->0 is Floats) ==> accepted(inputs) == Some(
            DeclaredInput::Other(inputs[0].text),
        ),
{
}

/// A tensor has as many dimensions as its model declares, and each of them has the declared size;
/// one that is declared negative has size 1.
pub proof fn shapes_follow_the_declaration(dimensions: Seq<i64>)
    ensures
        tensor_shape(dimensions).len() == dimensions.len(),
        forall|i: int|
            0 <= i < dimensions.len() && dimensions[i] < 0 ==> #[trigger] tensor_shape(
                dimensions,
            )[i] == 1,
        forall|i: int|
            0 <= i < dimensions.len() && 0 <= dimensions[i] <= usize::MAX
                ==> #[trigger] tensor_shape(dimensions)[i] == dimensions[i],
{
}

/// A tensor without dimensions has one element, and one more dimension multiplies the elements by
/// its size.
pub proof fn dimensions_multiply(shape: Seq<usize>, size: usize)
    ensures
        element_count(Seq::<usize>::empty()) == 1,
        element_count(shape.push(size)) == element_count(shape) * size,
{
    assert(shape.push(size).drop_last() =~= shape);
}

/// A tensor whose shape is that of one followed by that of another has the product of their
/// numbers of elements.
pub proof fn shapes_multiply(shape: Seq<usize>, more: Seq<usize>)
    ensures
        element_count(shape + more) == element_count(shape) * element_count(more),
    decreases more.len(),
{
    if more.len() == 0 {
        assert(shape + more =~= shape);
        assert(element_count(more) == 1);
        assert(element_count(shape) * 1 == element_count(shape));
    } else {
        shapes_multiply(shape, more.drop_last());
        assert((shape + more).drop_last() =~= shape + more.drop_last());
        let a = element_count(shape) as int;
        let b = element_count(more.drop_last()) as int;
        let c = more.last() as int;
        assert((shape + more).last() == more.last());
        assert(element_count(shape + more) == (a * b) * c);
        assert(element_count(more) == b * c);
        assert((a * b) * c == a * (b * c)) by (nonlinear_arith);
    }
}

/// A shape of no dimensions can be counted; one more dimension can be counted exactly if what is
/// before it can and the product with its size is a machine integer.
pub proof fn counting_goes_on(shape: Seq<usize>, size: usize)
    ensures
        count_fits(Seq::<usize>::empty()),
        count_fits(shape.push(size)) <==> count_fits(shape) && element_count(shape) * size
            <= usize::MAX,
{
    let longer = shape.push(size);
    assert forall|k: int| 0 <= k <= Seq::<usize>::empty().len() implies #[trigger] element_count(
        Seq::<usize>::empty().take(k),
    ) <= usize::MAX by {
        assert(Seq::<usize>::empty().take(k) =~= Seq::<usize>::empty());
    }
    assert(longer.drop_last() =~= shape);
    assert(longer.take(longer.len() as int) =~= longer);
    assert forall|k: int| 0 <= k <= shape.len() implies longer.take(k) == #[trigger] shape.take(
        k,
    ) by {
        assert(longer.take(k) =~= shape.take(k));
    }
    if count_fits(longer) {
        assert forall|k: int| 0 <= k <= shape.len() implies #[trigger] element_count(shape.take(k))
            <= usize::MAX by {
            assert(longer.take(k) == shape.take(k));
            assert(element_count(longer.take(k)) <= usize::MAX);
        }
        assert(element_count(longer.take(longer.len() as int)) <= usize::MAX);
    }
    if count_fits(shape) && element_count(shape) * size <= usize::MAX {
        assert forall|k: int| 0 <= k <= longer.len() implies #[trigger] element_count(
            longer.take(k),
        ) <= usize::MAX by {
            if k <= shape.len() {
                assert(longer.take(k) == shape.take(k));
            } else {
                assert(longer.take(k) =~= longer);
            }
        }
    }
}

} // verus!
