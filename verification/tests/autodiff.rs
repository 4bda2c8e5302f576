//! End-to-end tests: a small dense float backend and a closed set of
//! differentiable operations drive the graph, checkpointing and backward
//! machinery of the library.

use autodiff_core::backend::{Backend, Shape};
use autodiff_core::backward::{backward, grad};
use autodiff_core::broadcast::broadcast_shape;
use autodiff_core::checkpoint::{outputs_to_input, NodeStates};
use autodiff_core::error::AutodiffError;
use autodiff_core::grads::Gradients;
use autodiff_core::graph::Graph;
use autodiff_core::node::{Node, NodeID, Requirement};
use autodiff_core::ops::{Bottleneck, Operation, Ops, OpsSpec, OpsStep};
use autodiff_core::prep::{Init, OpsKind, OpsPrep};
use autodiff_core::state::{State, StateNull, StateStruct};
use autodiff_core::storage::{StorageHandle, StorageId, StorageUtilization};
use autodiff_core::tensor::AutodiffTensor;

#[derive(Clone, Debug, PartialEq)]
struct Mat {
    dims: Vec<usize>,
    data: Vec<f32>,
}

impl Mat {
    fn new(dims: Vec<usize>, data: Vec<f32>) -> Mat {
        assert_eq!(dims.iter().product::<usize>(), data.len());
        Mat { dims, data }
    }

    fn from2(rows: &[&[f32]]) -> Mat {
        let r = rows.len();
        let c = rows[0].len();
        let mut data = Vec::new();
        for row in rows {
            assert_eq!(row.len(), c);
            data.extend_from_slice(row);
        }
        Mat::new(vec![r, c], data)
    }
}

fn map1(a: &Mat, f: impl Fn(f32) -> f32) -> Mat {
    Mat::new(a.dims.clone(), a.data.iter().map(|x| f(*x)).collect())
}

fn zip2(a: &Mat, b: &Mat, f: impl Fn(f32, f32) -> f32) -> Mat {
    // elementwise with row broadcasting over a leading size-one axis
    if a.dims == b.dims {
        let data = a.data.iter().zip(b.data.iter()).map(|(x, y)| f(*x, *y)).collect();
        Mat::new(a.dims.clone(), data)
    } else {
        assert_eq!(a.dims.len(), 2);
        assert_eq!(b.dims.len(), 2);
        assert_eq!(a.dims[1], b.dims[1]);
        let (rows, cols) = (a.dims[0].max(b.dims[0]), a.dims[1]);
        let mut data = Vec::with_capacity(rows * cols);
        for i in 0..rows {
            for j in 0..cols {
                let x = a.data[(i % a.dims[0]) * cols + j];
                let y = b.data[(i % b.dims[0]) * cols + j];
                data.push(f(x, y));
            }
        }
        Mat::new(vec![rows, cols], data)
    }
}

fn matmul2(a: &[f32], b: &[f32], n: usize, k: usize, m: usize) -> Vec<f32> {
    let mut out = vec![0.0f32; n * m];
    for i in 0..n {
        for j in 0..m {
            let mut acc = 0.0f32;
            for t in 0..k {
                acc += a[i * k + t] * b[t * m + j];
            }
            out[i * m + j] = acc;
        }
    }
    out
}

fn matmul_m(a: &Mat, b: &Mat) -> Mat {
    if a.dims.len() == 2 {
        assert_eq!(a.dims[1], b.dims[0]);
        Mat::new(
            vec![a.dims[0], b.dims[1]],
            matmul2(&a.data, &b.data, a.dims[0], a.dims[1], b.dims[1]),
        )
    } else {
        // batched: [p, n, k] x [p, k, m]
        assert_eq!(a.dims.len(), 3);
        assert_eq!(b.dims.len(), 3);
        assert_eq!(a.dims[0], b.dims[0]);
        assert_eq!(a.dims[2], b.dims[1]);
        let (p, n, k, m) = (a.dims[0], a.dims[1], a.dims[2], b.dims[2]);
        let mut data = Vec::with_capacity(p * n * m);
        for q in 0..p {
            let sa = &a.data[q * n * k..(q + 1) * n * k];
            let sb = &b.data[q * k * m..(q + 1) * k * m];
            data.extend_from_slice(&matmul2(sa, sb, n, k, m));
        }
        Mat::new(vec![p, n, m], data)
    }
}

fn transpose_last(a: &Mat) -> Mat {
    if a.dims.len() == 2 {
        let (n, m) = (a.dims[0], a.dims[1]);
        let mut data = vec![0.0f32; n * m];
        for i in 0..n {
            for j in 0..m {
                data[j * n + i] = a.data[i * m + j];
            }
        }
        Mat::new(vec![m, n], data)
    } else {
        assert_eq!(a.dims.len(), 3);
        let (p, n, m) = (a.dims[0], a.dims[1], a.dims[2]);
        let mut data = vec![0.0f32; p * n * m];
        for q in 0..p {
            for i in 0..n {
                for j in 0..m {
                    data[q * n * m + j * n + i] = a.data[q * n * m + i * m + j];
                }
            }
        }
        Mat::new(vec![p, m, n], data)
    }
}

fn gather_rows(w: &Mat, indices: &[Vec<usize>]) -> Mat {
    assert_eq!(w.dims.len(), 2);
    let d = w.dims[1];
    let b = indices.len();
    let s = indices[0].len();
    let mut data = Vec::with_capacity(b * s * d);
    for row in indices {
        for &ix in row {
            data.extend_from_slice(&w.data[ix * d..(ix + 1) * d]);
        }
    }
    Mat::new(vec![b, s, d], data)
}

fn scatter_rows(gout: &Mat, indices: &[Vec<usize>], n: usize) -> Mat {
    assert_eq!(gout.dims.len(), 3);
    let d = gout.dims[2];
    let mut data = vec![0.0f32; n * d];
    let mut pos = 0usize;
    for row in indices {
        for &ix in row {
            for t in 0..d {
                data[ix * d + t] += gout.data[pos * d + t];
            }
            pos += 1;
        }
    }
    Mat::new(vec![n, d], data)
}

struct FloatBackend;

impl Backend<Mat> for FloatBackend {
    fn shape(t: &Mat) -> Shape {
        Shape { dims: t.dims.clone() }
    }

    fn add(a: &Mat, b: &Mat) -> Mat {
        zip2(a, b, |x, y| x + y)
    }

    fn sum_dim(t: Mat, dim: usize) -> Mat {
        let mut dims = t.dims.clone();
        let outer: usize = t.dims[..dim].iter().product();
        let axis = t.dims[dim];
        let inner: usize = t.dims[dim + 1..].iter().product();
        dims[dim] = 1;
        let mut data = vec![0.0f32; outer * inner];
        for o in 0..outer {
            for x in 0..axis {
                for i in 0..inner {
                    data[o * inner + i] += t.data[o * axis * inner + x * inner + i];
                }
            }
        }
        Mat::new(dims, data)
    }

    fn ones(shape: &Shape) -> Mat {
        let len: usize = shape.dims.iter().product();
        Mat::new(shape.dims.clone(), vec![1.0f32; len])
    }

    fn clone_value(t: &Mat) -> Mat {
        t.clone()
    }
}

#[derive(Clone, Debug)]
enum TestOp {
    Constant(Mat),
    Matmul(Bottleneck),
    Abs(Bottleneck),
    Tanh(Bottleneck),
    Neg,
    Div,
    DivScalar(f32),
    Add,
    Embedding { indices: Vec<Vec<usize>>, rows: usize },
}

fn unpack(input: State<Mat>) -> Vec<Mat> {
    match input {
        State::Struct(ss) => ss.tensors,
        State::Null(_) => panic!("expected a tensor bundle"),
    }
}

fn pack(tensors: Vec<Mat>) -> State<Mat> {
    State::Struct(StateStruct { tensors })
}

impl TestOp {
    fn eval(&self, inputs: &[Mat]) -> Mat {
        match self {
            TestOp::Constant(v) => v.clone(),
            TestOp::Matmul(_) => matmul_m(&inputs[0], &inputs[1]),
            TestOp::Abs(_) => map1(&inputs[0], f32::abs),
            TestOp::Tanh(_) => map1(&inputs[0], f32::tanh),
            TestOp::Neg => map1(&inputs[0], |x| -x),
            TestOp::Div => zip2(&inputs[0], &inputs[1], |x, y| x / y),
            TestOp::DivScalar(s) => map1(&inputs[0], |x| x / s),
            TestOp::Add => zip2(&inputs[0], &inputs[1], |x, y| x + y),
            TestOp::Embedding { indices, .. } => gather_rows(&inputs[0], indices),
        }
    }
}

impl OpsSpec<Mat> for TestOp {
    fn forward(&self, input: State<Mat>) -> State<Mat> {
        let inputs = unpack(input);
        pack(vec![self.eval(&inputs)])
    }

    fn bottleneck(&self) -> Bottleneck {
        match self {
            TestOp::Constant(_) => Bottleneck::ComputeBound,
            TestOp::Matmul(p) | TestOp::Abs(p) | TestOp::Tanh(p) => *p,
            _ => Bottleneck::MemoryBound,
        }
    }

    fn duplicate(&self) -> TestOp {
        self.clone()
    }

    fn backward<Op: Operation<Mat>>(
        &self,
        ops: &Ops<Mat, Self>,
        grads: &mut Gradients<Mat>,
        states: &mut NodeStates<Mat, Op>,
    ) {
        if let TestOp::Constant(_) = self {
            return;
        }
        let gout = grads.remove(&ops.node.id).expect("no upstream gradient");
        let inputs = unpack(states.get_input(&ops.node).expect("missing forward state"));
        let contributions: Vec<Mat> = match self {
            TestOp::Constant(_) => unreachable!(),
            TestOp::Matmul(_) => {
                let ga = matmul_m(&gout, &transpose_last(&inputs[1]));
                let gb = matmul_m(&transpose_last(&inputs[0]), &gout);
                vec![ga, gb]
            }
            TestOp::Abs(_) => {
                let sign = map1(&inputs[0], f32::signum);
                vec![zip2(&gout, &sign, |g, s| g * s)]
            }
            TestOp::Tanh(_) => {
                let th = map1(&inputs[0], f32::tanh);
                vec![zip2(&gout, &th, |g, t| g * (1.0 - t * t))]
            }
            TestOp::Neg => vec![map1(&gout, |g| -g)],
            TestOp::Add => vec![gout.clone(), gout.clone()],
            TestOp::Div => {
                let ga = zip2(&gout, &inputs[1], |g, y| g / y);
                let gb = {
                    let t = zip2(&inputs[0], &inputs[1], |x, y| -x / (y * y));
                    zip2(&gout, &t, |g, v| g * v)
                };
                vec![ga, gb]
            }
            TestOp::DivScalar(s) => {
                let sc = *s;
                vec![map1(&gout, |g| g / sc)]
            }
            TestOp::Embedding { indices, rows } => {
                vec![scatter_rows(&gout, indices, *rows)]
            }
        };
        for (k, contribution) in contributions.into_iter().enumerate() {
            if let Some(pid) = ops.parents[k] {
                grads.register::<FloatBackend>(pid, contribution);
            }
        }
    }
}

/// A test-side tensor handle: the node plus the forward value; the graph
/// itself is threaded through the context.
#[derive(Clone)]
struct T {
    node: Node,
    data: Mat,
}

struct Ctx {
    g: Option<Graph<Mat, TestOp>>,
}

impl Ctx {
    fn new() -> Ctx {
        Ctx { g: Some(Graph::new(0)) }
    }

    fn leaf(&mut self, data: Mat, requirement: Requirement) -> T {
        let g = self.g.take().unwrap();
        let prep: OpsPrep<Mat, TestOp, Init> =
            OpsPrep::new(vec![], g, requirement, TestOp::Constant(data.clone()));
        let t = match prep.stateful() {
            OpsKind::Recorded(p) => {
                p.finish::<FloatBackend>(Some(TestOp::Constant(data.clone())), data)
            }
            OpsKind::UnRecorded(p) => p.finish::<FloatBackend>(data),
        };
        let out = T { node: t.node.clone(), data: t.primitive.clone() };
        self.g = Some(t.graph);
        out
    }

    fn leaf_grad(&mut self, data: Mat) -> T {
        self.leaf(data, Requirement::Grad)
    }

    fn apply(&mut self, op: TestOp, operands: &[&T]) -> T {
        let inputs: Vec<Mat> = operands.iter().map(|t| t.data.clone()).collect();
        let out = op.eval(&inputs);
        let nodes: Vec<Node> = operands.iter().map(|t| t.node.clone()).collect();
        let requirement = Requirement::from_nodes(&nodes);
        let g = self.g.take().unwrap();
        let prep: OpsPrep<Mat, TestOp, Init> = OpsPrep::new(nodes, g, requirement, op.clone());
        let t = match prep.stateful() {
            OpsKind::Recorded(p) => p.finish::<FloatBackend>(Some(op), out),
            OpsKind::UnRecorded(p) => p.finish::<FloatBackend>(out),
        };
        let r = T { node: t.node.clone(), data: t.primitive.clone() };
        self.g = Some(t.graph);
        r
    }

    fn backward(&mut self, t: &T) -> Gradients<Mat> {
        let tensor = AutodiffTensor {
            primitive: t.data.clone(),
            node: t.node.clone(),
            graph: self.g.take().unwrap(),
        };
        backward::<Mat, FloatBackend, TestOp>(tensor)
    }
}

fn assert_close(actual: &Mat, expected: &Mat, tol: f32) {
    assert_eq!(actual.dims, expected.dims, "shape mismatch");
    for (a, e) in actual.data.iter().zip(expected.data.iter()) {
        assert!(
            (a - e).abs() <= tol,
            "value {} differs from expected {} beyond {}",
            a,
            e,
            tol
        );
    }
}

fn scenario_abs(abs_policy: Bottleneck, matmul_policy: Bottleneck) -> (Mat, Mat) {
    let mut ctx = Ctx::new();
    let tensor_1 = ctx.leaf_grad(Mat::from2(&[&[0.0, -1.0], &[3.0, 4.0]]));
    let tensor_2 = ctx.leaf_grad(Mat::from2(&[&[6.0, 7.0], &[9.0, -10.0]]));

    let abs_2 = ctx.apply(TestOp::Abs(abs_policy), &[&tensor_2]);
    let tensor_3 = ctx.apply(TestOp::Matmul(matmul_policy), &[&tensor_1, &abs_2]);
    let tensor_4 = ctx.apply(TestOp::Matmul(matmul_policy), &[&tensor_3, &tensor_2]);
    let grads = ctx.backward(&tensor_4);

    let grad_1 = grads.get(&tensor_1.node.id).unwrap().clone();
    let grad_2 = grads.get(&tensor_2.node.id).unwrap().clone();
    (grad_1, grad_2)
}

#[test]
fn should_diff_abs() {
    let (grad_1, grad_2) = scenario_abs(Bottleneck::MemoryBound, Bottleneck::ComputeBound);
    assert_close(&grad_1, &Mat::from2(&[&[71.0, 107.0], &[71.0, 107.0]]), 1e-3);
    assert_close(&grad_2, &Mat::from2(&[&[84.0, 42.0], &[90.0, 54.0]]), 1e-3);
}

#[test]
fn should_diff_tanh() {
    let mut ctx = Ctx::new();
    let tensor_1 = ctx.leaf_grad(Mat::from2(&[&[0.0, 1.0], &[3.0, 4.0]]));
    let tensor_2 = ctx.leaf_grad(Mat::from2(&[&[6.0, 7.0], &[9.0, 10.0]]));

    let tanh_2 = ctx.apply(TestOp::Tanh(Bottleneck::MemoryBound), &[&tensor_2]);
    let tensor_3 = ctx.apply(TestOp::Matmul(Bottleneck::ComputeBound), &[&tensor_1, &tanh_2]);
    let tensor_4 = ctx.apply(TestOp::Matmul(Bottleneck::ComputeBound), &[&tensor_3, &tensor_2]);
    let grads = ctx.backward(&tensor_4);

    let grad_1 = grads.get(&tensor_1.node.id).unwrap();
    let grad_2 = grads.get(&tensor_2.node.id).unwrap();
    assert_close(grad_1, &Mat::from2(&[&[32.0, 32.0], &[32.0, 32.0]]), 1e-3);
    assert_close(
        grad_2,
        &Mat::from2(&[&[8.00092, 8.000153], &[8.000003, 7.999995]]),
        1e-3,
    );
}

#[test]
fn test_embedding_backward() {
    let mut ctx = Ctx::new();
    let weights = ctx.leaf_grad(Mat::from2(&[&[0.0, 1.0, 2.0], &[3.0, 4.0, 5.0]]));
    let indices = vec![vec![0usize, 1], vec![1, 1]];
    let x = ctx.leaf_grad(Mat::new(
        vec![2, 3, 2],
        vec![1.0, 2.0, 4.0, 5.0, 3.0, 4.0, 4.0, 5.0, 8.0, 5.0, 1.0, 9.0],
    ));

    let output = ctx.apply(TestOp::Embedding { indices, rows: 2 }, &[&weights]);
    let output = ctx.apply(TestOp::Matmul(Bottleneck::ComputeBound), &[&output, &x]);
    let grads = ctx.backward(&output);

    let grad = grads.get(&weights.node.id).unwrap();
    let expected = Mat::from2(&[&[3.0, 9.0, 7.0], &[21.0, 35.0, 27.0]]);
    assert_eq!(*grad, expected);
}

#[test]
fn should_support_div_ops() {
    let mut ctx = Ctx::new();
    let tensor_1 = ctx.leaf(Mat::from2(&[&[0.0, 1.0, 2.0], &[3.0, 4.0, 5.0]]), Requirement::NoGrad);
    let tensor_2 = ctx.leaf(Mat::from2(&[&[1.0, 1.0, 2.0], &[3.0, 4.0, 5.0]]), Requirement::NoGrad);

    let output = ctx.apply(TestOp::Div, &[&tensor_1, &tensor_2]);

    let expected = Mat::from2(&[&[0.0, 1.0, 1.0], &[1.0, 1.0, 1.0]]);
    assert_close(&output.data, &expected, 1e-3);
}

#[test]
fn test_div_broadcast() {
    let mut ctx = Ctx::new();
    let tensor_1 = ctx.leaf(Mat::from2(&[&[0.0, 1.0, 2.0]]), Requirement::NoGrad);
    let tensor_2 = ctx.leaf(Mat::from2(&[&[1.0, 1.0, 2.0], &[3.0, 4.0, 5.0]]), Requirement::NoGrad);

    let output = ctx.apply(TestOp::Div, &[&tensor_1, &tensor_2]);

    let expected = Mat::from2(&[&[0.0, 1.0, 1.0], &[0.0, 0.25, 0.4]]);
    assert_eq!(expected, output.data);
}

#[test]
fn should_support_div_scalar_ops() {
    let mut ctx = Ctx::new();
    let scalar = 2.0f32;
    let tensor = ctx.leaf(Mat::from2(&[&[0.0, 1.0, 2.0], &[3.0, 4.0, 5.0]]), Requirement::NoGrad);

    let output = ctx.apply(TestOp::DivScalar(scalar), &[&tensor]);

    let expected = Mat::from2(&[&[0.0, 0.5, 1.0], &[1.5, 2.0, 2.5]]);
    assert_eq!(expected, output.data);
}

#[test]
fn should_support_neg_ops() {
    let mut ctx = Ctx::new();
    let tensor = ctx.leaf(Mat::from2(&[&[0.0, 1.0, 2.0], &[3.0, 4.0, 5.0]]), Requirement::NoGrad);

    let output = ctx.apply(TestOp::Neg, &[&tensor]);

    let expected = Mat::from2(&[&[-0.0, -1.0, -2.0], &[-3.0, -4.0, -5.0]]);
    assert_eq!(expected, output.data);
}

#[test]
fn checkpoint_policy_equivalence() {
    // same graph, same inputs: gradients must be bit-identical whichever
    // nodes are stored and whichever are recomputed
    let (a1, a2) = scenario_abs(Bottleneck::MemoryBound, Bottleneck::ComputeBound);
    let (b1, b2) = scenario_abs(Bottleneck::ComputeBound, Bottleneck::ComputeBound);
    let (c1, c2) = scenario_abs(Bottleneck::MemoryBound, Bottleneck::MemoryBound);
    let (d1, d2) = scenario_abs(Bottleneck::ComputeBound, Bottleneck::MemoryBound);
    assert_eq!(a1, b1);
    assert_eq!(a2, b2);
    assert_eq!(a1, c1);
    assert_eq!(a2, c2);
    assert_eq!(a1, d1);
    assert_eq!(a2, d2);
}

#[test]
fn get_output_ignores_storage_policy() {
    fn abs_output(policy: Bottleneck) -> State<Mat> {
        let mut ctx = Ctx::new();
        let t = ctx.leaf_grad(Mat::from2(&[&[-1.5, 2.0]]));
        let a = ctx.apply(TestOp::Abs(policy), &[&t]);
        let mut g = ctx.g.take().unwrap();
        g.states.get_output(&a.node.id).unwrap()
    }
    let s1 = abs_output(Bottleneck::ComputeBound);
    let s2 = abs_output(Bottleneck::MemoryBound);
    assert_eq!(unpack(s1), unpack(s2));
}

#[test]
fn step_fails_on_second_invocation() {
    let value = Mat::from2(&[&[1.0]]);
    let node = Node { id: NodeID { value: 0 }, parents: vec![], requirement: Requirement::Grad };
    let ops = Ops::new(vec![], node, TestOp::Constant(value.clone()));
    let mut step = OpsStep::new(ops, TestOp::Constant(value));
    let mut grads: Gradients<Mat> = Gradients::new();
    let mut states: NodeStates<Mat, Ops<Mat, TestOp>> = NodeStates::new();
    assert!(step.step(&mut grads, &mut states).is_ok());
    let second = step.step(&mut grads, &mut states);
    assert!(matches!(second, Err(AutodiffError::StepConsumed { .. })));
}

#[test]
fn broadcast_reduction_restores_shape() {
    // a [1, 3] operand broadcast to [2, 3] in forward: the gradient is
    // summed over axis 0 back to [1, 3]
    let grad_in = Mat::from2(&[&[1.0, 2.0, 3.0], &[4.0, 5.0, 6.0]]);
    let shape = Shape { dims: vec![1, 3] };
    let reduced = broadcast_shape::<Mat, FloatBackend>(grad_in, &shape).unwrap();
    assert_eq!(reduced, Mat::from2(&[&[5.0, 7.0, 9.0]]));
}

#[test]
fn broadcast_mismatch_reports_both_shapes() {
    let grad_in = Mat::from2(&[&[1.0, 2.0], &[3.0, 4.0]]);
    let shape = Shape { dims: vec![3, 2] };
    match broadcast_shape::<Mat, FloatBackend>(grad_in, &shape) {
        Err(AutodiffError::ShapeMismatch { grad_dims, expected_dims }) => {
            assert_eq!(grad_dims, vec![2, 2]);
            assert_eq!(expected_dims, vec![3, 2]);
        }
        other => panic!("expected a shape mismatch, got {:?}", other),
    }
}

#[test]
fn fan_in_accumulates_both_children() {
    let mut ctx = Ctx::new();
    let t1 = ctx.leaf_grad(Mat::from2(&[&[2.0, -3.0]]));
    let u = ctx.apply(TestOp::Abs(Bottleneck::MemoryBound), &[&t1]);
    let v = ctx.apply(TestOp::Neg, &[&t1]);
    let w = ctx.apply(TestOp::Add, &[&u, &v]);
    let grads = ctx.backward(&w);
    // sign(t1) from the first child plus -1 from the second
    let g1 = grads.get(&t1.node.id).unwrap();
    assert_eq!(*g1, Mat::from2(&[&[0.0, -2.0]]));
}

#[test]
fn stored_leaf_state_is_consumed_once() {
    let mut states: NodeStates<Mat, Ops<Mat, TestOp>> = NodeStates::new();
    let id = NodeID { value: 5 };
    states.register_state(id, pack(vec![Mat::from2(&[&[7.0]])]));
    assert!(states.get_output(&id).is_ok());
    match states.get_output(&id) {
        Err(AutodiffError::MissingRecord { id: missing }) => assert_eq!(missing.value, 5),
        other => panic!("expected a missing record, got {:?}", other),
    }
}

#[test]
fn outputs_assemble_in_parent_order() {
    let a = Mat::from2(&[&[1.0]]);
    let b = Mat::from2(&[&[2.0]]);
    let r = outputs_to_input(vec![pack(vec![a.clone()]), pack(vec![b.clone()])]).unwrap();
    assert_eq!(unpack(r), vec![a, b]);
}

#[test]
fn outputs_reject_null_state() {
    let r = outputs_to_input(vec![State::<Mat>::Null(StateNull {})]);
    assert!(matches!(r, Err(AutodiffError::StateMismatch)));
}

#[test]
fn merge_unites_disjoint_fragments() {
    let mut c1 = Ctx::new();
    let t1 = c1.leaf_grad(Mat::from2(&[&[3.0]]));
    let mut c2 = Ctx { g: Some(Graph::new(100)) };
    let t2 = c2.leaf_grad(Mat::from2(&[&[5.0]]));
    let mut g = c1.g.take().unwrap();
    g.merge(c2.g.take().unwrap());
    let mut ctx = Ctx { g: Some(g) };
    let t3 = ctx.apply(TestOp::Matmul(Bottleneck::ComputeBound), &[&t1, &t2]);
    assert_eq!(t3.data, Mat::from2(&[&[15.0]]));
    let grads = ctx.backward(&t3);
    assert_eq!(*grads.get(&t1.node.id).unwrap(), Mat::from2(&[&[5.0]]));
    assert_eq!(*grads.get(&t2.node.id).unwrap(), Mat::from2(&[&[3.0]]));
}

#[test]
fn leaf_require_grad_seeds_with_ones() {
    let g: Graph<Mat, TestOp> = Graph::new(0);
    let t = AutodiffTensor::leaf::<FloatBackend>(g, Mat::from2(&[&[1.0, 2.0]]));
    let t = t.require_grad();
    let node = t.node.clone();
    let grads = backward::<Mat, FloatBackend, TestOp>(t);
    assert_eq!(*grads.get(&node.id).unwrap(), Mat::from2(&[&[1.0, 1.0]]));
}

#[test]
fn grad_lookup_by_node_identity() {
    let g: Graph<Mat, TestOp> = Graph::new(0);
    let t = AutodiffTensor::leaf::<FloatBackend>(g, Mat::from2(&[&[4.0]]));
    let mut grads: Gradients<Mat> = Gradients::new();
    assert!(grad(&grads, &t).is_none());
    grads.register::<FloatBackend>(t.node.id, Mat::from2(&[&[2.5]]));
    grads.register::<FloatBackend>(t.node.id, Mat::from2(&[&[0.5]]));
    assert_eq!(*grad(&grads, &t).unwrap(), Mat::from2(&[&[3.0]]));
}

#[test]
fn requirement_combines_with_or() {
    assert!(matches!(Requirement::Grad.or(Requirement::NoGrad), Requirement::Grad));
    assert!(matches!(Requirement::NoGrad.or(Requirement::NoGrad), Requirement::NoGrad));
    let n1 = Node { id: NodeID { value: 0 }, parents: vec![], requirement: Requirement::NoGrad };
    let n2 = Node { id: NodeID { value: 1 }, parents: vec![], requirement: Requirement::Grad };
    assert!(matches!(Requirement::from_nodes(&vec![n1, n2]), Requirement::Grad));
}

#[test]
fn error_descriptions_are_nonempty() {
    let e = AutodiffError::StateMismatch;
    assert!(e.describe().len() > 0);
    let m = AutodiffError::MissingRecord { id: NodeID { value: 3 } };
    assert!(m.describe().len() > 0);
}

#[test]
fn storage_handle_size_follows_utilization() {
    let full = StorageHandle {
        id: StorageId { value: 1 },
        utilization: StorageUtilization::Full(64),
    };
    let slice = StorageHandle {
        id: StorageId { value: 1 },
        utilization: StorageUtilization::Slice(16, 32),
    };
    assert_eq!(full.size(), 64);
    assert_eq!(slice.size(), 32);
}
