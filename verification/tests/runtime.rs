//! The runtime, driven with element data that the tests keep themselves.

use std::collections::HashMap;

use malus::runtime::axes::{
    normalize_axis, reduce_axis_shape, reduce_elements, tensor_dim, tensor_reduce_axis, unsqueeze_at,
};
use malus::runtime::backward::{BackwardError, Step, Value};
use malus::runtime::bench::Bench;
use malus::runtime::bindings::Bound;
use malus::runtime::buffer::IntBuffer;
use malus::runtime::counters::Counters;
use malus::runtime::dispatch::{tensor_meta, threadgroup_width, LaunchError};
use malus::runtime::gens::Gens;
use malus::runtime::kernel_cache::{normalize_kernel_source_for_cache, KernelCache};
use malus::runtime::layout::{broadcast_cpu_loop, broadcast_result_shape, broadcast_to_shape, sum_to_shape, tensor_broadcast_op, ShapeError};
use malus::runtime::lines::map_lines;
use malus::runtime::lookup::{cross_entropy_dims, target_cells, tensor_causal_mask, tensor_embedding, tensor_scatter_add, LookupError};
use malus::runtime::matmul::{plan_matmul, tensor_matmul_cpu};
use malus::runtime::memory::{AllocError, Memory, OverRelease};
use malus::runtime::memory_ops::mem_budget_from;
use malus::runtime::permute::{invert_perm, normalize_perm, permute_by_perm, tensor_permute};
use malus::runtime::print::{print_nd, print_nd_i64};
use malus::runtime::random::{normal_pairs, philox4x32_10, Random};
use malus::runtime::shape::{element_count, flatten, unflatten};
use malus::runtime::slots::SlotTable;
use malus::runtime::strio::StrBox;
use malus::runtime::tags::{BwdSlot, Dtype, OpTag};
use malus::runtime::tape::{GradReply, Tape};

// ── A runtime with data ──────────────────────────────────────────────────────

struct Rt {
    mem: Memory,
    tape: Tape,
    data: HashMap<usize, Vec<f32>>,
    rows: HashMap<u64, Vec<i64>>,
}

fn sum2(x: f32, y: f32) -> f32 {
    x + y
}

impl Rt {
    fn new() -> Rt {
        Rt { mem: Memory::new(false, false, None), tape: Tape::new(), data: HashMap::new(), rows: HashMap::new() }
    }

    fn make(&mut self, data: &[f32], shape: &[usize]) -> u64 {
        let a = self.mem.alloc_tensor(Dtype::F32, &shape.to_vec()).unwrap();
        self.data.insert(a.buffer, data.to_vec());
        a.handle
    }

    fn alloc_f32(&mut self, data: &[f32]) -> u64 {
        self.make(data, &[data.len()])
    }

    fn alloc_rows(&mut self, rows: &[i64], dtype: Dtype) -> u64 {
        let a = self.mem.alloc_tensor(dtype, &vec![rows.len()]).unwrap();
        self.rows.insert(a.handle, rows.to_vec());
        a.handle
    }

    fn read(&self, h: u64) -> Vec<f32> {
        self.data[&self.mem.tensor(h).buffer].clone()
    }

    fn shape(&self, h: u64) -> Vec<usize> {
        self.mem.tensor(h).shape.clone()
    }

    fn free(&mut self, h: u64) {
        self.mem.tensor_free(h).unwrap();
    }

    fn release(&mut self, h: u64) {
        self.mem.tensor_release(h).unwrap();
    }

    fn ones(&mut self, shape: &[usize]) -> u64 {
        let n: usize = shape.iter().product();
        self.make(&vec![1.0; n], shape)
    }

    fn zeros(&mut self, shape: &[usize]) -> u64 {
        let l = self.mem.tensor_alloc_zeros_gpu(&shape.to_vec()).unwrap();
        let n: usize = shape.iter().product();
        self.data.insert(l.out.buffer, vec![0.0; n]);
        l.out.handle
    }

    fn matmul(&mut self, a: u64, b: u64) -> u64 {
        let (shape, out) = tensor_matmul_cpu(
            &self.read(a),
            &self.shape(a),
            &self.read(b),
            &self.shape(b),
            0.0,
            |acc: f32, x: f32, y: f32| acc + x * y,
        )
        .unwrap();
        let (plan, launch, _) = self.mem.tensor_matmul(a, b).unwrap();
        assert_eq!(plan.out_shape(), shape);
        self.data.insert(launch.out.buffer, out);
        launch.out.handle
    }

    fn permute(&mut self, h: u64, dims: &[usize]) -> u64 {
        let perm = normalize_perm(&dims.to_vec(), self.shape(h).len()).unwrap();
        let (shape, data) = permute_by_perm(&self.read(h), &self.shape(h), &perm);
        self.make(&data, &shape)
    }

    fn total(&mut self, h: u64) -> u64 {
        let s: f32 = self.read(h).iter().sum();
        self.alloc_f32(&[s])
    }

    fn broadcast(&mut self, a: u64, b: u64, op: fn(f32, f32) -> f32) -> u64 {
        let out = broadcast_result_shape(&self.shape(a), &self.shape(b)).unwrap();
        let data = broadcast_cpu_loop(&self.read(a), &self.shape(a), &self.read(b), &self.shape(b), &out, op);
        self.make(&data, &out)
    }

    fn reduce(&mut self, h: u64, axis: i32, keepdim: bool, init: f32, op: fn(f32, f32) -> f32) -> u64 {
        let shape = self.shape(h);
        let axis = normalize_axis(axis, shape.len()).unwrap();
        let out = reduce_axis_shape(&shape, axis, keepdim);
        let data = reduce_elements(&self.read(h), &shape, axis, keepdim, init, op);
        self.make(&data, &out)
    }

    fn add_kernel(&mut self, a: u64, b: u64) -> u64 {
        let launch = self.mem.kernel_dispatch(&vec![a, b]).unwrap();
        assert!(launch.encode);
        let out: Vec<f32> = self.read(a).iter().zip(self.read(b).iter()).map(|(x, y)| x + y).collect();
        self.data.insert(launch.out.buffer, out);
        launch.out.handle
    }

    fn embed(&mut self, table: u64, rows: u64) -> u64 {
        let shape = self.shape(table);
        let index = self.shape(rows);
        let out = tensor_embedding(&self.read(table), &shape, &self.rows[&rows], &index).unwrap();
        let dims = [index[0], shape[1]];
        self.make(&out, &dims)
    }

    fn record2(&mut self, op: OpTag, a: u64, b: u64, out: u64) {
        self.tape.tape_record_binop(&mut self.mem, op.to_tag(), a, b, out);
    }

    fn record1(&mut self, op: OpTag, x: u64, out: u64) {
        self.tape.tape_record_unary(&mut self.mem, op.to_tag(), x, out);
    }

    fn leaf(&mut self, h: u64) {
        self.mem.tape_register_leaf(h);
    }

    fn grad(&mut self, h: u64) -> u64 {
        match self.mem.tape_get_grad(h).unwrap() {
            GradReply::Stored(g) => g,
            GradReply::Zeros(l) => {
                let n = self.mem.tensor(l.out.handle).len;
                self.data.insert(l.out.buffer, vec![0.0; n]);
                l.out.handle
            }
        }
    }

    fn zip(&mut self, a: u64, b: u64, op: fn(f32, f32) -> f32) -> u64 {
        let out: Vec<f32> = self.read(a).iter().zip(self.read(b).iter()).map(|(x, y)| op(*x, *y)).collect();
        let shape = self.shape(a);
        self.make(&out, &shape)
    }

    fn sum_to(&mut self, d: u64, like: u64) -> u64 {
        let target = self.shape(like);
        let out = sum_to_shape(&self.read(d), &self.shape(d), &target, 0.0, sum2);
        self.make(&out, &target)
    }

    fn call(&mut self, slot: BwdSlot, a: &[Value], temps: &HashMap<usize, u64>) -> u64 {
        let h = |i: usize| match a[i] {
            Value::Tensor(h) => h,
            Value::Temp(t) => temps[&t],
            _ => panic!("a tensor is expected"),
        };
        match slot {
            BwdSlot::AddBwdA | BwdSlot::AddBwdB | BwdSlot::SubBwdA => self.sum_to(h(0), h(1)),
            BwdSlot::SubBwdB => {
                let d = self.zip(h(0), h(0), |x, _| -x);
                self.sum_to(d, h(1))
            }
            BwdSlot::MulBwdA => self.zip(h(0), h(2), |d, b| d * b),
            BwdSlot::MulBwdB => self.zip(h(0), h(1), |d, a| d * a),
            BwdSlot::DivBwdA => self.zip(h(0), h(2), |d, b| d / b),
            BwdSlot::DivBwdB => {
                let n = self.zip(h(0), h(1), |d, a| -d * a);
                let sq = self.zip(h(2), h(2), |x, y| x * y);
                self.zip(n, sq, |x, y| x / y)
            }
            BwdSlot::SigmoidBwd => self.zip(h(0), h(1), |s, d| d * s * (1.0 - s)),
            BwdSlot::ReluBwd => self.zip(h(0), h(1), |x, d| if x > 0.0 { d } else { 0.0 }),
            BwdSlot::TanhBwd => self.zip(h(0), h(1), |t, d| d * (1.0 - t * t)),
            BwdSlot::ExpBwd => self.zip(h(0), h(1), |d, e| d * e),
            BwdSlot::LogBwd => self.zip(h(0), h(1), |d, x| d / x),
            BwdSlot::SqrtBwd => self.zip(h(0), h(1), |s, d| d / (2.0 * s)),
            BwdSlot::AbsBwd => self.zip(h(0), h(1), |x, d| if x > 0.0 { d } else if x < 0.0 { -d } else { 0.0 }),
            BwdSlot::NegBwd => {
                assert_eq!(a[1], Value::MinusOne);
                self.zip(h(0), h(0), |d, _| -d)
            }
            BwdSlot::SumBwd => {
                let d = self.read(h(1))[0];
                let shape = self.shape(h(0));
                let n = self.mem.tensor(h(0)).len;
                self.make(&vec![d; n], &shape)
            }
            BwdSlot::ReduceSumAxisBwd => {
                let target = self.shape(h(0));
                let out = broadcast_to_shape(&self.read(h(1)), &self.shape(h(1)), &target);
                self.make(&out, &target)
            }
            BwdSlot::PermuteNdFwd => {
                assert_eq!(a.len(), 9);
                let rank = self.shape(h(0)).len();
                let dims: Vec<usize> = (1..=rank)
                    .map(|i| match a[i] {
                        Value::Int(d) => d as usize,
                        _ => panic!("a number is expected"),
                    })
                    .collect();
                self.permute(h(0), &dims)
            }
            BwdSlot::MatmulBwdA => {
                let t = self.transposed(h(1));
                self.matmul(h(2), t)
            }
            BwdSlot::MatmulBwdB => {
                let t = self.transposed(h(0));
                self.matmul(t, h(2))
            }
            BwdSlot::EmbeddingBwd => {
                let shape = self.shape(h(0));
                let rows = self.rows[&h(1)].clone();
                let out = tensor_scatter_add(&self.read(h(2)), shape[1], &rows, shape[0], 0.0, sum2);
                self.make(&out, &shape)
            }
            BwdSlot::GradAcc => self.zip(h(0), h(1), sum2),
            other => panic!("no function for {other:?}"),
        }
    }

    fn transposed(&mut self, h: u64) -> u64 {
        if self.shape(h).len() == 2 {
            self.permute(h, &[])
        } else {
            self.permute(h, &[0, 2, 1])
        }
    }

    fn backward(&mut self, loss: u64) {
        let steps = self.tape.backward(&self.mem, loss).unwrap();
        let mut temps: HashMap<usize, u64> = HashMap::new();
        for (k, s) in steps.iter().enumerate() {
            match s {
                Step::Ones { like } => {
                    let shape = self.shape(*like);
                    let h = self.ones(&shape);
                    temps.insert(k, h);
                }
                Step::Call { slot, args } => {
                    let h = self.call(*slot, args, &temps);
                    temps.insert(k, h);
                }
                Step::Reshape { of, like } => {
                    let shape = self.shape(*like);
                    let h = self.mem.tensor_reshape(temps[of], &shape).unwrap();
                    temps.insert(k, h);
                }
                Step::Release(v) => {
                    let h = match v {
                        Value::Tensor(h) => *h,
                        Value::Temp(t) => temps[t],
                        _ => panic!("a tensor is expected"),
                    };
                    self.release(h);
                }
                Step::Store { leaf, value } => self.mem.store_leaf_grad(*leaf, temps[value]),
            }
        }
        self.tape.tape_clear(&mut self.mem).unwrap();
    }
}

fn close(a: f32, b: f32) -> bool {
    (a - b).abs() < 1e-5
}

// ── Tags ─────────────────────────────────────────────────────────────────────

#[test]
fn test_dtype_from_tag_drift() {
    assert_eq!(Dtype::from_tag(0), Dtype::F32);
    assert_eq!(Dtype::from_tag(1), Dtype::F16);
    assert_eq!(Dtype::from_tag(2), Dtype::Bf16);
    assert_eq!(Dtype::from_tag(3), Dtype::I8);
    assert_eq!(Dtype::from_tag(4), Dtype::I16);
    assert_eq!(Dtype::from_tag(5), Dtype::I32);
    assert_eq!(Dtype::from_tag(6), Dtype::I64);
    assert_eq!(Dtype::from_tag(7), Dtype::U8);
    assert_eq!(Dtype::from_tag(8), Dtype::U16);
    assert_eq!(Dtype::from_tag(9), Dtype::U32);
    assert_eq!(Dtype::from_tag(10), Dtype::U64);
}

#[test]
fn test_dtype_to_tag_roundtrip() {
    for tag in 0..=10 {
        assert_eq!(Dtype::from_tag(tag).to_tag(), tag);
    }
}

#[test]
fn test_optag_from_tag_drift() {
    assert_eq!(OpTag::from_tag(0), OpTag::Matmul);
    assert_eq!(OpTag::from_tag(1), OpTag::Add);
    assert_eq!(OpTag::from_tag(2), OpTag::Sub);
    assert_eq!(OpTag::from_tag(3), OpTag::Mul);
    assert_eq!(OpTag::from_tag(4), OpTag::Div);
    assert_eq!(OpTag::from_tag(5), OpTag::Sigmoid);
    assert_eq!(OpTag::from_tag(6), OpTag::Relu);
    assert_eq!(OpTag::from_tag(7), OpTag::Tanh);
    assert_eq!(OpTag::from_tag(8), OpTag::Exp);
    assert_eq!(OpTag::from_tag(9), OpTag::Log);
    assert_eq!(OpTag::from_tag(10), OpTag::Sqrt);
    assert_eq!(OpTag::from_tag(11), OpTag::Abs);
    assert_eq!(OpTag::from_tag(12), OpTag::Sum);
    assert_eq!(OpTag::from_tag(13), OpTag::Transpose);
    assert_eq!(OpTag::from_tag(14), OpTag::Neg);
    assert_eq!(OpTag::from_tag(15), OpTag::ReduceSumAxis);
    assert_eq!(OpTag::from_tag(16), OpTag::ReduceMeanAxis);
    assert_eq!(OpTag::from_tag(17), OpTag::ReduceMaxAxis);
    assert_eq!(OpTag::from_tag(18), OpTag::ReduceVarAxis);
    assert_eq!(OpTag::from_tag(19), OpTag::Reshape);
    assert_eq!(OpTag::from_tag(20), OpTag::Softmax);
    assert_eq!(OpTag::from_tag(21), OpTag::Layernorm);
    assert_eq!(OpTag::from_tag(22), OpTag::Gelu);
    assert_eq!(OpTag::from_tag(23), OpTag::CrossEntropy);
    assert_eq!(OpTag::from_tag(24), OpTag::Embedding);
}

#[test]
fn tags_have_sizes_and_names() {
    assert_eq!(Dtype::F32.element_size(), 4);
    assert_eq!(Dtype::I64.element_size(), 8);
    assert_eq!(Dtype::U8.element_size(), 1);
    for tag in 0..30 {
        assert_eq!(BwdSlot::from_tag(tag).to_tag(), tag);
    }
    assert_eq!(BwdSlot::GradAcc.to_tag(), 29);
}

// ── Allocation ───────────────────────────────────────────────────────────────

#[test]
fn test_tensor_alloc_roundtrip() {
    let mut rt = Rt::new();
    let handle = rt.alloc_f32(&[1.0, 2.0, 3.0, 4.0]);
    assert!(handle != 0, "handle should be non-null");
    let t = rt.mem.tensor(handle);
    assert_eq!(t.len, 4);
    assert_eq!(t.shape, vec![4]);
    assert_eq!(t.dtype, Dtype::F32);
    assert_eq!(rt.read(handle), vec![1.0, 2.0, 3.0, 4.0]);
    rt.free(handle);
    assert!(!rt.mem.is_live(handle));
}

#[test]
fn test_tensor_alloc_2d_shape() {
    let mut rt = Rt::new();
    let handle = rt.make(&[1.0, 2.0, 3.0, 4.0, 5.0, 6.0], &[2, 3]);
    assert_eq!(rt.mem.tensor(handle).len, 6);
    assert_eq!(rt.shape(handle), vec![2, 3]);
    rt.free(handle);
}

#[test]
fn test_tensor_print_no_panic() {
    let items: Vec<String> = [1.0f32, 2.0, 3.0, 4.0].iter().map(|v| format!("{v}")).collect();
    assert_eq!(print_nd(&items, &vec![4]), "[1, 2, 3, 4]");
    assert_eq!(print_nd(&items, &vec![2, 2]), "[[1, 2], [3, 4]]");
    assert_eq!(print_nd_i64(&vec![-1, 20], &vec![2]), "[-1, 20]");
    assert_eq!(print_nd_i64(&vec![], &vec![0]), "[]");
}

#[test]
fn test_tensor_free_no_crash() {
    let mut rt = Rt::new();
    let handle = rt.alloc_f32(&[1.0, 2.0, 3.0]);
    rt.free(handle);
}

#[test]
fn test_tensor_len_returns_element_count() {
    let mut rt = Rt::new();
    let handle = rt.alloc_f32(&[1.0, 2.0, 3.0, 4.0]);
    assert_eq!(rt.mem.tensor(handle).len, 4);
    rt.free(handle);
}

#[test]
fn test_gpu_barrier_noop_when_no_work() {
    let mut rt = Rt::new();
    assert!(!rt.mem.gpu_barrier());
}

#[test]
fn test_massive_alloc_free() {
    let mut rt = Rt::new();
    let mut handles = vec![];
    for _ in 0..10_000 {
        handles.push(rt.mem.alloc_tensor(Dtype::F32, &vec![4]).unwrap().handle);
    }
    for h in handles {
        rt.free(h);
    }
    assert_eq!(rt.mem.tensors.len(), 0);
    assert_eq!(rt.mem.malus_pool_buckets(), vec![(16, 10_000)]);
}

#[test]
fn test_tensor_alloc_zeros_is_zero() {
    let mut rt = Rt::new();
    let handle = rt.zeros(&[2, 3]);
    assert_eq!(rt.mem.tensor(handle).len, 6);
    assert_eq!(rt.shape(handle), vec![2, 3]);
    assert!(rt.read(handle).iter().all(|v| *v == 0.0));
    rt.free(handle);
}

// ── Matrix products ──────────────────────────────────────────────────────────

#[test]
fn test_tensor_matmul_2x3_3x2() {
    let mut rt = Rt::new();
    let a = rt.make(&[1.0, 2.0, 3.0, 4.0, 5.0, 6.0], &[2, 3]);
    let b = rt.make(&[1.0, 0.0, 0.0, 1.0, 1.0, 0.0], &[3, 2]);
    let out = rt.matmul(a, b);
    assert_eq!(rt.shape(out), vec![2, 2]);
    assert_eq!(rt.read(out), vec![4.0, 2.0, 10.0, 5.0]);
}

#[test]
fn test_tensor_matmul_ones() {
    let mut rt = Rt::new();
    let a = rt.ones(&[2, 3]);
    let b = rt.ones(&[3, 4]);
    let out = rt.matmul(a, b);
    assert_eq!(rt.shape(out), vec![2, 4]);
    assert!(rt.read(out).iter().all(|v| *v == 3.0));
}

#[test]
fn test_tensor_matmul_batched_3d() {
    let mut rt = Rt::new();
    let a = rt.make(&[1., 2., 3., 4., 5., 6., 7., 8., 9., 10., 11., 12.], &[2, 2, 3]);
    let b = rt.make(&[1., 0., 0., 1., 1., 0., 0., 1., 1., 0., 0., 1.], &[2, 3, 2]);
    let out = rt.matmul(a, b);
    assert_eq!(rt.shape(out), vec![2, 2, 2]);
    let result = rt.read(out);
    assert!(close(result[0], 4.0));
    assert!(close(result[1], 2.0));
    assert_eq!(result[4..], [8.0, 16.0, 11.0, 22.0]);
}

#[test]
fn matmul_shapes_are_checked() {
    let e = plan_matmul(&vec![2, 3], &vec![4, 2]).err().unwrap();
    assert_eq!(e, ShapeError::MatmulInner { left: 3, right: 4 });
    let e = plan_matmul(&vec![2], &vec![4, 2]).err().unwrap();
    assert_eq!(e, ShapeError::MatmulRank { left: 1, right: 2 });
    let e = plan_matmul(&vec![2, 2, 3], &vec![3, 3, 2]).err().unwrap();
    assert_eq!(e, ShapeError::MatmulBatch { left: 2, right: 3 });
    let p = plan_matmul(&vec![2, 2, 3], &vec![3, 4]).unwrap();
    assert_eq!(p.out_shape(), vec![2, 2, 4]);
    assert!(!p.right_batched);
    assert_eq!(p.byte_offsets(1), (24, 0, 32));
    assert!(plan_matmul(&vec![0, 3], &vec![3, 2]).unwrap().is_hollow());
}

// ── Transposes and permutations ──────────────────────────────────────────────

#[test]
fn test_tensor_transpose_2x3() {
    let mut rt = Rt::new();
    let h = rt.make(&[1.0, 2.0, 3.0, 4.0, 5.0, 6.0], &[2, 3]);
    let out = rt.permute(h, &[]);
    assert_eq!(rt.shape(out), vec![3, 2]);
    assert_eq!(rt.read(out), vec![1.0, 4.0, 2.0, 5.0, 3.0, 6.0]);
}

#[test]
fn test_tensor_transpose_ones_shape() {
    let mut rt = Rt::new();
    let h = rt.ones(&[3, 4]);
    let out = rt.permute(h, &[]);
    assert_eq!(rt.shape(out), vec![4, 3]);
    assert!(rt.read(out).iter().all(|v| *v == 1.0));
}

#[test]
fn test_tensor_permute_2d_no_args() {
    let mut rt = Rt::new();
    let h = rt.make(&[1.0, 2.0, 3.0, 4.0, 5.0, 6.0], &[2, 3]);
    let out = rt.permute(h, &[]);
    assert_eq!(rt.shape(out), vec![3, 2]);
    assert_eq!(rt.read(out), vec![1.0, 4.0, 2.0, 5.0, 3.0, 6.0]);
}

fn counting(n: usize) -> Vec<f32> {
    (0..n).map(|i| i as f32).collect()
}

#[test]
fn test_tensor_permute_swap_two_axes() {
    let mut rt = Rt::new();
    let h = rt.make(&counting(24), &[2, 3, 4]);
    let out = rt.permute(h, &[0, 2, 1]);
    assert_eq!(rt.shape(out), vec![2, 4, 3]);
}

#[test]
fn test_tensor_permute_full_3d() {
    let mut rt = Rt::new();
    let h = rt.make(&counting(24), &[2, 3, 4]);
    let out = rt.permute(h, &[2, 0, 1]);
    assert_eq!(rt.shape(out), vec![4, 2, 3]);
    let back = rt.permute(out, &invert_perm(&vec![2, 0, 1]));
    assert_eq!(rt.read(back), counting(24));
}

#[test]
fn permutations_are_checked() {
    assert_eq!(normalize_perm(&vec![], 3).err().unwrap(), ShapeError::TransposeRank { rank: 3 });
    assert_eq!(normalize_perm(&vec![0, 2], 3).unwrap(), vec![2, 1, 0]);
    assert_eq!(normalize_perm(&vec![0, 3], 3).err().unwrap(), ShapeError::SwapRange { i: 0, j: 3, rank: 3 });
    assert_eq!(normalize_perm(&vec![0, 1, 3], 3).err().unwrap(), ShapeError::PermuteRange { dim: 3, rank: 3 });
    assert_eq!(normalize_perm(&vec![0, 1, 1], 3).err().unwrap(), ShapeError::PermuteDuplicate { dim: 1 });
    assert_eq!(normalize_perm(&vec![0], 3).err().unwrap(), ShapeError::PermuteArity { given: 1, rank: 3 });
}

// ── Sums ─────────────────────────────────────────────────────────────────────

#[test]
fn test_tensor_sum_flat() {
    let mut rt = Rt::new();
    let h = rt.alloc_f32(&[1.0, 2.0, 3.0, 4.0]);
    let out = rt.reduce(h, 0, true, 0.0, sum2);
    assert_eq!(rt.shape(out), vec![1]);
    assert_eq!(rt.read(out), vec![10.0]);
}

// ── Kernels ──────────────────────────────────────────────────────────────────

const ADD_MSL: &str = r#"#include <metal_stdlib>
using namespace metal;

kernel void malus_kernel_0(
    device float* a [[buffer(0)]],
    device float* b [[buffer(1)]],
    device float* out [[buffer(2)]],
    uint tid [[thread_position_in_grid]]
) {
    out[tid] = (a[tid] + b[tid]);
}
"#;

#[test]
fn test_msl_compiles_without_error() {
    let mut cache = KernelCache::new();
    assert_eq!(cache.reuse(0, ADD_MSL), None);
    assert_eq!(cache.reuse(0, ADD_MSL), Some(0));
    let other = ADD_MSL.replace("malus_kernel_0", "malus_kernel_7");
    assert_eq!(cache.reuse(7, &other), Some(0));
    assert_eq!(cache.reuse(1, "kernel void malus_kernel_1() {}"), None);
    assert_eq!(normalize_kernel_source_for_cache(7, "a malus_kernel_7 b"), "a malus_kernel_X b");
    assert_eq!(normalize_kernel_source_for_cache(8, "a malus_kernel_7 b"), "a malus_kernel_7 b");
}

#[test]
fn test_kernel_dispatch_add() {
    let mut rt = Rt::new();
    let a = rt.alloc_f32(&[1.0, 2.0, 3.0, 4.0]);
    let b = rt.alloc_f32(&[5.0, 6.0, 7.0, 8.0]);
    let output = rt.add_kernel(a, b);
    assert!(output != 0);
    assert!(rt.mem.tensor_is_pending(output));
    assert!(rt.mem.gpu_barrier());
    assert!(!rt.mem.tensor_is_pending(output));
    let t = rt.mem.tensor(output);
    assert_eq!(t.len, 4);
    assert_eq!(t.shape, vec![4]);
    assert_eq!(t.dtype, Dtype::F32);
    assert_eq!(rt.read(output), vec![6.0, 8.0, 10.0, 12.0]);
    rt.free(a);
    rt.free(b);
    rt.free(output);
}

#[test]
fn test_kernel_dispatch_then_print() {
    let mut rt = Rt::new();
    let a = rt.alloc_f32(&[1.0, 2.0, 3.0, 4.0]);
    let b = rt.alloc_f32(&[5.0, 6.0, 7.0, 8.0]);
    let output = rt.add_kernel(a, b);
    rt.mem.gpu_barrier();
    let items: Vec<String> = rt.read(output).iter().map(|v| format!("{v}")).collect();
    assert_eq!(print_nd(&items, &rt.shape(output)), "[6, 8, 10, 12]");
}

#[test]
fn test_kernel_dispatch_preserves_shape() {
    let mut rt = Rt::new();
    let a = rt.make(&[1.0, 2.0, 3.0, 4.0], &[2, 2]);
    let b = rt.make(&[1.0, 1.0, 1.0, 1.0], &[2, 2]);
    let output = rt.add_kernel(a, b);
    assert_eq!(rt.shape(output), vec![2, 2], "kernel_dispatch output must preserve input shape");
}

#[test]
fn explicit_launch_has_metadata() {
    let mut rt = Rt::new();
    let a = rt.ones(&[2, 3]);
    let (launch, metas) = rt.mem.kernel_dispatch_v2(&vec![a], &vec![6], 0).unwrap();
    assert_eq!(rt.shape(launch.out.handle), vec![6]);
    assert_eq!(metas.len(), 2);
    assert_eq!(metas[0], tensor_meta(&vec![2, 3]));
    assert_eq!(metas[0][0], 2);
    let (launch, _) = rt.mem.kernel_dispatch_v2(&vec![a], &vec![], 0).unwrap();
    assert_eq!(rt.shape(launch.out.handle), vec![2, 3]);
    assert!(matches!(rt.mem.kernel_dispatch_v2(&vec![], &vec![], 0), Err(LaunchError::NoInputs)));
    let bad = rt.mem.kernel_dispatch_v2(&vec![a], &vec![1], 99);
    assert!(matches!(bad, Err(LaunchError::Alloc(AllocError::UnknownDtype(99)))));
    assert!(matches!(rt.mem.kernel_dispatch(&vec![]), Err(LaunchError::NoInputs)));
    assert_eq!(threadgroup_width(256, 1000), 256);
    assert_eq!(threadgroup_width(256, 10), 10);
}

// ── References ───────────────────────────────────────────────────────────────

#[test]
fn test_tensor_retain_keeps_alive() {
    let mut rt = Rt::new();
    let h = rt.alloc_f32(&[1.0, 2.0, 3.0]);
    rt.mem.tensor_retain(h);
    rt.release(h);
    assert_eq!(rt.read(h), vec![1.0, 2.0, 3.0], "buffer must be readable after retain+release");
    rt.release(h);
    assert!(!rt.mem.is_live(h));
}

#[test]
fn test_tensor_free_still_works() {
    let mut rt = Rt::new();
    let h = rt.alloc_f32(&[9.0, 8.0, 7.0]);
    rt.free(h);
    assert!(!rt.mem.is_live(h));
}

#[test]
fn test_tensor_retain_null_no_crash() {
    Rt::new().mem.tensor_retain(0);
}

#[test]
fn test_tensor_release_null_no_crash() {
    assert!(Rt::new().mem.tensor_release(0).is_ok());
}

#[test]
fn over_release_is_an_error() {
    let mut rt = Rt::new();
    let h = rt.alloc_f32(&[1.0]);
    rt.release(h);
    assert_eq!(rt.mem.tensor_release(h), Err(OverRelease(h)));
    assert_eq!(rt.mem.malus_pool_stats().0, 0);
}

// ── Tape ─────────────────────────────────────────────────────────────────────

#[test]
fn test_tape_clear_empty_no_crash() {
    let mut rt = Rt::new();
    rt.tape.tape_reset(&mut rt.mem).unwrap();
    rt.tape.tape_clear(&mut rt.mem).unwrap();
}

#[test]
fn test_no_grad_records_nothing() {
    let mut rt = Rt::new();
    let a = rt.alloc_f32(&[1.0, 2.0]);
    let b = rt.alloc_f32(&[3.0, 4.0]);
    rt.leaf(a);
    rt.leaf(b);
    rt.tape.tape_pause();
    let out = rt.alloc_f32(&[4.0, 6.0]);
    rt.record2(OpTag::Add, a, b, out);
    rt.tape.tape_resume();
    rt.backward(out);
    let ga = rt.grad(a);
    let gb = rt.grad(b);
    assert!(rt.read(ga).iter().all(|v| *v == 0.0), "paused record should produce zero grad");
    assert!(rt.read(gb).iter().all(|v| *v == 0.0));
}

fn binary(op: OpTag, a: &[f32], b: &[f32], out: &[f32]) -> (Vec<f32>, Vec<f32>) {
    let mut rt = Rt::new();
    let ah = rt.alloc_f32(a);
    let bh = rt.alloc_f32(b);
    rt.leaf(ah);
    rt.leaf(bh);
    let oh = rt.alloc_f32(out);
    rt.record2(op, ah, bh, oh);
    rt.backward(oh);
    let ga = rt.grad(ah);
    let gb = rt.grad(bh);
    (rt.read(ga), rt.read(gb))
}

fn unary(op: OpTag, x: &[f32], out: &[f32]) -> Vec<f32> {
    let mut rt = Rt::new();
    let xh = rt.alloc_f32(x);
    rt.leaf(xh);
    let oh = rt.alloc_f32(out);
    rt.record1(op, xh, oh);
    rt.backward(oh);
    let g = rt.grad(xh);
    rt.read(g)
}

#[test]
fn test_backward_add() {
    let (ga, gb) = binary(OpTag::Add, &[1.0, 2.0], &[3.0, 4.0], &[4.0, 6.0]);
    assert_eq!(ga, vec![1.0, 1.0]);
    assert_eq!(gb, vec![1.0, 1.0]);
}

#[test]
fn test_backward_sub() {
    let (ga, gb) = binary(OpTag::Sub, &[5.0, 6.0], &[2.0, 1.0], &[3.0, 5.0]);
    assert_eq!(ga, vec![1.0, 1.0]);
    assert_eq!(gb, vec![-1.0, -1.0]);
}

#[test]
fn test_backward_mul() {
    let (ga, gb) = binary(OpTag::Mul, &[2.0, 3.0], &[4.0, 5.0], &[8.0, 15.0]);
    assert_eq!(ga, vec![4.0, 5.0]);
    assert_eq!(gb, vec![2.0, 3.0]);
}

#[test]
fn test_backward_div() {
    let (ga, gb) = binary(OpTag::Div, &[6.0, 8.0], &[2.0, 4.0], &[3.0, 2.0]);
    assert!(close(ga[0], 0.5) && close(ga[1], 0.25));
    assert!(close(gb[0], -1.5) && close(gb[1], -0.5));
}

#[test]
fn test_backward_neg() {
    assert_eq!(unary(OpTag::Neg, &[1.0, -2.0, 3.0], &[-1.0, 2.0, -3.0]), vec![-1.0, -1.0, -1.0]);
}

#[test]
fn test_backward_relu() {
    let g = unary(OpTag::Relu, &[-1.0, 0.0, 2.0, 3.0], &[0.0, 0.0, 2.0, 3.0]);
    assert_eq!(g, vec![0.0, 0.0, 1.0, 1.0]);
}

#[test]
fn test_backward_sigmoid() {
    let s = 1.0_f32 / (1.0 + (-0.0_f32).exp());
    let g = unary(OpTag::Sigmoid, &[0.0], &[s]);
    assert!((g[0] - s * (1.0 - s)).abs() < 1e-6);
}

#[test]
fn test_backward_tanh() {
    let t = 0.0_f32.tanh();
    assert!((unary(OpTag::Tanh, &[0.0], &[t])[0] - (1.0 - t * t)).abs() < 1e-6);
}

#[test]
fn test_backward_exp() {
    let e = 1.0_f32.exp();
    assert!((unary(OpTag::Exp, &[1.0], &[e])[0] - e).abs() < 1e-6);
}

#[test]
fn test_backward_log() {
    assert!((unary(OpTag::Log, &[2.0], &[2.0_f32.ln()])[0] - 0.5).abs() < 1e-6);
}

#[test]
fn test_backward_sqrt() {
    assert!((unary(OpTag::Sqrt, &[4.0], &[4.0_f32.sqrt()])[0] - 0.25).abs() < 1e-6);
}

#[test]
fn test_backward_abs() {
    assert_eq!(unary(OpTag::Abs, &[-3.0, 0.0, 2.0], &[3.0, 0.0, 2.0]), vec![-1.0, 0.0, 1.0]);
}

#[test]
fn test_backward_sum() {
    assert_eq!(unary(OpTag::Sum, &[1.0, 2.0, 3.0], &[6.0]), vec![1.0, 1.0, 1.0]);
}

#[test]
fn test_backward_transpose() {
    let mut rt = Rt::new();
    let x = rt.make(&[1.0, 2.0, 3.0, 4.0], &[2, 2]);
    rt.leaf(x);
    let out = rt.make(&[1.0, 3.0, 2.0, 4.0], &[2, 2]);
    rt.record1(OpTag::Transpose, x, out);
    rt.backward(out);
    let g = rt.grad(x);
    assert_eq!(rt.shape(g), vec![2, 2]);
    assert!(rt.read(g).iter().all(|v| *v == 1.0));
}

#[test]
fn test_backward_matmul() {
    let mut rt = Rt::new();
    let a = rt.make(&[1.0, 0.0, 0.0, 1.0, 0.0, 0.0], &[2, 3]);
    let b = rt.make(&[1.0, 2.0, 3.0, 4.0, 5.0, 6.0], &[3, 2]);
    rt.leaf(a);
    rt.leaf(b);
    let out = rt.matmul(a, b);
    rt.record2(OpTag::Matmul, a, b, out);
    rt.backward(out);
    let ga = rt.grad(a);
    let gb = rt.grad(b);
    assert_eq!(rt.shape(ga), vec![2, 3]);
    assert_eq!(rt.shape(gb), vec![3, 2]);
    let g = rt.read(ga);
    assert!(close(g[0], 3.0) && close(g[1], 7.0) && close(g[2], 11.0));
}

#[test]
fn test_tape_clears_after_backward() {
    let mut rt = Rt::new();
    let a = rt.alloc_f32(&[1.0]);
    let b = rt.alloc_f32(&[2.0]);
    rt.leaf(a);
    let out = rt.alloc_f32(&[3.0]);
    rt.record2(OpTag::Add, a, b, out);
    rt.backward(out);
    assert_eq!(rt.tape.nodes.len(), 0);
    let g = rt.grad(a);
    rt.free(g);
    let loss2 = rt.alloc_f32(&[0.0]);
    rt.backward(loss2);
    rt.free(loss2);
    rt.free(a);
    rt.free(b);
    rt.free(out);
    assert_eq!(rt.mem.tensors.len(), 0);
}

#[test]
fn test_leaf_grad_accumulates_across_two_backward_calls() {
    let mut rt = Rt::new();
    let a = rt.alloc_f32(&[2.0]);
    rt.leaf(a);
    let b1 = rt.alloc_f32(&[3.0]);
    let out1 = rt.alloc_f32(&[5.0]);
    rt.record2(OpTag::Add, a, b1, out1);
    rt.backward(out1);
    let b2 = rt.alloc_f32(&[7.0]);
    let out2 = rt.alloc_f32(&[9.0]);
    rt.record2(OpTag::Add, a, b2, out2);
    rt.backward(out2);
    let ga = rt.grad(a);
    assert_eq!(rt.read(ga), vec![2.0], "should accumulate across two backward calls");
}

#[test]
fn test_chain_sum_sigmoid_matmul() {
    let mut rt = Rt::new();
    let x = rt.make(&[1.0, 2.0, 3.0, 4.0], &[2, 2]);
    let w = rt.make(&[0.1, 0.2, 0.3, 0.4], &[2, 2]);
    rt.leaf(w);
    let mm = rt.matmul(x, w);
    rt.record2(OpTag::Matmul, x, w, mm);
    let sig_data: Vec<f32> = rt.read(mm).iter().map(|v| 1.0 / (1.0 + (-v).exp())).collect();
    let sig = rt.make(&sig_data, &[2, 2]);
    rt.record1(OpTag::Sigmoid, mm, sig);
    let loss = rt.total(sig);
    rt.record1(OpTag::Sum, sig, loss);
    rt.backward(loss);
    let gw = rt.grad(w);
    assert_eq!(rt.shape(gw), vec![2, 2], "grad w should be [2,2]");
}

#[test]
fn test_zero_grad_clears_leaf_grad() {
    let mut rt = Rt::new();
    let x = rt.alloc_f32(&[3.0]);
    rt.leaf(x);
    let out = rt.alloc_f32(&[3.0]);
    rt.record1(OpTag::Neg, x, out);
    rt.backward(out);
    let g1 = rt.grad(x);
    let g1_val = rt.read(g1)[0];
    rt.release(g1);
    assert!((g1_val - (-1.0)).abs() < 1e-6, "expected grad -1.0, got {g1_val}");
    rt.mem.tape_zero_grad(&vec![x]).unwrap();
    let g2 = rt.grad(x);
    assert_eq!(rt.read(g2)[0], 0.0, "grad should be 0 after zero_grad");
    rt.release(g2);
    rt.release(x);
    rt.release(out);
    assert_eq!(rt.mem.tensors.len(), 0);
}

#[test]
fn leaves_that_do_not_feed_the_loss_keep_their_gradients() {
    let mut rt = Rt::new();
    let x = rt.alloc_f32(&[3.0]);
    let y = rt.alloc_f32(&[4.0]);
    let z = rt.alloc_f32(&[5.0]);
    let plain = rt.alloc_f32(&[6.0]);
    rt.leaf(x);
    rt.leaf(y);
    rt.leaf(z);
    let first = rt.alloc_f32(&[-3.0]);
    rt.record1(OpTag::Neg, x, first);
    rt.backward(first);
    assert_eq!(rt.mem.registry_lens(), (3, 1));
    let kept = rt.grad(x);
    rt.release(kept);
    let side = rt.alloc_f32(&[-3.0]);
    rt.record1(OpTag::Neg, x, side);
    let sum = rt.alloc_f32(&[10.0]);
    rt.record2(OpTag::Add, y, plain, sum);
    rt.backward(sum);
    assert_eq!(rt.mem.registry_lens(), (3, 2));
    let same = rt.grad(x);
    assert_eq!(same, kept, "x does not feed the loss");
    assert_eq!(rt.read(same), vec![-1.0]);
    let gy = rt.grad(y);
    assert_eq!(rt.read(gy), vec![1.0]);
    let gz = rt.grad(z);
    assert_eq!(rt.read(gz), vec![0.0], "z has no gradient");
    assert_eq!(rt.mem.registry_lens(), (3, 2));
}

#[test]
fn buckets_hold_the_pooled_bytes() {
    let mut m = Memory::new(false, true, None);
    let mut held = vec![];
    for n in [4usize, 4, 2, 0, 8, 2] {
        held.push(m.alloc_tensor(Dtype::F32, &vec![n]).unwrap().handle);
    }
    for h in &held[..5] {
        m.tensor_free(*h).unwrap();
    }
    let buckets = m.malus_pool_buckets();
    assert_eq!(buckets, vec![(1, 1), (8, 1), (16, 2), (32, 1)]);
    let bytes: usize = buckets.iter().map(|b| b.0 * b.1).sum();
    assert_eq!(bytes as i64, m.malus_pool_stats().2);
    let counts: u64 = m.malus_alloc_histogram().iter().map(|b| b.1).sum();
    assert_eq!(counts, 6);
    assert!(m.alloc_tensor(Dtype::F32, &vec![4]).unwrap().pooled);
    let counts: u64 = m.malus_alloc_histogram().iter().map(|b| b.1).sum();
    assert_eq!(counts, 7);
    let mut off = Memory::new(false, false, None);
    off.alloc_tensor(Dtype::F32, &vec![4]).unwrap();
    assert!(off.malus_alloc_histogram().is_empty());
}

#[test]
fn device_matrices_lie_where_the_host_multiplies() {
    let plan = plan_matmul(&vec![2, 3, 4], &vec![2, 4, 5]).unwrap();
    let (left, right, out) = plan.byte_offsets(1);
    assert_eq!((left, right, out), (48, 80, 60));
    let shared = plan_matmul(&vec![2, 3, 4], &vec![4, 5]).unwrap();
    assert_eq!(shared.byte_offsets(1), (48, 0, 60));
    let a: Vec<f32> = (0..24).map(|v| v as f32).collect();
    let b: Vec<f32> = (0..40).map(|v| (v % 7) as f32).collect();
    let (_, host) = tensor_matmul_cpu(&a, &vec![2, 3, 4], &b, &vec![2, 4, 5], 0.0, |s: f32, x: f32, y: f32| s + x * y).unwrap();
    for i in 0..3 {
        for j in 0..5 {
            let cell: f32 = (0..4).map(|k| a[left / 4 + i * 4 + k] * b[right / 4 + k * 5 + j]).sum();
            assert_eq!(host[out / 4 + i * 5 + j], cell);
        }
    }
}

#[test]
fn test_rewrap_registry_stays_bounded() {
    let mut rt = Rt::new();
    let mut w = rt.alloc_f32(&[0.5, 0.5]);
    let lr = 0.01f32;
    for _ in 0..50 {
        rt.leaf(w);
        let out = rt.alloc_f32(&[-0.5, -0.5]);
        rt.record1(OpTag::Neg, w, out);
        rt.backward(out);
        rt.release(out);
        let g = rt.grad(w);
        rt.mem.tape_zero_grad(&vec![w]).unwrap();
        let new_data: Vec<f32> = rt.read(w).iter().zip(rt.read(g).iter()).map(|(wi, gi)| wi - lr * gi).collect();
        let new_w = rt.alloc_f32(&new_data);
        rt.release(g);
        rt.release(w);
        w = new_w;
    }
    let (leaves, grads) = rt.mem.registry_lens();
    assert!(leaves <= 1, "LEAVES must stay bounded across re-wrap, got {leaves}");
    assert!(grads == 0, "LEAF_GRAD must be empty after zero_grad + re-wrap, got {grads}");
    rt.release(w);
}

// ── Broadcasting and reductions ──────────────────────────────────────────────

#[test]
fn test_broadcast_add_equal_shapes_fast_path() {
    let mut rt = Rt::new();
    let a = rt.alloc_f32(&[1.0, 2.0, 3.0, 4.0]);
    let b = rt.alloc_f32(&[10.0, 20.0, 30.0, 40.0]);
    let out = rt.broadcast(a, b, sum2);
    assert_eq!(rt.read(out), vec![11.0, 22.0, 33.0, 44.0]);
}

#[test]
fn test_broadcast_add_rank_expansion() {
    let mut rt = Rt::new();
    let b_data: Vec<f32> = (1..=8).map(|x| x as f32).collect();
    let b = rt.make(&b_data, &[8]);
    let a = rt.ones(&[4, 8]);
    let out = rt.broadcast(a, b, sum2);
    let result = rt.read(out);
    assert_eq!(rt.shape(out), vec![4, 8]);
    for row in 0..4 {
        for col in 0..8 {
            assert!(close(result[row * 8 + col], 1.0 + (col as f32 + 1.0)));
        }
    }
}

#[test]
fn test_broadcast_sub_scalar_row() {
    let mut rt = Rt::new();
    let a = rt.make(&[1.0, 2.0, 3.0, 4.0], &[1, 4]);
    let b = rt.ones(&[3, 4]);
    let out = rt.broadcast(a, b, |x, y| x - y);
    assert_eq!(rt.shape(out), vec![3, 4]);
    assert_eq!(rt.read(out), vec![0.0, 1.0, 2.0, 3.0, 0.0, 1.0, 2.0, 3.0, 0.0, 1.0, 2.0, 3.0]);
}

#[test]
fn broadcasting_commutes_or_fails() {
    assert_eq!(broadcast_result_shape(&vec![3, 1], &vec![2]).unwrap(), vec![3, 2]);
    assert_eq!(broadcast_result_shape(&vec![2], &vec![3, 1]).unwrap(), vec![3, 2]);
    let e = broadcast_result_shape(&vec![3, 4], &vec![3, 5]).err().unwrap();
    assert_eq!(e, ShapeError::Broadcast { dim: 1, left: 4, right: 5 });
}

#[test]
fn test_reduce_sum_axis0_no_keepdim() {
    let mut rt = Rt::new();
    let h = rt.make(&[1.0, 2.0, 3.0, 4.0, 5.0, 6.0], &[2, 3]);
    let out = rt.reduce(h, 0, false, 0.0, sum2);
    assert_eq!(rt.shape(out), vec![3]);
    assert_eq!(rt.read(out), vec![5.0, 7.0, 9.0]);
}

#[test]
fn test_reduce_sum_axis1_keepdim() {
    let mut rt = Rt::new();
    let h = rt.make(&[1.0, 2.0, 3.0, 4.0, 5.0, 6.0], &[2, 3]);
    let out = rt.reduce(h, 1, true, 0.0, sum2);
    assert_eq!(rt.shape(out), vec![2, 1]);
    assert_eq!(rt.read(out), vec![6.0, 15.0]);
}

#[test]
fn test_reduce_max_axis1() {
    let mut rt = Rt::new();
    let h = rt.make(&[1.0, 5.0, 3.0, 4.0, 2.0, 6.0], &[2, 3]);
    let out = rt.reduce(h, 1, false, f32::NEG_INFINITY, f32::max);
    assert_eq!(rt.shape(out), vec![2]);
    assert_eq!(rt.read(out), vec![5.0, 6.0]);
}

#[test]
fn test_reduce_negative_axis() {
    let mut rt = Rt::new();
    let h = rt.make(&counting(12), &[3, 4]);
    let pos = rt.reduce(h, 1, false, 0.0, sum2);
    let neg = rt.reduce(h, -1, false, 0.0, sum2);
    assert_eq!(rt.read(pos), rt.read(neg));
    assert_eq!(rt.shape(pos), rt.shape(neg));
    assert_eq!(normalize_axis(2, 2).err().unwrap(), ShapeError::Axis { axis: 2, ndims: 2 });
    assert_eq!(normalize_axis(-3, 2).err().unwrap(), ShapeError::Axis { axis: -3, ndims: 2 });
}

#[test]
fn test_tape_record_reduce_backward_sum() {
    let mut rt = Rt::new();
    let x = rt.make(&[1.0, 2.0, 3.0, 4.0, 5.0, 6.0], &[2, 3]);
    rt.mem.tensor_retain(x);
    rt.leaf(x);
    let out = rt.reduce(x, 0, false, 0.0, sum2);
    rt.mem.tensor_retain(out);
    rt.tape.tape_record_reduce(&mut rt.mem, OpTag::ReduceSumAxis.to_tag(), x, out, 0, 0);
    rt.backward(out);
    let dx = rt.grad(x);
    assert_eq!(rt.shape(dx), vec![2, 3]);
    for v in rt.read(dx) {
        assert!(close(v, 1.0), "expected 1.0 got {v}");
    }
}

#[test]
fn test_broadcast_add_backward() {
    let mut rt = Rt::new();
    let a = rt.ones(&[1, 3]);
    let b = rt.ones(&[2, 3]);
    rt.mem.tensor_retain(a);
    rt.mem.tensor_retain(b);
    rt.leaf(a);
    rt.leaf(b);
    let out = rt.broadcast(a, b, sum2);
    rt.mem.tensor_retain(out);
    rt.record2(OpTag::Add, a, b, out);
    let loss = rt.total(out);
    rt.mem.tensor_retain(loss);
    rt.record1(OpTag::Sum, out, loss);
    rt.backward(loss);
    let da = rt.grad(a);
    let db = rt.grad(b);
    assert_eq!(rt.shape(da), vec![1, 3]);
    for v in rt.read(da) {
        assert!(close(v, 2.0), "da expected 2.0 got {v}");
    }
    assert_eq!(rt.shape(db), vec![2, 3]);
    for v in rt.read(db) {
        assert!(close(v, 1.0), "db expected 1.0 got {v}");
    }
}

// ── Reshape, permute and batched products on the tape ────────────────────────

#[test]
fn test_tensor_reshape_zero_copy() {
    let mut rt = Rt::new();
    let h = rt.make(&counting(24), &[2, 3, 4]);
    let out = rt.mem.tensor_reshape(h, &vec![6, 4]).unwrap();
    assert_eq!(rt.shape(out), vec![6, 4]);
    assert_eq!(rt.read(out), counting(24));
    assert_eq!(rt.mem.tensor(h).buffer, rt.mem.tensor(out).buffer, "reshape must share the underlying buffer");
    let e = rt.mem.tensor_reshape(h, &vec![5]).err().unwrap();
    assert_eq!(e, ShapeError::Reshape { have: 24, want: 5 });
    rt.free(h);
    assert_eq!(rt.read(out), counting(24));
    assert_eq!(rt.mem.malus_pool_buckets(), vec![]);
    rt.free(out);
    assert_eq!(rt.mem.malus_pool_buckets(), vec![(96, 1)]);
}

#[test]
fn test_reshape_vjp() {
    let mut rt = Rt::new();
    let h = rt.alloc_f32(&[1.0, 2.0, 3.0, 4.0]);
    rt.mem.tensor_retain(h);
    rt.leaf(h);
    let y = rt.mem.tensor_reshape(h, &vec![2, 2]).unwrap();
    rt.mem.tensor_retain(y);
    rt.record1(OpTag::Reshape, h, y);
    let loss = rt.total(y);
    rt.mem.tensor_retain(loss);
    rt.record1(OpTag::Sum, y, loss);
    rt.backward(loss);
    let g = rt.grad(h);
    let data = rt.read(g);
    assert_eq!(data.len(), 4);
    for v in &data {
        assert!(close(*v, 1.0), "reshape VJP: expected 1.0 grad, got {v}");
    }
}

#[test]
fn test_permute_vjp_2d_transpose() {
    let mut rt = Rt::new();
    let data: Vec<f32> = (1..=6).map(|i| i as f32).collect();
    let a = rt.make(&data, &[2, 3]);
    rt.mem.tensor_retain(a);
    rt.leaf(a);
    let b = rt.permute(a, &[]);
    rt.mem.tensor_retain(b);
    rt.tape.tape_record_perm(&mut rt.mem, OpTag::Transpose.to_tag(), a, b, &vec![]);
    let loss = rt.total(b);
    rt.mem.tensor_retain(loss);
    rt.record1(OpTag::Sum, b, loss);
    rt.backward(loss);
    let g = rt.grad(a);
    assert_eq!(rt.shape(g), vec![2, 3]);
    assert_eq!(rt.read(g).len(), 6);
    for v in rt.read(g) {
        assert!(close(v, 1.0), "permute VJP: expected 1.0 grad, got {v}");
    }
}

#[test]
fn test_batched_matmul_vjp() {
    let mut rt = Rt::new();
    let q = rt.ones(&[2, 2, 3]);
    let k = rt.ones(&[2, 3, 2]);
    rt.mem.tensor_retain(q);
    rt.mem.tensor_retain(k);
    rt.leaf(q);
    rt.leaf(k);
    let scores = rt.matmul(q, k);
    rt.mem.tensor_retain(scores);
    rt.record2(OpTag::Matmul, q, k, scores);
    let loss = rt.total(scores);
    rt.mem.tensor_retain(loss);
    rt.record1(OpTag::Sum, scores, loss);
    rt.backward(loss);
    let gq = rt.grad(q);
    let gk = rt.grad(k);
    assert_eq!(rt.shape(gq), vec![2, 2, 3]);
    assert_eq!(rt.shape(gk), vec![2, 3, 2]);
    for v in rt.read(gq) {
        assert!(close(v, 2.0), "batched matmul VJP dQ: expected 2.0, got {v}");
    }
    for v in rt.read(gk) {
        assert!(close(v, 2.0), "batched matmul VJP dK: expected 2.0, got {v}");
    }
}

// ── Embeddings ───────────────────────────────────────────────────────────────

#[test]
fn test_embedding_forward_i32() {
    let mut rt = Rt::new();
    let w = rt.make(&counting(12), &[4, 3]);
    let idx = rt.alloc_rows(&[1, 0, 2], Dtype::I32);
    let out = rt.embed(w, idx);
    assert_eq!(rt.read(out), vec![3.0, 4.0, 5.0, 0.0, 1.0, 2.0, 6.0, 7.0, 8.0]);
    assert_eq!(rt.shape(out), vec![3, 3]);
}

#[test]
fn test_embedding_forward_i64_indices() {
    let mut rt = Rt::new();
    let w = rt.make(&counting(12), &[4, 3]);
    let idx = rt.alloc_rows(&[2, 1, 0], Dtype::I64);
    let out = rt.embed(w, idx);
    assert_eq!(rt.read(out), vec![6.0, 7.0, 8.0, 3.0, 4.0, 5.0, 0.0, 1.0, 2.0]);
}

#[test]
fn test_embedding_vjp_scatter_add() {
    let mut rt = Rt::new();
    let w = rt.ones(&[4, 2]);
    rt.mem.tensor_retain(w);
    rt.leaf(w);
    let idx = rt.alloc_rows(&[0, 2, 1, 0], Dtype::I32);
    let out = rt.embed(w, idx);
    rt.mem.tensor_retain(out);
    rt.tape.tape_record_embedding(&mut rt.mem, OpTag::Embedding.to_tag(), w, idx, out);
    let loss = rt.total(out);
    rt.mem.tensor_retain(loss);
    rt.record1(OpTag::Sum, out, loss);
    rt.backward(loss);
    let gw = rt.grad(w);
    assert_eq!(rt.shape(gw), vec![4, 2]);
    assert_eq!(rt.read(gw), vec![2.0, 2.0, 1.0, 1.0, 1.0, 1.0, 0.0, 0.0]);
}

#[test]
fn test_embedding_gradient_matches_finite_differences() {
    const V: usize = 5;
    const D: usize = 2;
    const EPS: f32 = 1e-2;
    let indices: Vec<i64> = vec![2, 0, 1, 2];
    let wdata: Vec<f32> = (0..(V * D)).map(|i| i as f32 * 0.1 + 0.5).collect();
    let mut expected_count = vec![0u32; V];
    for t in &indices {
        expected_count[*t as usize] += 1;
    }
    let loss = |w: &Vec<f32>| -> f32 {
        tensor_embedding(w, &vec![V, D], &indices, &vec![4]).unwrap().iter().sum()
    };
    for i in 0..V {
        for j in 0..D {
            let mut wp = wdata.clone();
            let mut wm = wdata.clone();
            wp[i * D + j] += EPS;
            wm[i * D + j] -= EPS;
            let fd = (loss(&wp) - loss(&wm)) / (2.0 * EPS);
            let analytic = expected_count[i] as f32;
            assert!((fd - analytic).abs() < 1e-3, "FD grad at [{i},{j}]: fd={fd:.6} analytic={analytic:.6}");
        }
    }
}

#[test]
fn embedding_rows_are_checked() {
    let e = tensor_embedding(&counting(6), &vec![3, 2], &vec![3], &vec![1]).err().unwrap();
    assert!(matches!(e, LookupError::Row { row: 3, rows: 3 }));
    let e = tensor_embedding(&counting(6), &vec![6], &vec![0], &vec![1]).err().unwrap();
    assert!(matches!(e, LookupError::Shape(_)));
}

#[test]
fn masks_and_losses_have_shapes() {
    assert_eq!(tensor_causal_mask(2, 0, 1).unwrap(), vec![0, 1, 0, 0]);
    assert_eq!(cross_entropy_dims(&vec![4, 7], &vec![4]).unwrap(), (4, 7));
    assert!(cross_entropy_dims(&vec![4], &vec![4]).is_err());
    assert!(cross_entropy_dims(&vec![4, 7], &vec![5]).is_err());
}

// ── Random numbers ───────────────────────────────────────────────────────────

fn randn(r: &mut Random, n: usize) -> Vec<f32> {
    let call = r.next_call();
    let mut out = vec![];
    for p in 0..normal_pairs(n) {
        let (a, b) = Random::normal_pair(call, p as u64);
        let u1 = (a as f32 + 1.0) / 4294967296.0;
        let u2 = b as f32 / 4294967296.0;
        let m = (-2.0 * u1.ln()).sqrt();
        out.push(m * (std::f32::consts::TAU * u2).cos());
        out.push(m * (std::f32::consts::TAU * u2).sin());
    }
    out.truncate(n);
    out
}

#[test]
fn test_randn_shape_and_nonzero() {
    let mut rt = Rt::new();
    let data = randn(&mut Random::new(), 12);
    let h = rt.make(&data, &[3, 4]);
    assert_eq!(rt.shape(h), vec![3, 4]);
    assert_eq!(rt.mem.tensor(h).len, 12);
    assert!(rt.read(h).iter().any(|v| *v != 0.0), "randn should produce non-zero values");
}

#[test]
fn test_randn_deterministic_per_call_counter() {
    let mut r = Random::new();
    let d1 = randn(&mut r, 4);
    let d2 = randn(&mut r, 4);
    assert_ne!(d1, d2, "consecutive randn calls should differ (different call counter)");
    assert_eq!(d1, randn(&mut Random::new(), 4));
}

#[test]
fn generator_has_its_known_answers() {
    let out = philox4x32_10([0, 0, 0, 0], [0, 0]);
    assert_eq!(out, [0x6627e8d5, 0xe169c58d, 0xbc57ac4c, 0x9b00dbd8]);
    let f = u32::MAX;
    let out = philox4x32_10([f, f, f, f], [f, f]);
    assert_eq!(out, [0x408f276d, 0x41c83b0e, 0xa20bc7c6, 0x6d5451fd]);
    let mut r = Random::new();
    for _ in 0..20 {
        let v = r.malus_rand_int(7);
        assert!((0..7).contains(&v));
    }
}

// ── Buffers, budgets and generations ─────────────────────────────────────────

#[test]
fn freed_buffers_are_reused_when_finished() {
    let mut m = Memory::new(false, true, None);
    let a = m.alloc_tensor(Dtype::F32, &vec![4]).unwrap();
    assert!(!a.pooled);
    m.tensor_free(a.handle).unwrap();
    let b = m.alloc_tensor(Dtype::I32, &vec![2, 2]).unwrap();
    assert!(b.pooled);
    assert_eq!(b.buffer, a.buffer);
    assert_ne!(b.handle, a.handle);
    let l = m.kernel_dispatch(&vec![b.handle]).unwrap();
    m.tensor_free(b.handle).unwrap();
    let c = m.alloc_tensor(Dtype::F32, &vec![4]).unwrap();
    assert_ne!(c.buffer, b.buffer, "work on the buffer is not finished");
    assert!(m.gpu_barrier());
    let d = m.alloc_tensor(Dtype::F32, &vec![4]).unwrap();
    assert_eq!(d.buffer, b.buffer);
    assert!(m.is_live(l.out.handle));
    let (hits, misses, pooled, peak) = m.malus_pool_stats();
    assert_eq!((hits, misses, pooled), (2, 3, 0));
    assert_eq!(peak, 48);
    assert_eq!(m.malus_alloc_histogram(), vec![(16, 5)]);
    assert_eq!(m.malus_pool_buckets(), vec![(16, 0)]);
}

#[test]
fn budget_forces_reuse() {
    assert_eq!(mem_budget_from(None), 8589934592);
    assert_eq!(mem_budget_from(Some(0)), i64::MAX);
    assert_eq!(mem_budget_from(Some(2)), 2 << 20);
    assert_eq!(mem_budget_from(Some(-5)), 8589934592);
    let mut m = Memory::new(false, false, None);
    m.malus_set_mem_budget(32);
    assert_eq!(m.mem_budget_bytes(), 32);
    let a = m.alloc_tensor(Dtype::F32, &vec![4]).unwrap();
    let l = m.kernel_dispatch(&vec![a.handle]).unwrap();
    m.tensor_free(a.handle).unwrap();
    let b = m.alloc_tensor(Dtype::F32, &vec![4]).unwrap();
    assert!(b.flush, "the limit is reached, so that pending work is waited for");
    assert_eq!(b.buffer, a.buffer);
    assert!(m.is_live(l.out.handle));
}

#[test]
fn pool_can_be_emptied() {
    let mut m = Memory::new(false, false, None);
    let a = m.alloc_tensor(Dtype::F32, &vec![4]).unwrap();
    m.tensor_free(a.handle).unwrap();
    assert_eq!(m.malus_pool_buckets(), vec![(16, 1)]);
    m.malus_pool_reset();
    assert_eq!(m.malus_pool_buckets(), vec![]);
    assert_eq!(m.malus_pool_stats().2, 0);
}

#[test]
fn allocations_are_checked() {
    let mut m = Memory::new(false, false, None);
    assert_eq!(m.alloc_tensor(Dtype::F16, &vec![4]), Err(AllocError::UnsupportedDtype(Dtype::F16)));
    assert_eq!(m.alloc_tensor(Dtype::F32, &vec![usize::MAX, 2]), Err(AllocError::TooLarge));
    let e = m.alloc_tensor(Dtype::F32, &vec![0]).unwrap();
    assert_eq!(m.tensor(e.handle).len, 0);
    assert_eq!(m.buffers[e.buffer].size, 1);
}

#[test]
fn sync_mode_commits_at_once() {
    let mut m = Memory::new(true, false, None);
    let a = m.alloc_tensor(Dtype::F32, &vec![4]).unwrap();
    let l = m.kernel_dispatch(&vec![a.handle]).unwrap();
    assert!(l.commit);
    assert!(!m.tensor_is_pending(l.out.handle));
    assert!(!m.flush_if_pending(l.out.handle));
}

#[test]
fn generations_stay_ordered() {
    let mut g = Gens::new(false);
    assert_eq!(g.ensure_command_buffer(), 1);
    assert_eq!(g.ensure_command_buffer(), 1);
    assert!(g.is_pending(1));
    assert!(g.gpu_barrier());
    assert!(!g.is_pending(1));
    assert!(!g.gpu_barrier());
    assert_eq!(g.ensure_command_buffer(), 2);
}

#[test]
fn counters_count() {
    let mut c = Counters::new();
    c.cpu_compute_inc();
    c.retain_inc();
    c.release_inc();
    c.release_inc();
    c.alloc_inc();
    assert_eq!(c.malus_cpu_compute_count(), 1);
    assert_eq!(c.malus_rc_counts(), (1, 2, 1));
    c.malus_cpu_compute_reset();
    c.malus_rc_reset();
    assert_eq!(c.malus_cpu_compute_count(), 0);
    assert_eq!(c.malus_rc_counts(), (0, 0, 0));
}

// ── Shapes ───────────────────────────────────────────────────────────────────

#[test]
fn offsets_and_indices_agree() {
    let shape = vec![2, 3, 4];
    assert_eq!(element_count(&shape), Some(24));
    assert_eq!(element_count(&vec![usize::MAX, 2]), None);
    for flat in 0..24 {
        assert_eq!(flatten(&unflatten(flat, &shape), &shape), flat);
    }
    assert_eq!(unflatten(17, &shape), vec![1, 1, 1]);
    assert_eq!(tensor_dim(&shape, 2).unwrap(), 4);
    assert_eq!(tensor_dim(&shape, 3).err().unwrap(), ShapeError::DimIndex { index: 3, rank: 3 });
    assert_eq!(tensor_dim(&shape, -1).unwrap(), 4);
    assert!(tensor_dim(&shape, -4).is_err());
}

#[test]
fn sums_undo_broadcasts() {
    let wide = broadcast_to_shape(&vec![1, 2], &vec![2, 1], &vec![2, 3]);
    assert_eq!(wide, vec![1, 1, 1, 2, 2, 2]);
    assert_eq!(sum_to_shape(&wide, &vec![2, 3], &vec![2, 1], 0, |x: i32, y: i32| x + y), vec![3, 6]);
}

// ── Backward pass ────────────────────────────────────────────────────────────

#[test]
fn backward_releases_what_it_makes() {
    let mut rt = Rt::new();
    let a = rt.alloc_f32(&[1.0]);
    let b = rt.alloc_f32(&[2.0]);
    rt.leaf(a);
    let out = rt.alloc_f32(&[3.0]);
    rt.record2(OpTag::Add, a, b, out);
    let before = rt.mem.tensors.len();
    rt.backward(out);
    assert_eq!(rt.mem.tensors.len(), before + 1, "only the gradient of the leaf stays");
}

#[test]
fn malformed_nodes_are_errors() {
    let mut rt = Rt::new();
    let x = rt.alloc_f32(&[1.0]);
    let out = rt.alloc_f32(&[1.0]);
    rt.record1(OpTag::Add, x, out);
    assert_eq!(rt.tape.backward(&rt.mem, out).err().unwrap(), BackwardError::Malformed(OpTag::Add));
    rt.tape.tape_reset(&mut rt.mem).unwrap();
    rt.tape.tape_record_perm(&mut rt.mem, OpTag::Transpose.to_tag(), x, out, &vec![]);
    let e = rt.tape.backward(&rt.mem, out).err().unwrap();
    assert_eq!(e, BackwardError::Permutation(ShapeError::TransposeRank { rank: 1 }));
}

#[test]
fn recording_and_clearing_cancel() {
    let mut rt = Rt::new();
    let x = rt.alloc_f32(&[1.0]);
    let y = rt.alloc_f32(&[1.0]);
    let v = rt.alloc_f32(&[1.0]);
    rt.tape.tape_record_layernorm(&mut rt.mem, OpTag::Layernorm.to_tag(), x, y, v, 0).unwrap();
    assert!(rt.mem.is_live(v));
    rt.tape.tape_clear(&mut rt.mem).unwrap();
    assert!(!rt.mem.is_live(v), "the tape owned the variance");
    assert_eq!(rt.mem.tensor(x).refs, 1);
    assert_eq!(rt.mem.tensor(y).refs, 1);
}

#[test]
fn slots_hold_functions() {
    let mut t = SlotTable::new();
    assert_eq!(t.bwd_slot(BwdSlot::ReluBwd), None);
    t.tape_register_backward_fn(BwdSlot::ReluBwd.to_tag() as usize, 77);
    assert_eq!(t.bwd_slot(BwdSlot::ReluBwd), Some(77));
}

// ── Bench, strings, staging buffers ──────────────────────────────────────────

#[test]
fn bench_reports_warm_steps() {
    let mut b = Bench::new();
    b.bench_step_begin(1);
    b.bench_step_end(2);
    assert_eq!(b.times.len(), 0, "timing is off");
    b.bench_enable();
    for t in [9, 9, 9, 40, 10, 30, 20] {
        b.bench_step_begin(100);
        b.bench_step_end(100 + t);
    }
    let r = b.bench_report().unwrap();
    assert_eq!(r.warm_steps, 4);
    assert_eq!(r.min, 10);
    assert_eq!(r.max, 40);
    assert_eq!(r.median, 25);
    b.bench_record(25);
    assert_eq!(b.bench_report().unwrap().median, 25);
    b.bench_reset();
    assert!(b.bench_report().is_none());
}

#[test]
fn strings_count_bytes_and_index_characters() {
    let s = StrBox::malus_str_box("aé".to_string());
    assert_eq!(s.malus_str_len(), 3);
    assert_eq!(s.malus_str_char_at(0), 97);
    assert_eq!(s.malus_str_char_at(1), 233);
    assert_eq!(s.malus_str_char_at(2), -1);
    assert_eq!(s.malus_str_char_at(-1), -1);
    assert_eq!(StrBox::malus_str_from_char(233).text, "é");
    assert_eq!(StrBox::malus_str_from_char(0xD800).text, StrBox::malus_str_from_char(-1).text);
}

#[test]
fn numbers_that_are_no_characters_are_replaced() {
    for c in [-1i64, 0xD800, 0xDFFF, 0x11_0000, 0x1_0000_0041, i64::MAX, i64::MIN] {
        let s = StrBox::malus_str_from_char(c);
        assert_eq!(s.text, "\u{FFFD}", "{c:#x}");
        assert_eq!(s.malus_str_char_at(0), 0xFFFD);
        assert_eq!(s.malus_str_char_at(1), -1);
    }
    for c in [0i64, 0x41, 0xD7FF, 0xE000, 0x10_FFFF] {
        let s = StrBox::malus_str_from_char(c);
        assert_eq!(s.malus_str_char_at(0), c);
        assert_eq!(s.malus_str_char_at(1), -1);
    }
}

#[test]
fn staging_buffers_hold_numbers() {
    let mut b = IntBuffer::malus_buffer_i32(3);
    assert_eq!(b.malus_buffer_get_i32(1), 0);
    b.malus_buffer_set_i32(1, -5);
    assert_eq!(b.malus_buffer_get_i32(1), -5);
    assert_eq!(b.frozen_shape(), vec![3]);
}

#[test]
fn test_tensor_alloc_null_data() {
    let mut rt = Rt::new();
    let a = rt.mem.alloc_tensor(Dtype::F32, &vec![4]).unwrap();
    assert!(a.handle != 0);
    assert!(!a.pooled, "buffer should be zeroed");
    assert_eq!(rt.mem.tensor(a.handle).len, 4);
    assert_eq!(rt.mem.buffers[a.buffer].size, 16);
    rt.free(a.handle);
}

#[test]
fn test_tensor_alloc_ones_is_one() {
    let mut rt = Rt::new();
    let h = rt.ones(&[3, 4]);
    assert_eq!(rt.mem.tensor(h).len, 12);
    assert_eq!(rt.shape(h), vec![3, 4]);
    assert!(rt.read(h).iter().all(|v| *v == 1.0));
    rt.free(h);
}

#[test]
fn test_tensor_sum_ones_2x4() {
    let mut rt = Rt::new();
    let h = rt.ones(&[2, 4]);
    let out = rt.total(h);
    assert_eq!(rt.read(out), vec![8.0]);
    rt.free(h);
    rt.free(out);
}

#[test]
fn test_reduce_mean_axis0() {
    let mut rt = Rt::new();
    let h = rt.make(&[1.0, 2.0, 3.0, 4.0, 5.0, 6.0], &[2, 3]);
    let out = rt.reduce(h, 0, false, 0.0, sum2);
    assert_eq!(rt.shape(out), vec![3]);
    let result: Vec<f32> = rt.read(out).iter().map(|v| v / 2.0).collect();
    for (r, e) in result.iter().zip([2.5, 3.5, 4.5].iter()) {
        assert!((r - e).abs() < 1e-5);
    }
    rt.free(h);
    rt.free(out);
}

#[test]
fn test_reduce_var_axis0() {
    let mut rt = Rt::new();
    let h = rt.make(&[1.0, 2.0, 4.0, 8.0], &[2, 2]);
    let sums = rt.reduce(h, 0, true, 0.0, sum2);
    let two = rt.make(&[2.0], &[1]);
    let mean = rt.broadcast(sums, two, |x, y| x / y);
    let diff = rt.broadcast(h, mean, |x, y| x - y);
    let square = rt.zip(diff, diff, |x, y| x * y);
    let total = rt.reduce(square, 0, false, 0.0, sum2);
    assert_eq!(rt.shape(total), vec![2]);
    let result: Vec<f32> = rt.read(total).iter().map(|v| v / 2.0).collect();
    assert!((result[0] - 2.25).abs() < 1e-4);
    assert!((result[1] - 9.0).abs() < 1e-4);
}

#[test]
fn buffers_are_bound_apart() {
    let all = [
        Bound::Input(0),
        Bound::Input(1),
        Bound::Output,
        Bound::Scalars,
        Bound::InputMeta(0),
        Bound::InputMeta(1),
        Bound::OutputMeta,
    ];
    let at: Vec<usize> = all.iter().map(|b| b.position(2)).collect();
    assert_eq!(at, vec![0, 1, 2, 3, 4, 5, 6]);
    assert_eq!(Bound::OutputMeta.position(0), 2);
}

#[test]
fn reduction_along_a_numbered_axis() {
    let data = vec![1i64, 2, 3, 4, 5, 6];
    let dims = vec![2, 3];
    let max = |x: i64, y: i64| if x > y { x } else { y };
    assert_eq!(tensor_reduce_axis(&data, &dims, -1, true, 0, max), Ok((vec![2, 1], vec![3, 6])));
    assert_eq!(tensor_reduce_axis(&data, &dims, 0, false, 0, max), Ok((vec![3], vec![4, 5, 6])));
    assert_eq!(
        tensor_reduce_axis(&data, &dims, 2, false, 0, max),
        Err(ShapeError::Axis { axis: 2, ndims: 2 })
    );
    let hollow: Vec<i64> = vec![];
    let wide = vec![0, usize::MAX, 2];
    assert_eq!(tensor_reduce_axis(&hollow, &wide, 0, false, 0, max), Err(ShapeError::TooLarge));
}

#[test]
fn unsqueezed_shapes() {
    assert_eq!(unsqueeze_at(&vec![2, 3], 0), vec![1, 2, 3]);
    assert_eq!(unsqueeze_at(&vec![2, 3], 2), vec![2, 3, 1]);
    assert_eq!(reduce_axis_shape(&unsqueeze_at(&vec![2, 3], 1), 1, false), vec![2, 3]);
    assert_eq!(element_count(&unsqueeze_at(&vec![2, 3], 1)), Some(6));
}

#[test]
fn permutation_by_arguments() {
    let data = vec![1, 2, 3, 4, 5, 6];
    assert_eq!(
        tensor_permute(&data, &vec![2, 3], &vec![]),
        Ok((vec![3, 2], vec![1, 4, 2, 5, 3, 6]))
    );
    assert_eq!(
        tensor_permute(&data, &vec![1, 2, 3], &vec![2, 0, 1]),
        Ok((vec![3, 1, 2], vec![1, 4, 2, 5, 3, 6]))
    );
    assert_eq!(
        tensor_permute(&data, &vec![2, 3], &vec![0]),
        Err(ShapeError::PermuteArity { given: 1, rank: 2 })
    );
}

#[test]
fn broadcast_of_two_tensors() {
    let row = vec![10, 20, 30];
    let column = vec![1, 2];
    assert_eq!(
        tensor_broadcast_op(&row, &vec![3], &column, &vec![2, 1], |x: i32, y: i32| x + y),
        Ok((vec![2, 3], vec![11, 21, 31, 12, 22, 32]))
    );
    assert_eq!(
        tensor_broadcast_op(&row, &vec![3], &column, &vec![2], |x: i32, y: i32| x + y),
        Err(ShapeError::Broadcast { dim: 0, left: 3, right: 2 })
    );
}

fn running_sum(line: Vec<i64>) -> Vec<i64> {
    let mut total = 0;
    line.iter()
        .map(|v| {
            total += v;
            total
        })
        .collect()
}

#[test]
fn functions_of_lines() {
    let data = vec![1i64, 2, 3, 4, 5, 6];
    assert_eq!(map_lines(&data, &vec![2, 3], 1, running_sum), vec![1, 3, 6, 4, 9, 15]);
    assert_eq!(map_lines(&data, &vec![2, 3], 0, running_sum), vec![1, 2, 3, 5, 7, 9]);
    assert_eq!(map_lines(&data, &vec![1, 6, 1], 1, running_sum), vec![1, 3, 6, 10, 15, 21]);
    let none: Vec<i64> = vec![];
    assert_eq!(map_lines(&none, &vec![0, 3], 0, running_sum), none);
}

#[test]
fn cells_of_targets() {
    assert_eq!(target_cells(&vec![2, 3], &vec![2], &vec![2, 0]), Ok(vec![2, 3]));
    assert_eq!(
        target_cells(&vec![2, 3], &vec![2], &vec![0, 3]),
        Err(LookupError::Row { row: 3, rows: 3 })
    );
    assert_eq!(
        target_cells(&vec![2, 3], &vec![1], &vec![0]),
        Err(LookupError::Shape(ShapeError::Length { left: 2, right: 1 }))
    );
    assert_eq!(
        target_cells(&vec![6], &vec![1], &vec![0]),
        Err(LookupError::Shape(ShapeError::Rank { have: 1, want: 2 }))
    );
}
