use ocelotl::arith::Arith;
use ocelotl::error::OcelotlError;
use ocelotl::tensor::{DeviceTensor, HostRead, Residency, TensorStore};

struct F32;

impl Arith<f32> for F32 {
    fn from_bits(&self, bits: u32) -> f32 {
        f32::from_bits(bits)
    }

    fn from_int(&self, n: i64) -> f32 {
        n as f32
    }

    fn from_size(&self, n: usize) -> f32 {
        n as f32
    }

    fn add(&self, a: f32, b: f32) -> f32 {
        a + b
    }

    fn sub(&self, a: f32, b: f32) -> f32 {
        a - b
    }

    fn mul(&self, a: f32, b: f32) -> f32 {
        a * b
    }

    fn div(&self, a: f32, b: f32) -> f32 {
        a / b
    }

    fn neg(&self, a: f32) -> f32 {
        -a
    }

    fn exp(&self, a: f32) -> f32 {
        a.exp()
    }

    fn sqrt(&self, a: f32) -> f32 {
        a.sqrt()
    }

    fn tanh(&self, a: f32) -> f32 {
        a.tanh()
    }

    fn fused(&self, a: f32, b: f32, c: f32) -> f32 {
        a.mul_add(b, c)
    }

    fn abs(&self, a: f32) -> f32 {
        a.abs()
    }

    fn powf(&self, a: f32, b: f32) -> f32 {
        a.powf(b)
    }

    fn sin(&self, a: f32) -> f32 {
        a.sin()
    }

    fn cos(&self, a: f32) -> f32 {
        a.cos()
    }

    fn less(&self, a: f32, b: f32) -> bool {
        a < b
    }

    fn at_most(&self, a: f32, b: f32) -> bool {
        a <= b
    }

    fn is_negative(&self, a: f32) -> bool {
        a.is_sign_negative()
    }

    fn is_finite(&self, a: f32) -> bool {
        a.is_finite()
    }

    fn to_bits(&self, a: f32) -> u32 {
        a.to_bits()
    }

    fn show(&self, a: f32) -> String {
        format!("{a}")
    }
}

fn owned(tensor: &DeviceTensor, store: &TensorStore<f32>) -> Vec<f32> {
    match tensor.to_host_owned(store) {
        HostRead::Ready(values) => values,
        HostRead::Readback { .. } => panic!("expected values on the host"),
    }
}

#[test]
fn from_host_round_trips_through_borrow() {
    let mut store: TensorStore<f32> = TensorStore::new();
    let t = DeviceTensor::from_host(&mut store, vec![1.0_f32, 2.0, 3.0, 4.0]);
    assert_eq!(t.len(&store), 4);
    assert_eq!(t.residency(&store), Residency::Host);
    let borrow = t.borrow_host_slice(&store).expect("host borrow must succeed");
    assert_eq!(borrow, &[1.0, 2.0, 3.0, 4.0]);
}

#[test]
fn host_zeros_is_zero_filled() {
    let mut store: TensorStore<f32> = TensorStore::new();
    let t = DeviceTensor::host_zeros(&F32, &mut store, 5);
    let borrow = t.borrow_host_slice(&store).unwrap();
    assert_eq!(borrow, &[0.0, 0.0, 0.0, 0.0, 0.0]);
}

#[test]
fn write_from_host_slice_overwrites_backing() {
    let mut store: TensorStore<f32> = TensorStore::new();
    let t = DeviceTensor::host_zeros(&F32, &mut store, 3);
    t.write_from_host_slice(&mut store, &[7.0, 8.0, 9.0]).unwrap();
    let borrow = t.borrow_host_slice(&store).unwrap();
    assert_eq!(borrow, &[7.0, 8.0, 9.0]);
}

#[test]
fn write_from_host_slice_rejects_length_mismatch() {
    let mut store: TensorStore<f32> = TensorStore::new();
    let t = DeviceTensor::host_zeros(&F32, &mut store, 3);
    let err = t
        .write_from_host_slice(&mut store, &[1.0, 2.0])
        .expect_err("must reject");
    assert!(matches!(err, OcelotlError::Kernel(_)));
}

#[test]
fn view_borrows_a_subrange_of_host_source() {
    let mut store: TensorStore<f32> = TensorStore::new();
    let source = DeviceTensor::from_host(&mut store, vec![10.0, 20.0, 30.0, 40.0, 50.0]);
    let v = DeviceTensor::view(&store, &source, 1, 3).unwrap();
    assert_eq!(v.len(&store), 3);
    assert_eq!(v.residency(&store), Residency::Host);
    let borrow = v.borrow_host_slice(&store).unwrap();
    assert_eq!(borrow, &[20.0, 30.0, 40.0]);
}

#[test]
fn view_rejects_out_of_bounds_range() {
    let mut store: TensorStore<f32> = TensorStore::new();
    let source = DeviceTensor::from_host(&mut store, vec![1.0, 2.0, 3.0]);
    let err = DeviceTensor::view(&store, &source, 2, 2).expect_err("must reject");
    assert!(matches!(err, OcelotlError::Kernel(_)));
}

#[test]
fn view_rejects_nested_views() {
    let mut store: TensorStore<f32> = TensorStore::new();
    let source = DeviceTensor::from_host(&mut store, vec![1.0, 2.0, 3.0, 4.0]);
    let v1 = DeviceTensor::view(&store, &source, 0, 3).unwrap();
    let err = DeviceTensor::view(&store, &v1, 0, 2).expect_err("nested view must be rejected");
    assert!(matches!(err, OcelotlError::Kernel(_)));
}

#[test]
fn view_rejects_mutation() {
    let mut store: TensorStore<f32> = TensorStore::new();
    let source = DeviceTensor::from_host(&mut store, vec![1.0, 2.0, 3.0]);
    let v = DeviceTensor::view(&store, &source, 0, 2).unwrap();
    let err = v
        .borrow_host_slice_mut(&mut store)
        .expect_err("view must reject mut borrow");
    assert!(matches!(err, OcelotlError::Kernel(_)));
    let err = v
        .write_from_host_slice(&mut store, &[9.0, 9.0])
        .expect_err("view must reject write");
    assert!(matches!(err, OcelotlError::Kernel(_)));
}

#[test]
fn to_host_owned_returns_a_copy_of_host_data() {
    let mut store: TensorStore<f32> = TensorStore::new();
    let t = DeviceTensor::from_host(&mut store, vec![1.0, 2.0, 3.0]);
    let copy = owned(&t, &store);
    assert_eq!(copy, vec![1.0, 2.0, 3.0]);
    t.write_from_host_slice(&mut store, &[9.0, 9.0, 9.0]).unwrap();
    assert_eq!(copy, vec![1.0, 2.0, 3.0]);
}

#[test]
fn to_host_owned_through_view_copies_subrange() {
    let mut store: TensorStore<f32> = TensorStore::new();
    let source = DeviceTensor::from_host(&mut store, vec![10.0, 20.0, 30.0, 40.0]);
    let v = DeviceTensor::view(&store, &source, 1, 2).unwrap();
    assert_eq!(owned(&v, &store), vec![20.0, 30.0]);
}

#[test]
fn clone_shares_backing_storage() {
    let mut store: TensorStore<f32> = TensorStore::new();
    let t1 = DeviceTensor::from_host(&mut store, vec![1.0, 2.0]);
    let t2 = t1;
    t1.write_from_host_slice(&mut store, &[5.0, 6.0]).unwrap();
    let b = t2.borrow_host_slice(&store).unwrap();
    assert_eq!(b, &[5.0, 6.0], "handles must share one buffer");
}
