use blowtorch::tensor::Tensor;
use blowtorch::traits::{DecodeOutcome, FloatLikePrimitive};

#[derive(Clone, Copy, Debug, PartialEq)]
struct F32(f32);

impl FloatLikePrimitive for F32 {
    fn add(self, rhs: Self) -> Self {
        F32(self.0 + rhs.0)
    }

    fn mul(self, rhs: Self) -> Self {
        F32(self.0 * rhs.0)
    }

    fn zero() -> Self {
        F32(0.0)
    }

    fn decode_entry(archive: &[u8], name: &str) -> DecodeOutcome<Self> {
        let cursor = std::io::Cursor::new(archive);
        let mut reader = match ndarray_npy::NpzReader::new(cursor) {
            Ok(r) => r,
            Err(_) => return DecodeOutcome::Malformed,
        };
        let names = match reader.names() {
            Ok(names) => names,
            Err(_) => return DecodeOutcome::Malformed,
        };
        if !names.iter().any(|n| n == name) {
            return DecodeOutcome::Missing;
        }
        let arr: Result<ndarray::ArrayD<f32>, _> = reader.by_name(name);
        match arr {
            Ok(a) => {
                let shape = a.shape().to_vec();
                if shape.is_empty() {
                    return DecodeOutcome::Malformed;
                }
                let data: Vec<F32> = a.iter().map(|v| F32(*v)).collect();
                DecodeOutcome::Found { shape, data }
            }
            Err(_) => DecodeOutcome::Malformed,
        }
    }
}

fn tensor(shape: Vec<usize>, vals: Vec<f32>) -> Tensor<F32> {
    Tensor::from_shape_vec(shape, vals.into_iter().map(F32).collect()).unwrap()
}

fn values(t: &Tensor<F32>) -> Vec<f32> {
    t.data().iter().map(|v| v.0).collect()
}

#[test]
fn test_flatten1() {
    let test_array = tensor(
        vec![1, 3, 4],
        vec![
            -1.0643, -0.8746, -0.5266, 0.6039, 0.7219, -0.8092, 0.1590, -0.2309, 0.6337, -1.4233,
            0.7101, -0.9875,
        ],
    );
    let output = vec![
        -1.0643, -0.8746, -0.5266, 0.6039, 0.7219, -0.8092, 0.1590, -0.2309, 0.6337, -1.4233,
        0.7101, -0.9875,
    ];
    let flatten_layer = blowtorch::flatten::Flatten::<F32>::new();
    let flatten_array = flatten_layer.activate(&test_array);
    assert_eq!(flatten_array.shape(), &vec![12]);
    assert_eq!(values(&flatten_array), output);
}

#[test]
fn test_flatten2d() {
    let test_array = tensor(
        vec![2, 4],
        vec![-1.0643, -0.8746, -0.5266, 0.6039, 0.7219, -0.8092, 0.1590, -0.2309],
    );
    let output = vec![-1.0643, -0.8746, -0.5266, 0.6039, 0.7219, -0.8092, 0.1590, -0.2309];
    let flatten_layer = blowtorch::flatten::Flatten::<F32>::new();
    let flatten_array = flatten_layer.activate(&test_array);
    assert_eq!(flatten_array.shape(), &vec![8]);
    assert_eq!(values(&flatten_array), output);
}

#[test]
fn test_flatten_4d() {
    let test_array = tensor(
        vec![1, 2, 4],
        vec![-1.0643f32, -0.8746, -0.5266, 0.6039, 0.7219, -0.8092, 0.1590, -0.2309],
    );
    let output = vec![-1.0643, -0.8746, -0.5266, 0.6039, 0.7219, -0.8092, 0.1590, -0.2309];
    let flatten_layer = blowtorch::flatten::Flatten::<F32>::new();
    let flatten_array = flatten_layer.activate(&test_array);
    assert_eq!(flatten_array.shape(), &vec![8]);
    assert_eq!(values(&flatten_array), output);
}

#[test]
fn test_flatten_preserves_row_major_order_rank2_and_rank3() {
    let rank2 = tensor(
        vec![3, 4],
        vec![0.0, 1.0, 2.0, 3.0, 4.0, 5.0, 6.0, 7.0, 8.0, 9.0, 10.0, 11.0],
    );
    let rank3 = tensor(
        vec![1, 2, 4],
        vec![0.0, 1.0, 2.0, 3.0, 4.0, 5.0, 6.0, 7.0],
    );
    let flatten_layer = blowtorch::flatten::Flatten::<F32>::new();
    let flat2 = flatten_layer.activate(&rank2);
    assert_eq!(flat2.shape(), &vec![12]);
    assert_eq!(
        values(&flat2),
        vec![0.0, 1.0, 2.0, 3.0, 4.0, 5.0, 6.0, 7.0, 8.0, 9.0, 10.0, 11.0]
    );
    let flat3 = flatten_layer.activate(&rank3);
    assert_eq!(flat3.shape(), &vec![8]);
    assert_eq!(values(&flat3), vec![0.0, 1.0, 2.0, 3.0, 4.0, 5.0, 6.0, 7.0]);
}
