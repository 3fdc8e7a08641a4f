use blowtorch::linear::LinearLayer;
use blowtorch::model::{LayerSpec, Model, ModelError};
use blowtorch::tensor::Tensor;
use blowtorch::traits::{DecodeOutcome, FloatLikePrimitive, Layer};
use blowtorch::weight_loader::{NpzWeightLoader, WeightError, WeightLoader};

#[derive(Clone, Copy, Debug, PartialEq)]
struct F32(f32);

impl FloatLikePrimitive for F32 {
    fn add(self, rhs: Self) -> Self {
        F32(self.0 + rhs.0)
    }

    fn mul(self, rhs: Self) -> Self {
        F32(self.0 * rhs.0)
    }

    fn zero() -> Self {
        F32(0.0)
    }

    fn decode_entry(archive: &[u8], name: &str) -> DecodeOutcome<Self> {
        let cursor = std::io::Cursor::new(archive);
        let mut reader = match ndarray_npy::NpzReader::new(cursor) {
            Ok(r) => r,
            Err(_) => return DecodeOutcome::Malformed,
        };
        let names = match reader.names() {
            Ok(names) => names,
            Err(_) => return DecodeOutcome::Malformed,
        };
        if !names.iter().any(|n| n == name) {
            return DecodeOutcome::Missing;
        }
        let arr: Result<ndarray::ArrayD<f32>, _> = reader.by_name(name);
        match arr {
            Ok(a) => {
                let shape = a.shape().to_vec();
                if shape.is_empty() {
                    return DecodeOutcome::Malformed;
                }
                let data: Vec<F32> = a.iter().map(|v| F32(*v)).collect();
                DecodeOutcome::Found { shape, data }
            }
            Err(_) => DecodeOutcome::Malformed,
        }
    }
}

fn tensor(shape: Vec<usize>, vals: Vec<f32>) -> Tensor<F32> {
    Tensor::from_shape_vec(shape, vals.into_iter().map(F32).collect()).unwrap()
}

fn values(t: &Tensor<F32>) -> Vec<f32> {
    t.data().iter().map(|v| v.0).collect()
}

fn npz_bytes(entries: &[(&str, Vec<usize>, Vec<f32>)]) -> Vec<u8> {
    let mut writer = ndarray_npy::NpzWriter::new(std::io::Cursor::new(Vec::new()));
    for (name, shape, vals) in entries {
        let arr = ndarray::ArrayD::from_shape_vec(ndarray::IxDyn(shape), vals.clone()).unwrap();
        writer.add_array(*name, &arr).unwrap();
    }
    writer.finish().unwrap().into_inner()
}

fn weight_vals() -> Vec<f32> {
    vec![
        0.0379, 0.1877, 0.2359, 0.0712, 0.0907, -0.0815, 0.1697, -0.0474, -0.0823, -0.1261,
        -0.1167, 0.0740, 0.2609, -0.0292, -0.2330, 0.1270, -0.0309, -0.2788, 0.1672, -0.1382,
        -0.2816, 0.2592, 0.0464, -0.2120, -0.0236, -0.1604, -0.1838, -0.1979, -0.1971, 0.0578,
        -0.0632, 0.1702, 0.2735, 0.1344, -0.1922, -0.0913, 0.0733, 0.0641, 0.0564, -0.2869,
        -0.1568, 0.2572, -0.0046, -0.1427, 0.0275, -0.0283, -0.1056, 0.2554,
    ]
}

fn input_3x4() -> Tensor<F32> {
    tensor(
        vec![3, 4],
        vec![
            -1.0643, -0.8746, -0.5266, 0.6039, 0.7219, -0.8092, 0.1590, -0.2309, 0.6337, -1.4233,
            0.7101, -0.9875,
        ],
    )
}

#[test]
fn test_model_forward_matches_manual_composition() {
    let bytes = npz_bytes(&[
        ("fc.weight", vec![4, 12], weight_vals()),
        ("fc.bias", vec![4], vec![0.0487, -0.1376, -0.2240, -0.1867]),
    ]);
    let loader = NpzWeightLoader::from_buffer(&bytes).unwrap();
    let specs = vec![
        LayerSpec::Flatten,
        LayerSpec::Linear {
            weights: "fc.weight".to_string(),
            bias: Some("fc.bias".to_string()),
            in_features: 12,
            out_features: 4,
        },
    ];
    let model: Model<F32> = Model::from_loader(&loader, vec![3, 4], &specs).unwrap();
    assert_eq!(model.num_layers(), 2);

    let x = input_3x4();
    let model_out = model.forward_pass(&x);

    // The same pass applied layer by layer, in declared order.
    let flatten = blowtorch::flatten::Flatten::<F32>::new();
    let flat = flatten.forward_pass(&x);
    let w: Tensor<F32> = loader.get_weight("fc.weight", &vec![4, 12]).unwrap();
    let b: Tensor<F32> = loader.get_weight("fc.bias", &vec![4]).unwrap();
    let lin = LinearLayer::new(w, Some(b)).unwrap();
    let manual_out = lin.forward_pass(&flat);

    assert_eq!(model_out.shape(), manual_out.shape());
    assert_eq!(values(&model_out), values(&manual_out));
    assert_eq!(model_out.shape(), &vec![4]);
}

#[test]
fn test_model_construction_shape_mismatch() {
    // Flatten emits 12 features; the linear layer declares 10.
    let bytes = npz_bytes(&[("fc.weight", vec![4, 10], weight_vals()[..40].to_vec())]);
    let loader = NpzWeightLoader::from_buffer(&bytes).unwrap();
    let specs = vec![
        LayerSpec::Flatten,
        LayerSpec::Linear {
            weights: "fc.weight".to_string(),
            bias: None,
            in_features: 10,
            out_features: 4,
        },
    ];
    let r: Result<Model<F32>, ModelError> = Model::from_loader(&loader, vec![3, 4], &specs);
    assert!(matches!(r, Err(ModelError::ShapeMismatch)));
}

#[test]
fn test_model_construction_missing_weight() {
    let bytes = npz_bytes(&[("other", vec![2], vec![1., 2.])]);
    let loader = NpzWeightLoader::from_buffer(&bytes).unwrap();
    let specs = vec![LayerSpec::Linear {
        weights: "fc.weight".to_string(),
        bias: None,
        in_features: 4,
        out_features: 2,
    }];
    let r: Result<Model<F32>, ModelError> = Model::from_loader(&loader, vec![4], &specs);
    assert!(matches!(
        r,
        Err(ModelError::Weight(WeightError::KeyNotFound(n))) if n == "fc.weight"
    ));
}

#[test]
fn test_model_flat_stored_weights() {
    // Weights stored flat are reshaped into the declared matrix.
    let bytes = npz_bytes(&[("fc.weight", vec![48], weight_vals())]);
    let loader = NpzWeightLoader::from_buffer(&bytes).unwrap();
    let specs = vec![
        LayerSpec::Flatten,
        LayerSpec::Linear {
            weights: "fc.weight".to_string(),
            bias: None,
            in_features: 12,
            out_features: 4,
        },
    ];
    let model: Model<F32> = Model::from_loader(&loader, vec![3, 4], &specs).unwrap();
    let out = model.forward_pass(&input_3x4());
    let expected = vec![-0.1451, -0.0960, -0.1602, -0.8956];
    for (got, want) in values(&out).iter().zip(expected.iter()) {
        assert!(
            (got - want).abs() < 1e-3,
            "{:?} was not close to {:?}",
            got,
            want
        );
    }
}

#[test]
fn test_empty_model_is_identity() {
    let bytes = npz_bytes(&[("unused", vec![1], vec![0.])]);
    let loader = NpzWeightLoader::from_buffer(&bytes).unwrap();
    let specs: Vec<LayerSpec> = vec![];
    let model: Model<F32> = Model::from_loader(&loader, vec![2, 2], &specs).unwrap();
    let x = tensor(vec![2, 2], vec![1., 2., 3., 4.]);
    let out = model.forward_pass(&x);
    assert_eq!(out.shape(), &vec![2, 2]);
    assert_eq!(values(&out), vec![1., 2., 3., 4.]);
}
