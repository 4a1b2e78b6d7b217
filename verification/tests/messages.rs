use tfrecord::codegen::{install_prefix_proto_dir, parse_build_method, strip_prefix, BuildMethod};
use tfrecord::conversions::TensorProtoInit;
use tfrecord::dataset::DatasetInit;
use tfrecord::error::Error;
use tfrecord::event_writer::{create_tf_style_file_name, decimal_string, EventWriterConfig, SummaryInit};
use tfrecord::ops::ToLeBytes;
use tfrecord::protobuf_ext::feature_ext::FeatureKind;
use tfrecord::protobuf_ext::image_ext::{guess_color_space_by_channels, ColorSpace, ColorType, TchChannelOrder};
use tfrecord::protobuf_ext::tensor_ext::{hwc_samples, numel, IntoShape, SampleLayout};
use tfrecord::protos::{BytesList, DataType, Dim, Feature as RawFeature, FloatList, Int64List, Kind, TensorProto};
use tfrecord::record::Feature;

fn dim(size: i64) -> Dim {
    Dim { size, name: String::new() }
}

#[test]
fn feature_conversions_round_trip() {
    let features = vec![
        Feature::BytesList(vec![b"a".to_vec(), vec![]]),
        Feature::FloatList(vec![1.5f32.to_bits(), (-0.0f32).to_bits()]),
        Feature::Int64List(vec![-3, 7]),
        Feature::Empty,
    ];
    for feature in features {
        let raw = RawFeature::from(feature.clone());
        assert_eq!(Feature::from(raw), feature);
    }
    let raw = RawFeature { kind: Some(Kind::Int64List(Int64List { value: vec![1, 2] })) };
    assert_eq!(Feature::from(raw.clone()), Feature::Int64List(vec![1, 2]));
    assert_eq!(RawFeature::from(Feature::from(raw.clone())), raw);
    assert_eq!(Feature::from(RawFeature { kind: None }), Feature::Empty);
}

#[test]
fn feature_kinds_and_accessors() {
    let bytes = RawFeature::from_bytes_list(vec![b"xy".to_vec()]);
    assert_eq!(bytes.as_bytes_list().unwrap(), &[b"xy".to_vec()][..]);
    assert!(bytes.as_f32_list().is_none());
    assert!(bytes.as_i64_list().is_none());
    assert_eq!(bytes.clone().into_kinds(), Some(FeatureKind::Bytes(vec![b"xy".to_vec()])));
    assert_eq!(bytes.clone().into_bytes_list().unwrap(), vec![b"xy".to_vec()]);
    assert_eq!(bytes.clone().into_i64_list().unwrap_err(), bytes);

    let floats = RawFeature::from_f32_list(vec![2.0f32.to_bits()]);
    assert_eq!(floats.as_f32_list().unwrap(), &[2.0f32.to_bits()][..]);
    assert_eq!(floats.clone().into_f32_list().unwrap(), vec![2.0f32.to_bits()]);
    assert_eq!(floats.clone().into_kinds(), Some(FeatureKind::F32(vec![2.0f32.to_bits()])));

    let ints = RawFeature::from_i64_list(vec![4, 5]);
    assert_eq!(ints.as_i64_list().unwrap(), &[4, 5][..]);
    assert_eq!(ints.clone().into_i64_list().unwrap(), vec![4, 5]);
    assert_eq!(ints.clone().into_bytes_list().unwrap_err(), ints);
    assert_eq!(ints.kind, Some(Kind::Int64List(Int64List { value: vec![4, 5] })));

    let empty = RawFeature::empty();
    assert!(empty.kind.is_none());
    assert_eq!(empty.clone().into_kinds(), None);
    assert!(empty.clone().into_f32_list().is_err());
    assert_eq!(RawFeature::from_bytes_list(vec![]).kind, Some(Kind::BytesList(BytesList { value: vec![] })));
    assert_eq!(RawFeature::from_f32_list(vec![]).kind, Some(Kind::FloatList(FloatList { value: vec![] })));
}

#[test]
fn color_spaces() {
    assert_eq!(ColorSpace::Luma.num_channels(), 1);
    assert_eq!(ColorSpace::LumaA.num_channels(), 2);
    assert_eq!(ColorSpace::Rgb.num_channels(), 3);
    assert_eq!(ColorSpace::Rgba.num_channels(), 4);
    assert_eq!(ColorSpace::DigitalYuv.num_channels(), 3);
    assert_eq!(ColorSpace::Bgra.num_channels(), 4);
    assert_eq!(ColorSpace::DigitalYuv.as_i32(), 5);
    assert_eq!(ColorSpace::Bgra.as_i32(), 6);
    assert_eq!(guess_color_space_by_channels(1), Some(ColorSpace::Luma));
    assert_eq!(guess_color_space_by_channels(3), Some(ColorSpace::Rgb));
    assert_eq!(guess_color_space_by_channels(4), Some(ColorSpace::Rgba));
    assert_eq!(guess_color_space_by_channels(2), None);
    assert_eq!(guess_color_space_by_channels(-1), None);
    assert_ne!(TchChannelOrder::CHW, TchChannelOrder::HWC);
}

#[test]
fn data_type_numbers() {
    assert_eq!(DataType::DtInvalid.as_i32(), 0);
    assert_eq!(DataType::DtString.as_i32(), 7);
    assert_eq!(DataType::DtUint64.as_i32(), 23);
    assert_eq!(DataType::DtFloatRef.as_i32(), 101);
    assert_eq!(DataType::DtUint64Ref.as_i32(), 123);
    assert_eq!(DataType::from_i32(9), Some(DataType::DtInt64));
    assert_eq!(DataType::from_i32(24), None);
    assert_eq!(DataType::from_i32(100), None);
    assert_eq!(DataType::from_i32(-1), None);
}

#[test]
fn little_endian_bytes() {
    assert_eq!(0x12u8.to_bytes(), vec![0x12]);
    assert_eq!(0x0102u16.to_bytes(), vec![2, 1]);
    assert_eq!(0x01020304u32.to_bytes(), vec![4, 3, 2, 1]);
    assert_eq!(1u64.to_bytes(), vec![1, 0, 0, 0, 0, 0, 0, 0]);
    assert_eq!((-1i8).to_bytes(), vec![0xff]);
    assert_eq!((-2i16).to_bytes(), vec![0xfe, 0xff]);
    assert_eq!((-2i32).to_bytes(), vec![0xfe, 0xff, 0xff, 0xff]);
    assert_eq!((-1i64).to_bytes(), vec![0xff; 8]);
    assert_eq!(<u16 as ToLeBytes>::data_type(), DataType::DtUint16);
    assert_eq!(<i64 as ToLeBytes>::data_type(), DataType::DtInt64);
}

fn assert_only_content(t: &TensorProto) {
    assert!(t.half_val.is_empty() && t.float_val.is_empty() && t.double_val.is_empty());
    assert!(t.int_val.is_empty() && t.string_val.is_empty() && t.scomplex_val.is_empty());
    assert!(t.int64_val.is_empty() && t.bool_val.is_empty() && t.dcomplex_val.is_empty());
    assert!(t.resource_handle_val.is_empty() && t.variant_val.is_empty());
    assert!(t.uint32_val.is_empty() && t.uint64_val.is_empty());
}

#[test]
fn tensor_init_builds_data_tensor() {
    let t = TensorProtoInit { shape: Some(vec![2, 2]) }.build_with_data(&[1u16, 2, 3, 0x0405]);
    assert_eq!(t.dtype, 17);
    assert_eq!(t.version_number, 0);
    assert_eq!(t.tensor_content, vec![1, 0, 2, 0, 3, 0, 5, 4]);
    let shape = t.tensor_shape.as_ref().unwrap();
    assert_eq!(shape.dim, vec![dim(2), dim(2)]);
    assert!(!shape.unknown_rank);
    assert_only_content(&t);
}

#[test]
fn tensor_init_builds_string_tensor() {
    let t = TensorProtoInit { shape: Some(vec![2]) }.build_string(&[b"ab".to_vec(), vec![]]);
    assert_eq!(t.dtype, 7);
    assert_eq!(t.tensor_content, vec![4, 0, 97, 98]);
    assert_eq!(t.tensor_shape.unwrap().dim, vec![dim(2)]);
    assert!(TensorProtoInit { shape: None }.build_tensor_shape().is_none());
    let s = TensorProtoInit { shape: Some(vec![]) }.build_tensor_shape().unwrap();
    assert!(s.dim.is_empty());
}

#[test]
fn tensor_from_slice() {
    let t = TensorProto::from_slice(vec![3u64], &[1i32, -1, 2]).unwrap();
    assert_eq!(t.dtype, 3);
    assert_eq!(t.tensor_content, vec![1, 0, 0, 0, 255, 255, 255, 255, 2, 0, 0, 0]);
    assert_eq!(t.tensor_shape.as_ref().unwrap().dim, vec![dim(3)]);
    assert_only_content(&t);
    let t = TensorProto::from_slice(vec![1u32, 2usize as u32], &[7u8, 8]).unwrap();
    assert_eq!(t.dtype, 4);
    assert_eq!(t.tensor_content, vec![7, 8]);
}

#[test]
fn tensor_from_byte_slices() {
    let t = TensorProto::from_byte_slices(vec![1usize], &[vec![0u8; 64]]).unwrap();
    assert_eq!(t.dtype, 7);
    let mut expect = vec![0x80, 0x01];
    expect.extend(vec![0u8; 64]);
    assert_eq!(t.tensor_content, expect);
    assert_eq!(t.tensor_shape.unwrap().dim, vec![dim(1)]);
}

#[test]
fn shapes_and_element_counts() {
    assert_eq!(numel(&[dim(2), dim(3), dim(4)]), 24);
    assert_eq!(numel(&[]), 1);
    assert_eq!(numel(&[dim(5), dim(0)]), 0);
    assert_eq!(vec![2u32, 3].to_shape(), vec![dim(2), dim(3)]);
    assert_eq!(vec![7usize].to_shape(), vec![dim(7)]);
    assert_eq!(vec![i64::MAX as u64].to_shape(), vec![dim(i64::MAX)]);
    assert!(Vec::<u64>::new().to_shape().is_empty());
}

#[test]
fn build_methods() {
    match parse_build_method("url://", "https://default") {
        Some(BuildMethod::Url(url)) => assert_eq!(url, "https://default"),
        other => panic!("unexpected {:?}", other),
    }
    match parse_build_method("url://https://x/y.tar.gz", "d") {
        Some(BuildMethod::Url(url)) => assert_eq!(url, "https://x/y.tar.gz"),
        other => panic!("unexpected {:?}", other),
    }
    match parse_build_method("src_dir:///home/tf", "d") {
        Some(BuildMethod::SrcDir(dir)) => assert_eq!(dir, "/home/tf"),
        other => panic!("unexpected {:?}", other),
    }
    match parse_build_method("src_file:///tf.tar.gz", "d") {
        Some(BuildMethod::SrcFile(file)) => assert_eq!(file, "/tf.tar.gz"),
        other => panic!("unexpected {:?}", other),
    }
    match parse_build_method("install_prefix:///usr", "d") {
        Some(BuildMethod::InstallPrefix(prefix)) => assert_eq!(prefix, "/usr"),
        other => panic!("unexpected {:?}", other),
    }
    assert!(parse_build_method("ftp://x", "d").is_none());
    assert!(parse_build_method("", "d").is_none());
    assert_eq!(strip_prefix("héllo", "hé"), Some("llo"));
    assert_eq!(strip_prefix("he", "hello"), None);
}

#[test]
fn event_file_names() {
    let name = create_tf_style_file_name("logs/run-", "run-", 1234, "host", ".v2").unwrap();
    assert_eq!(name, "run-.out.tfevents.1234.host.v2");
    match create_tf_style_file_name("", "", 1, "h", "") {
        Err(Error::ConversionError { desc }) => assert_eq!(desc, "the prefix must not be empty"),
        other => panic!("unexpected {:?}", other),
    }
}

#[test]
fn configuration_defaults() {
    let init = DatasetInit::default();
    assert!(init.check_integrity);
    assert_eq!(init.max_open_files, None);
    assert_eq!(init.max_workers, None);
    assert!(EventWriterConfig::default().auto_flush);
    let summary = SummaryInit::new("loss");
    assert_eq!(summary.tag, "loss");
}

#[test]
fn decimal_notation() {
    assert_eq!(decimal_string(0), "0");
    assert_eq!(decimal_string(7), "7");
    assert_eq!(decimal_string(10), "10");
    assert_eq!(decimal_string(1_700_000_000_123_456), "1700000000123456");
    assert_eq!(decimal_string(u128::MAX), u128::MAX.to_string());
}

#[test]
fn hwc_samples_packed_and_planar() {
    // Two pixels wide, one high, two channels, packed: [c0 c1 c0 c1].
    let packed = SampleLayout {
        channels: 2,
        channel_stride: 1,
        width: 2,
        width_stride: 2,
        height: 1,
        height_stride: 4,
    };
    assert_eq!(hwc_samples(packed, &[1u8, 2, 3, 4]), vec![1, 2, 3, 4]);
    // The same image stored plane by plane: [c0 c0 c1 c1].
    let planar = SampleLayout {
        channels: 2,
        channel_stride: 2,
        width: 2,
        width_stride: 1,
        height: 1,
        height_stride: 2,
    };
    assert_eq!(hwc_samples(planar, &[1u8, 3, 2, 4]), vec![1, 2, 3, 4]);
    // Two rows of one pixel with a padded row stride.
    let padded = SampleLayout {
        channels: 1,
        channel_stride: 1,
        width: 1,
        width_stride: 1,
        height: 2,
        height_stride: 3,
    };
    assert_eq!(hwc_samples(padded, &[7u16, 0, 0, 9]), vec![7, 9]);
    let empty = SampleLayout { channels: 0, channel_stride: 1, width: 5, width_stride: 1, height: 5, height_stride: 1 };
    assert!(hwc_samples(empty, &[0u8; 0]).is_empty());
}

#[test]
fn tensor_from_flat_samples() {
    let planar = SampleLayout {
        channels: 2,
        channel_stride: 2,
        width: 2,
        width_stride: 1,
        height: 1,
        height_stride: 2,
    };
    let t = TensorProto::from_flat_samples(planar, &[1u16, 3, 2, 4]).unwrap();
    assert_eq!(t.dtype, DataType::DtUint16.as_i32());
    let shape = t.tensor_shape.unwrap();
    assert_eq!(shape.dim.iter().map(|d| d.size).collect::<Vec<_>>(), vec![1, 2, 2]);
    assert_eq!(t.tensor_content, vec![1, 0, 2, 0, 3, 0, 4, 0]);
}

#[test]
fn color_space_of_color_type() {
    assert_eq!(ColorSpace::try_from_color_type(ColorType::L8).unwrap(), ColorSpace::Luma);
    assert_eq!(ColorSpace::try_from_color_type(ColorType::La16).unwrap(), ColorSpace::LumaA);
    assert_eq!(ColorSpace::try_from_color_type(ColorType::Rgb16).unwrap(), ColorSpace::Rgb);
    assert_eq!(ColorSpace::try_from_color_type(ColorType::Rgba8).unwrap(), ColorSpace::Rgba);
    assert_eq!(ColorSpace::try_from_color_type(ColorType::Bgra8).unwrap(), ColorSpace::Bgra);
    for rejected in [ColorType::Bgr8, ColorType::Other] {
        match ColorSpace::try_from_color_type(rejected) {
            Err(Error::ConversionError { desc }) => assert_eq!(desc, "color space is not supported"),
            other => panic!("unexpected {:?}", other),
        }
    }
}

#[test]
fn string_tensor_lengths_are_zigzag_varints() {
    let long = vec![b'x'; 300];
    let t = TensorProtoInit { shape: Some(vec![1]) }.build_string(&[long.clone()]);
    // 300 zigzags to 600 = 4 * 128 + 88.
    assert_eq!(&t.tensor_content[..2], &[0xD8, 0x04]);
    assert_eq!(&t.tensor_content[2..], long.as_slice());
    let t = TensorProto::from_byte_slices(vec![1u64], &[vec![0u8; 63]]).unwrap();
    assert_eq!(t.tensor_content[0], 126);
}

#[test]
fn install_prefix_directory() {
    assert_eq!(install_prefix_proto_dir("/usr"), "/usr/include/tensorflow");
    assert_eq!(install_prefix_proto_dir("/usr/"), "/usr/include/tensorflow");
    assert_eq!(install_prefix_proto_dir(""), "include/tensorflow");
    assert_eq!(
        std::path::Path::new("/opt/tf").join("include").join("tensorflow").to_str().unwrap(),
        install_prefix_proto_dir("/opt/tf")
    );
}
