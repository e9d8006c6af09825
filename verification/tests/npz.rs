use std::io::{Cursor, Write};

use flate2::write::GzEncoder;
use flate2::Compression;
use ndarray::{Array1, Array2};
use ndarray_npy::NpzWriter;
use weathergraph::features::ArrayDtype;
use weathergraph::npz::{npz_archive_entries, npz_bundle};
use weathergraph::WeatherGraphError;

fn fixture() -> Vec<u8> {
    let mut writer = NpzWriter::new(Cursor::new(Vec::<u8>::new()));
    writer
        .add_array("values", &Array2::<f32>::zeros((2, 2)))
        .expect("write values");
    writer
        .add_array("indices", &Array1::from_vec(vec![0_i64, 1, 2]))
        .expect("write indices");
    writer
        .add_array("mask", &Array1::from_vec(vec![1_u8, 0]))
        .expect("write mask");
    let archive = writer.finish().expect("finish npz").into_inner();
    let mut encoder = GzEncoder::new(Vec::new(), Compression::default());
    encoder.write_all(&archive).expect("compress");
    encoder.finish().expect("finish gzip")
}

#[test]
fn archive_lists_array_names_in_order() {
    let (archive, names) = npz_archive_entries(&fixture()).expect("entries");
    assert!(!archive.is_empty());
    assert_eq!(names, vec!["values".to_owned(), "indices".to_owned(), "mask".to_owned()]);
}

#[test]
fn integer_arrays_get_their_type_and_shape() {
    let (archive, names) = npz_archive_entries(&fixture()).expect("entries");
    let floats = vec![Some((ArrayDtype::F32, vec![2, 2])), None, None];
    let bundle = npz_bundle(&archive, &names, &floats, "dir/a.npz.gz").expect("bundle");
    assert_eq!(bundle.source, "dir/a.npz.gz");
    assert_eq!(bundle.arrays[0].dtype, ArrayDtype::F32);
    assert_eq!(bundle.arrays[0].shape, vec![2, 2]);
    assert_eq!(bundle.arrays[1].dtype, ArrayDtype::I64);
    assert_eq!(bundle.arrays[1].shape, vec![3]);
    assert_eq!(bundle.arrays[2].dtype, ArrayDtype::U8);
    assert_eq!(bundle.arrays[2].shape, vec![2]);
}

#[test]
fn array_of_no_known_type_is_unsupported() {
    let (archive, names) = npz_archive_entries(&fixture()).expect("entries");
    let error = npz_bundle(&archive, &names, &vec![None, None, None], "a").unwrap_err();
    assert!(matches!(
        error,
        WeatherGraphError::UnsupportedDtype { ref name, ref dtype } if name == "values" && dtype == "unknown"
    ));
}

#[test]
fn broken_streams_are_reported() {
    assert!(matches!(npz_archive_entries(&[1, 2, 3]), Err(WeatherGraphError::Io(_))));
    let mut encoder = GzEncoder::new(Vec::new(), Compression::default());
    encoder.write_all(b"not a zip archive").expect("compress");
    let gz = encoder.finish().expect("finish gzip");
    assert!(matches!(npz_archive_entries(&gz), Err(WeatherGraphError::ReadNpz(_))));
}
