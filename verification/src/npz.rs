//! Reading the array list of a gzip-compressed `.npz` artifact: the names of
//! its arrays, and for each the first element type, in a fixed order of
//! trial, under which it decodes, with its shape. The two floating-point
//! types come first in that order; their trials are made by the caller, the
//! integer ones here.

use vstd::prelude::*;

use ndarray::{IxDyn, OwnedRepr};
use std::io::Read;

use crate::error::{is_unsupported_dtype, Result, WeatherGraphError};
use crate::features::{ArrayDtype, FeatureBundle, NamedArray};

verus! {

/// The content of a gzip stream (`GzDecoder::read_to_end`); `None` when the
/// stream is broken.
pub uninterp spec fn gunzip(bytes: Seq<u8>) -> Option<Seq<u8>>;

/// The names of the arrays of an `.npz` archive, without their `.npy`
/// suffix, in archive order (`NpzReader::new`, then `names`); `None` when the
/// archive cannot be read.
pub uninterp spec fn npz_names(archive: Seq<u8>) -> Option<Seq<Seq<char>>>;

/// The shape of the array `name` of an `.npz` archive when it decodes with
/// the element type numbered `dtype_code` (see `dtype_code`) (`NpzReader::by_name`).
pub uninterp spec fn npz_shape_as(archive: Seq<u8>, name: Seq<char>, dtype_code: u8) -> Option<
    Seq<usize>,
>;

/// The number of an element type: its position in the order of trial.
pub open spec fn dtype_code(d: ArrayDtype) -> u8 {
    match d {
        ArrayDtype::F32 => 0,
        ArrayDtype::F64 => 1,
        ArrayDtype::I64 => 2,
        ArrayDtype::I32 => 3,
        ArrayDtype::U32 => 4,
        ArrayDtype::U8 => 5,
    }
}

/// The element types in the order in which an array is tried.
pub open spec fn trial_dtypes() -> Seq<ArrayDtype> {
    seq![
        ArrayDtype::F32,
        ArrayDtype::F64,
        ArrayDtype::I64,
        ArrayDtype::I32,
        ArrayDtype::U32,
        ArrayDtype::U8,
    ]
}

/// `GzDecoder::new(bytes).read_to_end`: the decompressed stream, or the
/// reader's error.
#[verifier::external_body]
fn gunzip_bytes(compressed: &[u8]) -> (r: core::result::Result<Vec<u8>, std::io::Error>)
    ensures
        r is Ok <==> gunzip(compressed@) is Some,
        r matches Ok(v) ==> v@ == gunzip(compressed@)->0,
{
    let mut out = Vec::new();
    flate2::read::GzDecoder::new(compressed).read_to_end(&mut out)?;
    Ok(out)
}

/// `NpzReader::new` on the archive, then `NpzReader::names`.
#[verifier::external_body]
fn npz_entry_names(archive: &[u8]) -> (r: core::result::Result<
    Vec<String>,
    ndarray_npy::ReadNpzError,
>)
    ensures
        r is Ok <==> npz_names(archive@) is Some,
        r matches Ok(v) ==> v@.map_values(|n: String| n@) == npz_names(archive@)->0,
{
    let mut reader = ndarray_npy::NpzReader::new(std::io::Cursor::new(archive))?;
    reader.names()
}

/// `NpzReader::by_name` with the integer element type `dtype`: the array's
/// shape if it decodes so.
#[verifier::external_body]
fn npz_entry_shape(archive: &[u8], name: &str, dtype: ArrayDtype) -> (r: Option<Vec<usize>>)
    requires
        dtype_code(dtype) >= 2,
    ensures
        r matches Some(s) ==> npz_shape_as(archive@, name@, dtype_code(dtype)) == Some(s@),
        r is None ==> npz_shape_as(archive@, name@, dtype_code(dtype)) is None,
{
    let mut z = ndarray_npy::NpzReader::new(std::io::Cursor::new(archive)).ok()?;
    let shape = match dtype {
        ArrayDtype::I64 => z.by_name::<OwnedRepr<i64>, IxDyn>(name).ok()?.shape().to_vec(),
        ArrayDtype::I32 => z.by_name::<OwnedRepr<i32>, IxDyn>(name).ok()?.shape().to_vec(),
        ArrayDtype::U32 => z.by_name::<OwnedRepr<u32>, IxDyn>(name).ok()?.shape().to_vec(),
        _ => z.by_name::<OwnedRepr<u8>, IxDyn>(name).ok()?.shape().to_vec(),
    };
    Some(shape)
}

/// The first element type from position `k` of the order of trial under
/// which the array decodes, with its shape.
pub open spec fn decode_from(archive: Seq<u8>, name: Seq<char>, k: int) -> Option<
    (ArrayDtype, Seq<usize>),
>
    decreases 6 - k,
{
    if k < 0 || k >= 6 {
        None
    } else {
        match npz_shape_as(archive, name, dtype_code(trial_dtypes()[k])) {
            Some(s) => Some((trial_dtypes()[k], s)),
            None => decode_from(archive, name, k + 1),
        }
    }
}

/// The element type and shape of an array: the outcome `float` of the
/// floating-point trials when they succeeded, otherwise the first integer
/// type in the order i64, i32, u32, u8 under which it decodes.
pub open spec fn entry_decoding(
    float: Option<(ArrayDtype, Seq<usize>)>,
    archive: Seq<u8>,
    name: Seq<char>,
) -> Option<(ArrayDtype, Seq<usize>)> {
    match float {
        Some(x) => Some(x),
        None => decode_from(archive, name, 2),
    }
}

/// The outcome of the floating-point trials in mathematical form.
pub open spec fn float_view(f: Option<(ArrayDtype, Vec<usize>)>) -> Option<(ArrayDtype, Seq<usize>)> {
    match f {
        Some((d, s)) => Some((d, s@)),
        None => None,
    }
}

/// `i` is the first array that decodes under no element type.
pub open spec fn first_undecodable(
    archive: Seq<u8>,
    names: Seq<Seq<char>>,
    floats: Seq<Option<(ArrayDtype, Vec<usize>)>>,
    i: int,
) -> bool {
    &&& 0 <= i < names.len()
    &&& entry_decoding(float_view(floats[i]), archive, names[i]) is None
    &&& forall|j: int|
        0 <= j < i ==> entry_decoding(float_view(#[trigger] floats[j]), archive, names[j]) is Some
}

/// The integer trials of an array, in the order i64, i32, u32, u8, each type
/// tried once: the array takes the first integer type under which it
/// decodes, with the shape it decodes to, and none when it decodes under no
/// integer type.
pub proof fn lemma_integer_trial_order(archive: Seq<u8>, name: Seq<char>)
    ensures
        ({
            let as_i64 = npz_shape_as(archive, name, dtype_code(ArrayDtype::I64));
            let as_i32 = npz_shape_as(archive, name, dtype_code(ArrayDtype::I32));
            let as_u32 = npz_shape_as(archive, name, dtype_code(ArrayDtype::U32));
            let as_u8 = npz_shape_as(archive, name, dtype_code(ArrayDtype::U8));
            let r = decode_from(archive, name, 2);
            &&& as_i64 is Some ==> r == Some((ArrayDtype::I64, as_i64->0))
            &&& as_i64 is None && as_i32 is Some ==> r == Some((ArrayDtype::I32, as_i32->0))
            &&& as_i64 is None && as_i32 is None && as_u32 is Some ==> r == Some(
                (ArrayDtype::U32, as_u32->0),
            )
            &&& as_i64 is None && as_i32 is None && as_u32 is None && as_u8 is Some ==> r == Some(
                (ArrayDtype::U8, as_u8->0),
            )
            &&& as_i64 is None && as_i32 is None && as_u32 is None && as_u8 is None ==> r is None
        }),
{
    reveal_with_fuel(decode_from, 5);
}

fn decode_integer_entry(archive: &[u8], name: &str) -> (r: Option<(ArrayDtype, Vec<usize>)>)
    ensures
        float_view(r) == decode_from(archive@, name@, 2),
{
    let dtypes = [
        ArrayDtype::F32,
        ArrayDtype::F64,
        ArrayDtype::I64,
        ArrayDtype::I32,
        ArrayDtype::U32,
        ArrayDtype::U8,
    ];
    assert(dtypes@ == trial_dtypes());
    for k in 2..6usize
        invariant
            dtypes@ == trial_dtypes(),
            decode_from(archive@, name@, 2) == decode_from(archive@, name@, k as int),
    {
        match npz_entry_shape(archive, name, dtypes[k]) {
            Some(s) => {
                return Some((dtypes[k], s));
            },
            None => {},
        }
    }
    None
}

/// The names of the arrays of a gzip-compressed `.npz` artifact, with the
/// decompressed archive. A broken gzip stream is an `Io` error, an
/// unreadable archive a `ReadNpz` error.
pub fn npz_archive_entries(compressed: &[u8]) -> (r: Result<(Vec<u8>, Vec<String>)>)
    ensures
        r is Ok <==> (gunzip(compressed@) matches Some(a) && npz_names(a) is Some),
        gunzip(compressed@) is None ==> (r matches Err(e) && e is Io),
        gunzip(compressed@) matches Some(a) && npz_names(a) is None ==> (r matches Err(e)
            && e is ReadNpz),
        r matches Ok((archive, names)) ==> gunzip(compressed@) == Some(archive@) && npz_names(
            archive@,
        ) == Some(names@.map_values(|n: String| n@)),
{
    let archive = match gunzip_bytes(compressed) {
        Ok(a) => a,
        Err(e) => {
            return Err(WeatherGraphError::Io(e));
        },
    };
    let names = match npz_entry_names(archive.as_slice()) {
        Ok(n) => n,
        Err(e) => {
            return Err(WeatherGraphError::ReadNpz(e));
        },
    };
    Ok((archive, names))
}

/// The arrays of an `.npz` archive read from `source`, given for each name
/// the outcome `floats[i]` of its floating-point trials: each array's name,
/// its element type (the floating-point outcome if any, otherwise the first
/// of i64, i32, u32, u8 under which it decodes) and its shape. The first
/// array that decodes under none of the types is an unsupported element
/// type `unknown`.
pub fn npz_bundle(
    archive: &[u8],
    names: &Vec<String>,
    floats: &Vec<Option<(ArrayDtype, Vec<usize>)>>,
    source: &str,
) -> (r: Result<FeatureBundle>)
    requires
        floats@.len() == names@.len(),
    ensures
        r is Ok <==> forall|i: int|
            0 <= i < names@.len() ==> entry_decoding(
                float_view(floats@[i]),
                archive@,
                #[trigger] names@[i]@,
            ) is Some,
        r matches Ok(b) ==> {
            &&& b.source@ == source@
            &&& b.arrays@.len() == names@.len()
            &&& forall|i: int|
                0 <= i < names@.len() ==> (#[trigger] b.arrays@[i]).name@ == names@[i]@
                    && entry_decoding(float_view(floats@[i]), archive@, names@[i]@) == Some(
                    (b.arrays@[i].dtype, b.arrays@[i].shape@),
                )
        },
        r matches Err(e) ==> exists|i: int|
            first_undecodable(archive@, names@.map_values(|n: String| n@), floats@, i)
                && is_unsupported_dtype(e, #[trigger] names@[i]@, "unknown"@),
        r matches Ok(b) ==> forall|i: int|
            #![trigger b.arrays@[i]]
            0 <= i < names@.len() ==> {
                let a = b.arrays@[i];
                let as_i64 = npz_shape_as(archive@, names@[i]@, dtype_code(ArrayDtype::I64));
                let as_i32 = npz_shape_as(archive@, names@[i]@, dtype_code(ArrayDtype::I32));
                let as_u32 = npz_shape_as(archive@, names@[i]@, dtype_code(ArrayDtype::U32));
                let as_u8 = npz_shape_as(archive@, names@[i]@, dtype_code(ArrayDtype::U8));
                &&& floats@[i] matches Some((d, s)) ==> a.dtype == d && a.shape@ == s@
                &&& floats@[i] is None && as_i64 is Some ==> a.dtype == ArrayDtype::I64
                    && a.shape@ == as_i64->0
                &&& floats@[i] is None && as_i64 is None && as_i32 is Some ==> a.dtype
                    == ArrayDtype::I32 && a.shape@ == as_i32->0
                &&& floats@[i] is None && as_i64 is None && as_i32 is None && as_u32 is Some
                    ==> a.dtype == ArrayDtype::U32 && a.shape@ == as_u32->0
                &&& floats@[i] is None && as_i64 is None && as_i32 is None && as_u32 is None
                    && as_u8 is Some ==> a.dtype == ArrayDtype::U8 && a.shape@ == as_u8->0
            },
        forall|i: int|
            #![trigger names@[i]]
            0 <= i < names@.len() && floats@[i] is None && npz_shape_as(
                archive@,
                names@[i]@,
                dtype_code(ArrayDtype::I64),
            ) is None && npz_shape_as(archive@, names@[i]@, dtype_code(ArrayDtype::I32)) is None
                && npz_shape_as(archive@, names@[i]@, dtype_code(ArrayDtype::U32)) is None
                && npz_shape_as(archive@, names@[i]@, dtype_code(ArrayDtype::U8)) is None
                ==> r is Err,
{
    proof {
        assert forall|i: int|
            #![trigger names@[i]]
            0 <= i < names@.len() && floats@[i] is None && npz_shape_as(
                archive@,
                names@[i]@,
                dtype_code(ArrayDtype::I64),
            ) is None && npz_shape_as(archive@, names@[i]@, dtype_code(ArrayDtype::I32)) is None
                && npz_shape_as(archive@, names@[i]@, dtype_code(ArrayDtype::U32)) is None
                && npz_shape_as(archive@, names@[i]@, dtype_code(ArrayDtype::U8)) is None
            implies entry_decoding(float_view(floats@[i]), archive@, names@[i]@) is None by {
            lemma_integer_trial_order(archive@, names@[i]@);
        }
    }
    let ghost nv = names@.map_values(|n: String| n@);
    let mut arrays: Vec<NamedArray> = Vec::new();
    for i in 0..names.len()
        invariant
            nv == names@.map_values(|n: String| n@),
            floats@.len() == names@.len(),
            arrays@.len() == i,
            forall|j: int|
                0 <= j < i ==> (#[trigger] arrays@[j]).name@ == names@[j]@ && entry_decoding(
                    float_view(floats@[j]),
                    archive@,
                    names@[j]@,
                ) == Some((arrays@[j].dtype, arrays@[j].shape@)),
    {
        assert(nv[i as int] == names@[i as int]@);
        let found = match &floats[i] {
            Some((dtype, shape)) => Some((*dtype, crate::model::clone_shape(shape))),
            None => decode_integer_entry(archive, names[i].as_str()),
        };
        match found {
            Some((dtype, shape)) => {
                arrays.push(NamedArray { name: names[i].clone(), dtype, shape });
            },
            None => {
                let e = WeatherGraphError::UnsupportedDtype {
                    name: names[i].clone(),
                    dtype: "unknown".to_owned(),
                };
                assert forall|j: int| 0 <= j < i implies entry_decoding(
                    float_view(#[trigger] floats@[j]),
                    archive@,
                    nv[j],
                ) is Some by {
                    assert(nv[j] == names@[j]@);
                    assert(arrays@[j].name@ == names@[j]@);
                }
                assert(first_undecodable(archive@, nv, floats@, i as int));
                return Err(e);
            },
        }
    }
    assert forall|i: int| 0 <= i < names@.len() implies entry_decoding(
        float_view(floats@[i]),
        archive@,
        #[trigger] names@[i]@,
    ) is Some by {
        assert(arrays@[i].name@ == names@[i]@);
    }
    let b = FeatureBundle { source: source.to_owned(), arrays };
    assert forall|i: int|
        #![trigger b.arrays@[i]]
        0 <= i < names@.len() implies {
            let a = b.arrays@[i];
            let as_i64 = npz_shape_as(archive@, names@[i]@, dtype_code(ArrayDtype::I64));
            let as_i32 = npz_shape_as(archive@, names@[i]@, dtype_code(ArrayDtype::I32));
            let as_u32 = npz_shape_as(archive@, names@[i]@, dtype_code(ArrayDtype::U32));
            let as_u8 = npz_shape_as(archive@, names@[i]@, dtype_code(ArrayDtype::U8));
            &&& floats@[i] matches Some((d, s)) ==> a.dtype == d && a.shape@ == s@
            &&& floats@[i] is None && as_i64 is Some ==> a.dtype == ArrayDtype::I64 && a.shape@
                == as_i64->0
            &&& floats@[i] is None && as_i64 is None && as_i32 is Some ==> a.dtype
                == ArrayDtype::I32 && a.shape@ == as_i32->0
            &&& floats@[i] is None && as_i64 is None && as_i32 is None && as_u32 is Some ==> a.dtype
                == ArrayDtype::U32 && a.shape@ == as_u32->0
            &&& floats@[i] is None && as_i64 is None && as_i32 is None && as_u32 is None
                && as_u8 is Some ==> a.dtype == ArrayDtype::U8 && a.shape@ == as_u8->0
        } by {
        lemma_integer_trial_order(archive@, names@[i]@);
        assert(b.arrays@[i] == arrays@[i]);
    }
    Ok(b)
}

} // verus!
