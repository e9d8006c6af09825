//! Bookkeeping of the arrays stored in `.npz.gz` artifacts: element types,
//! names and their stems, lookup by name, summaries, and the conversion of
//! index arrays.

use vstd::prelude::*;

use crate::error::{
    is_invalid_config, is_missing_artifact, is_unsupported_dtype, Result, WeatherGraphError,
};
use crate::paths::{file_name_of, path_file_name};
use crate::text::{
    concat3, ends_with, eq_ignore_ascii_case, eq_ignore_ascii_case_spec, join_spec, join_strs,
    sort_texts, str_views, string_views, texts_sorted, trim_end_all, trim_end_matches,
};

verus! {

/// Element type of a stored array.
#[derive(Debug, Clone, Copy, PartialEq, Eq, Structural)]
pub enum ArrayDtype {
    F32,
    F64,
    I64,
    I32,
    U32,
    U8,
}

/// The short name of an element type.
pub open spec fn dtype_name(d: ArrayDtype) -> Seq<char> {
    match d {
        ArrayDtype::F32 => "f32"@,
        ArrayDtype::F64 => "f64"@,
        ArrayDtype::I64 => "i64"@,
        ArrayDtype::I32 => "i32"@,
        ArrayDtype::U32 => "u32"@,
        ArrayDtype::U8 => "u8"@,
    }
}

impl ArrayDtype {
    /// The short name of the element type (`f32`, `i64`, ...).
    pub fn as_str(&self) -> (r: &'static str)
        ensures
            r@ == dtype_name(*self),
    {
        match self {
            ArrayDtype::F32 => "f32",
            ArrayDtype::F64 => "f64",
            ArrayDtype::I64 => "i64",
            ArrayDtype::I32 => "i32",
            ArrayDtype::U32 => "u32",
            ArrayDtype::U8 => "u8",
        }
    }
}

/// The values of an array that is used as a list of node indices.
#[derive(Debug, Clone)]
pub enum IndexValues {
    U32(Vec<u32>),
    I32(Vec<i32>),
    I64(Vec<i64>),
    /// An array of another element type, which cannot hold indices.
    Other(ArrayDtype),
}

/// The error message for index values that do not fit `u32`.
pub open spec fn index_conversion_message(values: IndexValues, name: Seq<char>) -> Seq<char> {
    match values {
        IndexValues::I32(_) => "negative value in `"@ + name + "` cannot be converted to u32"@,
        _ => "value in `"@ + name + "` cannot be converted to u32"@,
    }
}

/// `e` is the error that converting `values`, named `name`, to `u32`
/// indices gives.
pub open spec fn is_index_conversion_error(
    e: WeatherGraphError,
    values: IndexValues,
    name: Seq<char>,
) -> bool {
    match values {
        IndexValues::Other(d) => is_unsupported_dtype(e, name, dtype_name(d)),
        _ => is_invalid_config(e, index_conversion_message(values, name)),
    }
}

/// No value is negative.
pub open spec fn all_non_negative(v: Seq<i32>) -> bool {
    forall|i: int| 0 <= i < v.len() ==> #[trigger] v[i] >= 0
}

/// Every value lies in the range of `u32`.
pub open spec fn all_in_u32_range(v: Seq<i64>) -> bool {
    forall|i: int| 0 <= i < v.len() ==> 0 <= #[trigger] v[i] <= u32::MAX
}

/// Every value lies in the range of `u32`; arrays of another element type
/// never do.
pub open spec fn index_values_fit(values: IndexValues) -> bool {
    match values {
        IndexValues::U32(_) => true,
        IndexValues::I32(v) => all_non_negative(v@),
        IndexValues::I64(v) => all_in_u32_range(v@),
        IndexValues::Other(_) => false,
    }
}

/// The number of values.
pub open spec fn index_count(values: IndexValues) -> nat {
    match values {
        IndexValues::U32(v) => v@.len(),
        IndexValues::I32(v) => v@.len(),
        IndexValues::I64(v) => v@.len(),
        IndexValues::Other(_) => 0,
    }
}

/// The `i`-th value as an integer.
pub open spec fn index_value_at(values: IndexValues, i: int) -> int {
    match values {
        IndexValues::U32(v) => v@[i] as int,
        IndexValues::I32(v) => v@[i] as int,
        IndexValues::I64(v) => v@[i] as int,
        IndexValues::Other(_) => 0,
    }
}

impl IndexValues {
    /// The values as `u32` indices. Signed values must all lie in the range
    /// of `u32`; another element type is refused as unsupported.
    pub fn to_u32_vec(&self, name: &str) -> (r: Result<Vec<u32>>)
        ensures
            r is Ok <==> index_values_fit(*self),
            r matches Ok(out) ==> out@.len() == index_count(*self) && forall|i: int|
                0 <= i < out@.len() ==> out@[i] == #[trigger] index_value_at(*self, i),
            r matches Err(e) ==> is_index_conversion_error(e, *self, name@),
    {
        match self {
            IndexValues::U32(v) => {
                let mut out: Vec<u32> = Vec::new();
                for i in 0..v.len()
                    invariant
                        *self == IndexValues::U32(*v),
                        out@.len() == i,
                        forall|k: int| 0 <= k < i ==> out@[k] == v@[k],
                {
                    out.push(v[i]);
                }
                Ok(out)
            },
            IndexValues::I32(v) => {
                let mut out: Vec<u32> = Vec::new();
                for i in 0..v.len()
                    invariant
                        *self == IndexValues::I32(*v),
                        out@.len() == i,
                        forall|k: int| 0 <= k < i ==> v@[k] >= 0 && out@[k] == v@[k],
                {
                    if v[i] < 0 {
                        assert(v@[i as int] < 0);
                        assert(*self == IndexValues::I32(*v));
                        assert(!all_non_negative(v@));
                        return Err(
                            WeatherGraphError::InvalidConfig(
                                concat3("negative value in `", name, "` cannot be converted to u32"),
                            ),
                        );
                    }
                    out.push(v[i] as u32);
                }
                Ok(out)
            },
            IndexValues::I64(v) => {
                let mut out: Vec<u32> = Vec::new();
                for i in 0..v.len()
                    invariant
                        *self == IndexValues::I64(*v),
                        out@.len() == i,
                        forall|k: int| 0 <= k < i ==> 0 <= #[trigger] v@[k] <= u32::MAX && out@[k] == v@[k],
                {
                    if v[i] < 0 || v[i] > 4294967295i64 {
                        assert(!(0 <= v@[i as int] <= u32::MAX));
                        assert(*self == IndexValues::I64(*v));
                        assert(!all_in_u32_range(v@));
                        return Err(
                            WeatherGraphError::InvalidConfig(
                                concat3("value in `", name, "` cannot be converted to u32"),
                            ),
                        );
                    }
                    out.push(v[i] as u32);
                }
                Ok(out)
            },
            IndexValues::Other(d) => Err(
                WeatherGraphError::UnsupportedDtype {
                    name: name.to_owned(),
                    dtype: d.as_str().to_owned(),
                },
            ),
        }
    }
}

/// An array stored in an artifact: its name, element type and shape.
#[derive(Debug, Clone)]
pub struct NamedArray {
    pub name: String,
    pub dtype: ArrayDtype,
    pub shape: Vec<usize>,
}

/// An array's name without its trailing `.npy` suffixes.
pub open spec fn stem_spec(name: Seq<char>) -> Seq<char> {
    trim_end_all(name, ".npy"@)
}

impl NamedArray {
    /// The array's shape.
    pub fn shape(&self) -> (r: Vec<usize>)
        ensures
            r@ == self.shape@,
    {
        copy_shape(&self.shape)
    }

    /// The array's name without its trailing `.npy` suffixes.
    pub fn stem(&self) -> (r: String)
        ensures
            r@ == stem_spec(self.name@),
    {
        trim_end_matches(self.name.as_str(), ".npy")
    }
}

fn copy_shape(v: &Vec<usize>) -> (r: Vec<usize>)
    ensures
        r@ == v@,
{
    let mut r: Vec<usize> = Vec::new();
    for i in 0..v.len()
        invariant
            r@ == v@.subrange(0, i as int),
    {
        r.push(v[i]);
        assert(r@ =~= v@.subrange(0, i + 1));
    }
    assert(r@ =~= v@);
    r
}

/// Name, element type and shape of one array of an artifact.
#[derive(Debug, Clone, PartialEq, Eq)]
pub struct ArraySummary {
    pub name: String,
    pub dtype: String,
    pub shape: Vec<usize>,
}

/// The file name, path and arrays of an artifact.
#[derive(Debug, Clone, PartialEq, Eq)]
pub struct ArtifactSummary {
    pub file_name: String,
    pub path: String,
    pub arrays: Vec<ArraySummary>,
}

/// The arrays of one artifact file.
#[derive(Debug, Clone)]
pub struct FeatureBundle {
    pub source: String,
    pub arrays: Vec<NamedArray>,
}

/// The array's stem equals `candidate` up to ASCII case.
pub open spec fn stem_matches(a: NamedArray, candidate: Seq<char>) -> bool {
    eq_ignore_ascii_case_spec(stem_spec(a.name@), candidate)
}

/// `i` is the first array whose stem matches `candidate`.
pub open spec fn is_first_match(arrays: Seq<NamedArray>, candidate: Seq<char>, i: int) -> bool {
    &&& 0 <= i < arrays.len()
    &&& stem_matches(arrays[i], candidate)
    &&& forall|j: int| 0 <= j < i ==> !stem_matches(#[trigger] arrays[j], candidate)
}

/// No array's stem matches `candidate`.
pub open spec fn no_match(arrays: Seq<NamedArray>, candidate: Seq<char>) -> bool {
    forall|j: int| 0 <= j < arrays.len() ==> !stem_matches(#[trigger] arrays[j], candidate)
}

/// Some candidate matches an array.
pub open spec fn some_candidate_matches(arrays: Seq<NamedArray>, candidates: Seq<Seq<char>>) -> bool {
    exists|c: int| 0 <= c < candidates.len() && !no_match(arrays, #[trigger] candidates[c])
}

impl FeatureBundle {
    /// Summary of the artifact: the final component of its path (empty if
    /// it has none), the path, and each array's stem, element type and shape.
    pub fn summary(&self) -> (r: ArtifactSummary)
        ensures
            r.file_name@ == match path_file_name(self.source@) {
                Some(f) => f,
                None => Seq::empty(),
            },
            r.path@ == self.source@,
            r.arrays@.len() == self.arrays@.len(),
            forall|i: int|
                0 <= i < self.arrays@.len() ==> {
                    &&& (#[trigger] r.arrays@[i]).name@ == stem_spec(self.arrays@[i].name@)
                    &&& r.arrays@[i].dtype@ == dtype_name(self.arrays@[i].dtype)
                    &&& r.arrays@[i].shape@ == self.arrays@[i].shape@
                },
    {
        let file_name = match file_name_of(self.source.as_str()) {
            Some(f) => f,
            None => String::new(),
        };
        let mut arrays: Vec<ArraySummary> = Vec::new();
        for i in 0..self.arrays.len()
            invariant
                arrays@.len() == i,
                forall|k: int|
                    0 <= k < i ==> {
                        &&& (#[trigger] arrays@[k]).name@ == stem_spec(self.arrays@[k].name@)
                        &&& arrays@[k].dtype@ == dtype_name(self.arrays@[k].dtype)
                        &&& arrays@[k].shape@ == self.arrays@[k].shape@
                    },
        {
            let entry = &self.arrays[i];
            arrays.push(
                ArraySummary {
                    name: entry.stem(),
                    dtype: entry.dtype.as_str().to_owned(),
                    shape: entry.shape(),
                },
            );
        }
        ArtifactSummary { file_name, path: self.source.clone(), arrays }
    }

    /// The first array, if any.
    pub fn first_array(&self) -> (r: Option<&NamedArray>)
        ensures
            self.arrays@.len() == 0 ==> r is None,
            self.arrays@.len() > 0 ==> r == Some(&self.arrays@[0]),
    {
        if self.arrays.len() == 0 {
            None
        } else {
            Some(&self.arrays[0])
        }
    }

    /// Index of the first array whose stem equals `candidate` up to ASCII
    /// case; `MissingArtifact` naming the candidate and the artifact's path
    /// when there is none.
    pub fn get(&self, candidate: &str) -> (r: Result<usize>)
        ensures
            r matches Ok(i) ==> is_first_match(self.arrays@, candidate@, i as int),
            r is Err <==> no_match(self.arrays@, candidate@),
            r matches Err(e) ==> is_missing_artifact(e, candidate@, self.source@),
    {
        for i in 0..self.arrays.len()
            invariant
                forall|j: int| 0 <= j < i ==> !stem_matches(#[trigger] self.arrays@[j], candidate@),
        {
            let stem = self.arrays[i].stem();
            if eq_ignore_ascii_case(stem.as_str(), candidate) {
                return Ok(i);
            }
        }
        Err(
            WeatherGraphError::MissingArtifact {
                name: candidate.to_owned(),
                path: self.source.clone(),
            },
        )
    }

    /// For the first candidate that matches some array, the index of its
    /// first match; `MissingArtifact` naming all candidates joined by `/`
    /// when none matches.
    pub fn get_any(&self, candidates: &[&str]) -> (r: Result<usize>)
        ensures
            r matches Ok(i) ==> exists|c: int|
                0 <= c < candidates@.len() && is_first_match(
                    self.arrays@,
                    #[trigger] candidates@[c]@,
                    i as int,
                ) && forall|d: int| 0 <= d < c ==> no_match(self.arrays@, #[trigger] candidates@[d]@),
            r is Err <==> forall|c: int|
                0 <= c < candidates@.len() ==> no_match(self.arrays@, #[trigger] candidates@[c]@),
            r matches Err(e) ==> is_missing_artifact(
                e,
                join_spec(str_views(candidates@), "/"@),
                self.source@,
            ),
    {
        for c in 0..candidates.len()
            invariant
                forall|d: int| 0 <= d < c ==> no_match(self.arrays@, #[trigger] candidates@[d]@),
        {
            match self.get(candidates[c]) {
                Ok(i) => {
                    return Ok(i);
                },
                Err(_) => {},
            }
        }
        Err(
            WeatherGraphError::MissingArtifact {
                name: join_strs(candidates, "/"),
                path: self.source.clone(),
            },
        )
    }
}

/// The path's final component ends with `.npz.gz`.
pub open spec fn is_npz_gz_path(path: Seq<char>) -> bool {
    match path_file_name(path) {
        Some(f) => ".npz.gz"@.is_suffix_of(f),
        None => false,
    }
}

/// The paths of `.npz.gz` artifacts among `paths`, in ascending order.
/// For paths listed from one directory this is the order of their file names.
pub fn npz_artifact_paths(paths: &Vec<String>) -> (r: Vec<String>)
    ensures
        texts_sorted(string_views(r@)),
        r@.to_multiset() == paths@.filter(|p: String| is_npz_gz_path(p@)).to_multiset(),
{
    let ghost pred = |p: String| is_npz_gz_path(p@);
    let mut kept: Vec<String> = Vec::new();
    for i in 0..paths.len()
        invariant
            pred == (|p: String| is_npz_gz_path(p@)),
            kept@ == paths@.take(i as int).filter(pred),
    {
        assert(paths@.take(i + 1) =~= paths@.take(i as int).push(paths@[i as int]));
        proof {
            paths@.take(i as int).lemma_filter_push(paths@[i as int], pred);
        }
        let keep = match file_name_of(paths[i].as_str()) {
            Some(f) => ends_with(f.as_str(), ".npz.gz"),
            None => false,
        };
        if keep {
            kept.push(paths[i].clone());
        }
    }
    assert(paths@.take(paths@.len() as int) =~= paths@);
    sort_texts(&kept)
}

/// The error for an artifact found under none of its candidate file names:
/// a missing artifact named `one of <candidates joined by , >` whose path
/// lists the names that the directory holds, joined by `, `.
pub fn artifact_not_found(candidates: &[&str], available: &Vec<String>) -> (e: WeatherGraphError)
    ensures
        is_missing_artifact(
            e,
            "one of "@ + join_spec(str_views(candidates@), ", "@),
            join_spec(string_views(available@), ", "@),
        ),
{
    let joined = join_strs(candidates, ", ");
    WeatherGraphError::MissingArtifact {
        name: crate::text::concat2("one of ", joined.as_str()),
        path: crate::text::join_strings(available, ", "),
    }
}

} // verus!
